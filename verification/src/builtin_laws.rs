//! What the other built-in functions promise: conversions, lists, checks, and what is asked
//! of the host.

use crate::ast::SpanModel;
use crate::display::{FloatText, PieceModel};
use crate::environment::StopModel;
use crate::error::{ErrorModel, RuntimeErrorCode};
use crate::host::{IoModel, ReplyModel, TaskModel};
use crate::native_keys::{NativeFn, NativeKey};
use crate::natives::NativeModel;
use crate::store::StoreModel;
use crate::values::{ArrayId, FloatKind, IntKind, ValueHead, ValueTerm};
use vstd::prelude::*;
use vstd::string::*;

verus! {

/// The integer type that a conversion leads to.
pub open spec fn target(key: NativeKey) -> Option<IntKind> {
    match key {
        NativeKey::StdCoreI8From => Some(IntKind::I8),
        NativeKey::StdCoreI16From => Some(IntKind::I16),
        NativeKey::StdCoreI32From => Some(IntKind::I32),
        NativeKey::StdCoreI64From => Some(IntKind::I64),
        NativeKey::StdCoreU8From => Some(IntKind::U8),
        NativeKey::StdCoreU16From => Some(IntKind::U16),
        NativeKey::StdCoreU32From => Some(IntKind::U32),
        NativeKey::StdCoreU64From => Some(IntKind::U64),
        _ => None,
    }
}

/// A call that fails with an error of a program.
pub open spec fn failed(code: RuntimeErrorCode, message: Seq<char>, span: SpanModel) -> NativeModel {
    NativeModel::Done(
        Err(StopModel::Error(ErrorModel::Runtime(code, message, span, Seq::empty()))),
    )
}

/// An integer converted to an integer type is of that type. It is the same number where the
/// type holds it, and otherwise one that differs from it by whole ranges of the type.
pub proof fn integers_are_converted(
    s: StoreModel,
    key: NativeKey,
    kind: IntKind,
    n: int,
    span: SpanModel,
    depth: nat,
)
    requires
        target(key) is Some,
    ensures
        ({
            let to = target(key)->Some_0;
            let r = crate::text_laws::call(
                s,
                key,
                seq![crate::operator_laws::number(kind, n)],
                span,
                depth,
            );
            let m = crate::text_laws::value(r).head->Int_1;
            let range = crate::operator_laws::bounds(to).1 - crate::operator_laws::bounds(to).0 + 1;
            &&& r == crate::text_laws::given(s, crate::operator_laws::number(to, m))
            &&& crate::operator_laws::within(to, m)
            &&& crate::operator_laws::within(to, n) ==> m == n
            &&& (n - m) % range == 0
        }),
{
    let to = target(key)->Some_0;
    crate::operator_laws::cut_numbers_differ_by_whole_ranges(to, n);
}

/// A floating-point number is converted by the host, to the type that is asked for: an
/// integer that comes back is cut to its type, and bits are those of the result.
pub proof fn floats_are_converted_by_the_host(
    s: StoreModel,
    key: NativeKey,
    kind: FloatKind,
    bits: u64,
    wide: i128,
    n: i64,
    back: u64,
    span: SpanModel,
    depth: nat,
)
    ensures
        ({
            let args = seq![crate::operator_laws::float(kind, bits as nat)];
            let r = crate::text_laws::call(s, key, args, span, depth);
            let fun = NativeFn::Key(key);
            let made = crate::natives::native_finished(s, fun, args, span, ReplyModel::Wide(wide));
            let number = made->Ok_0.1.head->Int_1;
            let float = crate::natives::native_finished(s, fun, args, span, ReplyModel::Bits(back));
            &&& target(key) matches Some(to) ==> {
                &&& r == NativeModel::Ask(TaskModel::FloatToInt { kind, bits })
                &&& made == Ok::<_, StopModel>((s, crate::operator_laws::number(to, number)))
                &&& crate::operator_laws::within(to, number)
                &&& crate::operator_laws::within(to, wide as int) ==> number == wide
            }
            &&& key == NativeKey::StdCoreF32From ==> {
                &&& r == NativeModel::Ask(
                    TaskModel::FloatToFloat { kind: FloatKind::F32, source: kind, bits },
                )
                &&& back <= u32::MAX ==> float == Ok::<_, StopModel>(
                    (s, crate::operator_laws::float(FloatKind::F32, back as nat)),
                )
            }
            &&& key == NativeKey::StdCoreF64From ==> {
                &&& r == NativeModel::Ask(
                    TaskModel::FloatToFloat { kind: FloatKind::F64, source: kind, bits },
                )
                &&& float == Ok::<_, StopModel>(
                    (s, crate::operator_laws::float(FloatKind::F64, back as nat)),
                )
            }
        }),
{
    if target(key) is Some {
        crate::operator_laws::cut_numbers_differ_by_whole_ranges(
            target(key)->Some_0,
            wide as int,
        );
    }
}

/// An integer is handed to the host as it is to become a floating-point number.
pub proof fn integers_become_floats(
    s: StoreModel,
    kind: IntKind,
    n: i128,
    span: SpanModel,
    depth: nat,
)
    ensures
        ({
            let args = seq![crate::operator_laws::number(kind, n as int)];
            &&& crate::text_laws::call(s, NativeKey::StdCoreF32From, args, span, depth)
                == NativeModel::Ask(TaskModel::IntToFloat { kind: FloatKind::F32, number: n })
            &&& crate::text_laws::call(s, NativeKey::StdCoreF64From, args, span, depth)
                == NativeModel::Ask(TaskModel::IntToFloat { kind: FloatKind::F64, number: n })
        }),
{
}

/// Characters and their numbers correspond: a character has one number, that number gives
/// the character back, and numbers that no character has are refused.
pub proof fn characters_have_numbers(
    s: StoreModel,
    c: char,
    k: u32,
    span: SpanModel,
    depth: nat,
)
    ensures
        ({
            let code = crate::text_laws::call(
                s,
                NativeKey::StdCoreU32From,
                seq![crate::text_laws::character(c)],
                span,
                depth,
            );
            let back = crate::text_laws::call(
                s,
                NativeKey::StdCoreCharFrom,
                seq![crate::text_laws::value(code)],
                span,
                depth,
            );
            let made = crate::text_laws::call(
                s,
                NativeKey::StdCoreCharFrom,
                seq![crate::operator_laws::number(IntKind::U32, k as int)],
                span,
                depth,
            );
            &&& code == crate::text_laws::given(
                s,
                crate::operator_laws::number(IntKind::U32, c as int),
            )
            &&& back == crate::text_laws::given(s, crate::text_laws::character(c))
            &&& k < 0xd800 || (0xe000 <= k && k < 0x110000) ==> {
                let d = crate::text_laws::value(made).head->Char_0;
                &&& made == crate::text_laws::given(s, crate::text_laws::character(d))
                &&& d as u32 == k
            }
            &&& 0xd800 <= k < 0xe000 || 0x110000 <= k ==> made == failed(
                RuntimeErrorCode::R0009,
                "u32 value "@ + crate::text::decimal(k as nat) + " is not a valid Unicode scalar"@,
                span,
            )
        }),
{
    assert(c as u32 <= 0xd7ff || 0xe000 <= c as u32 <= 0x10ffff);
    assert((c as u32) as char == c);
}

/// The text of a whole number: its decimal numeral, behind a minus sign where the number is
/// negative.
pub open spec fn number_text(t: Seq<char>, n: int) -> bool {
    if n < 0 {
        &&& t.len() > 1
        &&& t[0] == '-'
        &&& crate::text_laws::numeral(t.skip(1))
        &&& crate::text_laws::numeral_value(t.skip(1)) == -n
    } else {
        crate::text_laws::numeral(t) && crate::text_laws::numeral_value(t) == n
    }
}

pub proof fn lemma_number_text(n: int)
    ensures
        number_text(crate::text::signed_decimal(n), n),
{
    reveal_strlit("-");
    let t = crate::text::signed_decimal(n);
    if n < 0 {
        let d = crate::text::decimal((-n) as nat);
        crate::text_laws::decimals_have_their_value((-n) as nat);
        assert(t.skip(1) =~= d);
    } else {
        crate::text_laws::decimals_have_their_value(n as nat);
    }
}

/// Simple values have a text, and no others. A text is itself, a character is the text of
/// that character alone, a truth is the word for it, a number its numeral. What is printed
/// is that text, with a new line behind it where one is asked for.
pub proof fn simple_values_have_a_text(s: StoreModel, v: ValueTerm, span: SpanModel, depth: nat)
    ensures
        ({
            let r = crate::text_laws::call(s, NativeKey::StdCoreToString, seq![v], span, depth);
            let print = crate::text_laws::call(s, NativeKey::StdCorePrint, seq![v], span, depth);
            let line = crate::text_laws::call(s, NativeKey::StdCorePrintln, seq![v], span, depth);
            let t = crate::text_laws::told(r);
            let simple = v.head is Str || v.head is Char || v.head is Boolean || v.head is Int;
            &&& simple ==> {
                &&& r == crate::text_laws::given(s, crate::text_laws::text(t))
                &&& print == NativeModel::Ask(
                    TaskModel::Print { text: seq![PieceModel::Text(t)], newline: false },
                )
                &&& line == NativeModel::Ask(
                    TaskModel::Print { text: seq![PieceModel::Text(t)], newline: true },
                )
            }
            &&& v.head matches ValueHead::Str(a) ==> t == a
            &&& v.head matches ValueHead::Char(c) ==> t == seq![c]
            &&& v.head matches ValueHead::Boolean(b) ==> t == if b {
                "true"@
            } else {
                "false"@
            }
            &&& v.head matches ValueHead::Int(_, n) ==> number_text(t, n)
            &&& v.head matches ValueHead::Float(kind, bits) ==> {
                let piece = PieceModel::Float(
                    FloatText { kind, bits: bits as u64, whole: kind is F64 },
                );
                &&& r == NativeModel::Ask(TaskModel::Text(seq![piece]))
                &&& print == NativeModel::Ask(
                    TaskModel::Print { text: seq![piece], newline: false },
                )
                &&& line == NativeModel::Ask(TaskModel::Print { text: seq![piece], newline: true })
            }
            &&& !simple && !(v.head is Float) ==> {
                &&& r == failed(
                    RuntimeErrorCode::R0009,
                    "to_string: value does not implement Display"@,
                    span,
                )
                &&& print == failed(
                    RuntimeErrorCode::R0009,
                    "print: value does not implement Display"@,
                    span,
                )
                &&& line == failed(
                    RuntimeErrorCode::R0009,
                    "println: value does not implement Display"@,
                    span,
                )
            }
        }),
{
    if v.head is Int {
        lemma_number_text(v.head->Int_1);
    }
}

/// Whether a value is a list on an array.
pub open spec fn is_list(v: ValueTerm, a: ArrayId) -> bool {
    &&& v.head is Struct
    &&& v.head->Struct_0 == "List"@
    &&& v.head->Struct_2 == seq!["inner"@]
    &&& v.args == seq![crate::text_laws::array(a)]
}

proof fn lemma_inner(v: ValueTerm, a: ArrayId)
    requires
        is_list(v, a),
    ensures
        crate::values::field_of(v, "inner"@) == Some(crate::text_laws::array(a)),
{
    let labels = seq!["inner"@];
    assert(labels[0] == "inner"@);
    assert(crate::values::label_at(labels, "inner"@, 0) == 0);
    assert(v.args[0] == crate::text_laws::array(a));
}

/// A new list is empty, and a list that is made from an array holds what the array holds, in
/// an array of its own. Everything else stays as it is.
pub proof fn lists_begin_as_they_are_made(
    s: StoreModel,
    a: ArrayId,
    span: SpanModel,
    depth: nat,
)
    requires
        a.0 < s.arrays.len(),
    ensures
        ({
            let new = crate::text_laws::call(s, NativeKey::StdCoreListNew, Seq::empty(), span, depth);
            let from = crate::text_laws::call(
                s,
                NativeKey::StdCoreListFrom,
                seq![crate::text_laws::array(a)],
                span,
                depth,
            );
            let own = ArrayId(s.arrays.len() as usize);
            let with = |items: Seq<ValueTerm>| StoreModel { arrays: s.arrays.push(items), ..s };
            &&& new == crate::text_laws::given(with(Seq::empty()), crate::text_laws::value(new))
            &&& is_list(crate::text_laws::value(new), own)
            &&& from == crate::text_laws::given(
                with(s.arrays[a.0 as int]),
                crate::text_laws::value(from),
            )
            &&& is_list(crate::text_laws::value(from), own)
        }),
{
}

/// The elements after a change to one array of a store.
pub open spec fn holding(s: StoreModel, a: ArrayId, items: Seq<ValueTerm>) -> StoreModel {
    StoreModel { arrays: s.arrays.update(a.0 as int, items), ..s }
}

/// The length of a list is the number of its elements, its array is the one that holds them,
/// and pushing puts an element behind the others. Only a position of an element gives one.
/// Popping takes the last one off, and nothing off an empty list.
pub proof fn lists_hold_elements(
    s: StoreModel,
    list: ValueTerm,
    a: ArrayId,
    v: ValueTerm,
    i: int,
    span: SpanModel,
    depth: nat,
)
    requires
        is_list(list, a),
        a.0 < s.arrays.len(),
        s.arrays[a.0 as int].len() < 0x8000_0000_0000_0000,
    ensures
        ({
            let items = s.arrays[a.0 as int];
            let at = crate::text_laws::number(i);
            let len = crate::text_laws::call(
                s,
                NativeKey::StdCoreListLen,
                seq![list],
                span,
                depth,
            );
            let slice = crate::text_laws::call(
                s,
                NativeKey::StdCoreListAsSlice,
                seq![list],
                span,
                depth,
            );
            let get = crate::text_laws::call(
                s,
                NativeKey::StdCoreListGet,
                seq![list, at],
                span,
                depth,
            );
            let set = crate::text_laws::call(
                s,
                NativeKey::StdCoreListSet,
                seq![list, at, v],
                span,
                depth,
            );
            let push = crate::text_laws::call(
                s,
                NativeKey::StdCoreListPush,
                seq![list, v],
                span,
                depth,
            );
            let pop = crate::text_laws::call(
                s,
                NativeKey::StdCoreListPop,
                seq![list],
                span,
                depth,
            );
            let array_len = crate::natives::native_started(
                s,
                NativeFn::ArrayLen,
                seq![crate::text_laws::array(a)],
                span,
                depth,
            );
            &&& len == crate::text_laws::given(s, crate::text_laws::number(items.len() as int))
            &&& array_len == len
            &&& slice == crate::text_laws::given(s, crate::text_laws::array(a))
            &&& push == crate::text_laws::given(
                holding(s, a, items.push(v)),
                ValueTerm { head: ValueHead::Unit, args: Seq::empty() },
            )
            &&& get == crate::text_laws::given(s, crate::text_laws::value(get))
            &&& if 0 <= i < items.len() {
                &&& crate::text_laws::is_some(crate::text_laws::value(get), items[i])
                &&& crate::text_laws::is_some(crate::text_laws::value(set), items[i])
                &&& crate::text_laws::store(set) == holding(s, a, items.update(i, v))
            } else {
                &&& crate::text_laws::is_none(crate::text_laws::value(get))
                &&& crate::text_laws::is_none(crate::text_laws::value(set))
                &&& crate::text_laws::store(set) == s
            }
            &&& set == crate::text_laws::given(
                crate::text_laws::store(set),
                crate::text_laws::value(set),
            )
            &&& pop == crate::text_laws::given(
                crate::text_laws::store(pop),
                crate::text_laws::value(pop),
            )
            &&& if items.len() == 0 {
                &&& crate::text_laws::is_none(crate::text_laws::value(pop))
                &&& crate::text_laws::store(pop) == s
            } else {
                &&& crate::text_laws::is_some(
                    crate::text_laws::value(pop),
                    items[items.len() - 1],
                )
                &&& crate::text_laws::store(pop) == holding(s, a, items.take(items.len() - 1))
            }
        }),
{
    lemma_inner(list, a);
    let items = s.arrays[a.0 as int];
    if items.len() > 0 {
        assert(items.drop_last() =~= items.take(items.len() - 1));
    }
}

/// An assertion that holds does nothing, and one that does not ends the program with its
/// message; so do the calls that give up.
pub proof fn failed_checks_end_the_program(
    s: StoreModel,
    b: bool,
    message: Seq<char>,
    span: SpanModel,
    depth: nat,
)
    ensures
        ({
            let cond = crate::text_laws::truth(b);
            let said = crate::text_laws::text(message);
            let call = |key: NativeKey, args: Seq<ValueTerm>|
                crate::text_laws::call(s, key, args, span, depth);
            let unit = crate::text_laws::given(
                s,
                ValueTerm { head: ValueHead::Unit, args: Seq::empty() },
            );
            &&& call(NativeKey::StdCoreAssert, seq![cond]) == if b {
                unit
            } else {
                failed(RuntimeErrorCode::R0012, "assertion failed"@, span)
            }
            &&& call(NativeKey::StdCoreAssertMsg, seq![cond, said]) == if b {
                unit
            } else {
                failed(RuntimeErrorCode::R0012, message, span)
            }
            &&& call(NativeKey::StdCorePanic, seq![said]) == failed(
                RuntimeErrorCode::R0014,
                message,
                span,
            )
            &&& call(NativeKey::StdCoreYoloNone, Seq::empty()) == failed(
                RuntimeErrorCode::R0013,
                "called `.yolo()` on a `None` value"@,
                span,
            )
        }),
{
}

/// An error that is taken for a value ends the program, with what is written of it.
pub proof fn errors_taken_for_values_end_the_program(
    s: StoreModel,
    v: ValueTerm,
    t: Seq<char>,
    span: SpanModel,
    depth: nat,
)
    ensures
        ({
            let key = NativeKey::StdCoreYoloErr;
            let r = crate::text_laws::call(s, key, seq![v], span, depth);
            let said = |text: Seq<char>|
                ErrorModel::Runtime(
                    RuntimeErrorCode::R0013,
                    "called `.yolo()` on an `Err` value: "@ + text,
                    span,
                    Seq::empty(),
                );
            &&& v.head is Unit ==> r == NativeModel::Done(Err(StopModel::Error(said("()"@))))
            &&& v.head matches ValueHead::Str(a) ==> r == NativeModel::Done(
                Err(StopModel::Error(said(crate::strings::quoted(a)))),
            )
            &&& crate::natives::native_finished(
                s,
                NativeFn::Key(key),
                seq![v],
                span,
                ReplyModel::Text(t),
            ) == Err::<(StoreModel, ValueTerm), StopModel>(StopModel::Error(said(t)))
        }),
{
    reveal_with_fuel(crate::display::plain_of, 2);
    if v.head is Unit || v.head is Str {
        let piece = crate::display::leaf(v)->Some_0;
        let ps = seq![piece];
        assert(crate::display::shown(s, v, depth) == Some(ps));
        assert(ps[0] == piece);
        assert(Seq::<char>::empty() + piece->Text_0 =~= piece->Text_0);
        assert(crate::display::plain_of(ps, 1) == Some(piece->Text_0));
    }
}

/// Each function on the environment, files and processes asks the host for its own thing, and
/// hands on its arguments as they are.
pub proof fn requests_name_what_is_asked(
    s: StoreModel,
    a: Seq<char>,
    b: Seq<char>,
    span: SpanModel,
    depth: nat,
)
    ensures
        ({
            let one = |key: NativeKey|
                crate::text_laws::call(s, key, seq![crate::text_laws::text(a)], span, depth);
            let two = |key: NativeKey|
                crate::text_laws::call(
                    s,
                    key,
                    seq![crate::text_laws::text(a), crate::text_laws::text(b)],
                    span,
                    depth,
                );
            let none = |key: NativeKey|
                crate::text_laws::call(s, key, Seq::empty(), span, depth);
            &&& none(NativeKey::StdCoreClock) == NativeModel::Ask(TaskModel::Clock)
            &&& one(NativeKey::StdEnvVar) == NativeModel::Ask(TaskModel::EnvVar(a))
            &&& none(NativeKey::StdEnvVars) == NativeModel::Ask(TaskModel::EnvVars)
            &&& none(NativeKey::StdProcessArgs) == NativeModel::Ask(TaskModel::Args)
            &&& one(NativeKey::StdFsReadToString) == NativeModel::Ask(TaskModel::ReadToString(a))
            &&& two(NativeKey::StdFsWriteString) == NativeModel::Ask(
                TaskModel::WriteString { path: a, contents: b, append: false },
            )
            &&& two(NativeKey::StdFsAppendString) == NativeModel::Ask(
                TaskModel::WriteString { path: a, contents: b, append: true },
            )
            &&& one(NativeKey::StdFsExists) == NativeModel::Ask(TaskModel::Exists(a))
            &&& one(NativeKey::StdFsReadDir) == NativeModel::Ask(TaskModel::ReadDir(a))
            &&& one(NativeKey::StdFsCreateDir) == NativeModel::Ask(
                TaskModel::CreateDir { path: a, all: false },
            )
            &&& one(NativeKey::StdFsCreateDirAll) == NativeModel::Ask(
                TaskModel::CreateDir { path: a, all: true },
            )
            &&& one(NativeKey::StdFsRemoveFile) == NativeModel::Ask(TaskModel::RemoveFile(a))
            &&& one(NativeKey::StdFsRemoveDir) == NativeModel::Ask(
                TaskModel::RemoveDir { path: a, all: false },
            )
            &&& one(NativeKey::StdFsRemoveDirAll) == NativeModel::Ask(
                TaskModel::RemoveDir { path: a, all: true },
            )
        }),
{
}

proof fn lemma_texts(ts: Seq<Seq<char>>, k: int)
    requires
        0 <= k <= ts.len(),
    ensures
        crate::natives::texts_of(
            Seq::new(ts.len(), |i: int| crate::text_laws::text(ts[i])),
            k,
        ) == Some(ts.take(k)),
    decreases k,
{
    if k > 0 {
        lemma_texts(ts, k - 1);
        assert(ts.take(k) =~= ts.take(k - 1).push(ts[k - 1]));
    } else {
        assert(ts.take(0) =~= Seq::<Seq<char>>::empty());
    }
}

/// A command is run with the arguments that the array holds, in order.
pub proof fn commands_are_run_with_their_arguments(
    s: StoreModel,
    command: Seq<char>,
    a: ArrayId,
    ts: Seq<Seq<char>>,
    span: SpanModel,
    depth: nat,
)
    requires
        a.0 < s.arrays.len(),
        s.arrays[a.0 as int] == Seq::new(ts.len(), |i: int| crate::text_laws::text(ts[i])),
    ensures
        crate::text_laws::call(
            s,
            NativeKey::StdProcessRun,
            seq![crate::text_laws::text(command), crate::text_laws::array(a)],
            span,
            depth,
        ) == NativeModel::Ask(TaskModel::Run { command, args: ts }),
{
    lemma_texts(ts, ts.len() as int);
    assert(ts.take(ts.len() as int) =~= ts);
}

/// Whether a value is the variant of `Result` that holds another one.
pub open spec fn is_result(v: ValueTerm, r: Result<ValueTerm, ValueTerm>) -> bool {
    &&& v.head is Enum
    &&& v.head->Enum_0 == "Result"@
    &&& match r {
        Ok(x) => v.head->Enum_2 == "Ok"@ && v.head->Enum_4 == seq!["value"@] && v.args == seq![x],
        Err(x) => v.head->Enum_2 == "Err"@ && v.head->Enum_4 == seq!["error"@] && v.args == seq![x],
    }
}

/// What the host answers is what the function gives: a text, a number, a truth, a text that
/// may be missing, or the result of an operation, whose failure carries the message.
pub proof fn answers_become_values(
    s: StoreModel,
    key: NativeKey,
    args: Seq<ValueTerm>,
    span: SpanModel,
    t: Seq<char>,
    n: i64,
    b: bool,
    out: Seq<char>,
    err: Seq<char>,
)
    requires
        key != NativeKey::StdCoreDbg,
        key != NativeKey::StdCoreYoloErr,
    ensures
        ({
            let fun = NativeFn::Key(key);
            let gives = |reply: ReplyModel| crate::natives::native_finished(
                s,
                fun,
                args,
                span,
                reply,
            );
            let unit = ValueTerm { head: ValueHead::Unit, args: Seq::empty() };
            let os_error = ValueTerm {
                head: ValueHead::Struct("OsError"@, None, seq!["message"@]),
                args: seq![crate::text_laws::text(t)],
            };
            let output = ValueTerm {
                head: ValueHead::Struct(
                    "ProcessOutput"@,
                    None,
                    seq!["status"@, "stdout"@, "stderr"@],
                ),
                args: seq![
                    crate::text_laws::number(n as int),
                    crate::text_laws::text(out),
                    crate::text_laws::text(err),
                ],
            };
            let io = |r: Result<IoModel, Seq<char>>| gives(ReplyModel::Io(r))->Ok_0;
            &&& gives(ReplyModel::Done) == Ok::<_, StopModel>((s, unit))
            &&& gives(ReplyModel::Text(t)) == Ok::<_, StopModel>((s, crate::text_laws::text(t)))
            &&& gives(ReplyModel::Int(n)) == Ok::<_, StopModel>(
                (s, crate::text_laws::number(n as int)),
            )
            &&& gives(ReplyModel::Flag(b)) == Ok::<_, StopModel>((s, crate::text_laws::truth(b)))
            &&& gives(ReplyModel::MaybeText(Some(t))) is Ok
            &&& gives(ReplyModel::MaybeText(Some(t)))->Ok_0.0 == s
            &&& crate::text_laws::is_some(
                gives(ReplyModel::MaybeText(Some(t)))->Ok_0.1,
                crate::text_laws::text(t),
            )
            &&& gives(ReplyModel::MaybeText(None)) is Ok
            &&& gives(ReplyModel::MaybeText(None))->Ok_0.0 == s
            &&& crate::text_laws::is_none(gives(ReplyModel::MaybeText(None))->Ok_0.1)
            &&& gives(ReplyModel::Io(Err(t))) is Ok
            &&& io(Err(t)).0 == s && is_result(io(Err(t)).1, Err(os_error))
            &&& io(Ok(IoModel::Unit)).0 == s && is_result(io(Ok(IoModel::Unit)).1, Ok(unit))
            &&& io(Ok(IoModel::Text(t))).0 == s && is_result(
                io(Ok(IoModel::Text(t))).1,
                Ok(crate::text_laws::text(t)),
            )
            &&& ({
                let o = io(Ok(IoModel::Output { status: n, stdout: out, stderr: err }));
                o.0 == s && is_result(o.1, Ok(output))
            })
        }),
{
}

/// Texts that the host answers become a new array of them, and variables a new array of their
/// names and values.
pub proof fn answered_lists_become_arrays(
    s: StoreModel,
    key: NativeKey,
    args: Seq<ValueTerm>,
    span: SpanModel,
    ts: Seq<Seq<char>>,
    ps: Seq<(Seq<char>, Seq<char>)>,
)
    ensures
        ({
            let fun = NativeFn::Key(key);
            let own = crate::text_laws::array(ArrayId(s.arrays.len() as usize));
            let with = |items: Seq<ValueTerm>| StoreModel { arrays: s.arrays.push(items), ..s };
            let texts = Seq::new(ts.len(), |i: int| crate::text_laws::text(ts[i]));
            let pairs = Seq::new(
                ps.len(),
                |i: int|
                    ValueTerm {
                        head: ValueHead::Struct("EnvVar"@, None, seq!["name"@, "value"@]),
                        args: seq![
                            crate::text_laws::text(ps[i].0),
                            crate::text_laws::text(ps[i].1),
                        ],
                    },
            );
            let listed = crate::natives::native_finished(
                s,
                fun,
                args,
                span,
                ReplyModel::Io(Ok(IoModel::Texts(ts))),
            );
            &&& crate::natives::native_finished(s, fun, args, span, ReplyModel::Texts(ts)) == Ok::<
                _,
                StopModel,
            >((with(texts), own))
            &&& crate::natives::native_finished(s, fun, args, span, ReplyModel::Pairs(ps)) == Ok::<
                _,
                StopModel,
            >((with(pairs), own))
            &&& listed is Ok
            &&& listed->Ok_0.0 == with(texts)
            &&& is_result(listed->Ok_0.1, Ok(own))
        }),
{
    let texts = Seq::new(ts.len(), |i: int| crate::text_laws::text(ts[i]));
    assert(crate::natives::strs(ts) =~= texts);
    let pairs = Seq::new(
        ps.len(),
        |i: int|
            ValueTerm {
                head: ValueHead::Struct("EnvVar"@, None, seq!["name"@, "value"@]),
                args: seq![crate::text_laws::text(ps[i].0), crate::text_laws::text(ps[i].1)],
            },
    );
    assert(crate::natives::env_terms(ps) =~= pairs);
}

/// Debugging prints what is written of a value, behind a mark, and gives the value.
pub proof fn debugging_gives_the_value(s: StoreModel, v: ValueTerm, span: SpanModel, depth: nat)
    ensures
        ({
            let key = NativeKey::StdCoreDbg;
            let r = crate::text_laws::call(s, key, seq![v], span, depth);
            &&& crate::natives::native_finished(
                s,
                NativeFn::Key(key),
                seq![v],
                span,
                ReplyModel::Done,
            ) == Ok::<_, StopModel>((s, v))
            &&& crate::display::shown(s, v, depth) matches Some(ps) ==> r == NativeModel::Ask(
                TaskModel::PrintError(seq![PieceModel::Text("[dbg] "@)] + ps),
            )
        }),
{
}

} // verus!
