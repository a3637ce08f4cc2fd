//! The functions that the host provides, as far as they are not the host's own
//! work: what they compute, what they ask the host to do, and what they make of
//! its answer.

use crate::ast::{Span, SpanModel};
use crate::data::Dup;
use crate::display::{format_value, plain_text, value_to_display_string, Piece, PieceModel};
use crate::environment::{Stop, StopModel};
use crate::error::{ErrorModel, MetelError, RuntimeErrorCode};
use crate::host::{IoModel, IoValue, Reply, ReplyModel, Task, TaskModel};
use crate::literals::cut;
use crate::native_keys::{NativeFn, NativeKey};
use crate::operators::as_int;
use crate::store::{Store, StoreModel};
use crate::strings::{
    char_from, chars_of, find_from, is_at, lower, repeat, replace, split, string_of, trim_end,
    trim_start, upper,
};
use crate::symbols::{SymbolId, SYM_TYPE_LIST, SYM_TYPE_PERHAPS, SYM_TYPE_RESULT};
use crate::text::{decimal_string, join};
use crate::values::{ArrayId, FloatKind, IntKind, RuntimeCallable, Value, ValueHead, ValueTerm};
use vstd::prelude::*;
use vstd::string::*;

verus! {

/// How a call of a host function goes on: it has come to an end, or the host is
/// asked for something.
#[derive(Debug)]
pub enum NativeStep {
    Done(Result<Value, Stop>),
    Ask(Task),
}

/// How a call goes on, with the store where it has a value.
pub enum NativeModel {
    Done(Result<(StoreModel, ValueTerm), StopModel>),
    Ask(TaskModel),
}

/// Whether a call goes on as it is meant to. Where it has no value, the store is
/// as it was.
pub open spec fn goes_on(
    r: NativeStep,
    before: StoreModel,
    after: StoreModel,
    want: NativeModel,
) -> bool {
    match (r, want) {
        (NativeStep::Done(Ok(v)), NativeModel::Done(Ok((t, x)))) => after == t && v@ == x,
        (NativeStep::Done(Err(e)), NativeModel::Done(Err(f))) => after == before && e.deep_view()
            == f,
        (NativeStep::Ask(t), NativeModel::Ask(u)) => after == before && t.deep_view() == u,
        _ => false,
    }
}

pub open spec fn value_step(s: StoreModel, v: ValueTerm) -> NativeModel {
    NativeModel::Done(Ok((s, v)))
}

pub open spec fn error_step(e: ErrorModel) -> NativeModel {
    NativeModel::Done(Err(StopModel::Error(e)))
}

pub open spec fn internal_step(message: Seq<char>) -> NativeModel {
    error_step(ErrorModel::Internal(message))
}

pub open spec fn panic_step(
    code: RuntimeErrorCode,
    message: Seq<char>,
    span: SpanModel,
) -> NativeModel {
    error_step(ErrorModel::Runtime(code, message, span, Seq::empty()))
}

fn failed(e: MetelError) -> (r: NativeStep)
    ensures
        r == NativeStep::Done(Err(Stop::Error(e))),
{
    NativeStep::Done(Err(Stop::Error(e)))
}

fn internal(message: &str) -> (r: NativeStep)
    ensures
        forall|s: StoreModel| #[trigger] goes_on(r, s, s, internal_step(message@)),
{
    failed(MetelError::internal(message.to_owned()))
}

fn panicked(code: RuntimeErrorCode, message: String, span: &Span) -> (r: NativeStep)
    ensures
        forall|s: StoreModel| #[trigger]
            goes_on(r, s, s, panic_step(code, message@, span.deep_view())),
{
    failed(MetelError::panic(code, message, span))
}

fn value(v: Value) -> (r: NativeStep)
    ensures
        r == NativeStep::Done(Ok(v)),
{
    NativeStep::Done(Ok(v))
}

/// An argument, where there are so many.
pub open spec fn arg(args: Seq<ValueTerm>, i: int) -> Option<ValueTerm> {
    if 0 <= i < args.len() {
        Some(args[i])
    } else {
        None
    }
}

fn arg_at(args: &Vec<Value>, i: usize) -> (r: Option<&Value>)
    ensures
        r.deep_view() == arg(args.deep_view(), i as int),
{
    assert(args.deep_view().len() == args@.len());
    if i < args.len() {
        Some(&args[i])
    } else {
        None
    }
}

/// What is said of an argument that is not of the type that it has to be.
pub open spec fn bad_argument(label: Seq<char>, expected: Seq<char>, i: int) -> ErrorModel {
    ErrorModel::Internal(label + expected + crate::text::decimal(i as nat))
}

fn bad_argument_error(label: &str, expected: &str, i: usize) -> (e: MetelError)
    ensures
        e@ == bad_argument(label@, expected@, i as int),
{
    let mut s = label.to_owned();
    s.append(expected);
    s.append(decimal_string(i as u128).as_str());
    MetelError::internal(s)
}

/// An argument that has to be a string.
pub open spec fn str_arg(args: Seq<ValueTerm>, i: int, label: Seq<char>) -> Result<
    Seq<char>,
    ErrorModel,
> {
    match arg(args, i) {
        Some(ValueTerm { head: ValueHead::Str(s), args: _ }) => Ok(s),
        _ => Err(bad_argument(label, ": expected a String argument at position "@, i)),
    }
}

/// An argument that has to be an `i64`.
pub open spec fn i64_arg(args: Seq<ValueTerm>, i: int, label: Seq<char>) -> Result<
    int,
    ErrorModel,
> {
    match arg(args, i) {
        Some(ValueTerm { head: ValueHead::Int(IntKind::I64, n), args: _ }) => Ok(n),
        _ => Err(bad_argument(label, ": expected an i64 argument at position "@, i)),
    }
}

/// An argument that has to be a string.
pub fn str_at(args: &Vec<Value>, idx: usize, label: &str) -> (r: Result<String, MetelError>)
    ensures
        match r {
            Ok(s) => str_arg(args.deep_view(), idx as int, label@) == Ok::<Seq<char>, ErrorModel>(
                s@,
            ),
            Err(e) => str_arg(args.deep_view(), idx as int, label@) == Err::<
                Seq<char>,
                ErrorModel,
            >(e@),
        },
{
    match arg_at(args, idx) {
        Some(Value::Str(s)) => Ok(s.clone()),
        _ => Err(bad_argument_error(label, ": expected a String argument at position ", idx)),
    }
}

/// An argument that has to be an `i64`.
pub fn i64_at(args: &Vec<Value>, idx: usize, label: &str) -> (r: Result<i64, MetelError>)
    ensures
        match r {
            Ok(n) => i64_arg(args.deep_view(), idx as int, label@) == Ok::<int, ErrorModel>(
                n as int,
            ),
            Err(e) => i64_arg(args.deep_view(), idx as int, label@) == Err::<int, ErrorModel>(e@),
        },
{
    match arg_at(args, idx) {
        Some(Value::I64(n)) => Ok(*n),
        _ => Err(bad_argument_error(label, ": expected an i64 argument at position ", idx)),
    }
}

/// The string values of texts.
pub open spec fn strs(ts: Seq<Seq<char>>) -> Seq<ValueTerm> {
    Seq::new(ts.len(), |i: int| crate::values::str_term(ts[i]))
}

/// The store with an array of strings, and the array.
pub open spec fn string_array(s: StoreModel, ts: Seq<Seq<char>>) -> (StoreModel, ValueTerm) {
    let (t, a) = crate::store::array_made(s, strs(ts));
    (t, crate::values::plain(ValueHead::Array(a)))
}

/// Makes an array of strings.
pub fn string_array_value(store: &mut Store, strings: Vec<String>) -> (v: Value)
    ensures
        (final(store)@, v@) == string_array(old(store)@, strings.deep_view()),
{
    let mut items: Vec<Value> = Vec::new();
    let mut i: usize = 0;
    while i < strings.len()
        invariant
            i <= strings.len(),
            items@.len() == i,
            forall|j: int|
                0 <= j < i ==> (#[trigger] items@[j])@ == crate::values::str_term(strings@[j]@),
        decreases strings.len() - i,
    {
        items.push(Value::Str(strings[i].clone()));
        i += 1;
    }
    proof {
        assert(items.deep_view() =~= strs(strings.deep_view()));
    }
    Value::Array(store.make_array(items))
}

/// The texts of string values, where all of the first `k` values are strings.
pub open spec fn texts_of(items: Seq<ValueTerm>, k: int) -> Option<Seq<Seq<char>>>
    decreases k,
{
    if k <= 0 || k > items.len() {
        Some(Seq::empty())
    } else {
        match (texts_of(items, k - 1), items[k - 1].head) {
            (Some(ts), ValueHead::Str(t)) => Some(ts.push(t)),
            _ => None,
        }
    }
}

fn collect_texts(items: &Vec<Value>) -> (r: Option<Vec<String>>)
    ensures
        r.deep_view() == texts_of(items.deep_view(), items@.len() as int),
{
    let mut out: Vec<String> = Vec::new();
    let ghost terms = items.deep_view();
    let mut i: usize = 0;
    proof {
        assert(terms.len() == items@.len());
        assert(out.deep_view() =~= Seq::empty());
    }
    while i < items.len()
        invariant
            i <= items.len(),
            terms == items.deep_view(),
            terms.len() == items@.len(),
            texts_of(terms, i as int) == Some(out.deep_view()),
        decreases items.len() - i,
    {
        assert(terms[i as int] == items@[i as int]@);
        match &items[i] {
            Value::Str(s) => {
                let ghost prev = out.deep_view();
                assert(prev.len() == out@.len());
                out.push(s.clone());
                assert(out.deep_view() =~= prev.push(s@));
            },
            _ => {
                proof {
                    lemma_texts_stuck(terms, i + 1, terms.len() as int);
                }
                return None;
            },
        }
        i += 1;
    }
    Some(out)
}

proof fn lemma_texts_stuck(items: Seq<ValueTerm>, k: int, all: int)
    requires
        0 < k <= all <= items.len(),
        texts_of(items, k) is None,
    ensures
        texts_of(items, all) is None,
    decreases all - k,
{
    if k < all {
        lemma_texts_stuck(items, k + 1, all);
    }
}

/// A `Perhaps` value.
pub open spec fn perhaps_term(v: Option<ValueTerm>) -> ValueTerm {
    let id = Some(SymbolId(SYM_TYPE_PERHAPS));
    match v {
        Some(x) => ValueTerm {
            head: ValueHead::Enum("Perhaps"@, id, "Some"@, None, seq!["value"@]),
            args: seq![x],
        },
        None => ValueTerm {
            head: ValueHead::Enum("Perhaps"@, id, "None"@, None, Seq::empty()),
            args: Seq::empty(),
        },
    }
}

/// A `Perhaps` value.
pub fn perhaps_value(v: Option<Value>) -> (r: Value)
    ensures
        r@ == perhaps_term(v.deep_view()),
{
    let type_id = Some(SymbolId(SYM_TYPE_PERHAPS));
    match v {
        Some(x) => {
            let mut fields: Vec<(String, Value)> = Vec::new();
            fields.push(("value".to_owned(), x));
            let r = Value::Enum {
                name: "Perhaps".to_owned(),
                type_id,
                variant: "Some".to_owned(),
                variant_id: None,
                fields,
            };
            proof {
                assert(r@.args =~= seq![x@]);
                assert(r@.head->Enum_4 =~= seq!["value"@]);
            }
            r
        },
        None => {
            let r = Value::Enum {
                name: "Perhaps".to_owned(),
                type_id,
                variant: "None".to_owned(),
                variant_id: None,
                fields: Vec::new(),
            };
            proof {
                assert(r@.args =~= Seq::empty());
                assert(r@.head->Enum_4 =~= Seq::empty());
            }
            r
        },
    }
}

/// A `Result` value.
pub open spec fn result_term(r: Result<ValueTerm, ValueTerm>) -> ValueTerm {
    let id = Some(SymbolId(SYM_TYPE_RESULT));
    match r {
        Ok(v) => ValueTerm {
            head: ValueHead::Enum("Result"@, id, "Ok"@, None, seq!["value"@]),
            args: seq![v],
        },
        Err(e) => ValueTerm {
            head: ValueHead::Enum("Result"@, id, "Err"@, None, seq!["error"@]),
            args: seq![e],
        },
    }
}

/// A `Result` value.
pub fn result_value(r: Result<Value, Value>) -> (v: Value)
    ensures
        v@ == result_term(
            match r {
                Ok(x) => Ok(x@),
                Err(x) => Err(x@),
            },
        ),
{
    let (variant, field, x) = match r {
        Ok(x) => ("Ok", "value", x),
        Err(x) => ("Err", "error", x),
    };
    let mut fields: Vec<(String, Value)> = Vec::new();
    fields.push((field.to_owned(), x));
    let v = Value::Enum {
        name: "Result".to_owned(),
        type_id: Some(SymbolId(SYM_TYPE_RESULT)),
        variant: variant.to_owned(),
        variant_id: None,
        fields,
    };
    proof {
        assert(v@.args =~= seq![x@]);
        assert(v@.head->Enum_4 =~= seq![field@]);
    }
    v
}

/// An `OsError` value.
pub open spec fn os_error_term(message: Seq<char>) -> ValueTerm {
    ValueTerm {
        head: ValueHead::Struct("OsError"@, None, seq!["message"@]),
        args: seq![crate::values::str_term(message)],
    }
}

/// An `OsError` value.
pub fn os_error_value(message: String) -> (v: Value)
    ensures
        v@ == os_error_term(message@),
{
    let text = Value::Str(message);
    assert(text@ == crate::values::str_term(message@));
    let mut fields: Vec<(String, Value)> = Vec::new();
    fields.push(("message".to_owned(), text));
    let v = Value::Struct { name: "OsError".to_owned(), type_id: None, fields };
    proof {
        assert(v@.args =~= os_error_term(message@).args);
        assert(v@.head->Struct_2 =~= seq!["message"@]);
    }
    v
}

/// A `ProcessOutput` value.
pub open spec fn process_output_term(
    status: i64,
    stdout: Seq<char>,
    stderr: Seq<char>,
) -> ValueTerm {
    ValueTerm {
        head: ValueHead::Struct("ProcessOutput"@, None, seq!["status"@, "stdout"@, "stderr"@]),
        args: seq![
            crate::values::int_term(IntKind::I64, status as int),
            crate::values::str_term(stdout),
            crate::values::str_term(stderr),
        ],
    }
}

/// A `ProcessOutput` value.
pub fn process_output_value(status: i64, stdout: String, stderr: String) -> (v: Value)
    ensures
        v@ == process_output_term(status, stdout@, stderr@),
{
    let code = Value::I64(status);
    let out = Value::Str(stdout);
    let err = Value::Str(stderr);
    proof {
        assert(code@ == crate::values::int_term(IntKind::I64, status as int));
        assert(out@ == crate::values::str_term(stdout@));
        assert(err@ == crate::values::str_term(stderr@));
    }
    let mut fields: Vec<(String, Value)> = Vec::new();
    fields.push(("status".to_owned(), code));
    fields.push(("stdout".to_owned(), out));
    fields.push(("stderr".to_owned(), err));
    let v = Value::Struct { name: "ProcessOutput".to_owned(), type_id: None, fields };
    proof {
        assert(v@.args =~= process_output_term(status, stdout@, stderr@).args);
        assert(v@.head->Struct_2 =~= seq!["status"@, "stdout"@, "stderr"@]);
    }
    v
}

/// An `EnvVar` value.
pub open spec fn env_var_term(name: Seq<char>, val: Seq<char>) -> ValueTerm {
    ValueTerm {
        head: ValueHead::Struct("EnvVar"@, None, seq!["name"@, "value"@]),
        args: seq![crate::values::str_term(name), crate::values::str_term(val)],
    }
}

fn env_var_value(name: String, val: String) -> (v: Value)
    ensures
        v@ == env_var_term(name@, val@),
{
    let first = Value::Str(name);
    let second = Value::Str(val);
    proof {
        assert(first@ == crate::values::str_term(name@));
        assert(second@ == crate::values::str_term(val@));
    }
    let mut fields: Vec<(String, Value)> = Vec::new();
    fields.push(("name".to_owned(), first));
    fields.push(("value".to_owned(), second));
    let v = Value::Struct { name: "EnvVar".to_owned(), type_id: None, fields };
    proof {
        assert(v@.args =~= env_var_term(name@, val@).args);
        assert(v@.head->Struct_2 =~= seq!["name"@, "value"@]);
    }
    v
}

/// A `List` value on an array.
pub open spec fn list_term(a: ArrayId) -> ValueTerm {
    ValueTerm {
        head: ValueHead::Struct("List"@, Some(SymbolId(SYM_TYPE_LIST)), seq!["inner"@]),
        args: seq![crate::values::plain(ValueHead::Array(a))],
    }
}

/// Makes a `List` value.
pub fn list_value(store: &mut Store, backing: Vec<Value>) -> (v: Value)
    ensures
        ({
            let (t, a) = crate::store::array_made(old(store)@, backing.deep_view());
            final(store)@ == t && v@ == list_term(a)
        }),
{
    let a = store.make_array(backing);
    let inner = Value::Array(a);
    assert(inner@ == crate::values::plain(ValueHead::Array(a)));
    let mut fields: Vec<(String, Value)> = Vec::new();
    fields.push(("inner".to_owned(), inner));
    let v = Value::Struct {
        name: "List".to_owned(),
        type_id: Some(SymbolId(SYM_TYPE_LIST)),
        fields,
    };
    proof {
        assert(v@.args =~= list_term(a).args);
        assert(v@.head->Struct_2 =~= seq!["inner"@]);
    }
    v
}

/// The array of a `List` that is the first argument.
pub open spec fn list_arg(args: Seq<ValueTerm>, label: Seq<char>) -> Result<ArrayId, ErrorModel> {
    match arg(args, 0) {
        Some(v) => match v.head {
            ValueHead::Struct(name, _, _) => if name == "List"@ {
                match crate::values::field_of(v, "inner"@) {
                    Some(ValueTerm { head: ValueHead::Array(a), args: _ }) => Ok(a),
                    _ => Err(ErrorModel::Internal(label + ": missing inner field"@)),
                }
            } else {
                Err(ErrorModel::Internal(label + ": expected List"@))
            },
            _ => Err(ErrorModel::Internal(label + ": expected List"@)),
        },
        None => Err(ErrorModel::Internal(label + ": expected List"@)),
    }
}

/// The array of a `List` that is the first argument.
pub fn list_inner(args: &Vec<Value>, label: &str) -> (r: Result<ArrayId, MetelError>)
    ensures
        match r {
            Ok(a) => list_arg(args.deep_view(), label@) == Ok::<ArrayId, ErrorModel>(a),
            Err(e) => list_arg(args.deep_view(), label@) == Err::<ArrayId, ErrorModel>(e@),
        },
{
    let mut s = label.to_owned();
    match arg_at(args, 0) {
        Some(v) => match v {
            Value::Struct { name, type_id: _, fields: _ } => {
                if *name == "List".to_owned() {
                    match v.field("inner") {
                        Some(Value::Array(a)) => {
                            return Ok(*a);
                        },
                        _ => {
                            s.append(": missing inner field");
                        },
                    }
                } else {
                    s.append(": expected List");
                }
            },
            _ => {
                s.append(": expected List");
            },
        },
        None => {
            s.append(": expected List");
        },
    }
    Err(MetelError::internal(s))
}

/// What a host function is called, and what it runs.
pub fn native_host_impl(key: NativeKey) -> (c: RuntimeCallable)
    ensures
        c.deep_view() == crate::values::CallableModel::Intrinsic(
            crate::native_keys::native_label(key),
            NativeFn::Key(key),
        ),
{
    RuntimeCallable::Intrinsic { label: key.label(), fun: NativeFn::Key(key) }
}

/// An integer as a length or a position is given.
pub open spec fn count_term(n: int) -> ValueTerm {
    crate::values::int_term(IntKind::I64, crate::literals::wrapped(IntKind::I64, n))
}

fn count_value(n: usize) -> (v: Value)
    ensures
        v@ == count_term(n as int),
{
    cut(IntKind::I64, n as i128)
}

/// A number, or the nearest bound of a range that starts at zero.
pub open spec fn clamped(n: int, top: int) -> int {
    if n < 0 {
        0
    } else if n > top {
        top
    } else {
        n
    }
}

fn clamp_to(n: i64, top: usize) -> (r: usize)
    ensures
        r == clamped(n as int, top as int),
{
    if n < 0 {
        0
    } else if n as u128 > top as u128 {
        top
    } else {
        n as usize
    }
}

/// The part of a text between two positions; nothing where the first is not
/// before the second.
pub open spec fn cut_out(s: Seq<char>, from: int, to: int) -> Seq<char> {
    if from < to {
        s.subrange(from, to)
    } else {
        Seq::empty()
    }
}

fn substring(s: &String, from: i64, to: i64) -> (r: String)
    ensures
        r@ == cut_out(
            s@,
            clamped(from as int, s@.len() as int),
            clamped(to as int, s@.len() as int),
        ),
{
    let cs = chars_of(s.as_str());
    let start: usize = clamp_to(from, cs.len());
    let end: usize = clamp_to(to, cs.len());
    if start < end {
        string_of(&cs, start, end)
    } else {
        let r = String::new();
        assert(r@ =~= Seq::empty());
        r
    }
}

/// The position at which a text first stands in another one.
pub open spec fn index_term(s: Seq<char>, part: Seq<char>) -> ValueTerm {
    let i = crate::strings::first_at(s, part, 0);
    perhaps_term(
        if i >= 0 {
            Some(count_term(i))
        } else {
            None
        },
    )
}

fn index_of(s: &String, part: &String) -> (v: Value)
    ensures
        v@ == index_term(s@, part@),
{
    match find_from(&chars_of(s.as_str()), &chars_of(part.as_str()), 0) {
        Some(i) => perhaps_value(Some(count_value(i))),
        None => perhaps_value(None),
    }
}

fn ends_with(s: &String, part: &String) -> (b: bool)
    ensures
        b == crate::strings::stands_at(s@, part@, s@.len() - part@.len()),
{
    let cs = chars_of(s.as_str());
    let ps = chars_of(part.as_str());
    cs.len() >= ps.len() && is_at(&cs, &ps, cs.len() - ps.len())
}

/// The character at a position.
pub open spec fn char_at_term(s: Seq<char>, i: int) -> ValueTerm {
    perhaps_term(
        if 0 <= i < s.len() {
            Some(crate::values::plain(ValueHead::Char(s[i])))
        } else {
            None
        },
    )
}

fn char_at(s: &String, i: i64) -> (v: Value)
    ensures
        v@ == char_at_term(s@, i as int),
{
    let n: usize = s.as_str().unicode_len();
    if i >= 0 && (i as u128) < n as u128 {
        perhaps_value(Some(Value::Char(s.as_str().get_char(i as usize))))
    } else {
        perhaps_value(None)
    }
}

/// The values of characters.
pub open spec fn char_terms(s: Seq<char>) -> Seq<ValueTerm>
    decreases s.len(),
{
    if s.len() == 0 {
        Seq::empty()
    } else {
        char_terms(s.drop_last()).push(crate::values::plain(ValueHead::Char(s.last())))
    }
}

/// The store with an array of the characters of a text, and the array.
pub open spec fn char_array_made(s: StoreModel, text: Seq<char>) -> (StoreModel, ValueTerm) {
    let (t, a) = crate::store::array_made(s, char_terms(text));
    (t, crate::values::plain(ValueHead::Array(a)))
}

fn char_values(text: &str) -> (r: Vec<Value>)
    ensures
        r.deep_view() == char_terms(text@),
{
    let mut items: Vec<Value> = Vec::new();
    let n: usize = text.unicode_len();
    let mut i: usize = 0;
    proof {
        assert(items.deep_view() =~= char_terms(text@.take(0)));
    }
    while i < n
        invariant
            i <= n,
            n == text@.len(),
            items.deep_view() == char_terms(text@.take(i as int)),
        decreases n - i,
    {
        let ghost prev = items.deep_view();
        assert(prev.len() == items@.len());
        let c = text.get_char(i);
        items.push(Value::Char(c));
        proof {
            assert(items.deep_view() =~= prev.push(crate::values::plain(ValueHead::Char(c))));
            assert(text@.take(i + 1).drop_last() =~= text@.take(i as int));
        }
        i += 1;
    }
    proof {
        assert(text@.take(n as int) =~= text@);
    }
    items
}

fn char_array(store: &mut Store, text: &String) -> (v: Value)
    ensures
        (final(store)@, v@) == char_array_made(old(store)@, text@),
{
    let items = char_values(text.as_str());
    Value::Array(store.make_array(items))
}

/// What the functions on strings compute.
pub open spec fn text_native(
    s: StoreModel,
    key: NativeKey,
    args: Seq<ValueTerm>,
    span: SpanModel,
    n: nat,
) -> NativeModel {
    match key {
        NativeKey::StdCoreStringLen => match arg(args, 0) {
            Some(ValueTerm { head: ValueHead::Str(a), args: _ }) => value_step(
                s,
                count_term(a.len() as int),
            ),
            _ => internal_step("string_len: expected String argument"@),
        },
        NativeKey::StdCoreStringJoin => match arg(args, 0) {
            Some(ValueTerm { head: ValueHead::Array(a), args: _ }) => {
                let items = crate::store::array_at(s, a);
                match texts_of(items, items.len() as int) {
                    None => internal_step("String::join: parts array must contain Strings"@),
                    Some(parts) => match str_arg(args, 1, "String::join"@) {
                        Err(e) => error_step(e),
                        Ok(sep) => value_step(
                            s,
                            crate::values::str_term(crate::text::joined(parts, sep)),
                        ),
                    },
                }
            },
            _ => internal_step("String::join: expected (String[], String)"@),
        },
        NativeKey::StdCoreStringIsEmpty => match str_arg(args, 0, "string_is_empty"@) {
            Err(e) => error_step(e),
            Ok(a) => value_step(s, crate::values::bool_term(a.len() == 0)),
        },
        NativeKey::StdCoreStringToUpper => match str_arg(args, 0, "string_to_upper"@) {
            Err(e) => error_step(e),
            Ok(a) => value_step(s, crate::values::str_term(crate::strings::uppercased(a))),
        },
        NativeKey::StdCoreStringToLower => match str_arg(args, 0, "string_to_lower"@) {
            Err(e) => error_step(e),
            Ok(a) => value_step(s, crate::values::str_term(crate::strings::lowercased(a))),
        },
        NativeKey::StdCoreStringTrim => match str_arg(args, 0, "string_trim"@) {
            Err(e) => error_step(e),
            Ok(a) => value_step(
                s,
                crate::values::str_term(
                    crate::strings::trimmed_end(crate::strings::trimmed_start(a)),
                ),
            ),
        },
        NativeKey::StdCoreStringTrimStart => match str_arg(args, 0, "string_trim_start"@) {
            Err(e) => error_step(e),
            Ok(a) => value_step(s, crate::values::str_term(crate::strings::trimmed_start(a))),
        },
        NativeKey::StdCoreStringTrimEnd => match str_arg(args, 0, "string_trim_end"@) {
            Err(e) => error_step(e),
            Ok(a) => value_step(s, crate::values::str_term(crate::strings::trimmed_end(a))),
        },
        NativeKey::StdCoreStringContains => match str_arg(args, 0, "string_contains"@) {
            Err(e) => error_step(e),
            Ok(a) => match str_arg(args, 1, "string_contains"@) {
                Err(e) => error_step(e),
                Ok(b) => value_step(
                    s,
                    crate::values::bool_term(crate::strings::first_at(a, b, 0) >= 0),
                ),
            },
        },
        NativeKey::StdCoreStringStartsWith => match str_arg(args, 0, "string_starts_with"@) {
            Err(e) => error_step(e),
            Ok(a) => match str_arg(args, 1, "string_starts_with"@) {
                Err(e) => error_step(e),
                Ok(b) => value_step(
                    s,
                    crate::values::bool_term(crate::strings::stands_at(a, b, 0)),
                ),
            },
        },
        NativeKey::StdCoreStringEndsWith => match str_arg(args, 0, "string_ends_with"@) {
            Err(e) => error_step(e),
            Ok(a) => match str_arg(args, 1, "string_ends_with"@) {
                Err(e) => error_step(e),
                Ok(b) => value_step(
                    s,
                    crate::values::bool_term(crate::strings::stands_at(a, b, a.len() - b.len())),
                ),
            },
        },
        NativeKey::StdCoreStringIndexOf => match str_arg(args, 0, "string_index_of"@) {
            Err(e) => error_step(e),
            Ok(a) => match str_arg(args, 1, "string_index_of"@) {
                Err(e) => error_step(e),
                Ok(b) => value_step(s, index_term(a, b)),
            },
        },
        NativeKey::StdCoreStringSplit => match str_arg(args, 0, "string_split"@) {
            Err(e) => error_step(e),
            Ok(a) => match str_arg(args, 1, "string_split"@) {
                Err(e) => error_step(e),
                Ok(b) => {
                    let (t, v) = string_array(s, crate::strings::split_from(a, b, 0));
                    value_step(t, v)
                },
            },
        },
        NativeKey::StdCoreStringReplace => match str_arg(args, 0, "string_replace"@) {
            Err(e) => error_step(e),
            Ok(a) => match str_arg(args, 1, "string_replace"@) {
                Err(e) => error_step(e),
                Ok(b) => match str_arg(args, 2, "string_replace"@) {
                    Err(e) => error_step(e),
                    Ok(c) => value_step(
                        s,
                        crate::values::str_term(crate::strings::replaced_text(a, b, c)),
                    ),
                },
            },
        },
        NativeKey::StdCoreStringRepeat => match str_arg(args, 0, "string_repeat"@) {
            Err(e) => error_step(e),
            Ok(a) => match i64_arg(args, 1, "string_repeat"@) {
                Err(e) => error_step(e),
                Ok(b) => value_step(
                    s,
                    crate::values::str_term(
                        crate::strings::repeated(a, if b < 0 { 0 } else { b as nat }),
                    ),
                ),
            },
        },
        NativeKey::StdCoreStringChars => match str_arg(args, 0, "string_chars"@) {
            Err(e) => error_step(e),
            Ok(a) => {
                let (t, v) = char_array_made(s, a);
                value_step(t, v)
            },
        },
        NativeKey::StdCoreStringCharAt => match str_arg(args, 0, "string_char_at"@) {
            Err(e) => error_step(e),
            Ok(a) => match i64_arg(args, 1, "string_char_at"@) {
                Err(e) => error_step(e),
                Ok(b) => value_step(s, char_at_term(a, b)),
            },
        },
        NativeKey::StdCoreStringSubstring => match str_arg(args, 0, "string_substring"@) {
            Err(e) => error_step(e),
            Ok(a) => match i64_arg(args, 1, "string_substring"@) {
                Err(e) => error_step(e),
                Ok(b) => match i64_arg(args, 2, "string_substring"@) {
                    Err(e) => error_step(e),
                    Ok(c) => value_step(
                        s,
                        crate::values::str_term(
                            cut_out(a, clamped(b, a.len() as int), clamped(c, a.len() as int)),
                        ),
                    ),
                },
            },
        },
        _ => conversion_native(s, key, args, span, n),
    }
}

fn start_text(
    store: &mut Store,
    key: NativeKey,
    args: &Vec<Value>,
    span: &Span,
    limit: u64,
) -> (r: NativeStep)
    ensures
        goes_on(
            r,
            old(store)@,
            final(store)@,
            text_native(old(store)@, key, args.deep_view(), span.deep_view(), limit as nat),
        ),
{
    match key {
        NativeKey::StdCoreStringLen => match arg_at(args, 0) {
            Some(Value::Str(a)) => value(count_value(a.as_str().unicode_len())),
            _ => internal("string_len: expected String argument"),
        },
        NativeKey::StdCoreStringJoin => {
            let parts = match arg_at(args, 0) {
                Some(Value::Array(a)) => {
                    let items = store.array(*a);
                    assert(items.deep_view().len() == items@.len());
                    match collect_texts(&items) {
                        Some(parts) => parts,
                        None => {
                            return internal("String::join: parts array must contain Strings");
                        },
                    }
                },
                _ => {
                    return internal("String::join: expected (String[], String)");
                },
            };
            match str_at(args, 1, "String::join") {
                Ok(sep) => value(Value::Str(join(&parts, sep.as_str()))),
                Err(e) => failed(e),
            }
        },
        NativeKey::StdCoreStringIsEmpty => {
            let a = match str_at(args, 0, "string_is_empty") {
                Ok(x) => x,
                Err(e) => {
                    return failed(e);
                },
            };
            value(Value::Boolean(a.as_str().unicode_len() == 0))
        },
        NativeKey::StdCoreStringToUpper => {
            let a = match str_at(args, 0, "string_to_upper") {
                Ok(x) => x,
                Err(e) => {
                    return failed(e);
                },
            };
            value(Value::Str(upper(a.as_str())))
        },
        NativeKey::StdCoreStringToLower => {
            let a = match str_at(args, 0, "string_to_lower") {
                Ok(x) => x,
                Err(e) => {
                    return failed(e);
                },
            };
            value(Value::Str(lower(a.as_str())))
        },
        NativeKey::StdCoreStringTrim => {
            let a = match str_at(args, 0, "string_trim") {
                Ok(x) => x,
                Err(e) => {
                    return failed(e);
                },
            };
            value(Value::Str(trim_end(&trim_start(&a))))
        },
        NativeKey::StdCoreStringTrimStart => {
            let a = match str_at(args, 0, "string_trim_start") {
                Ok(x) => x,
                Err(e) => {
                    return failed(e);
                },
            };
            value(Value::Str(trim_start(&a)))
        },
        NativeKey::StdCoreStringTrimEnd => {
            let a = match str_at(args, 0, "string_trim_end") {
                Ok(x) => x,
                Err(e) => {
                    return failed(e);
                },
            };
            value(Value::Str(trim_end(&a)))
        },
        NativeKey::StdCoreStringContains => {
            let a = match str_at(args, 0, "string_contains") {
                Ok(x) => x,
                Err(e) => {
                    return failed(e);
                },
            };
            let b = match str_at(args, 1, "string_contains") {
                Ok(x) => x,
                Err(e) => {
                    return failed(e);
                },
            };
            value(
                Value::Boolean(
                    find_from(&chars_of(a.as_str()), &chars_of(b.as_str()), 0).is_some(),
                ),
            )
        },
        NativeKey::StdCoreStringStartsWith => {
            let a = match str_at(args, 0, "string_starts_with") {
                Ok(x) => x,
                Err(e) => {
                    return failed(e);
                },
            };
            let b = match str_at(args, 1, "string_starts_with") {
                Ok(x) => x,
                Err(e) => {
                    return failed(e);
                },
            };
            value(Value::Boolean(is_at(&chars_of(a.as_str()), &chars_of(b.as_str()), 0)))
        },
        NativeKey::StdCoreStringEndsWith => {
            let a = match str_at(args, 0, "string_ends_with") {
                Ok(x) => x,
                Err(e) => {
                    return failed(e);
                },
            };
            let b = match str_at(args, 1, "string_ends_with") {
                Ok(x) => x,
                Err(e) => {
                    return failed(e);
                },
            };
            value(Value::Boolean(ends_with(&a, &b)))
        },
        NativeKey::StdCoreStringIndexOf => {
            let a = match str_at(args, 0, "string_index_of") {
                Ok(x) => x,
                Err(e) => {
                    return failed(e);
                },
            };
            let b = match str_at(args, 1, "string_index_of") {
                Ok(x) => x,
                Err(e) => {
                    return failed(e);
                },
            };
            value(index_of(&a, &b))
        },
        NativeKey::StdCoreStringSplit => {
            let a = match str_at(args, 0, "string_split") {
                Ok(x) => x,
                Err(e) => {
                    return failed(e);
                },
            };
            let b = match str_at(args, 1, "string_split") {
                Ok(x) => x,
                Err(e) => {
                    return failed(e);
                },
            };
            value(string_array_value(store, split(&a, &b)))
        },
        NativeKey::StdCoreStringReplace => {
            let a = match str_at(args, 0, "string_replace") {
                Ok(x) => x,
                Err(e) => {
                    return failed(e);
                },
            };
            let b = match str_at(args, 1, "string_replace") {
                Ok(x) => x,
                Err(e) => {
                    return failed(e);
                },
            };
            let c = match str_at(args, 2, "string_replace") {
                Ok(x) => x,
                Err(e) => {
                    return failed(e);
                },
            };
            value(Value::Str(replace(&a, &b, &c)))
        },
        NativeKey::StdCoreStringRepeat => {
            let a = match str_at(args, 0, "string_repeat") {
                Ok(x) => x,
                Err(e) => {
                    return failed(e);
                },
            };
            let b: i64 = match i64_at(args, 1, "string_repeat") {
                Ok(x) => x,
                Err(e) => {
                    return failed(e);
                },
            };
            value(Value::Str(repeat(&a, if b < 0 { 0 } else { b as u64 })))
        },
        NativeKey::StdCoreStringChars => {
            let a = match str_at(args, 0, "string_chars") {
                Ok(x) => x,
                Err(e) => {
                    return failed(e);
                },
            };
            value(char_array(store, &a))
        },
        NativeKey::StdCoreStringCharAt => {
            let a = match str_at(args, 0, "string_char_at") {
                Ok(x) => x,
                Err(e) => {
                    return failed(e);
                },
            };
            let b: i64 = match i64_at(args, 1, "string_char_at") {
                Ok(x) => x,
                Err(e) => {
                    return failed(e);
                },
            };
            value(char_at(&a, b))
        },
        NativeKey::StdCoreStringSubstring => {
            let a = match str_at(args, 0, "string_substring") {
                Ok(x) => x,
                Err(e) => {
                    return failed(e);
                },
            };
            let b: i64 = match i64_at(args, 1, "string_substring") {
                Ok(x) => x,
                Err(e) => {
                    return failed(e);
                },
            };
            let c: i64 = match i64_at(args, 2, "string_substring") {
                Ok(x) => x,
                Err(e) => {
                    return failed(e);
                },
            };
            value(Value::Str(substring(&a, b, c)))
        },
        _ => start_conversion(store, key, args, span, limit),
    }
}

/// A conversion to an integer type.
pub open spec fn int_from(
    s: StoreModel,
    kind: IntKind,
    v: Option<ValueTerm>,
    otherwise: Seq<char>,
) -> NativeModel {
    match v {
        Some(ValueTerm { head: ValueHead::Int(_, n), args: _ }) => value_step(
            s,
            crate::values::int_term(kind, crate::literals::wrapped(kind, n)),
        ),
        Some(ValueTerm { head: ValueHead::Float(k, bits), args: _ }) => NativeModel::Ask(
            TaskModel::FloatToInt { kind: k, bits: bits as u64 },
        ),
        _ => internal_step(otherwise),
    }
}

fn start_int_from(kind: IntKind, v: Option<&Value>, otherwise: &str) -> (r: NativeStep)
    ensures
        forall|s: StoreModel| #[trigger]
            goes_on(r, s, s, int_from(s, kind, v.deep_view(), otherwise@)),
{
    match v {
        Some(x) => match as_int(x) {
            Some((_, n)) => value(cut(kind, n)),
            None => match x {
                Value::F64(bits) => NativeStep::Ask(
                    Task::FloatToInt { kind: FloatKind::F64, bits: *bits },
                ),
                Value::F32(bits) => NativeStep::Ask(
                    Task::FloatToInt { kind: FloatKind::F32, bits: *bits as u64 },
                ),
                _ => internal(otherwise),
            },
        },
        None => internal(otherwise),
    }
}

/// A conversion to a floating-point type.
pub open spec fn float_from(
    s: StoreModel,
    kind: FloatKind,
    v: Option<ValueTerm>,
    otherwise: Seq<char>,
) -> NativeModel {
    match v {
        Some(ValueTerm { head: ValueHead::Int(_, n), args: _ }) => NativeModel::Ask(
            TaskModel::IntToFloat { kind, number: n as i128 },
        ),
        Some(ValueTerm { head: ValueHead::Float(k, bits), args: _ }) => NativeModel::Ask(
            TaskModel::FloatToFloat { kind, source: k, bits: bits as u64 },
        ),
        _ => internal_step(otherwise),
    }
}

fn start_float_from(kind: FloatKind, v: Option<&Value>, otherwise: &str) -> (r: NativeStep)
    ensures
        forall|s: StoreModel| #[trigger]
            goes_on(r, s, s, float_from(s, kind, v.deep_view(), otherwise@)),
{
    match v {
        Some(x) => match as_int(x) {
            Some((_, n)) => NativeStep::Ask(Task::IntToFloat { kind, number: n }),
            None => match x {
                Value::F64(bits) => NativeStep::Ask(
                    Task::FloatToFloat { kind, source: FloatKind::F64, bits: *bits },
                ),
                Value::F32(bits) => NativeStep::Ask(
                    Task::FloatToFloat { kind, source: FloatKind::F32, bits: *bits as u64 },
                ),
                _ => internal(otherwise),
            },
        },
        None => internal(otherwise),
    }
}

/// What the conversions compute.
pub open spec fn conversion_native(
    s: StoreModel,
    key: NativeKey,
    args: Seq<ValueTerm>,
    span: SpanModel,
    n: nat,
) -> NativeModel {
    match key {
        NativeKey::StdCoreI8From => int_from(
            s,
            IntKind::I8,
            arg(args, 0),
            "i8::from: expected a numeric argument"@,
        ),
        NativeKey::StdCoreI16From => int_from(
            s,
            IntKind::I16,
            arg(args, 0),
            "i16::from: expected a numeric argument"@,
        ),
        NativeKey::StdCoreI32From => int_from(
            s,
            IntKind::I32,
            arg(args, 0),
            "i32::from: expected a numeric argument"@,
        ),
        NativeKey::StdCoreI64From => int_from(
            s,
            IntKind::I64,
            arg(args, 0),
            "i64::from: expected a numeric argument"@,
        ),
        NativeKey::StdCoreU8From => int_from(
            s,
            IntKind::U8,
            arg(args, 0),
            "u8::from: expected a numeric argument"@,
        ),
        NativeKey::StdCoreU16From => int_from(
            s,
            IntKind::U16,
            arg(args, 0),
            "u16::from: expected a numeric argument"@,
        ),
        NativeKey::StdCoreU64From => int_from(
            s,
            IntKind::U64,
            arg(args, 0),
            "u64::from: expected a numeric argument"@,
        ),
        NativeKey::StdCoreU32From => match arg(args, 0) {
            None => internal_step("u32::from: expected an argument"@),
            Some(ValueTerm { head: ValueHead::Char(c), args: _ }) => value_step(
                s,
                crate::values::int_term(IntKind::U32, c as int),
            ),
            v => int_from(s, IntKind::U32, v, "u32::from: expected a numeric or Char argument"@),
        },
        NativeKey::StdCoreF32From => float_from(
            s,
            FloatKind::F32,
            arg(args, 0),
            "f32::from: expected a numeric argument"@,
        ),
        NativeKey::StdCoreF64From => float_from(
            s,
            FloatKind::F64,
            arg(args, 0),
            "f64::from: expected a numeric argument"@,
        ),
        NativeKey::StdCoreCharFrom => match arg(args, 0) {
            Some(
                ValueTerm { head: ValueHead::Int(IntKind::U32, k), args: _ },
            ) => if crate::strings::scalar(
                k as u32,
            ) {
                value_step(s, crate::values::plain(ValueHead::Char(k as u32 as char)))
            } else {
                panic_step(
                    RuntimeErrorCode::R0009,
                    "u32 value "@ + crate::text::decimal(k as nat)
                        + " is not a valid Unicode scalar"@,
                    span,
                )
            },
            _ => internal_step("Char::from: expected a u32 argument"@),
        },
        NativeKey::StdCoreToString => match arg(args, 0) {
            None => internal_step("to_string: expected a receiver"@),
            Some(v) => match crate::display::displayed(v) {
                None => panic_step(
                    RuntimeErrorCode::R0009,
                    "to_string: value does not implement Display"@,
                    span,
                ),
                Some(PieceModel::Text(t)) => value_step(s, crate::values::str_term(t)),
                Some(piece) => NativeModel::Ask(TaskModel::Text(seq![piece])),
            },
        },
        _ => list_native(s, key, args, span, n),
    }
}

fn single(piece: Piece) -> (r: Vec<Piece>)
    ensures
        r.deep_view() == seq![piece.deep_view()],
{
    let mut r: Vec<Piece> = Vec::new();
    r.push(piece);
    assert(r.deep_view() =~= seq![piece.deep_view()]);
    r
}

fn start_conversion(
    store: &mut Store,
    key: NativeKey,
    args: &Vec<Value>,
    span: &Span,
    limit: u64,
) -> (r: NativeStep)
    ensures
        goes_on(
            r,
            old(store)@,
            final(store)@,
            conversion_native(old(store)@, key, args.deep_view(), span.deep_view(), limit as nat),
        ),
{
    match key {
        NativeKey::StdCoreI8From => start_int_from(
            IntKind::I8,
            arg_at(args, 0),
            "i8::from: expected a numeric argument",
        ),
        NativeKey::StdCoreI16From => start_int_from(
            IntKind::I16,
            arg_at(args, 0),
            "i16::from: expected a numeric argument",
        ),
        NativeKey::StdCoreI32From => start_int_from(
            IntKind::I32,
            arg_at(args, 0),
            "i32::from: expected a numeric argument",
        ),
        NativeKey::StdCoreI64From => start_int_from(
            IntKind::I64,
            arg_at(args, 0),
            "i64::from: expected a numeric argument",
        ),
        NativeKey::StdCoreU8From => start_int_from(
            IntKind::U8,
            arg_at(args, 0),
            "u8::from: expected a numeric argument",
        ),
        NativeKey::StdCoreU16From => start_int_from(
            IntKind::U16,
            arg_at(args, 0),
            "u16::from: expected a numeric argument",
        ),
        NativeKey::StdCoreU64From => start_int_from(
            IntKind::U64,
            arg_at(args, 0),
            "u64::from: expected a numeric argument",
        ),
        NativeKey::StdCoreU32From => match arg_at(args, 0) {
            None => internal("u32::from: expected an argument"),
            Some(Value::Char(c)) => value(Value::U32(*c as u32)),
            v => start_int_from(
                IntKind::U32,
                v,
                "u32::from: expected a numeric or Char argument",
            ),
        },
        NativeKey::StdCoreF32From => start_float_from(
            FloatKind::F32,
            arg_at(args, 0),
            "f32::from: expected a numeric argument",
        ),
        NativeKey::StdCoreF64From => start_float_from(
            FloatKind::F64,
            arg_at(args, 0),
            "f64::from: expected a numeric argument",
        ),
        NativeKey::StdCoreCharFrom => match arg_at(args, 0) {
            Some(Value::U32(k)) => match char_from(*k) {
                Some(c) => value(Value::Char(c)),
                None => {
                    let mut s = "u32 value ".to_owned();
                    s.append(decimal_string(*k as u128).as_str());
                    s.append(" is not a valid Unicode scalar");
                    panicked(RuntimeErrorCode::R0009, s, span)
                },
            },
            _ => internal("Char::from: expected a u32 argument"),
        },
        NativeKey::StdCoreToString => match arg_at(args, 0) {
            None => internal("to_string: expected a receiver"),
            Some(v) => match value_to_display_string(v) {
                None => panicked(
                    RuntimeErrorCode::R0009,
                    "to_string: value does not implement Display".to_owned(),
                    span,
                ),
                Some(Piece::Text(t)) => value(Value::Str(t)),
                Some(piece) => NativeStep::Ask(Task::Text(single(piece))),
            },
        },
        _ => start_list(store, key, args, span, limit),
    }
}

/// What the functions on lists compute.
pub open spec fn list_native(
    s: StoreModel,
    key: NativeKey,
    args: Seq<ValueTerm>,
    span: SpanModel,
    n: nat,
) -> NativeModel {
    match key {
        NativeKey::StdCoreListNew => {
            let (t, a) = crate::store::array_made(s, Seq::empty());
            value_step(t, list_term(a))
        },
        NativeKey::StdCoreListFrom => match arg(args, 0) {
            Some(ValueTerm { head: ValueHead::Array(src), args: _ }) => {
                let (t, a) = crate::store::array_made(s, crate::store::array_at(s, src));
                value_step(t, list_term(a))
            },
            _ => internal_step("List::from: expected array argument"@),
        },
        NativeKey::StdCoreListPush => match list_arg(args, "List::push"@) {
            Err(e) => error_step(e),
            Ok(a) => match arg(args, 1) {
                Some(v) => value_step(
                    crate::store::array_set(s, a, crate::store::array_at(s, a).push(v)),
                    crate::values::unit_term(),
                ),
                None => internal_step("List::push: expected (List, T)"@),
            },
        },
        NativeKey::StdCoreListPop => match list_arg(args, "List::pop"@) {
            Err(e) => error_step(e),
            Ok(a) => {
                let items = crate::store::array_at(s, a);
                if items.len() == 0 {
                    value_step(s, perhaps_term(None))
                } else {
                    value_step(
                        crate::store::array_set(s, a, items.drop_last()),
                        perhaps_term(Some(items.last())),
                    )
                }
            },
        },
        NativeKey::StdCoreListLen => match list_arg(args, "List::len"@) {
            Err(e) => error_step(e),
            Ok(a) => value_step(s, count_term(crate::store::array_at(s, a).len() as int)),
        },
        NativeKey::StdCoreListGet => match list_arg(args, "List::get"@) {
            Err(e) => error_step(e),
            Ok(a) => match arg(args, 1) {
                Some(ValueTerm { head: ValueHead::Int(IntKind::I64, i), args: _ }) => {
                    let items = crate::store::array_at(s, a);
                    value_step(s, perhaps_term(arg(items, i)))
                },
                _ => internal_step("List::get: expected (List, i64)"@),
            },
        },
        NativeKey::StdCoreListSet => match list_arg(args, "List::set"@) {
            Err(e) => error_step(e),
            Ok(a) => match (arg(args, 1), arg(args, 2)) {
                (
                    Some(ValueTerm { head: ValueHead::Int(IntKind::I64, i), args: _ }),
                    Some(v),
                ) => {
                    let items = crate::store::array_at(s, a);
                    if 0 <= i < items.len() {
                        value_step(
                            crate::store::array_set(s, a, items.update(i, v)),
                            perhaps_term(Some(items[i])),
                        )
                    } else {
                        value_step(s, perhaps_term(None))
                    }
                },
                _ => internal_step("List::set: expected (List, i64, T)"@),
            },
        },
        NativeKey::StdCoreListAsSlice => match list_arg(args, "List::as_slice"@) {
            Err(e) => error_step(e),
            Ok(a) => value_step(s, crate::values::plain(ValueHead::Array(a))),
        },
        _ => check_native(s, key, args, span, n),
    }
}

/// The position that a number is, in a list of a length.
fn within(i: i64, n: usize) -> (r: Option<usize>)
    ensures
        match r {
            Some(k) => k == i && 0 <= i < n,
            None => !(0 <= i < n),
        },
{
    if i >= 0 && (i as u128) < n as u128 {
        Some(i as usize)
    } else {
        None
    }
}

fn start_list(
    store: &mut Store,
    key: NativeKey,
    args: &Vec<Value>,
    span: &Span,
    limit: u64,
) -> (r: NativeStep)
    ensures
        goes_on(
            r,
            old(store)@,
            final(store)@,
            list_native(old(store)@, key, args.deep_view(), span.deep_view(), limit as nat),
        ),
{
    match key {
        NativeKey::StdCoreListNew => {
            let none: Vec<Value> = Vec::new();
            assert(none.deep_view() =~= Seq::empty());
            value(list_value(store, none))
        },
        NativeKey::StdCoreListFrom => match arg_at(args, 0) {
            Some(Value::Array(src)) => {
                let items = store.array(*src);
                value(list_value(store, items))
            },
            _ => internal("List::from: expected array argument"),
        },
        NativeKey::StdCoreListPush => match list_inner(args, "List::push") {
            Err(e) => failed(e),
            Ok(a) => match arg_at(args, 1) {
                Some(v) => {
                    let mut items = store.array(a);
                    let ghost prev = items.deep_view();
                    assert(prev.len() == items@.len());
                    items.push(v.dup());
                    assert(items.deep_view() =~= prev.push(v@));
                    store.set_array(a, items);
                    value(Value::Unit)
                },
                None => internal("List::push: expected (List, T)"),
            },
        },
        NativeKey::StdCoreListPop => match list_inner(args, "List::pop") {
            Err(e) => failed(e),
            Ok(a) => {
                let mut items = store.array(a);
                let ghost prev = items.deep_view();
                assert(prev.len() == items@.len());
                match items.pop() {
                    Some(v) => {
                        proof {
                            assert(prev.last() == v@);
                            assert(items.deep_view() =~= prev.drop_last());
                        }
                        store.set_array(a, items);
                        value(perhaps_value(Some(v)))
                    },
                    None => value(perhaps_value(None)),
                }
            },
        },
        NativeKey::StdCoreListLen => match list_inner(args, "List::len") {
            Err(e) => failed(e),
            Ok(a) => value(count_value(store.array_len(a))),
        },
        NativeKey::StdCoreListGet => match list_inner(args, "List::get") {
            Err(e) => failed(e),
            Ok(a) => match arg_at(args, 1) {
                Some(Value::I64(i)) => match within(*i, store.array_len(a)) {
                    Some(k) => value(perhaps_value(Some(store.element(a, k)))),
                    None => value(perhaps_value(None)),
                },
                _ => internal("List::get: expected (List, i64)"),
            },
        },
        NativeKey::StdCoreListSet => match list_inner(args, "List::set") {
            Err(e) => failed(e),
            Ok(a) => match (arg_at(args, 1), arg_at(args, 2)) {
                (Some(Value::I64(i)), Some(v)) => match within(*i, store.array_len(a)) {
                    Some(k) => {
                        let before = store.element(a, k);
                        store.set_element(a, k, v.dup());
                        value(perhaps_value(Some(before)))
                    },
                    None => value(perhaps_value(None)),
                },
                _ => internal("List::set: expected (List, i64, T)"),
            },
        },
        NativeKey::StdCoreListAsSlice => match list_inner(args, "List::as_slice") {
            Err(e) => failed(e),
            Ok(a) => value(Value::Array(a)),
        },
        _ => start_check(store, key, args, span, limit),
    }
}

/// What is printed of an argument, or why nothing is.
pub open spec fn printed(
    v: Option<ValueTerm>,
    newline: bool,
    missing: Seq<char>,
    bad: Seq<char>,
    span: SpanModel,
) -> NativeModel {
    match v {
        None => internal_step(missing),
        Some(x) => match crate::display::displayed(x) {
            None => panic_step(RuntimeErrorCode::R0009, bad, span),
            Some(piece) => NativeModel::Ask(TaskModel::Print { text: seq![piece], newline }),
        },
    }
}

fn start_print(v: Option<&Value>, newline: bool, missing: &str, bad: &str, span: &Span) -> (r:
    NativeStep)
    ensures
        forall|s: StoreModel| #[trigger]
            goes_on(r, s, s, printed(v.deep_view(), newline, missing@, bad@, span.deep_view())),
{
    match v {
        None => internal(missing),
        Some(x) => match value_to_display_string(x) {
            None => panicked(RuntimeErrorCode::R0009, bad.to_owned(), span),
            Some(piece) => NativeStep::Ask(Task::Print { text: single(piece), newline }),
        },
    }
}

/// What is said of an error that was taken for a value.
pub open spec fn yolo_error(text: Seq<char>, span: SpanModel) -> ErrorModel {
    ErrorModel::Runtime(
        RuntimeErrorCode::R0013,
        "called `.yolo()` on an `Err` value: "@ + text,
        span,
        Seq::empty(),
    )
}

fn yolo_failure(text: &String, span: &Span) -> (e: MetelError)
    ensures
        e@ == yolo_error(text@, span.deep_view()),
{
    let mut s = "called `.yolo()` on an `Err` value: ".to_owned();
    s.append(text.as_str());
    MetelError::panic(RuntimeErrorCode::R0013, s, span)
}

/// What the functions that print, check and give up compute.
pub open spec fn check_native(
    s: StoreModel,
    key: NativeKey,
    args: Seq<ValueTerm>,
    span: SpanModel,
    n: nat,
) -> NativeModel {
    match key {
        NativeKey::StdCorePrint => printed(
            arg(args, 0),
            false,
            "print: expected one argument"@,
            "print: value does not implement Display"@,
            span,
        ),
        NativeKey::StdCorePrintln => printed(
            arg(args, 0),
            true,
            "println: expected one argument"@,
            "println: value does not implement Display"@,
            span,
        ),
        NativeKey::StdCoreDbg => match arg(args, 0) {
            None => internal_step("dbg: expected one argument"@),
            Some(v) => match crate::display::shown(s, v, n) {
                None => NativeModel::Done(Err(StopModel::Endless)),
                Some(ps) => NativeModel::Ask(
                    TaskModel::PrintError(seq![PieceModel::Text("[dbg] "@)] + ps),
                ),
            },
        },
        NativeKey::StdCoreAssert => match arg(args, 0) {
            Some(ValueTerm { head: ValueHead::Boolean(true), args: _ }) => value_step(
                s,
                crate::values::unit_term(),
            ),
            Some(ValueTerm { head: ValueHead::Boolean(false), args: _ }) => panic_step(
                RuntimeErrorCode::R0012,
                "assertion failed"@,
                span,
            ),
            _ => internal_step("assert: expected boolean argument"@),
        },
        NativeKey::StdCoreAssertMsg => match arg(args, 0) {
            Some(ValueTerm { head: ValueHead::Boolean(true), args: _ }) => value_step(
                s,
                crate::values::unit_term(),
            ),
            Some(ValueTerm { head: ValueHead::Boolean(false), args: _ }) => panic_step(
                RuntimeErrorCode::R0012,
                match arg(args, 1) {
                    Some(ValueTerm { head: ValueHead::Str(msg), args: _ }) => msg,
                    _ => "assertion failed"@,
                },
                span,
            ),
            _ => internal_step("assert_msg: expected (boolean, String) arguments"@),
        },
        NativeKey::StdCoreYoloNone => panic_step(
            RuntimeErrorCode::R0013,
            "called `.yolo()` on a `None` value"@,
            span,
        ),
        NativeKey::StdCoreYoloErr => match arg(args, 0) {
            None => internal_step("yolo_err: expected one argument"@),
            Some(v) => match crate::display::shown(s, v, n) {
                None => NativeModel::Done(Err(StopModel::Endless)),
                Some(ps) => match crate::display::plain_of(ps, ps.len() as int) {
                    Some(text) => error_step(yolo_error(text, span)),
                    None => NativeModel::Ask(TaskModel::Text(ps)),
                },
            },
        },
        NativeKey::StdCorePanic => match arg(args, 0) {
            Some(ValueTerm { head: ValueHead::Str(msg), args: _ }) => panic_step(
                RuntimeErrorCode::R0014,
                msg,
                span,
            ),
            _ => internal_step("panic: expected one String argument"@),
        },
        _ => system_native(s, key, args),
    }
}

fn start_check(
    store: &mut Store,
    key: NativeKey,
    args: &Vec<Value>,
    span: &Span,
    limit: u64,
) -> (r: NativeStep)
    ensures
        goes_on(
            r,
            old(store)@,
            final(store)@,
            check_native(old(store)@, key, args.deep_view(), span.deep_view(), limit as nat),
        ),
{
    match key {
        NativeKey::StdCorePrint => start_print(
            arg_at(args, 0),
            false,
            "print: expected one argument",
            "print: value does not implement Display",
            span,
        ),
        NativeKey::StdCorePrintln => start_print(
            arg_at(args, 0),
            true,
            "println: expected one argument",
            "println: value does not implement Display",
            span,
        ),
        NativeKey::StdCoreDbg => match arg_at(args, 0) {
            None => internal("dbg: expected one argument"),
            Some(v) => match format_value(store, v, limit) {
                None => NativeStep::Done(Err(Stop::Endless)),
                Some(ps) => {
                    let mut all = single(Piece::Text("[dbg] ".to_owned()));
                    let ghost rest = ps.deep_view();
                    append_pieces(&mut all, ps);
                    assert(all.deep_view() =~= seq![PieceModel::Text("[dbg] "@)] + rest);
                    NativeStep::Ask(Task::PrintError(all))
                },
            },
        },
        NativeKey::StdCoreAssert => match arg_at(args, 0) {
            Some(Value::Boolean(true)) => value(Value::Unit),
            Some(Value::Boolean(false)) => panicked(
                RuntimeErrorCode::R0012,
                "assertion failed".to_owned(),
                span,
            ),
            _ => internal("assert: expected boolean argument"),
        },
        NativeKey::StdCoreAssertMsg => match arg_at(args, 0) {
            Some(Value::Boolean(true)) => value(Value::Unit),
            Some(Value::Boolean(false)) => {
                let text = match arg_at(args, 1) {
                    Some(Value::Str(msg)) => msg.clone(),
                    _ => "assertion failed".to_owned(),
                };
                panicked(RuntimeErrorCode::R0012, text, span)
            },
            _ => internal("assert_msg: expected (boolean, String) arguments"),
        },
        NativeKey::StdCoreYoloNone => panicked(
            RuntimeErrorCode::R0013,
            "called `.yolo()` on a `None` value".to_owned(),
            span,
        ),
        NativeKey::StdCoreYoloErr => match arg_at(args, 0) {
            None => internal("yolo_err: expected one argument"),
            Some(v) => match format_value(store, v, limit) {
                None => NativeStep::Done(Err(Stop::Endless)),
                Some(ps) => {
                    assert(ps.deep_view().len() == ps@.len());
                    match plain_text(&ps) {
                        Some(text) => failed(yolo_failure(&text, span)),
                        None => NativeStep::Ask(Task::Text(ps)),
                    }
                },
            },
        },
        NativeKey::StdCorePanic => match arg_at(args, 0) {
            Some(Value::Str(msg)) => panicked(RuntimeErrorCode::R0014, msg.clone(), span),
            _ => internal("panic: expected one String argument"),
        },
        _ => start_system(store, key, args),
    }
}

fn append_pieces(out: &mut Vec<Piece>, more: Vec<Piece>)
    ensures
        final(out).deep_view() == old(out).deep_view() + more.deep_view(),
{
    let mut more = more;
    let ghost b = more@;
    out.append(&mut more);
    proof {
        assert(out.deep_view() =~= old(out).deep_view() + b.map_values(|p: Piece| p.deep_view()));
    }
}

/// What the functions on the environment, files and processes ask for.
pub open spec fn system_native(s: StoreModel, key: NativeKey, args: Seq<ValueTerm>) -> NativeModel {
    match key {
        NativeKey::StdEnvVar => match arg(args, 0) {
            Some(ValueTerm { head: ValueHead::Str(name), args: _ }) => NativeModel::Ask(
                TaskModel::EnvVar(name),
            ),
            _ => internal_step("std::env::get: expected (String)"@),
        },
        NativeKey::StdEnvVars => NativeModel::Ask(TaskModel::EnvVars),
        NativeKey::StdProcessArgs => NativeModel::Ask(TaskModel::Args),
        NativeKey::StdProcessRun => match str_arg(args, 0, "std::process::run"@) {
            Err(e) => error_step(e),
            Ok(command) => match arg(args, 1) {
                Some(ValueTerm { head: ValueHead::Array(a), args: _ }) => {
                    let items = crate::store::array_at(s, a);
                    match texts_of(items, items.len() as int) {
                        None => internal_step(
                            "std::process::run: args array must contain Strings"@,
                        ),
                        Some(ts) => NativeModel::Ask(TaskModel::Run { command, args: ts }),
                    }
                },
                _ => internal_step("std::process::run: expected (String, String[])"@),
            },
        },
        NativeKey::StdFsReadToString => match str_arg(args, 0, "std::fs::read_to_string"@) {
            Err(e) => error_step(e),
            Ok(a) => NativeModel::Ask(TaskModel::ReadToString(a)),
        },
        NativeKey::StdFsWriteString => match str_arg(args, 0, "std::fs::write_string"@) {
            Err(e) => error_step(e),
            Ok(a) => match str_arg(args, 1, "std::fs::write_string"@) {
                Err(e) => error_step(e),
                Ok(b) => NativeModel::Ask(
                    TaskModel::WriteString { path: a, contents: b, append: false },
                ),
            },
        },
        NativeKey::StdFsAppendString => match str_arg(args, 0, "std::fs::append_string"@) {
            Err(e) => error_step(e),
            Ok(a) => match str_arg(args, 1, "std::fs::append_string"@) {
                Err(e) => error_step(e),
                Ok(b) => NativeModel::Ask(
                    TaskModel::WriteString { path: a, contents: b, append: true },
                ),
            },
        },
        NativeKey::StdFsExists => match str_arg(args, 0, "std::fs::exists"@) {
            Err(e) => error_step(e),
            Ok(a) => NativeModel::Ask(TaskModel::Exists(a)),
        },
        NativeKey::StdFsReadDir => match str_arg(args, 0, "std::fs::read_dir"@) {
            Err(e) => error_step(e),
            Ok(a) => NativeModel::Ask(TaskModel::ReadDir(a)),
        },
        NativeKey::StdFsCreateDir => match str_arg(args, 0, "std::fs::create_dir"@) {
            Err(e) => error_step(e),
            Ok(a) => NativeModel::Ask(TaskModel::CreateDir { path: a, all: false }),
        },
        NativeKey::StdFsCreateDirAll => match str_arg(args, 0, "std::fs::create_dir_all"@) {
            Err(e) => error_step(e),
            Ok(a) => NativeModel::Ask(TaskModel::CreateDir { path: a, all: true }),
        },
        NativeKey::StdFsRemoveFile => match str_arg(args, 0, "std::fs::remove_file"@) {
            Err(e) => error_step(e),
            Ok(a) => NativeModel::Ask(TaskModel::RemoveFile(a)),
        },
        NativeKey::StdFsRemoveDir => match str_arg(args, 0, "std::fs::remove_dir"@) {
            Err(e) => error_step(e),
            Ok(a) => NativeModel::Ask(TaskModel::RemoveDir { path: a, all: false }),
        },
        NativeKey::StdFsRemoveDirAll => match str_arg(args, 0, "std::fs::remove_dir_all"@) {
            Err(e) => error_step(e),
            Ok(a) => NativeModel::Ask(TaskModel::RemoveDir { path: a, all: true }),
        },
        _ => NativeModel::Ask(TaskModel::Clock),
    }
}

fn start_system(store: &mut Store, key: NativeKey, args: &Vec<Value>) -> (r: NativeStep)
    ensures
        goes_on(r, old(store)@, final(store)@, system_native(old(store)@, key, args.deep_view())),
{
    match key {
        NativeKey::StdEnvVar => match arg_at(args, 0) {
            Some(Value::Str(name)) => NativeStep::Ask(Task::EnvVar(name.clone())),
            _ => internal("std::env::get: expected (String)"),
        },
        NativeKey::StdEnvVars => NativeStep::Ask(Task::EnvVars),
        NativeKey::StdProcessArgs => NativeStep::Ask(Task::Args),
        NativeKey::StdProcessRun => {
            let command = match str_at(args, 0, "std::process::run") {
                Ok(x) => x,
                Err(e) => {
                    return failed(e);
                },
            };
            match arg_at(args, 1) {
                Some(Value::Array(a)) => {
                    let items = store.array(*a);
                    assert(items.deep_view().len() == items@.len());
                    match collect_texts(&items) {
                        None => internal("std::process::run: args array must contain Strings"),
                        Some(ts) => NativeStep::Ask(Task::Run { command, args: ts }),
                    }
                },
                _ => internal("std::process::run: expected (String, String[])"),
            }
        },
        NativeKey::StdFsReadToString => {
            let a = match str_at(args, 0, "std::fs::read_to_string") {
                Ok(x) => x,
                Err(e) => {
                    return failed(e);
                },
            };
            NativeStep::Ask(Task::ReadToString(a))
        },
        NativeKey::StdFsWriteString => {
            let a = match str_at(args, 0, "std::fs::write_string") {
                Ok(x) => x,
                Err(e) => {
                    return failed(e);
                },
            };
            let b = match str_at(args, 1, "std::fs::write_string") {
                Ok(x) => x,
                Err(e) => {
                    return failed(e);
                },
            };
            NativeStep::Ask(Task::WriteString { path: a, contents: b, append: false })
        },
        NativeKey::StdFsAppendString => {
            let a = match str_at(args, 0, "std::fs::append_string") {
                Ok(x) => x,
                Err(e) => {
                    return failed(e);
                },
            };
            let b = match str_at(args, 1, "std::fs::append_string") {
                Ok(x) => x,
                Err(e) => {
                    return failed(e);
                },
            };
            NativeStep::Ask(Task::WriteString { path: a, contents: b, append: true })
        },
        NativeKey::StdFsExists => {
            let a = match str_at(args, 0, "std::fs::exists") {
                Ok(x) => x,
                Err(e) => {
                    return failed(e);
                },
            };
            NativeStep::Ask(Task::Exists(a))
        },
        NativeKey::StdFsReadDir => {
            let a = match str_at(args, 0, "std::fs::read_dir") {
                Ok(x) => x,
                Err(e) => {
                    return failed(e);
                },
            };
            NativeStep::Ask(Task::ReadDir(a))
        },
        NativeKey::StdFsCreateDir => {
            let a = match str_at(args, 0, "std::fs::create_dir") {
                Ok(x) => x,
                Err(e) => {
                    return failed(e);
                },
            };
            NativeStep::Ask(Task::CreateDir { path: a, all: false })
        },
        NativeKey::StdFsCreateDirAll => {
            let a = match str_at(args, 0, "std::fs::create_dir_all") {
                Ok(x) => x,
                Err(e) => {
                    return failed(e);
                },
            };
            NativeStep::Ask(Task::CreateDir { path: a, all: true })
        },
        NativeKey::StdFsRemoveFile => {
            let a = match str_at(args, 0, "std::fs::remove_file") {
                Ok(x) => x,
                Err(e) => {
                    return failed(e);
                },
            };
            NativeStep::Ask(Task::RemoveFile(a))
        },
        NativeKey::StdFsRemoveDir => {
            let a = match str_at(args, 0, "std::fs::remove_dir") {
                Ok(x) => x,
                Err(e) => {
                    return failed(e);
                },
            };
            NativeStep::Ask(Task::RemoveDir { path: a, all: false })
        },
        NativeKey::StdFsRemoveDirAll => {
            let a = match str_at(args, 0, "std::fs::remove_dir_all") {
                Ok(x) => x,
                Err(e) => {
                    return failed(e);
                },
            };
            NativeStep::Ask(Task::RemoveDir { path: a, all: true })
        },
        _ => NativeStep::Ask(Task::Clock),
    }
}

/// How a call of a host function begins.
pub open spec fn native_started(
    s: StoreModel,
    fun: NativeFn,
    args: Seq<ValueTerm>,
    span: SpanModel,
    n: nat,
) -> NativeModel {
    match fun {
        NativeFn::ArrayLen => match arg(args, 0) {
            Some(ValueTerm { head: ValueHead::Array(a), args: _ }) => value_step(
                s,
                count_term(crate::store::array_at(s, a).len() as int),
            ),
            _ => internal_step("Array::len: expected array"@),
        },
        NativeFn::Key(key) => text_native(s, key, args, span, n),
    }
}

/// Begins a call of a host function. Values are written out following at most
/// `limit` references or arrays into each other.
pub fn start_native(
    store: &mut Store,
    fun: NativeFn,
    args: &Vec<Value>,
    span: &Span,
    limit: u64,
) -> (r: NativeStep)
    ensures
        goes_on(
            r,
            old(store)@,
            final(store)@,
            native_started(old(store)@, fun, args.deep_view(), span.deep_view(), limit as nat),
        ),
{
    match fun {
        NativeFn::ArrayLen => match arg_at(args, 0) {
            Some(Value::Array(a)) => value(count_value(store.array_len(*a))),
            _ => internal("Array::len: expected array"),
        },
        NativeFn::Key(key) => start_text(store, key, args, span, limit),
    }
}

/// What is said of an answer that does not fit the question.
pub open spec fn unexpected_reply() -> StopModel {
    StopModel::Error(ErrorModel::Internal("host: unexpected reply"@))
}

/// The stop for an answer that does not fit the question.
pub fn unexpected() -> (r: Stop)
    ensures
        r.deep_view() == unexpected_reply(),
{
    Stop::Error(MetelError::internal("host: unexpected reply".to_owned()))
}

/// The value of what an operation on files or processes gives.
pub open spec fn io_term(s: StoreModel, r: Result<IoModel, Seq<char>>) -> (StoreModel, ValueTerm) {
    match r {
        Err(message) => (s, result_term(Err(os_error_term(message)))),
        Ok(IoModel::Unit) => (s, result_term(Ok(crate::values::unit_term()))),
        Ok(IoModel::Text(t)) => (s, result_term(Ok(crate::values::str_term(t)))),
        Ok(IoModel::Texts(ts)) => {
            let (t, v) = string_array(s, ts);
            (t, result_term(Ok(v)))
        },
        Ok(IoModel::Output { status, stdout, stderr }) => (
            s,
            result_term(Ok(process_output_term(status, stdout, stderr))),
        ),
    }
}

/// The value of what an operation on files or processes gives.
pub fn io_result(store: &mut Store, r: Result<IoValue, String>) -> (v: Value)
    ensures
        (final(store)@, v@) == io_term(
            old(store)@,
            match r {
                Ok(x) => Ok(x.deep_view()),
                Err(e) => Err(e@),
            },
        ),
{
    match r {
        Err(message) => result_value(Err(os_error_value(message))),
        Ok(IoValue::Unit) => result_value(Ok(Value::Unit)),
        Ok(IoValue::Text(t)) => result_value(Ok(Value::Str(t))),
        Ok(IoValue::Texts(ts)) => {
            let v = string_array_value(store, ts);
            result_value(Ok(v))
        },
        Ok(IoValue::Output { status, stdout, stderr }) => result_value(
            Ok(process_output_value(status, stdout, stderr)),
        ),
    }
}

/// The integer type that a conversion leads to.
pub open spec fn int_target(fun: NativeFn) -> Option<IntKind> {
    match fun {
        NativeFn::Key(NativeKey::StdCoreI8From) => Some(IntKind::I8),
        NativeFn::Key(NativeKey::StdCoreI16From) => Some(IntKind::I16),
        NativeFn::Key(NativeKey::StdCoreI32From) => Some(IntKind::I32),
        NativeFn::Key(NativeKey::StdCoreI64From) => Some(IntKind::I64),
        NativeFn::Key(NativeKey::StdCoreU8From) => Some(IntKind::U8),
        NativeFn::Key(NativeKey::StdCoreU16From) => Some(IntKind::U16),
        NativeFn::Key(NativeKey::StdCoreU32From) => Some(IntKind::U32),
        NativeFn::Key(NativeKey::StdCoreU64From) => Some(IntKind::U64),
        _ => None,
    }
}

fn int_target_of(fun: NativeFn) -> (r: Option<IntKind>)
    ensures
        r == int_target(fun),
{
    match fun {
        NativeFn::Key(NativeKey::StdCoreI8From) => Some(IntKind::I8),
        NativeFn::Key(NativeKey::StdCoreI16From) => Some(IntKind::I16),
        NativeFn::Key(NativeKey::StdCoreI32From) => Some(IntKind::I32),
        NativeFn::Key(NativeKey::StdCoreI64From) => Some(IntKind::I64),
        NativeFn::Key(NativeKey::StdCoreU8From) => Some(IntKind::U8),
        NativeFn::Key(NativeKey::StdCoreU16From) => Some(IntKind::U16),
        NativeFn::Key(NativeKey::StdCoreU32From) => Some(IntKind::U32),
        NativeFn::Key(NativeKey::StdCoreU64From) => Some(IntKind::U64),
        _ => None,
    }
}

/// The value of environment variables.
pub open spec fn env_terms(ps: Seq<(Seq<char>, Seq<char>)>) -> Seq<ValueTerm> {
    Seq::new(ps.len(), |i: int| env_var_term(ps[i].0, ps[i].1))
}

fn env_array(store: &mut Store, pairs: &Vec<(String, String)>) -> (v: Value)
    ensures
        ({
            let (t, a) = crate::store::array_made(old(store)@, env_terms(pairs.deep_view()));
            final(store)@ == t && v@ == crate::values::plain(ValueHead::Array(a))
        }),
{
    let mut items: Vec<Value> = Vec::new();
    let mut i: usize = 0;
    while i < pairs.len()
        invariant
            i <= pairs.len(),
            items@.len() == i,
            forall|j: int|
                0 <= j < i ==> (#[trigger] items@[j])@ == env_var_term(pairs@[j].0@, pairs@[j].1@),
        decreases pairs.len() - i,
    {
        items.push(env_var_value(pairs[i].0.clone(), pairs[i].1.clone()));
        i += 1;
    }
    proof {
        assert(items.deep_view() =~= env_terms(pairs.deep_view()));
    }
    Value::Array(store.make_array(items))
}

/// What the answer of the host makes of a call.
pub open spec fn native_finished(
    s: StoreModel,
    fun: NativeFn,
    args: Seq<ValueTerm>,
    span: SpanModel,
    reply: ReplyModel,
) -> Result<(StoreModel, ValueTerm), StopModel> {
    match (fun, reply) {
        (NativeFn::Key(NativeKey::StdCoreDbg), ReplyModel::Done) => match arg(args, 0) {
            Some(v) => Ok((s, v)),
            None => Ok((s, crate::values::unit_term())),
        },
        (_, ReplyModel::Done) => Ok((s, crate::values::unit_term())),
        (NativeFn::Key(NativeKey::StdCoreYoloErr), ReplyModel::Text(t)) => Err(
            StopModel::Error(yolo_error(t, span)),
        ),
        (_, ReplyModel::Text(t)) => Ok((s, crate::values::str_term(t))),
        (_, ReplyModel::MaybeText(t)) => Ok(
            (
                s,
                perhaps_term(
                    match t {
                        Some(t) => Some(crate::values::str_term(t)),
                        None => None,
                    },
                ),
            ),
        ),
        (_, ReplyModel::Pairs(ps)) => {
            let (t, a) = crate::store::array_made(s, env_terms(ps));
            Ok((t, crate::values::plain(ValueHead::Array(a))))
        },
        (_, ReplyModel::Texts(ts)) => Ok(string_array(s, ts)),
        (_, ReplyModel::Int(n)) => Ok((s, crate::values::int_term(IntKind::I64, n as int))),
        (_, ReplyModel::Wide(n)) => match int_target(fun) {
            Some(kind) => Ok(
                (s, crate::values::int_term(kind, crate::literals::wrapped(kind, n as int))),
            ),
            None => Err(unexpected_reply()),
        },
        (NativeFn::Key(NativeKey::StdCoreF32From), ReplyModel::Bits(b)) => Ok(
            (s, crate::literals::float_term(FloatKind::F32, b, b as u32)),
        ),
        (_, ReplyModel::Bits(b)) => Ok(
            (s, crate::literals::float_term(FloatKind::F64, b, b as u32)),
        ),
        (_, ReplyModel::Flag(b)) => Ok((s, crate::values::bool_term(b))),
        (_, ReplyModel::Io(r)) => Ok(io_term(s, r)),
        (_, ReplyModel::Body(_)) => Err(unexpected_reply()),
        (_, ReplyModel::Phase(_)) => Err(unexpected_reply()),
    }
}

/// What the answer of the host makes of a call.
pub fn finish_native(
    store: &mut Store,
    fun: NativeFn,
    args: &Vec<Value>,
    span: &Span,
    reply: Reply,
) -> (r: Result<Value, Stop>)
    ensures
        match native_finished(
            old(store)@,
            fun,
            args.deep_view(),
            span.deep_view(),
            reply.deep_view(),
        ) {
            Ok((t, x)) => final(store)@ == t && (r matches Ok(v) && v@ == x),
            Err(f) => final(store)@ == old(store)@ && (r matches Err(e) && e.deep_view() == f),
        },
{
    match reply {
        Reply::Done => match fun {
            NativeFn::Key(NativeKey::StdCoreDbg) => match arg_at(args, 0) {
                Some(v) => Ok(v.dup()),
                None => Ok(Value::Unit),
            },
            _ => Ok(Value::Unit),
        },
        Reply::Text(t) => match fun {
            NativeFn::Key(NativeKey::StdCoreYoloErr) => Err(Stop::Error(yolo_failure(&t, span))),
            _ => Ok(Value::Str(t)),
        },
        Reply::MaybeText(t) => match t {
            Some(t) => Ok(perhaps_value(Some(Value::Str(t)))),
            None => Ok(perhaps_value(None)),
        },
        Reply::Pairs(ps) => Ok(env_array(store, &ps)),
        Reply::Texts(ts) => Ok(string_array_value(store, ts)),
        Reply::Int(n) => Ok(Value::I64(n)),
        Reply::Wide(n) => match int_target_of(fun) {
            Some(kind) => Ok(cut(kind, n)),
            None => Err(unexpected()),
        },
        Reply::Bits(b) => match fun {
            NativeFn::Key(NativeKey::StdCoreF32From) => Ok(Value::F32(b as u32)),
            _ => Ok(Value::F64(b)),
        },
        Reply::Flag(b) => Ok(Value::Boolean(b)),
        Reply::Io(r) => Ok(io_result(store, r)),
        Reply::Body(_) => Err(unexpected()),
        Reply::Phase(_) => Err(unexpected()),
    }
}

} // verus!
