//! How annotations, bounds and schemes are written, and what substitution and equality of types
//! mean.

use crate::bounds::BoundModel;
use crate::native_keys::NativeKey;
use crate::schemes::SchemeModel;
use crate::term::{Head, Term, TypeVar};
use crate::type_expr::{ExprHead, ExprTerm};
use crate::types::{CallMultiplicity, CallMutation};
use vstd::prelude::*;
use vstd::string::*;

verus! {

/// How an annotation of some components is written.
pub open spec fn annotation(head: ExprHead, parts: Seq<ExprTerm>) -> Seq<char> {
    crate::type_expr::expr_text(ExprTerm { head, args: parts })
}

/// What an annotation is known by while a program runs.
pub open spec fn known_as(head: ExprHead, parts: Seq<ExprTerm>) -> Seq<char> {
    crate::runtime_types::key_text(ExprTerm { head, args: parts })
}

proof fn lemma_none(h: ExprHead)
    ensures
        crate::type_expr::expr_part_texts(ExprTerm { head: h, args: Seq::empty() }).len() == 0,
        crate::runtime_types::key_part_texts(ExprTerm { head: h, args: Seq::empty() }).len() == 0,
{
}

proof fn lemma_one(h: ExprHead, t: ExprTerm)
    ensures
        crate::type_expr::expr_part_texts(ExprTerm { head: h, args: seq![t] }) == seq![
            crate::type_expr::expr_text(t),
        ],
        crate::runtime_types::key_part_texts(ExprTerm { head: h, args: seq![t] }) == seq![
            crate::runtime_types::key_text(t),
        ],
{
    assert(seq![t][0] == t);
    assert(crate::type_expr::expr_part_texts(ExprTerm { head: h, args: seq![t] }) =~= seq![
        crate::type_expr::expr_text(t),
    ]);
    assert(crate::runtime_types::key_part_texts(ExprTerm { head: h, args: seq![t] }) =~= seq![
        crate::runtime_types::key_text(t),
    ]);
}

proof fn lemma_two(h: ExprHead, t: ExprTerm, u: ExprTerm)
    ensures
        crate::type_expr::expr_part_texts(ExprTerm { head: h, args: seq![t, u] }) == seq![
            crate::type_expr::expr_text(t),
            crate::type_expr::expr_text(u),
        ],
        crate::runtime_types::key_part_texts(ExprTerm { head: h, args: seq![t, u] }) == seq![
            crate::runtime_types::key_text(t),
            crate::runtime_types::key_text(u),
        ],
{
    assert(seq![t, u][0] == t);
    assert(seq![t, u][1] == u);
    assert(crate::type_expr::expr_part_texts(ExprTerm { head: h, args: seq![t, u] }) =~= seq![
        crate::type_expr::expr_text(t),
        crate::type_expr::expr_text(u),
    ]);
    assert(crate::runtime_types::key_part_texts(ExprTerm { head: h, args: seq![t, u] }) =~= seq![
        crate::runtime_types::key_text(t),
        crate::runtime_types::key_text(u),
    ]);
}

proof fn lemma_joined(a: Seq<char>, b: Seq<char>, sep: Seq<char>)
    ensures
        crate::text::joined(seq![a], sep) == a,
        crate::text::joined(seq![a, b], sep) == a + sep + b,
        seq![a, b].drop_last() == seq![a],
        seq![a, b].last() == b,
{
    reveal_with_fuel(crate::text::joined, 3);
    assert(seq![a][0] == a);
    assert(seq![a, b].drop_last() =~= seq![a]);
}

/// Annotations are written as in a program.
pub proof fn annotations_are_written_as_in_programs(
    t: ExprTerm,
    u: ExprTerm,
    n: u64,
    name: Seq<char>,
)
    ensures
        ({
            let a = crate::type_expr::expr_text(t);
            let b = crate::type_expr::expr_text(u);
            let once = ExprHead::Fun(CallMultiplicity::Once, CallMutation::Mutating, true);
            let many = ExprHead::Fun(CallMultiplicity::Many, CallMutation::Reading, true);
            let silent = ExprHead::Fun(CallMultiplicity::Many, CallMutation::Reading, false);
            &&& annotation(ExprHead::Named(name), Seq::empty()) == name
            &&& annotation(ExprHead::Named(name), seq![t, u]) == name + "<"@ + (a + ", "@ + b)
                + ">"@
            &&& annotation(ExprHead::Unit, Seq::empty()) == "unit"@
            &&& annotation(ExprHead::Tuple, seq![t, u]) == "("@ + (a + ", "@ + b) + ")"@
            &&& annotation(ExprHead::Array, seq![t]) == a + "[]"@
            &&& annotation(ExprHead::SizedArray(n), seq![t]) == a + "["@ + crate::text::decimal(
                n as nat,
            ) + "]"@
            &&& annotation(ExprHead::Reference, seq![t]) == "&"@ + a
            &&& annotation(ExprHead::MutReference, seq![t]) == "&var "@ + a
            &&& annotation(ExprHead::ImplAspect, seq![t]) == "impl "@ + a
            &&& annotation(ExprHead::DynAspect, seq![t]) == "dyn "@ + a
            &&& annotation(ExprHead::Projection(name), seq![t]) == a + "::"@ + name
            &&& annotation(ExprHead::Record(seq![name]), seq![t]) == "{ "@ + (name + ": "@ + a)
                + " }"@
            &&& annotation(once, seq![t, u]) == "once "@ + "var "@ + ("("@ + a + ")"@ + " -> "@ + b)
            &&& annotation(many, seq![t, u]) == ""@ + ""@ + ("("@ + a + ")"@ + " -> "@ + b)
            &&& annotation(silent, seq![t, u]) == ""@ + ""@ + ("("@ + (a + ", "@ + b) + ")"@)
        }),
{
    let a = crate::type_expr::expr_text(t);
    let b = crate::type_expr::expr_text(u);
    let once = ExprHead::Fun(CallMultiplicity::Once, CallMutation::Mutating, true);
    let many = ExprHead::Fun(CallMultiplicity::Many, CallMutation::Reading, true);
    let silent = ExprHead::Fun(CallMultiplicity::Many, CallMutation::Reading, false);
    lemma_joined(a, b, ", "@);
    lemma_none(ExprHead::Named(name));
    lemma_two(ExprHead::Named(name), t, u);
    lemma_two(ExprHead::Tuple, t, u);
    lemma_one(ExprHead::Array, t);
    lemma_one(ExprHead::SizedArray(n), t);
    lemma_one(ExprHead::Reference, t);
    lemma_one(ExprHead::MutReference, t);
    lemma_one(ExprHead::ImplAspect, t);
    lemma_one(ExprHead::DynAspect, t);
    lemma_one(ExprHead::Projection(name), t);
    lemma_one(ExprHead::Record(seq![name]), t);
    lemma_two(once, t, u);
    lemma_two(many, t, u);
    lemma_two(silent, t, u);
    let field = name + ": "@ + a;
    assert(crate::term::labelled(seq![name], seq![a]) =~= seq![field]);
    lemma_joined(field, field, ", "@);
}

/// A type is known by its annotation, but for the unit type and for arrays of known length,
/// which are known as they are written in messages.
pub proof fn types_are_known_by_their_annotation(
    t: ExprTerm,
    u: ExprTerm,
    n: u64,
    name: Seq<char>,
)
    ensures
        ({
            let a = crate::runtime_types::key_text(t);
            let b = crate::runtime_types::key_text(u);
            &&& known_as(ExprHead::Unit, Seq::empty()) == "()"@
            &&& known_as(ExprHead::SizedArray(n), seq![t]) == "["@ + a + "; "@
                + crate::text::decimal(n as nat) + "]"@
            &&& known_as(ExprHead::Named(name), Seq::empty()) == name
            &&& known_as(ExprHead::Named(name), seq![t, u]) == name + "<"@ + (a + ", "@ + b) + ">"@
            &&& known_as(ExprHead::Array, seq![t]) == a + "[]"@
            &&& known_as(ExprHead::Reference, seq![t]) == "&"@ + a
            &&& known_as(ExprHead::Tuple, seq![t, u]) == "("@ + (a + ", "@ + b) + ")"@
        }),
{
    let a = crate::runtime_types::key_text(t);
    let b = crate::runtime_types::key_text(u);
    lemma_joined(a, b, ", "@);
    lemma_none(ExprHead::Named(name));
    lemma_one(ExprHead::SizedArray(n), t);
    lemma_two(ExprHead::Named(name), t, u);
    lemma_one(ExprHead::Array, t);
    lemma_one(ExprHead::Reference, t);
    lemma_two(ExprHead::Tuple, t, u);
}

/// A bound is written as the name of its aspect, or as its fields in curly brackets, with two dots
/// behind them where there may be more.
pub proof fn bounds_are_written_as_in_programs(
    name: Seq<char>,
    t: ExprTerm,
    row: crate::ast::RowModel,
)
    requires
        row.fields == seq![(name, Some(t))],
    ensures
        ({
            let field = name + ": "@ + crate::type_expr::expr_text(t);
            &&& crate::bounds::bound_text(BoundModel::Aspect(name)) == name
            &&& row.open ==> crate::bounds::bound_text(BoundModel::Row(row)) == "{ "@ + (field + ", "@
                + ".."@) + " }"@
            &&& !row.open ==> crate::bounds::bound_text(BoundModel::Row(row)) == "{ "@ + field
                + " }"@
        }),
{
    let field = name + ": "@ + crate::type_expr::expr_text(t);
    assert(row.fields[0] == (name, Some(t)));
    assert(crate::bounds::row_texts(row.fields) =~= seq![field]);
    assert(seq![field].push(".."@) =~= seq![field, ".."@]);
    lemma_joined(field, ".."@, ", "@);
}

/// A scheme without variables is written as its type, and one with a variable names it before.
pub proof fn schemes_name_their_variables(s: SchemeModel, v: TypeVar, w: TypeVar)
    ensures
        s.vars.len() == 0 ==> crate::schemes::scheme_text(s) == crate::term::text(s.ty),
        s.vars == seq![v, w] ==> crate::schemes::scheme_text(s) == "∀"@ + (("?t"@
            + crate::text::decimal(v.0 as nat)) + ", "@ + ("?t"@ + crate::text::decimal(
            w.0 as nat,
        ))) + ". "@ + crate::term::text(s.ty),
{
    let a = "?t"@ + crate::text::decimal(v.0 as nat);
    let b = "?t"@ + crate::text::decimal(w.0 as nat);
    if s.vars == seq![v, w] {
        assert(s.vars[0] == v && s.vars[1] == w);
        assert(crate::term::text(crate::term::var(v)) == a);
        assert(crate::term::text(crate::term::var(w)) == b);
        assert(Seq::new(
            s.vars.len(),
            |i: int| crate::term::text(crate::term::var(s.vars[i])),
        ) =~= seq![a, b]);
        lemma_joined(a, b, ", "@);
    }
}

/// Integer types are the eight that are named so, and float types the two; no type is both.
pub proof fn numbers_are_integers_or_floats(h: Head)
    ensures
        crate::term::integer_head(h) <==> h is I8 || h is I16 || h is I32 || h is I64 || h is U8
            || h is U16 || h is U32 || h is U64,
        crate::term::float_head(h) <==> h is F32 || h is F64,
        !(crate::term::integer_head(h) && crate::term::float_head(h)),
{
}

/// Two types are equal exactly if they are of one kind, with equal names, labels, lengths and
/// axes, and equal components. Only the identity behind a name makes no difference.
pub proof fn equal_types_have_equal_parts(a: Term, b: Term)
    requires
        !(a.head is Concrete),
        !(b.head is Concrete),
    ensures
        ({
            let heads = if a.head is Named && b.head is Named {
                a.head->Named_0 == b.head->Named_0
            } else {
                a.head == b.head
            };
            let parts = a.args.len() == b.args.len() && forall|i: int|
                0 <= i < a.args.len() ==> crate::term::erase(#[trigger] a.args[i])
                    == crate::term::erase(b.args[i]);
            crate::term::erase(a) == crate::term::erase(b) <==> heads && parts
        }),
{
    let x = crate::term::erase(a);
    let y = crate::term::erase(b);
    assert(x.args.len() == a.args.len() && y.args.len() == b.args.len());
    assert(x.head == crate::term::erase_head(a.head) && y.head == crate::term::erase_head(b.head));
    if x == y {
        assert forall|i: int| 0 <= i < a.args.len() implies crate::term::erase(#[trigger] a.args[i])
            == crate::term::erase(b.args[i]) by {
            assert(x.args[i] == crate::term::erase(a.args[i]));
            assert(y.args[i] == crate::term::erase(b.args[i]));
        }
    }
    if a.args.len() == b.args.len() && (forall|i: int|
        0 <= i < a.args.len() ==> crate::term::erase(#[trigger] a.args[i]) == crate::term::erase(
            b.args[i],
        )) {
        assert forall|i: int| 0 <= i < x.args.len() implies x.args[i] == y.args[i] by {
            assert(x.args[i] == crate::term::erase(a.args[i]));
            assert(y.args[i] == crate::term::erase(b.args[i]));
        }
        assert(x.args =~= y.args);
    }
}

/// A resolved type inside an inference type is equal to another one exactly if the two are.
pub proof fn resolved_types_are_equal_inside(a: Term, b: Term)
    ensures
        crate::term::erase(crate::term::concrete(a)) == crate::term::erase(crate::term::concrete(b))
            <==> crate::term::erase(a) == crate::term::erase(b),
        !(a.head is Concrete) ==> crate::term::erase(crate::term::concrete(b))
            != crate::term::erase(a),
{
}

/// Substitution puts what a variable is bound to in its place, leaves other variables alone, and
/// keeps the shape of every other type.
pub proof fn substitution_replaces_variables_only(m: Map<TypeVar, Term>, v: TypeVar, t: Term)
    requires
        crate::subst_model::solved(m),
        !(t.head is Var),
    ensures
        m.dom().contains(v) ==> crate::subst_model::apply(m, crate::term::var(v)) == m[v],
        !m.dom().contains(v) ==> crate::subst_model::apply(m, crate::term::var(v))
            == crate::term::var(v),
        ({
            let r = crate::subst_model::apply(m, t);
            &&& r.head == t.head
            &&& r.args.len() == t.args.len()
            &&& forall|i: int|
                0 <= i < t.args.len() ==> #[trigger] r.args[i] == crate::subst_model::apply(
                    m,
                    t.args[i],
                )
        }),
{
    crate::subst_model::lemma_solved_apply(m, crate::term::var(v));
    crate::subst_model::lemma_solved_apply(m, t);
    assert forall|i: int| 0 <= i < t.args.len() implies crate::subst_model::apply(m, t.args[i])
        == #[trigger] crate::subst_model::apply(m, t).args[i] by {
        crate::subst_model::lemma_solved_apply(m, t.args[i]);
    }
}

/// An instance of a scheme has a new variable for each one that the scheme quantifies over, in
/// order from the first that is free.
pub proof fn instances_rename_in_order(s: SchemeModel, start: nat, k: int)
    requires
        0 <= k < s.vars.len(),
        start + s.vars.len() <= u32::MAX,
        forall|i: int, j: int| 0 <= i < j < s.vars.len() ==> s.vars[i] != s.vars[j],
        forall|i: int| 0 <= i < s.vars.len() ==> (#[trigger] s.vars[i]).0 < start,
    ensures
        ({
            let m = crate::schemes::instance_bindings(s, start);
            let names = crate::schemes::fresh_names(s.vars, start, s.vars.len());
            &&& m.dom().contains(s.vars[k])
            &&& m[s.vars[k]] == crate::term::var(TypeVar((start + k) as u32))
            &&& names.dom().contains(s.vars[k])
            &&& names[s.vars[k]] == TypeVar((start + k) as u32)
        }),
{
    lemma_fresh(s.vars, start, s.vars.len(), k);
}

proof fn lemma_fresh(vars: Seq<TypeVar>, start: nat, n: nat, k: int)
    requires
        0 <= k < n,
        n <= vars.len(),
        start + vars.len() <= u32::MAX,
        forall|i: int, j: int| 0 <= i < j < vars.len() ==> vars[i] != vars[j],
        forall|i: int| 0 <= i < vars.len() ==> (#[trigger] vars[i]).0 < start,
    ensures
        ({
            let m = crate::schemes::fresh_bindings(vars, start, n);
            let names = crate::schemes::fresh_names(vars, start, n);
            &&& m.dom().contains(vars[k])
            &&& m[vars[k]] == crate::term::var(TypeVar((start + k) as u32))
            &&& names.dom().contains(vars[k])
            &&& names[vars[k]] == TypeVar((start + k) as u32)
        }),
    decreases n,
{
    assert(vars[n - 1].0 < start);
    if k < n - 1 {
        lemma_fresh(vars, start, (n - 1) as nat, k);
        assert(vars[k] != vars[n - 1]);
    }
}

/// What nothing decides is decided in the end: an integer literal is an `i64`, and a float
/// literal an `f64`, where no integer literal has the same type.
pub proof fn undecided_literals_are_the_largest(
    m: Map<TypeVar, Term>,
    ints: Set<TypeVar>,
    floats: Set<TypeVar>,
    r: Map<TypeVar, Term>,
    v: TypeVar,
    w: TypeVar,
)
    requires
        crate::constraints::values_settle(m, ints),
        crate::constraints::values_settle(m, floats),
        crate::defaulting::extends_by(m, crate::defaulting::defaults(m, ints, floats), r),
        crate::constraints::value_of(m, v) == crate::term::var(w),
    ensures
        ints.contains(v) ==> crate::constraints::value_of(r, v) == crate::term::concrete(
            Term { head: Head::I64, args: Seq::empty() },
        ),
        floats.contains(v) && (forall|u: TypeVar|
            ints.contains(u) ==> #[trigger] crate::constraints::value_of(m, u) != crate::term::var(
                w,
            )) ==> crate::constraints::value_of(r, v) == crate::term::concrete(
            Term { head: Head::F64, args: Seq::empty() },
        ),
{
    crate::inference_laws::literals_get_their_defaults(m, ints, floats, r, v);
    if forall|u: TypeVar|
        ints.contains(u) ==> #[trigger] crate::constraints::value_of(m, u) != crate::term::var(w) {
        if crate::defaulting::stands_for(m, ints, w) {
            let u = choose|u: TypeVar| #[trigger]
                ints.contains(u) && crate::constraints::value_of(m, u) == crate::term::var(w);
            assert(crate::constraints::value_of(m, u) != crate::term::var(w));
        }
    }
}

/// Host functions are called in messages and profiles what they are called in programs.
pub proof fn host_functions_have_their_names()
    ensures
        ({
            let of = |key: NativeKey| crate::native_keys::native_label(key);
            &&& of(NativeKey::StdCorePrint) == "std::core::print"@
            &&& of(NativeKey::StdCorePrintln) == "std::core::println"@
            &&& of(NativeKey::StdCoreDbg) == "std::core::dbg"@
            &&& of(NativeKey::StdCoreAssert) == "std::core::assert"@
            &&& of(NativeKey::StdCoreAssertMsg) == "std::core::assert_msg"@
            &&& of(NativeKey::StdCoreClock) == "std::core::clock"@
            &&& of(NativeKey::StdCoreYoloNone) == "std::core::yolo_none"@
            &&& of(NativeKey::StdCoreYoloErr) == "std::core::yolo_err"@
            &&& of(NativeKey::StdCorePanic) == "std::core::panic"@
            &&& of(NativeKey::StdCoreStringLen) == "String::len"@
            &&& of(NativeKey::StdCoreStringIsEmpty) == "String::is_empty"@
            &&& of(NativeKey::StdCoreStringToUpper) == "String::to_upper"@
            &&& of(NativeKey::StdCoreStringToLower) == "String::to_lower"@
            &&& of(NativeKey::StdCoreStringTrim) == "String::trim"@
            &&& of(NativeKey::StdCoreStringTrimStart) == "String::trim_start"@
            &&& of(NativeKey::StdCoreStringTrimEnd) == "String::trim_end"@
            &&& of(NativeKey::StdCoreStringContains) == "String::contains"@
            &&& of(NativeKey::StdCoreStringStartsWith) == "String::starts_with"@
            &&& of(NativeKey::StdCoreStringEndsWith) == "String::ends_with"@
            &&& of(NativeKey::StdCoreStringIndexOf) == "String::index_of"@
            &&& of(NativeKey::StdCoreStringSplit) == "String::split"@
            &&& of(NativeKey::StdCoreStringReplace) == "String::replace"@
            &&& of(NativeKey::StdCoreStringRepeat) == "String::repeat"@
            &&& of(NativeKey::StdCoreStringJoin) == "String::join"@
            &&& of(NativeKey::StdCoreStringChars) == "String::chars"@
            &&& of(NativeKey::StdCoreStringCharAt) == "String::char_at"@
            &&& of(NativeKey::StdCoreStringSubstring) == "String::substring"@
            &&& of(NativeKey::StdCoreToString) == "Display::to_string"@
            &&& of(NativeKey::StdCoreI8From) == "i8::from"@
            &&& of(NativeKey::StdCoreI16From) == "i16::from"@
            &&& of(NativeKey::StdCoreI32From) == "i32::from"@
            &&& of(NativeKey::StdCoreI64From) == "i64::from"@
            &&& of(NativeKey::StdCoreU8From) == "u8::from"@
            &&& of(NativeKey::StdCoreU16From) == "u16::from"@
            &&& of(NativeKey::StdCoreU32From) == "u32::from"@
            &&& of(NativeKey::StdCoreU64From) == "u64::from"@
            &&& of(NativeKey::StdCoreF32From) == "f32::from"@
            &&& of(NativeKey::StdCoreF64From) == "f64::from"@
            &&& of(NativeKey::StdCoreCharFrom) == "Char::from"@
            &&& of(NativeKey::StdCoreListNew) == "List::new"@
            &&& of(NativeKey::StdCoreListFrom) == "List::from"@
            &&& of(NativeKey::StdCoreListPush) == "List::push"@
            &&& of(NativeKey::StdCoreListPop) == "List::pop"@
            &&& of(NativeKey::StdCoreListLen) == "List::len"@
            &&& of(NativeKey::StdCoreListGet) == "List::get"@
            &&& of(NativeKey::StdCoreListSet) == "List::set"@
            &&& of(NativeKey::StdCoreListAsSlice) == "List::as_slice"@
            &&& of(NativeKey::StdEnvVar) == "std::env::get"@
            &&& of(NativeKey::StdEnvVars) == "std::env::vars"@
            &&& of(NativeKey::StdFsReadToString) == "std::fs::read_to_string"@
            &&& of(NativeKey::StdFsWriteString) == "std::fs::write_string"@
            &&& of(NativeKey::StdFsAppendString) == "std::fs::append_string"@
            &&& of(NativeKey::StdFsExists) == "std::fs::exists"@
            &&& of(NativeKey::StdFsReadDir) == "std::fs::read_dir"@
            &&& of(NativeKey::StdFsCreateDir) == "std::fs::create_dir"@
            &&& of(NativeKey::StdFsCreateDirAll) == "std::fs::create_dir_all"@
            &&& of(NativeKey::StdFsRemoveFile) == "std::fs::remove_file"@
            &&& of(NativeKey::StdFsRemoveDir) == "std::fs::remove_dir"@
            &&& of(NativeKey::StdFsRemoveDirAll) == "std::fs::remove_dir_all"@
            &&& of(NativeKey::StdProcessArgs) == "std::process::args"@
            &&& of(NativeKey::StdProcessRun) == "std::process::run"@
        }),
{
}

} // verus!
