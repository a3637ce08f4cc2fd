//! What the state of inference and of a running program holds.

use crate::ast::SpanModel;
use crate::bounds::BoundModel;
use crate::context::{Binding, ContextModel};
use crate::environment::StopModel;
use crate::error::{ErrorModel, FrameModel, RuntimeErrorCode};
use crate::machine::World;
use crate::registry::RegistryModel;
use crate::schemes::SchemeModel;
use crate::store::{ClosureCode, StoreModel};
use crate::term::{Term, TypeVar};
use crate::values::{
    CallableModel,
    CellId,
    ClosureId,
    IntKind,
    SegmentModel,
    ValueHead,
    ValueTerm,
};
use vstd::prelude::*;
use vstd::string::*;

verus! {

/// A context begins with nothing to solve and nothing known but the schemes that it imports.
pub proof fn contexts_begin_empty(
    registry: RegistryModel,
    next_var: u32,
    schemes: Map<Seq<char>, SchemeModel>,
    module: Seq<Seq<char>>,
    name: Seq<char>,
)
    ensures
        ({
            let c = crate::context::fresh_context(registry, next_var, schemes, module);
            let found = crate::context::nearest(c.poly, c.mono, name);
            &&& c.constraints.len() == 0 && c.solved == 0
            &&& c.solution == Map::<TypeVar, Term>::empty()
            &&& c.ints == Set::<TypeVar>::empty() && c.floats == Set::<TypeVar>::empty()
            &&& c.registry == registry && c.module == module && c.next_var == next_var
            &&& schemes.dom().contains(name) ==> found == Some(Binding::Poly(schemes[name]))
            &&& !schemes.dom().contains(name) ==> found is None
            &&& c.loop_depth == 0 && c.return_type is None && c.break_type is None
        }),
{
    let c = crate::context::fresh_context(registry, next_var, schemes, module);
    reveal_with_fuel(crate::context::nearest_below, 2);
    assert(c.poly[0] == schemes);
    assert(c.mono[0] == Map::<Seq<char>, (Term, bool)>::empty());
}

/// A name that has been bound is found with what it was bound to, a scheme before a type, and other
/// names are found as before.
pub proof fn bound_names_are_found(
    c: ContextModel,
    name: Seq<char>,
    other: Seq<char>,
    ty: Term,
    mutable: bool,
    s: SchemeModel,
)
    requires
        c.mono.len() > 0,
        c.mono.len() == c.poly.len(),
        other != name,
    ensures
        ({
            let mono = crate::context::mono_bound(c, name, ty, mutable);
            let poly = crate::context::poly_bound(c, name, s);
            let find = |d: ContextModel, n: Seq<char>| crate::context::nearest(d.poly, d.mono, n);
            let last = c.poly.last();
            &&& !last.dom().contains(name) ==> find(mono, name) == Some(Binding::Mono(ty, mutable))
            &&& last.dom().contains(name) ==> find(mono, name) == Some(Binding::Poly(last[name]))
            &&& find(poly, name) == Some(Binding::Poly(s))
            &&& find(mono, other) == find(c, other)
            &&& find(poly, other) == find(c, other)
            &&& last.dom().contains(name) ==> crate::context::poly_bound_if_absent(c, name, s) == c
            &&& !last.dom().contains(name) ==> crate::context::poly_bound_if_absent(c, name, s)
                == poly
        }),
{
    let mono = crate::context::mono_bound(c, name, ty, mutable);
    let poly = crate::context::poly_bound(c, name, s);
    let k = c.mono.len();
    assert(c.poly[k - 1] == c.poly.last() && c.mono[k - 1] == c.mono.last());
    assert(mono.mono[k - 1] == c.mono.last().insert(name, (ty, mutable)));
    assert(poly.poly[k - 1] == c.poly.last().insert(name, s));
    lemma_nearest_alike(c.poly, c.mono, c.poly, mono.mono, other, k);
    lemma_nearest_alike(c.poly, c.mono, poly.poly, c.mono, other, k);
}

proof fn lemma_nearest_alike(
    poly: Seq<Map<Seq<char>, SchemeModel>>,
    mono: Seq<Map<Seq<char>, (Term, bool)>>,
    poly2: Seq<Map<Seq<char>, SchemeModel>>,
    mono2: Seq<Map<Seq<char>, (Term, bool)>>,
    name: Seq<char>,
    k: nat,
)
    requires
        k <= poly.len(),
        k <= mono.len(),
        poly.len() == poly2.len(),
        mono.len() == mono2.len(),
        forall|i: int|
            #![trigger poly[i]]
            #![trigger poly2[i]]
            0 <= i < poly.len() ==> poly[i].contains_key(name) == poly2[i].contains_key(name) && (
            poly[i].contains_key(name) ==> poly[i][name] == poly2[i][name]),
        forall|i: int|
            #![trigger mono[i]]
            #![trigger mono2[i]]
            0 <= i < mono.len() ==> mono[i].contains_key(name) == mono2[i].contains_key(name) && (
            mono[i].contains_key(name) ==> mono[i][name] == mono2[i][name]),
    ensures
        crate::context::nearest_below(poly, mono, name, k) == crate::context::nearest_below(
            poly2,
            mono2,
            name,
            k,
        ),
    decreases k,
{
    if k > 0 {
        lemma_nearest_alike(poly, mono, poly2, mono2, name, (k - 1) as nat);
        assert(poly[k - 1].contains_key(name) == poly2[k - 1].contains_key(name));
        assert(mono[k - 1].contains_key(name) == mono2[k - 1].contains_key(name));
    }
}

/// Each solve is counted, and each constraint that it solved; one that fails counts as a call but
/// solves nothing.
pub proof fn solves_are_counted(c: ContextModel, m: Map<TypeVar, Term>)
    requires
        c.solved <= c.constraints.len(),
        c.constraints.len() <= usize::MAX,
        c.stats.solve_calls < u64::MAX,
        c.stats.constraints_processed + c.constraints.len() <= u64::MAX,
    ensures
        ({
            let done = crate::context_solve::solve_succeeded(c, m);
            let failed = crate::context_solve::solve_failed(c, m);
            &&& done.solution == m && failed.solution == m
            &&& done.solved == c.constraints.len() && failed.solved == c.solved
            &&& done.stats.solve_calls == c.stats.solve_calls + 1
            &&& failed.stats.solve_calls == c.stats.solve_calls + 1
            &&& done.stats.constraints_processed == c.stats.constraints_processed
                + c.constraints.len() - c.solved
            &&& failed.stats.constraints_processed == c.stats.constraints_processed
            &&& done.constraints == c.constraints && failed.constraints == c.constraints
        }),
{
}

/// The new variables of an instance have the names that the scheme gives to those they stand for.
pub proof fn instances_keep_declared_names(c: ContextModel, s: SchemeModel, k: int)
    requires
        0 <= k < s.vars.len(),
        s.names.len() == s.vars.len(),
        s.names[k].len() > 0,
        c.next_var + s.vars.len() <= u32::MAX,
        forall|i: int, j: int| 0 <= i < j < s.vars.len() ==> s.vars[i] != s.vars[j],
        forall|i: int| 0 <= i < s.vars.len() ==> (#[trigger] s.vars[i]).0 < c.next_var,
    ensures
        ({
            let r = crate::context_solve::instantiated(c, s);
            let v = TypeVar((c.next_var + k) as u32);
            &&& r.next_var == c.next_var + s.vars.len()
            &&& r.var_names.dom().contains(v)
            &&& r.var_names[v] == s.names[k]
        }),
{
    lemma_tagged(c.var_names, s, c.next_var as nat, s.vars.len(), k);
}

proof fn lemma_tagged(
    names: Map<TypeVar, Seq<char>>,
    s: SchemeModel,
    start: nat,
    n: nat,
    k: int,
)
    requires
        0 <= k < n,
        n <= s.vars.len(),
        s.names.len() == s.vars.len(),
        s.names[k].len() > 0,
        start + s.vars.len() <= u32::MAX,
        forall|i: int, j: int| 0 <= i < j < s.vars.len() ==> s.vars[i] != s.vars[j],
        forall|i: int| 0 <= i < s.vars.len() ==> (#[trigger] s.vars[i]).0 < start,
    ensures
        ({
            let r = crate::context_solve::names_tagged(names, s, start, n);
            let v = TypeVar((start + k) as u32);
            r.dom().contains(v) && r[v] == s.names[k]
        }),
    decreases n,
{
    crate::writing_laws::instances_rename_in_order(s, start, n - 1);
    if k < n - 1 {
        lemma_tagged(names, s, start, (n - 1) as nat, k);
    }
}

/// A call is on the stack under the name of its function, or as a closure where it has none, with
/// the place where it was made, on top of those before it.
pub proof fn calls_are_on_the_stack(w: World, code: ClosureCode, span: SpanModel)
    ensures
        ({
            let label = crate::semantics::frame_label(code);
            let pushed = crate::machine::frame_pushed(w, label, span);
            &&& code is Closure && code->Closure_0.name is None ==> label == "<closure>"@
            &&& code is Closure && code->Closure_0.name is Some ==> label
                == code->Closure_0.name->Some_0@
            &&& code is Fun ==> label == code->Fun_0.name@
            &&& pushed.stack == w.stack.push(FrameModel { fn_name: label, call_site: span })
            &&& crate::machine::frame_popped(pushed).stack == w.stack
            &&& pushed.store == w.store
        }),
{
    let label = crate::semantics::frame_label(code);
    let pushed = crate::machine::frame_pushed(w, label, span);
    assert(pushed.stack.drop_last() =~= w.stack);
}

/// Nothing is written through a shared reference, and what is behind an exclusive one is written in
/// its own cell, while the reference stays.
pub proof fn shared_references_are_not_written_through(
    s: StoreModel,
    c: CellId,
    path: Seq<SegmentModel>,
    new: ValueTerm,
    span: SpanModel,
    n: nat,
)
    requires
        path.len() > 0,
        c.0 < s.cells.len(),
    ensures
        ({
            let shared = ValueTerm { head: ValueHead::Reference(c), args: Seq::empty() };
            let exclusive = ValueTerm { head: ValueHead::MutReference(c), args: Seq::empty() };
            let write = |v: ValueTerm, k: nat| crate::reach::path_written(s, v, path, new, span, k);
            let behind = crate::reach::path_written(s, s.cells[c.0 as int], path, new, span, n);
            &&& write(shared, n) == Err::<(StoreModel, ValueTerm), StopModel>(
                StopModel::Error(
                    ErrorModel::Runtime(
                        RuntimeErrorCode::R0003,
                        "cannot write through a shared reference"@,
                        span,
                        Seq::empty(),
                    ),
                ),
            )
            &&& behind matches Err(e) ==> write(exclusive, n + 1) == Err::<
                (StoreModel, ValueTerm),
                StopModel,
            >(e)
            &&& behind matches Ok((t, x)) ==> write(exclusive, n + 1) is Ok && write(
                exclusive,
                n + 1,
            )->Ok_0.1 == exclusive && (c.0 < t.cells.len() ==> write(exclusive, n + 1)->Ok_0.0 == (
            StoreModel { cells: t.cells.update(c.0 as int, x), ..t }))
        }),
{
}

/// A program starts with nothing in its store and no calls.
pub proof fn programs_start_fresh(collect: bool, w: World)
    ensures
        ({
            let f = crate::machine::fresh(collect, w);
            &&& f.store.cells.len() == 0 && f.store.arrays.len() == 0 && f.store.closures.len() == 0
            &&& f.stack.len() == 0
            &&& f.profiler is Some <==> collect
            &&& f.tape == w.tape && f.at == w.at
        }),
{
}

/// The host answers what is asked next and nothing else, and each answer is taken once.
pub proof fn answers_are_taken_in_order(w: World, task: crate::host::TaskModel)
    ensures
        ({
            let (u, reply) = crate::machine::asked(w, task);
            let next = w.tape[w.at as int];
            let fits = w.at < w.tape.len() && next.task == task && next.store == w.store;
            &&& fits ==> reply == Some(next.reply) && u.at == w.at + 1
            &&& !fits ==> reply is None && u.at == w.at
            &&& u.store == w.store && u.stack == w.stack && u.tape == w.tape
        }),
{
}

/// Functions are written by what they are.
pub proof fn functions_are_written_by_kind(
    s: StoreModel,
    id: ClosureId,
    label: Seq<char>,
    fun: crate::native_keys::NativeFn,
    n: nat,
)
    ensures
        ({
            let closure = ValueTerm {
                head: ValueHead::Callable(CallableModel::Closure(id)),
                args: Seq::empty(),
            };
            let intrinsic = ValueTerm {
                head: ValueHead::Callable(CallableModel::Intrinsic(label, fun)),
                args: Seq::empty(),
            };
            &&& crate::display::shown(s, closure, n) == Some(
                seq![crate::display::PieceModel::Text("<closure>"@)],
            )
            &&& crate::display::shown(s, intrinsic, n) == Some(
                seq![crate::display::PieceModel::Text("<intrinsic:"@ + label + ">"@)],
            )
        }),
{
}

/// The kinds of values have different numbers.
pub proof fn kinds_are_numbered_apart(a: ValueHead, b: ValueHead)
    requires
        crate::semantics::kind_number(a) == crate::semantics::kind_number(b),
    ensures
        a is Int <==> b is Int,
        a is Int ==> a->Int_0 == b->Int_0,
        a is Float <==> b is Float,
        a is Char <==> b is Char,
        a is Boolean <==> b is Boolean,
        a is Str <==> b is Str,
        a is Unit <==> b is Unit,
        a is Tuple <==> b is Tuple,
        a is Array <==> b is Array,
        a is Record <==> b is Record,
        a is Struct <==> b is Struct,
        a is Enum <==> b is Enum,
        a is Callable <==> b is Callable,
        a is Reference <==> b is Reference,
        a is MutReference <==> b is MutReference,
        a is Dyn <==> b is Dyn,
{
}

/// A value is shown inside with the name of its kind before it.
pub proof fn values_are_shown_with_their_kind(v: ValueTerm)
    ensures
        ({
            let t = crate::inspect::inspected(v);
            &&& v.head is Unit ==> t == "Unit"@
            &&& v.head == ValueHead::Boolean(true) ==> t == "Boolean"@ + "("@ + "true"@ + ")"@
            &&& v.head matches ValueHead::Int(IntKind::I64, n) ==> t == "I64"@ + "("@
                + crate::text::signed_decimal(n) + ")"@
            &&& v.head matches ValueHead::Int(IntKind::U8, n) ==> t == "U8"@ + "("@
                + crate::text::signed_decimal(n) + ")"@
            &&& v.head matches ValueHead::Str(s) ==> t == "Str"@ + "("@ + crate::strings::quoted(s)
                + ")"@
            &&& v.head matches ValueHead::Reference(c) ==> t == "Reference"@ + "("@ + ("CellId"@
                + "("@ + crate::text::decimal(c.0 as nat) + ")"@) + ")"@
        }),
{
    assert(crate::inspect::inspected(v) == crate::inspect::frame(
        v.head,
        crate::inspect::parts_inspected(v),
    ));
}

/// What is left of a value is reported in the same way on either side.
pub proof fn partial_moves_are_reported_on_either_side(
    a: Term,
    b: Term,
    span: SpanModel,
    operator: Option<Seq<char>>,
    known: Map<TypeVar, Seq<char>>,
)
    requires
        a.head is Residual,
        b.head is Named,
        b.head->Named_0 == a.head->Residual_0,
    ensures
        crate::constraints::mismatch(b, a, span, operator, known) == crate::constraints::mismatch(
            a,
            b,
            span,
            operator,
            known,
        ),
        crate::constraints::mismatch(a, b, span, operator, known)->Type_0 is T0001,
{
}

/// What is known of a variable takes in the bounds of every variable of its class.
pub proof fn bounds_of_the_class_count(
    list: Seq<BoundModel>,
    bounds: Map<TypeVar, Seq<BoundModel>>,
    m: Map<TypeVar, Term>,
    order: Seq<TypeVar>,
    tv: TypeVar,
    root: TypeVar,
    k: nat,
    b: BoundModel,
)
    requires
        k <= order.len(),
    ensures
        crate::context_state::with_class(list, bounds, m, order, tv, root, k).contains(b)
            <==> list.contains(b) || exists|i: int|
            0 <= i < k && #[trigger] order[i] != tv && order[i] != root
                && crate::context_state::representative(m, order[i]) == root
                && bounds[order[i]].contains(b),
    decreases k,
{
    if k > 0 {
        bounds_of_the_class_count(list, bounds, m, order, tv, root, (k - 1) as nat, b);
        let prev = crate::context_state::with_class(
            list,
            bounds,
            m,
            order,
            tv,
            root,
            (k - 1) as nat,
        );
        let c = order[k - 1];
        let taken = c != tv && c != root && crate::context_state::representative(m, c) == root;
        if taken {
            let more = bounds[c];
            crate::message_laws::lemma_with_bounds(prev, more, more.len(), b);
            assert(more.take(more.len() as int) =~= more);
        }
        if exists|i: int|
            0 <= i < k && #[trigger] order[i] != tv && order[i] != root
                && crate::context_state::representative(m, order[i]) == root
                && bounds[order[i]].contains(b) {
            let i = choose|i: int|
                0 <= i < k && #[trigger] order[i] != tv && order[i] != root
                    && crate::context_state::representative(m, order[i]) == root
                    && bounds[order[i]].contains(b);
            if i < k - 1 {
                assert(0 <= i < k - 1 && order[i] != tv);
            }
        }
    }
}

/// Texts are put in capital or small letters as Unicode has them.
pub proof fn letters_change_their_case(
    s: StoreModel,
    a: Seq<char>,
    span: SpanModel,
    n: nat,
)
    ensures
        crate::text_laws::call(
            s,
            crate::native_keys::NativeKey::StdCoreStringToUpper,
            seq![crate::text_laws::text(a)],
            span,
            n,
        ) == crate::text_laws::given(s, crate::text_laws::text(crate::strings::uppercased(a))),
        crate::text_laws::call(
            s,
            crate::native_keys::NativeKey::StdCoreStringToLower,
            seq![crate::text_laws::text(a)],
            span,
            n,
        ) == crate::text_laws::given(s, crate::text_laws::text(crate::strings::lowercased(a))),
{
}

} // verus!
