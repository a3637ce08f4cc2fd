//! Which types fit each other although they differ, and which do not.

use crate::constraints::ConstraintModel;
use crate::term::{Head, Term, TypeVar};
use crate::types::{CallMultiplicity, CallMutation, UseMultiplicity};
use vstd::prelude::*;

verus! {

/// Whether two types unify.
pub open spec fn fits(a: Term, b: Term) -> bool {
    crate::unify_model::unify_of(a, b) is Ok
}

pub open spec fn function(
    calls: CallMultiplicity,
    uses: UseMultiplicity,
    mutation: CallMutation,
    parts: Seq<Term>,
) -> Term {
    Term { head: Head::Fun(calls, uses, mutation), args: parts }
}

/// Whether no variable occurs in any type of a list, and all are well formed.
pub open spec fn closed(ts: Seq<Term>) -> bool {
    forall|i: int|
        0 <= i < ts.len() ==> crate::inference_laws::shaped(#[trigger] ts[i]) && (forall|v: TypeVar|
         !crate::term::occurs(v, ts[i]))
}

proof fn lemma_same_axes(t: Term, first_order: bool)
    ensures
        crate::unify_model::axes_match(t, t, first_order),
    decreases t,
{
    assert forall|i: int| 0 <= i < t.args.len() implies crate::unify_model::axes_match(
        #[trigger] t.args[i],
        t.args[i],
        first_order && !(t.head is Fun),
    ) by {
        lemma_same_axes(t.args[i], first_order && !(t.head is Fun));
    }
}

proof fn lemma_same_components(a: Term, b: Term, i: int)
    requires
        a.args == b.args,
        a.head is Fun && b.head is Fun || !(a.head is Fun || a.head is Record || a.head is Residual),
        closed(a.args),
        0 <= i <= a.args.len(),
    ensures
        crate::unify_model::unify_args_of(a, b, i, crate::unify_model::nothing()) == Ok::<
            Map<TypeVar, Term>,
            Seq<char>,
        >(crate::unify_model::nothing()),
    decreases a.args.len() - i,
{
    let none = crate::unify_model::nothing();
    if i < a.args.len() {
        lemma_same_axes(a.args[i], true);
        crate::subst_model::lemma_apply_unbound(none, a.args[i]);
        crate::inference_laws::unifying_a_type_with_itself(a.args[i]);
        assert(crate::subst_model::composed(none, none) =~= none);
        lemma_same_components(a, b, i + 1);
    }
}

proof fn lemma_no_variables(t: Term)
    requires
        closed(t.args),
        !(t.head is Var),
    ensures
        !crate::unify_model::has_var(t),
{
    assert forall|v: TypeVar| !crate::term::occurs(v, t) by {
        if crate::term::occurs(v, t) {
            let i = choose|i: int|
                0 <= i < t.args.len() && crate::term::occurs(v, #[trigger] t.args[i]);
            assert(!crate::term::occurs(v, t.args[i]));
        }
    }
}

/// Of two functions with the same parameters and result, one can stand for the other exactly
/// if it can be called as often, and changes nothing where nothing may change. How often it
/// can be used makes no difference.
pub proof fn functions_fit_by_their_calls(
    calls: CallMultiplicity,
    uses: UseMultiplicity,
    mutation: CallMutation,
    want_calls: CallMultiplicity,
    want_uses: UseMultiplicity,
    want_mutation: CallMutation,
    parts: Seq<Term>,
)
    requires
        closed(parts),
    ensures
        fits(
            function(calls, uses, mutation, parts),
            function(want_calls, want_uses, want_mutation, parts),
        ) <==> !(calls is Once && want_calls is Many) && !(mutation is Mutating
            && want_mutation is Reading),
{
    let a = function(calls, uses, mutation, parts);
    let b = function(want_calls, want_uses, want_mutation, parts);
    crate::unify_model::lemma_unify_unfold(a, b);
    lemma_no_variables(a);
    lemma_no_variables(b);
    lemma_same_components(a, b, 0);
}

/// Functions that take different numbers of parameters never fit.
pub proof fn functions_fit_by_their_parameters(
    calls: CallMultiplicity,
    uses: UseMultiplicity,
    mutation: CallMutation,
    a: Seq<Term>,
    b: Seq<Term>,
)
    requires
        a.len() != b.len(),
    ensures
        !fits(function(calls, uses, mutation, a), function(calls, uses, mutation, b)),
{
    let s = function(calls, uses, mutation, a);
    let t = function(calls, uses, mutation, b);
    crate::unify_model::lemma_unify_unfold(s, t);
}

/// Inside a function type another one is taken as it is written: it must be called alike. Only
/// one that moves may be written where one that copies is asked for.
pub proof fn parameters_fit_by_their_calls(
    outer: (CallMultiplicity, UseMultiplicity, CallMutation),
    f: (CallMultiplicity, UseMultiplicity, CallMutation),
    g: (CallMultiplicity, UseMultiplicity, CallMutation),
    parts: Seq<Term>,
    result: Term,
)
    requires
        closed(parts),
        closed(seq![result]),
    ensures
        ({
            let p = function(f.0, f.1, f.2, parts);
            let q = function(g.0, g.1, g.2, parts);
            let a = function(outer.0, outer.1, outer.2, seq![p, result]);
            let b = function(outer.0, outer.1, outer.2, seq![q, result]);
            fits(a, b) <==> f.0 == g.0 && f.2 == g.2 && (f.1 == g.1 || (f.1 is Move && g.1 is Copy))
        }),
{
    let p = function(f.0, f.1, f.2, parts);
    let q = function(g.0, g.1, g.2, parts);
    let a = function(outer.0, outer.1, outer.2, seq![p, result]);
    let b = function(outer.0, outer.1, outer.2, seq![q, result]);
    let none = crate::unify_model::nothing();
    crate::unify_model::lemma_unify_unfold(a, b);
    assert(a.args[0] == p && a.args[1] == result);
    assert(b.args[0] == q && b.args[1] == result);
    lemma_no_variables(p);
    lemma_no_variables(q);
    assert(crate::unify_model::axes_match(p, q, true) == (f.0 == g.0 && f.2 == g.2 && (f.1 == g.1
        || (f.1 is Move && g.1 is Copy)))) by {
        assert forall|i: int| 0 <= i < parts.len() implies crate::unify_model::axes_match(
            #[trigger] p.args[i],
            q.args[i],
            false,
        ) by {
            lemma_same_axes(parts[i], false);
        }
    }
    assert(seq![result][0] == result);
    crate::subst_model::lemma_apply_unbound(none, p);
    crate::subst_model::lemma_apply_unbound(none, q);
    crate::subst_model::lemma_apply_unbound(none, result);
    assert(crate::subst_model::composed(none, none) =~= none);
    if crate::unify_model::axes_match(p, q, true) {
        crate::unify_model::lemma_unify_unfold(p, q);
        lemma_same_components(p, q, 0);
        crate::inference_laws::unifying_a_type_with_itself(result);
        lemma_same_axes(result, true);
        assert(crate::unify_model::unify_args_of(a, b, 2, none) == Ok::<
            Map<TypeVar, Term>,
            Seq<char>,
        >(none));
        assert(crate::unify_model::unify_args_of(a, b, 1, none) == Ok::<
            Map<TypeVar, Term>,
            Seq<char>,
        >(none));
        assert(crate::unify_model::unify_args_of(a, b, 0, none) == Ok::<
            Map<TypeVar, Term>,
            Seq<char>,
        >(none));
    } else {
        assert(crate::unify_model::unify_args_of(a, b, 0, none) is Err);
    }
}

/// An array of known length and one of any length fit each other where their elements do, and
/// so do shared and exclusive references. Arrays of different known lengths do not.
pub proof fn lengths_and_exclusiveness_may_be_dropped(t: Term, n: u64, m: u64)
    requires
        closed(seq![t]),
    ensures
        ({
            let array = Term { head: Head::Array, args: seq![t] };
            let sized = Term { head: Head::SizedArray(n), args: seq![t] };
            let other = Term { head: Head::SizedArray(m), args: seq![t] };
            let shared = Term { head: Head::Reference, args: seq![t] };
            let exclusive = Term { head: Head::MutReference, args: seq![t] };
            &&& fits(array, sized) && fits(sized, array) && fits(sized, sized)
            &&& fits(shared, exclusive) && fits(exclusive, shared)
            &&& n != m ==> !fits(sized, other)
            &&& !fits(array, shared) && !fits(shared, array)
        }),
{
    let array = Term { head: Head::Array, args: seq![t] };
    let sized = Term { head: Head::SizedArray(n), args: seq![t] };
    let other = Term { head: Head::SizedArray(m), args: seq![t] };
    let shared = Term { head: Head::Reference, args: seq![t] };
    let exclusive = Term { head: Head::MutReference, args: seq![t] };
    assert(seq![t][0] == t);
    crate::unify_model::lemma_unify_unfold(array, sized);
    crate::unify_model::lemma_unify_unfold(sized, array);
    crate::unify_model::lemma_unify_unfold(sized, sized);
    crate::unify_model::lemma_unify_unfold(sized, other);
    crate::unify_model::lemma_unify_unfold(shared, exclusive);
    crate::unify_model::lemma_unify_unfold(exclusive, shared);
    crate::unify_model::lemma_unify_unfold(array, shared);
    crate::unify_model::lemma_unify_unfold(shared, array);
    lemma_same_components(array, sized, 0);
    lemma_same_components(sized, array, 0);
    lemma_same_components(shared, exclusive, 0);
    lemma_same_components(exclusive, shared, 0);
    crate::inference_laws::unifying_a_type_with_itself(t);
}

/// Types of different kinds never fit: a tuple, a record, a named type, a function, a primitive
/// type and a reference are each of their own kind. Of one kind, tuples fit only where they
/// have as many components, named types only under one name and with as many arguments, and
/// records only with the same labels in the same places.
pub proof fn kinds_and_names_must_be_the_same(a: Term, b: Term)
    requires
        fits(a, b),
        !(a.head is Var || b.head is Var || a.head is Never || b.head is Never),
    ensures
        a.head is Tuple <==> b.head is Tuple,
        a.head is Record <==> b.head is Record,
        a.head is Named <==> b.head is Named,
        a.head is Fun <==> b.head is Fun,
        a.head is Concrete <==> b.head is Concrete,
        a.head is Residual <==> b.head is Residual,
        a.head is Dyn <==> b.head is Dyn,
        (a.head is Array || a.head is SizedArray) <==> (b.head is Array || b.head is SizedArray),
        (a.head is Reference || a.head is MutReference) <==> (b.head is Reference
            || b.head is MutReference),
        a.head is Tuple ==> a.args.len() == b.args.len(),
        a.head is Named ==> a.args.len() == b.args.len() && a.head->Named_0 == b.head->Named_0,
        a.head is Dyn ==> a.args.len() == b.args.len() && a.head->Dyn_0 == b.head->Dyn_0,
        a.head is Residual ==> a.args.len() == b.args.len() && a.head->Residual_0
            == b.head->Residual_0,
        a.head is Record ==> a.args.len() == b.args.len() && forall|i: int|
            0 <= i < a.args.len() ==> #[trigger] a.head->Record_0[i] == b.head->Record_0[i],
        a.head is Residual ==> forall|i: int|
            0 <= i < a.args.len() ==> #[trigger] a.head->Residual_1[i] == b.head->Residual_1[i],
{
    crate::unify_model::lemma_unify_unfold(a, b);
    if a.head is Record || a.head is Residual {
        lemma_labels_alike(a, b, 0, crate::unify_model::nothing());
    }
}

proof fn lemma_labels_alike(a: Term, b: Term, i: int, acc: Map<TypeVar, Term>)
    requires
        0 <= i <= a.args.len(),
        crate::unify_model::unify_args_of(a, b, i, acc) is Ok,
        (a.head is Record && b.head is Record) || (a.head is Residual && b.head is Residual),
    ensures
        a.head is Record ==> forall|k: int|
            i <= k < a.args.len() ==> #[trigger] a.head->Record_0[k] == b.head->Record_0[k],
        a.head is Residual ==> forall|k: int|
            i <= k < a.args.len() ==> #[trigger] a.head->Residual_1[k] == b.head->Residual_1[k],
    decreases a.args.len() - i,
{
    if i < a.args.len() {
        let s = crate::unify_model::unify_of(
            crate::subst_model::apply(acc, a.args[i]),
            crate::subst_model::apply(acc, b.args[i]),
        )->Ok_0;
        lemma_labels_alike(a, b, i + 1, crate::subst_model::composed(acc, s));
    }
}

/// A constraint between types that do not fit is reported where it stands: as a misused
/// operator if it comes from one, and as types that differ otherwise, or as a value that has
/// been moved in part.
pub proof fn failed_constraints_are_reported(
    m: Map<TypeVar, Term>,
    c: ConstraintModel,
    known: Map<TypeVar, Seq<char>>,
)
    requires
        crate::constraints::constrained(m, c, known) is Err,
    ensures
        ({
            let lhs = crate::subst_model::apply(m, c.lhs);
            let rhs = crate::subst_model::apply(m, c.rhs);
            let e = crate::constraints::constrained(m, c, known)->Err_0;
            let moved = lhs.head is Residual || rhs.head is Residual;
            &&& !fits(lhs, rhs)
            &&& e is Type
            &&& e->Type_2 == c.span
            &&& e->Type_0 is T0001 || e->Type_0 is T0005
            &&& !moved ==> (e->Type_0 is T0005 <==> c.operator is Some)
            &&& c.operator is None ==> e->Type_0 is T0001
        }),
{
}

} // verus!
