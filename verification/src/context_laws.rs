//! What holds of scopes, of variables that are given out, and of repeated solving.

use crate::context::ContextModel;
use crate::error::ErrorModel;
use crate::schemes::SchemeModel;
use crate::term::{Term, TypeVar};
use vstd::prelude::*;

verus! {

/// One binding that is made in a scope.
pub enum ScopeStep {
    Mono(Seq<char>, Term, bool),
    Poly(Seq<char>, SchemeModel),
    PolyIfAbsent(Seq<char>, SchemeModel),
}

/// The context after a binding has been made.
pub open spec fn stepped(c: ContextModel, step: ScopeStep) -> ContextModel {
    match step {
        ScopeStep::Mono(name, ty, is_mutable) => crate::context::mono_bound(
            c,
            name,
            ty,
            is_mutable,
        ),
        ScopeStep::Poly(name, scheme) => crate::context::poly_bound(c, name, scheme),
        ScopeStep::PolyIfAbsent(name, scheme) => crate::context::poly_bound_if_absent(
            c,
            name,
            scheme,
        ),
    }
}

/// The context after the first `k` bindings have been made.
pub open spec fn all_stepped(c: ContextModel, steps: Seq<ScopeStep>, k: nat) -> ContextModel
    decreases k,
{
    if k == 0 || k > steps.len() {
        c
    } else {
        stepped(all_stepped(c, steps, (k - 1) as nat), steps[k - 1])
    }
}

proof fn lemma_outer_scopes_stay(c: ContextModel, steps: Seq<ScopeStep>, k: nat)
    requires
        k <= steps.len(),
    ensures
        ({
            let inner = all_stepped(crate::context::scope_entered(c), steps, k);
            &&& inner.mono.len() == c.mono.len() + 1
            &&& inner.poly.len() == c.poly.len() + 1
            &&& crate::context::scope_left(inner) == c
        }),
    decreases k,
{
    let inner = all_stepped(crate::context::scope_entered(c), steps, k);
    if k > 0 {
        lemma_outer_scopes_stay(c, steps, (k - 1) as nat);
        let prev = all_stepped(crate::context::scope_entered(c), steps, (k - 1) as nat);
        assert(inner.mono.drop_last() =~= prev.mono.drop_last());
        assert(inner.poly.drop_last() =~= prev.poly.drop_last());
    } else {
        assert(inner.mono.drop_last() =~= c.mono);
        assert(inner.poly.drop_last() =~= c.poly);
    }
}

/// A scope leaves nothing behind: whatever is bound in it, the context after it is the
/// context before it, and so every name, and every variable of the environment, is
/// found as before.
pub proof fn bindings_end_with_their_scope(c: ContextModel, steps: Seq<ScopeStep>)
    ensures
        crate::context::scope_left(
            all_stepped(crate::context::scope_entered(c), steps, steps.len()),
        ) == c,
{
    lemma_outer_scopes_stay(c, steps, steps.len());
}

/// Whether variables are drawn from a generator one after the other: `counters[i]` is
/// what it stands at before the draw `i`, and it never goes back.
pub open spec fn draws(counters: Seq<u32>) -> bool {
    &&& forall|i: int| 0 <= i < counters.len() ==> (#[trigger] counters[i]) < u32::MAX
    &&& forall|i: int|
        0 < i < counters.len() ==> counters[i - 1] + 1 <= #[trigger] counters[i]
}

/// Variables, each numbered by the counter that it is drawn at, are given out in
/// increasing order, and none is given out twice.
pub proof fn variables_are_given_out_once(counters: Seq<u32>, i: int, j: int)
    requires
        draws(counters),
        0 <= i < j < counters.len(),
    ensures
        counters[i] < counters[j],
        TypeVar(counters[i]) != TypeVar(counters[j]),
    decreases j - i,
{
    if i + 1 < j {
        variables_are_given_out_once(counters, i, j - 1);
    }
}

/// Once solving has succeeded, nothing is outstanding. Solving again with nothing added
/// comes to an end, succeeds, gives the same bindings, and counts no constraint.
pub proof fn solving_without_news_changes_nothing(
    c: ContextModel,
    bindings: Map<TypeVar, Term>,
    again: Map<TypeVar, Term>,
    r: Result<(), ErrorModel>,
)
    requires
        c.solved <= c.constraints.len() <= usize::MAX,
        c.stats.constraints_processed + crate::context_solve::outstanding(c) <= u64::MAX,
        crate::context_solve::solving(
            crate::context_solve::solve_succeeded(c, bindings),
            again,
            r,
        ),
    ensures
        ({
            let after = crate::context_solve::solve_succeeded(c, bindings);
            &&& crate::context_solve::outstanding(after) == 0
            &&& after.stats.constraints_processed == c.stats.constraints_processed
                + crate::context_solve::outstanding(c)
            &&& crate::context_solve::solving_settles(after)
            &&& r is Ok
            &&& again == bindings
            &&& crate::context_solve::solve_succeeded(after, again).stats.constraints_processed
                == after.stats.constraints_processed
        }),
{
}

/// After a failed solve as many constraints are outstanding as before, and they are the
/// same ones: the next solve begins with them again, from the bindings that are left.
/// Only the number of calls has grown.
pub proof fn failed_solves_are_repeated(
    c: ContextModel,
    bindings: Map<TypeVar, Term>,
    again: Map<TypeVar, Term>,
    r: Result<(), ErrorModel>,
)
    requires
        c.stats.solve_calls < u64::MAX,
    ensures
        ({
            let after = crate::context_solve::solve_failed(c, bindings);
            &&& after.stats.solve_calls == c.stats.solve_calls + 1
            &&& after.stats.constraints_processed == c.stats.constraints_processed
            &&& after.constraints == c.constraints
            &&& after.solved == c.solved
            &&& crate::context_solve::outstanding(after) == crate::context_solve::outstanding(c)
            &&& crate::context_solve::solving(after, again, r)
                == crate::context_solve::solved_from(
                c.registry,
                bindings,
                c.constraints,
                c.solved as int,
                crate::context_solve::watched(c),
                c.var_names,
                again,
                r,
            )
        }),
{
}

} // verus!
