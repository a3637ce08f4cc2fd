//! The type variables of an inference type.

use crate::infer_type::InferType;
use crate::table::KeySet;
use crate::term::{Head, TypeVar};
use vstd::prelude::*;

verus! {

/// Returns true if `var` appears anywhere inside `ty`.
pub fn occurs_in(var: TypeVar, ty: &InferType) -> (b: bool)
    ensures
        b == crate::term::occurs(var, ty.term()),
    decreases ty.term(),
{
    if let InferType::Var(v) = ty {
        return v.0 == var.0;
    }
    let n: u128 = ty.arity();
    let mut i: u128 = 0;
    while i < n
        invariant
            i <= n,
            n == ty.term().args.len(),
            !(ty.term().head is Var),
            forall|j: int| 0 <= j < i ==> !crate::term::occurs(var, #[trigger] ty.term().args[j]),
        decreases n - i,
    {
        let c = ty.child(i);
        if occurs_in(var, c) {
            assert(crate::term::occurs(var, ty.term().args[i as int]));
            return true;
        }
        i += 1;
    }
    false
}

/// Returns true if some type variable appears inside `ty`.
pub fn contains_type_var(ty: &InferType) -> (b: bool)
    ensures
        b == exists|v: TypeVar| crate::term::occurs(v, ty.term()),
    decreases ty.term(),
{
    if let InferType::Var(v) = ty {
        assert(crate::term::occurs(*v, ty.term()));
        return true;
    }
    let n: u128 = ty.arity();
    let mut i: u128 = 0;
    while i < n
        invariant
            i <= n,
            n == ty.term().args.len(),
            !(ty.term().head is Var),
            forall|j: int, v: TypeVar|
                0 <= j < i ==> !(#[trigger] crate::term::occurs(v, ty.term().args[j])),
        decreases n - i,
    {
        let c = ty.child(i);
        if contains_type_var(c) {
            proof {
                let v = choose|v: TypeVar| crate::term::occurs(v, c.term());
                assert(crate::term::occurs(v, ty.term().args[i as int]));
                assert(crate::term::occurs(v, ty.term()));
            }
            return true;
        }
        i += 1;
    }
    proof {
        assert forall|v: TypeVar| !crate::term::occurs(v, ty.term()) by {
            if crate::term::occurs(v, ty.term()) {
                let j = choose|j: int|
                    0 <= j < n && crate::term::occurs(v, #[trigger] ty.term().args[j]);
                assert(!crate::term::occurs(v, ty.term().args[j]));
            }
        }
    }
    false
}

/// Collect all type variables that appear free in `ty`.
pub fn collect_free_vars(ty: &InferType, vars: &mut KeySet<TypeVar>)
    ensures
        final(vars)@ == old(vars)@.union(crate::term::vars(ty.term())),
    decreases ty.term(),
{
    if let InferType::Var(v) = ty {
        vars.insert(*v);
        proof {
            assert(vars@ =~= old(vars)@.union(crate::term::vars(ty.term())));
        }
        return;
    }
    let n: u128 = ty.arity();
    let mut i: u128 = 0;
    while i < n
        invariant
            i <= n,
            n == ty.term().args.len(),
            !(ty.term().head is Var),
            forall|v: TypeVar| #[trigger]
                vars@.contains(v) <==> old(vars)@.contains(v) || exists|j: int|
                    0 <= j < i && crate::term::occurs(v, #[trigger] ty.term().args[j]),
        decreases n - i,
    {
        let c = ty.child(i);
        let ghost before = vars@;
        collect_free_vars(c, vars);
        proof {
            assert forall|v: TypeVar| #[trigger] vars@.contains(v) <==> old(vars)@.contains(v)
                || exists|j: int|
                0 <= j < i + 1 && crate::term::occurs(v, #[trigger] ty.term().args[j]) by {
                assert(vars@.contains(v) <==> before.contains(v) || crate::term::occurs(
                    v,
                    ty.term().args[i as int],
                ));
            }
        }
        i += 1;
    }
    proof {
        assert(vars@ =~= old(vars)@.union(crate::term::vars(ty.term())));
    }
}

pub fn free_vars(ty: &InferType) -> (s: KeySet<TypeVar>)
    ensures
        s@ == crate::term::vars(ty.term()),
{
    let mut vars: KeySet<TypeVar> = KeySet::new();
    collect_free_vars(ty, &mut vars);
    proof {
        assert(vars@ =~= crate::term::vars(ty.term()));
    }
    vars
}

/// A term has finitely many variables.
pub proof fn lemma_vars_finite(t: crate::term::Term)
    ensures
        crate::term::vars(t).finite(),
    decreases t, t.args.len() + 1,
{
    match t.head {
        Head::Var(v) => {
            assert(crate::term::vars(t) =~= Set::<TypeVar>::empty().insert(v));
        },
        _ => {
            lemma_args_vars_finite(t, t.args.len() as int);
            assert(crate::term::vars(t) =~= vars_upto(t, t.args.len() as int));
        },
    }
}

/// The variables of the first `k` components.
pub open spec fn vars_upto(t: crate::term::Term, k: int) -> Set<TypeVar> {
    Set::new(
        |v: TypeVar| exists|j: int| 0 <= j < k && crate::term::occurs(v, #[trigger] t.args[j]),
    )
}

proof fn lemma_args_vars_finite(t: crate::term::Term, k: int)
    requires
        0 <= k <= t.args.len(),
    ensures
        vars_upto(t, k).finite(),
    decreases t, k,
{
    if k == 0 {
        assert(vars_upto(t, k) =~= Set::<TypeVar>::empty());
    } else {
        lemma_args_vars_finite(t, k - 1);
        lemma_vars_finite(t.args[k - 1]);
        assert(vars_upto(t, k) =~= vars_upto(t, k - 1).union(crate::term::vars(t.args[k - 1])));
    }
}

} // verus!
