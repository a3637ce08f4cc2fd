//! Substitutions that come to an end on every type, and what they do.

use crate::term::{Head, Term, TypeVar};
use vstd::prelude::*;

verus! {

/// Whether replacing comes to an end wherever it begins: following the bindings
/// never leads round in a circle.
pub open spec fn acyclic(m: Map<TypeVar, Term>) -> bool {
    forall|v: TypeVar| #[trigger] m.contains_key(v) ==> crate::subst_model::applies(m, m[v])
}

/// What each variable stands for in the end.
pub open spec fn ends(m: Map<TypeVar, Term>) -> Map<TypeVar, Term> {
    Map::new(|v: TypeVar| m.contains_key(v), |v: TypeVar| crate::subst_model::apply(m, m[v]))
}

proof fn lemma_common_count(m: Map<TypeVar, Term>, t: Term, k: nat) -> (n: nat)
    requires
        k <= t.args.len(),
        forall|i: int|
            0 <= i < t.args.len() ==> crate::subst_model::applies(m, #[trigger] t.args[i]),
    ensures
        forall|i: int| 0 <= i < k ==> crate::subst_model::settles(m, #[trigger] t.args[i], n),
    decreases k,
{
    if k == 0 {
        0
    } else {
        let a = lemma_common_count(m, t, (k - 1) as nat);
        let last = t.args[k - 1];
        assert(crate::subst_model::applies(m, last));
        let b = choose|b: nat| crate::subst_model::settles(m, last, b);
        let n = if a <= b {
            b
        } else {
            a
        };
        assert forall|i: int| 0 <= i < k implies crate::subst_model::settles(
            m,
            #[trigger] t.args[i],
            n,
        ) by {
            if i < k - 1 {
                crate::subst_model::lemma_settles_more(m, t.args[i], a, n);
            } else {
                crate::subst_model::lemma_settles_more(m, t.args[i], b, n);
            }
        }
        n
    }
}

/// Replacing comes to an end in a type if it does in all its components.
pub proof fn lemma_applies_args(m: Map<TypeVar, Term>, t: Term)
    requires
        !(t.head is Var),
        forall|i: int|
            0 <= i < t.args.len() ==> crate::subst_model::applies(m, #[trigger] t.args[i]),
    ensures
        crate::subst_model::applies(m, t),
{
    let n = lemma_common_count(m, t, t.args.len());
    assert(crate::subst_model::settles(m, t, n));
}

/// Replacing goes through the components of a type one by one.
pub proof fn lemma_apply_args(m: Map<TypeVar, Term>, t: Term)
    requires
        !(t.head is Var),
        crate::subst_model::applies(m, t),
    ensures
        crate::subst_model::apply(m, t).head == t.head,
        crate::subst_model::apply(m, t).args.len() == t.args.len(),
        forall|i: int|
            #![trigger t.args[i]]
            #![trigger crate::subst_model::apply(m, t).args[i]]
            0 <= i < t.args.len() ==> crate::subst_model::applies(m, t.args[i])
                && crate::subst_model::apply(m, t).args[i] == crate::subst_model::apply(
                m,
                t.args[i],
            ),
{
    let n = choose|n: nat| crate::subst_model::settles(m, t, n);
    assert forall|i: int| 0 <= i < t.args.len() implies crate::subst_model::applies(
        m,
        #[trigger] t.args[i],
    ) && crate::subst_model::apply(m, t).args[i] == crate::subst_model::apply(m, t.args[i]) by {
        assert(crate::subst_model::settles(m, t.args[i], n));
        crate::subst_model::lemma_apply_at(m, t.args[i], n);
    }
}

/// A bound variable stands for what its binding stands for.
pub proof fn lemma_apply_bound(m: Map<TypeVar, Term>, t: Term)
    requires
        t.head is Var,
        m.contains_key(t.head->Var_0),
        crate::subst_model::applies(m, m[t.head->Var_0]),
    ensures
        crate::subst_model::applies(m, t),
        crate::subst_model::apply(m, t) == crate::subst_model::apply(m, m[t.head->Var_0]),
{
    let x = m[t.head->Var_0];
    let n = choose|n: nat| crate::subst_model::settles(m, x, n);
    crate::subst_model::lemma_apply_at(m, x, n);
    assert(crate::subst_model::settles(m, t, n + 1));
    crate::subst_model::lemma_apply_at(m, t, n + 1);
}

/// A variable that is not bound stands for itself.
pub proof fn lemma_apply_free(m: Map<TypeVar, Term>, t: Term)
    requires
        t.head is Var,
        !m.contains_key(t.head->Var_0),
    ensures
        crate::subst_model::applies(m, t),
        crate::subst_model::apply(m, t) == t,
{
    assert(crate::subst_model::settles(m, t, 0));
    crate::subst_model::lemma_apply_at(m, t, 0);
}

/// Replacing comes to an end in every type.
pub proof fn lemma_acyclic_applies(m: Map<TypeVar, Term>, t: Term)
    requires
        acyclic(m),
    ensures
        crate::subst_model::applies(m, t),
    decreases t,
{
    match t.head {
        Head::Var(v) => {
            if m.contains_key(v) {
                lemma_apply_bound(m, t);
            } else {
                lemma_apply_free(m, t);
            }
        },
        _ => {
            assert forall|i: int| 0 <= i < t.args.len() implies crate::subst_model::applies(
                m,
                #[trigger] t.args[i],
            ) by {
                lemma_acyclic_applies(m, t.args[i]);
            }
            lemma_applies_args(m, t);
        },
    }
}

proof fn lemma_none_left_at(m: Map<TypeVar, Term>, t: Term, n: nat, v: TypeVar)
    requires
        crate::subst_model::settles(m, t, n),
        m.contains_key(v),
    ensures
        !crate::term::occurs(v, crate::subst_model::subst_at(m, t, n)),
    decreases n, t,
{
    match t.head {
        Head::Var(w) => {
            if m.contains_key(w) {
                lemma_none_left_at(m, m[w], (n - 1) as nat, v);
            }
        },
        _ => {
            let x = crate::subst_model::subst_at(m, t, n);
            assert forall|i: int| 0 <= i < x.args.len() implies !crate::term::occurs(
                v,
                #[trigger] x.args[i],
            ) by {
                assert(crate::subst_model::settles(m, t.args[i], n));
                lemma_none_left_at(m, t.args[i], n, v);
            }
        },
    }
}

/// Once replacing has come to an end, no bound variable is left.
pub proof fn lemma_none_left(m: Map<TypeVar, Term>, t: Term, v: TypeVar)
    requires
        crate::subst_model::applies(m, t),
        m.contains_key(v),
    ensures
        !crate::term::occurs(v, crate::subst_model::apply(m, t)),
{
    lemma_none_left_at(m, t, choose|n: nat| crate::subst_model::settles(m, t, n), v);
}

/// Solved bindings never lead round in a circle.
pub proof fn lemma_solved_acyclic(m: Map<TypeVar, Term>)
    requires
        crate::subst_model::solved(m),
    ensures
        acyclic(m),
{
    assert forall|v: TypeVar| #[trigger] m.contains_key(v) implies crate::subst_model::applies(
        m,
        m[v],
    ) by {
        crate::subst_model::lemma_solved_apply(m, m[v]);
    }
}

/// Replacing until nothing is left to replace is replacing each variable once by
/// what it stands for in the end.
pub proof fn lemma_ends(m: Map<TypeVar, Term>, t: Term)
    requires
        acyclic(m),
    ensures
        crate::subst_model::apply(m, t) == crate::subst_model::subst(ends(m), t),
    decreases t,
{
    lemma_acyclic_applies(m, t);
    match t.head {
        Head::Var(v) => {
            if m.contains_key(v) {
                lemma_apply_bound(m, t);
            } else {
                lemma_apply_free(m, t);
            }
        },
        _ => {
            lemma_apply_args(m, t);
            let x = crate::subst_model::subst(ends(m), t);
            assert forall|i: int| 0 <= i < t.args.len() implies crate::subst_model::apply(
                m,
                #[trigger] t.args[i],
            ) == x.args[i] by {
                lemma_ends(m, t.args[i]);
            }
            assert(crate::subst_model::apply(m, t).args =~= x.args);
        },
    }
}

/// Which variables are left after replacing: free ones of the type, and ones that
/// some binding mentions.
pub proof fn lemma_apply_occurs(m: Map<TypeVar, Term>, t: Term, w: TypeVar)
    requires
        acyclic(m),
        crate::term::occurs(w, crate::subst_model::apply(m, t)),
    ensures
        crate::term::occurs(w, t) || exists|v: TypeVar| #[trigger]
            m.contains_key(v) && crate::term::occurs(w, m[v]),
{
    lemma_acyclic_applies(m, t);
    lemma_occurs_at(m, t, choose|n: nat| crate::subst_model::settles(m, t, n), w);
}

proof fn lemma_occurs_at(m: Map<TypeVar, Term>, t: Term, n: nat, w: TypeVar)
    requires
        crate::term::occurs(w, crate::subst_model::subst_at(m, t, n)),
    ensures
        crate::term::occurs(w, t) || exists|v: TypeVar| #[trigger]
            m.contains_key(v) && crate::term::occurs(w, m[v]),
    decreases n, t,
{
    match t.head {
        Head::Var(v) => {
            if m.contains_key(v) && n > 0 {
                lemma_occurs_at(m, m[v], (n - 1) as nat, w);
                if crate::term::occurs(w, m[v]) {
                    assert(m.contains_key(v) && crate::term::occurs(w, m[v]));
                }
            }
        },
        _ => {
            let x = crate::subst_model::subst_at(m, t, n);
            let i = choose|i: int|
                0 <= i < x.args.len() && crate::term::occurs(w, #[trigger] x.args[i]);
            lemma_occurs_at(m, t.args[i], n, w);
            if crate::term::occurs(w, t.args[i]) {
                assert(crate::term::occurs(w, t));
            }
        },
    }
}

/// Whether `s` binds none of the variables that `m` binds and mentions.
pub open spec fn apart(m: Map<TypeVar, Term>, s: Map<TypeVar, Term>) -> bool {
    forall|v: TypeVar, w: TypeVar|
        #![trigger m.contains_key(v), s.contains_key(w)]
        m.contains_key(v) && crate::term::occurs(w, m[v]) && m.contains_key(w)
            ==> !s.contains_key(w)
}

spec fn composable(m: Map<TypeVar, Term>, s: Map<TypeVar, Term>) -> bool {
    acyclic(m) && acyclic(s) && crate::subst_model::avoids(s, m) && apart(m, s)
}

proof fn lemma_self_free(m: Map<TypeVar, Term>, v: TypeVar)
    requires
        acyclic(m),
        m.contains_key(v),
    ensures
        !crate::term::occurs(v, m[v]),
{
    if crate::term::occurs(v, m[v]) {
        let n = choose|n: nat| crate::subst_model::settles(m, m[v], n);
        lemma_circle(m, m[v], v, n);
    }
}

proof fn lemma_circle(m: Map<TypeVar, Term>, t: Term, v: TypeVar, n: nat)
    requires
        m.contains_key(v),
        crate::term::occurs(v, m[v]),
        crate::term::occurs(v, t),
    ensures
        !crate::subst_model::settles(m, t, n),
    decreases n, t,
{
    match t.head {
        Head::Var(w) => {
            if n > 0 {
                lemma_circle(m, m[v], v, (n - 1) as nat);
            }
        },
        _ => {
            let i = choose|i: int|
                0 <= i < t.args.len() && crate::term::occurs(v, #[trigger] t.args[i]);
            lemma_circle(m, t.args[i], v, n);
        },
    }
}

proof fn lemma_composed_binding(m: Map<TypeVar, Term>, s: Map<TypeVar, Term>, k: TypeVar)
    requires
        composable(m, s),
    ensures
        crate::subst_model::composed(m, s).contains_key(k) <==> m.contains_key(k)
            || s.contains_key(k),
        m.contains_key(k) ==> crate::subst_model::composed(m, s)[k] == crate::subst_model::apply(
            s,
            m[k],
        ),
        s.contains_key(k) && !m.contains_key(k) ==> crate::subst_model::composed(m, s)[k] == s[k],
{
    if m.contains_key(k) && crate::subst_model::apply(s, m[k]) == crate::term::var(k) {
        assert(crate::term::occurs(k, crate::subst_model::apply(s, m[k])));
        lemma_self_free(m, k);
        lemma_apply_occurs(s, m[k], k);
        let v = choose|v: TypeVar| #[trigger]
            s.contains_key(v) && crate::term::occurs(k, s[v]);
        assert(s.contains_key(v) && m.contains_key(k));
    }
}

/// Where no variable of a type is bound by `m`, composition does what `s` does.
proof fn lemma_composed_outside(
    m: Map<TypeVar, Term>,
    s: Map<TypeVar, Term>,
    t: Term,
    n: nat,
)
    requires
        composable(m, s),
        forall|v: TypeVar| m.contains_key(v) ==> !crate::term::occurs(v, t),
        crate::subst_model::settles(s, t, n),
    ensures
        crate::subst_model::settles(crate::subst_model::composed(m, s), t, n),
        crate::subst_model::subst_at(crate::subst_model::composed(m, s), t, n)
            == crate::subst_model::subst_at(s, t, n),
    decreases n, t,
{
    let c = crate::subst_model::composed(m, s);
    match t.head {
        Head::Var(v) => {
            assert(crate::term::occurs(v, t));
            lemma_composed_binding(m, s, v);
            if s.contains_key(v) {
                assert forall|w: TypeVar| m.contains_key(w) implies !crate::term::occurs(
                    w,
                    s[v],
                ) by {
                    assert(s.contains_key(v) && m.contains_key(w));
                }
                lemma_composed_outside(m, s, s[v], (n - 1) as nat);
            }
        },
        _ => {
            assert forall|i: int| 0 <= i < t.args.len() implies crate::subst_model::settles(
                c,
                #[trigger] t.args[i],
                n,
            ) && crate::subst_model::subst_at(c, t.args[i], n) == crate::subst_model::subst_at(
                s,
                t.args[i],
                n,
            ) by {
                assert forall|v: TypeVar| m.contains_key(v) implies !crate::term::occurs(
                    v,
                    t.args[i],
                ) by {
                    if crate::term::occurs(v, t.args[i]) {
                        assert(crate::term::occurs(v, t));
                    }
                }
                lemma_composed_outside(m, s, t.args[i], n);
            }
            assert(crate::subst_model::subst_at(c, t, n).args =~= crate::subst_model::subst_at(
                s,
                t,
                n,
            ).args);
        },
    }
}

/// Composition takes in what `s` does: doing that first makes no difference.
proof fn lemma_composed_absorbs(m: Map<TypeVar, Term>, s: Map<TypeVar, Term>, t: Term)
    requires
        composable(m, s),
        forall|v: TypeVar| m.contains_key(v) && crate::term::occurs(v, t) ==> !s.contains_key(v),
        crate::subst_model::applies(crate::subst_model::composed(m, s), t),
    ensures
        crate::subst_model::applies(
            crate::subst_model::composed(m, s),
            crate::subst_model::apply(s, t),
        ),
        crate::subst_model::apply(
            crate::subst_model::composed(m, s),
            crate::subst_model::apply(s, t),
        ) == crate::subst_model::apply(crate::subst_model::composed(m, s), t),
    decreases t,
{
    let c = crate::subst_model::composed(m, s);
    let x = crate::subst_model::apply(s, t);
    lemma_acyclic_applies(s, t);
    match t.head {
        Head::Var(w) => {
            assert(crate::term::occurs(w, t));
            if s.contains_key(w) {
                assert(!m.contains_key(w));
                let n = choose|n: nat| crate::subst_model::settles(s, t, n);
                assert forall|v: TypeVar| m.contains_key(v) implies !crate::term::occurs(v, t) by {
                }
                lemma_composed_outside(m, s, t, n);
                crate::subst_model::lemma_apply_at(c, t, n);
                crate::subst_model::lemma_apply_at(s, t, n);
                lemma_apply_bound(s, t);
                assert forall|v: TypeVar| c.contains_key(v) implies !crate::term::occurs(v, x) by {
                    lemma_composed_binding(m, s, v);
                    if crate::term::occurs(v, x) {
                        if s.contains_key(v) {
                            lemma_none_left(s, t, v);
                        } else {
                            lemma_apply_occurs(s, s[w], v);
                            if crate::term::occurs(v, s[w]) {
                                assert(s.contains_key(w) && m.contains_key(v));
                            } else {
                                let u = choose|u: TypeVar| #[trigger]
                                    s.contains_key(u) && crate::term::occurs(v, s[u]);
                                assert(s.contains_key(u) && m.contains_key(v));
                            }
                        }
                    }
                }
                crate::subst_model::lemma_apply_unbound(c, x);
            } else {
                lemma_apply_free(s, t);
            }
        },
        _ => {
            lemma_apply_args(s, t);
            lemma_apply_args(c, t);
            assert forall|i: int| 0 <= i < x.args.len() implies crate::subst_model::applies(
                c,
                #[trigger] x.args[i],
            ) && crate::subst_model::apply(c, x.args[i]) == crate::subst_model::apply(
                c,
                t.args[i],
            ) by {
                assert forall|v: TypeVar|
                    m.contains_key(v) && crate::term::occurs(
                        v,
                        t.args[i],
                    ) implies !s.contains_key(v) by {
                    assert(crate::term::occurs(v, t));
                }
                lemma_composed_absorbs(m, s, t.args[i]);
            }
            lemma_applies_args(c, x);
            lemma_apply_args(c, x);
            assert(crate::subst_model::apply(c, x).args =~= crate::subst_model::apply(c, t).args);
        },
    }
}

proof fn lemma_composed_at(m: Map<TypeVar, Term>, s: Map<TypeVar, Term>, t: Term, n: nat)
    requires
        composable(m, s),
        crate::subst_model::settles(m, t, n),
    ensures
        crate::subst_model::applies(crate::subst_model::composed(m, s), t),
        crate::subst_model::apply(crate::subst_model::composed(m, s), t)
            == crate::subst_model::apply(s, crate::subst_model::apply(m, t)),
    decreases n, t,
{
    let c = crate::subst_model::composed(m, s);
    match t.head {
        Head::Var(v) => {
            lemma_composed_binding(m, s, v);
            if m.contains_key(v) {
                lemma_composed_at(m, s, m[v], (n - 1) as nat);
                assert forall|w: TypeVar|
                    m.contains_key(w) && crate::term::occurs(
                        w,
                        m[v],
                    ) implies !s.contains_key(w) by {}
                lemma_composed_absorbs(m, s, m[v]);
                lemma_apply_bound(c, t);
                lemma_apply_bound(m, t);
            } else {
                lemma_apply_free(m, t);
                lemma_acyclic_applies(s, t);
                let k = choose|k: nat| crate::subst_model::settles(s, t, k);
                lemma_composed_outside(m, s, t, k);
                crate::subst_model::lemma_apply_at(c, t, k);
                crate::subst_model::lemma_apply_at(s, t, k);
            }
        },
        _ => {
            let x = crate::subst_model::apply(m, t);
            crate::subst_model::lemma_apply_at(m, t, n);
            lemma_apply_args(m, t);
            assert forall|i: int| 0 <= i < t.args.len() implies crate::subst_model::applies(
                c,
                #[trigger] t.args[i],
            ) && crate::subst_model::apply(c, t.args[i]) == crate::subst_model::apply(
                s,
                x.args[i],
            ) by {
                assert(crate::subst_model::settles(m, t.args[i], n));
                lemma_composed_at(m, s, t.args[i], n);
            }
            lemma_applies_args(c, t);
            lemma_apply_args(c, t);
            lemma_acyclic_applies(s, x);
            lemma_apply_args(s, x);
            assert(crate::subst_model::apply(c, t).args =~= crate::subst_model::apply(s, x).args);
        },
    }
}

/// A composed substitution comes to an end wherever its parts do, and does what its
/// parts do one after the other.
pub proof fn lemma_acyclic_composed(m: Map<TypeVar, Term>, s: Map<TypeVar, Term>, t: Term)
    requires
        acyclic(m),
        acyclic(s),
        crate::subst_model::avoids(s, m),
        apart(m, s),
    ensures
        crate::subst_model::applies(crate::subst_model::composed(m, s), t),
        crate::subst_model::apply(crate::subst_model::composed(m, s), t)
            == crate::subst_model::apply(s, crate::subst_model::apply(m, t)),
{
    lemma_acyclic_applies(m, t);
    lemma_composed_at(m, s, t, choose|n: nat| crate::subst_model::settles(m, t, n));
}

} // verus!
