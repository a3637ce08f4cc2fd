//! Substitution of terms for type variables.

use crate::term::{Head, Term, TypeVar};
use vstd::prelude::*;

verus! {

/// Whether replacing bound variables, and the bound variables in what replaces
/// them, comes to an end after at most `n` replacements in a row.
pub open spec fn settles(m: Map<TypeVar, Term>, t: Term, n: nat) -> bool
    decreases n, t,
{
    match t.head {
        Head::Var(v) => if m.contains_key(v) {
            n > 0 && settles(m, m[v], (n - 1) as nat)
        } else {
            true
        },
        _ => forall|i: int| 0 <= i < t.args.len() ==> settles(m, #[trigger] t.args[i], n),
    }
}

/// The term with its bound variables replaced, up to `n` times in a row.
pub open spec fn subst_at(m: Map<TypeVar, Term>, t: Term, n: nat) -> Term
    decreases n, t,
{
    match t.head {
        Head::Var(v) => if m.contains_key(v) && n > 0 {
            subst_at(m, m[v], (n - 1) as nat)
        } else {
            t
        },
        _ => Term {
            head: t.head,
            args: Seq::new(
                t.args.len(),
                |i: int|
                    if 0 <= i < t.args.len() {
                        subst_at(m, t.args[i], n)
                    } else {
                        arbitrary()
                    },
            ),
        },
    }
}

/// Whether replacing the bound variables of a term comes to an end.
pub open spec fn applies(m: Map<TypeVar, Term>, t: Term) -> bool {
    exists|n: nat| settles(m, t, n)
}

/// The term with its bound variables replaced until none is left.
pub open spec fn apply(m: Map<TypeVar, Term>, t: Term) -> Term {
    subst_at(m, t, choose|n: nat| settles(m, t, n))
}

/// The term with each bound variable replaced once.
pub open spec fn subst(m: Map<TypeVar, Term>, t: Term) -> Term
    decreases t,
{
    match t.head {
        Head::Var(v) => if m.contains_key(v) {
            m[v]
        } else {
            t
        },
        _ => Term {
            head: t.head,
            args: Seq::new(
                t.args.len(),
                |i: int|
                    if 0 <= i < t.args.len() {
                        subst(m, t.args[i])
                    } else {
                        arbitrary()
                    },
            ),
        },
    }
}

/// Whether no bound variable occurs in what a variable is bound to.
pub open spec fn solved(m: Map<TypeVar, Term>) -> bool {
    forall|v: TypeVar, w: TypeVar|
        #![trigger m.contains_key(v), m.contains_key(w)]
        m.contains_key(v) && crate::term::occurs(w, m[v]) ==> !m.contains_key(w)
}

/// Whether no variable is bound to itself.
pub open spec fn no_identity(m: Map<TypeVar, Term>) -> bool {
    forall|v: TypeVar| #[trigger] m.contains_key(v) ==> m[v] != crate::term::var(v)
}

/// The bindings that stand for `m` followed by `s`.
pub open spec fn composed(m: Map<TypeVar, Term>, s: Map<TypeVar, Term>) -> Map<TypeVar, Term> {
    Map::new(
        |k: TypeVar|
            (m.contains_key(k) && apply(s, m[k]) != crate::term::var(k)) || s.contains_key(k),
        |k: TypeVar|
            if m.contains_key(k) && apply(s, m[k]) != crate::term::var(k) {
                apply(s, m[k])
            } else {
                s[k]
            },
    )
}

/// More steps change nothing once a term has settled.
pub proof fn lemma_settles_more(m: Map<TypeVar, Term>, t: Term, n: nat, k: nat)
    requires
        settles(m, t, n),
        n <= k,
    ensures
        settles(m, t, k),
        subst_at(m, t, k) == subst_at(m, t, n),
    decreases n, t,
{
    match t.head {
        Head::Var(v) => {
            if m.contains_key(v) {
                lemma_settles_more(m, m[v], (n - 1) as nat, (k - 1) as nat);
            }
        },
        _ => {
            assert forall|i: int| 0 <= i < t.args.len() implies settles(m, #[trigger] t.args[i], k)
                && subst_at(m, t.args[i], k) == subst_at(m, t.args[i], n) by {
                lemma_settles_more(m, t.args[i], n, k);
            }
            assert(subst_at(m, t, k).args =~= subst_at(m, t, n).args);
        },
    }
}

/// Any number of steps that is enough gives the same term.
pub proof fn lemma_apply_at(m: Map<TypeVar, Term>, t: Term, n: nat)
    requires
        settles(m, t, n),
    ensures
        applies(m, t),
        apply(m, t) == subst_at(m, t, n),
{
    let c = choose|c: nat| settles(m, t, c);
    if c <= n {
        lemma_settles_more(m, t, c, n);
    } else {
        lemma_settles_more(m, t, n, c);
    }
}

/// A term without bound variables is left alone.
pub proof fn lemma_apply_unbound(m: Map<TypeVar, Term>, t: Term)
    requires
        forall|v: TypeVar| m.contains_key(v) ==> !crate::term::occurs(v, t),
    ensures
        settles(m, t, 0),
        applies(m, t),
        apply(m, t) == t,
        subst(m, t) == t,
{
    lemma_unbound_at(m, t);
    lemma_apply_at(m, t, 0);
}

proof fn lemma_unbound_at(m: Map<TypeVar, Term>, t: Term)
    requires
        forall|v: TypeVar| m.contains_key(v) ==> !crate::term::occurs(v, t),
    ensures
        settles(m, t, 0),
        subst_at(m, t, 0) == t,
        subst(m, t) == t,
    decreases t,
{
    match t.head {
        Head::Var(v) => {
            assert(crate::term::occurs(v, t));
        },
        _ => {
            assert forall|i: int| 0 <= i < t.args.len() implies settles(m, #[trigger] t.args[i], 0)
                && subst_at(m, t.args[i], 0) == t.args[i] && subst(m, t.args[i]) == t.args[i] by {
                assert forall|v: TypeVar| m.contains_key(v) implies !crate::term::occurs(
                    v,
                    t.args[i],
                ) by {
                    if crate::term::occurs(v, t.args[i]) {
                        assert(crate::term::occurs(v, t));
                    }
                }
                lemma_unbound_at(m, t.args[i]);
            }
            assert(subst_at(m, t, 0).args =~= t.args);
            assert(subst(m, t).args =~= t.args);
        },
    }
}

/// With solved bindings, every term settles after one replacement.
pub proof fn lemma_solved_apply(m: Map<TypeVar, Term>, t: Term)
    requires
        solved(m),
    ensures
        settles(m, t, 1),
        applies(m, t),
        apply(m, t) == subst(m, t),
{
    lemma_solved_at(m, t);
    lemma_apply_at(m, t, 1);
}

proof fn lemma_solved_at(m: Map<TypeVar, Term>, t: Term)
    requires
        solved(m),
    ensures
        settles(m, t, 1),
        subst_at(m, t, 1) == subst(m, t),
    decreases t,
{
    match t.head {
        Head::Var(v) => {
            if m.contains_key(v) {
                lemma_unbound_at(m, m[v]);
            }
        },
        _ => {
            assert forall|i: int| 0 <= i < t.args.len() implies settles(m, #[trigger] t.args[i], 1)
                && subst_at(m, t.args[i], 1) == subst(m, t.args[i]) by {
                lemma_solved_at(m, t.args[i]);
            }
            assert(subst_at(m, t, 1).args =~= subst(m, t).args);
        },
    }
}

/// Which variables occur after a replacement.
pub proof fn lemma_subst_occurs(m: Map<TypeVar, Term>, t: Term, w: TypeVar)
    ensures
        crate::term::occurs(w, subst(m, t)) <==> (crate::term::occurs(w, t) && !m.contains_key(w))
            || (exists|v: TypeVar|
            #[trigger]
            m.contains_key(v) && crate::term::occurs(v, t) && crate::term::occurs(w, m[v])),
    decreases t,
{
    match t.head {
        Head::Var(v) => {
            if m.contains_key(v) {
                assert(crate::term::occurs(v, t));
            }
        },
        _ => {
            let s = subst(m, t);
            assert forall|i: int| 0 <= i < t.args.len() implies s.args[i] == subst(
                m,
                #[trigger] t.args[i],
            ) by {}
            if crate::term::occurs(w, s) {
                let i = choose|i: int|
                    0 <= i < s.args.len() && crate::term::occurs(w, #[trigger] s.args[i]);
                lemma_subst_occurs(m, t.args[i], w);
                if crate::term::occurs(w, t.args[i]) && !m.contains_key(w) {
                    assert(crate::term::occurs(w, t));
                } else {
                    let v = choose|v: TypeVar|
                        #[trigger]
                        m.contains_key(v) && crate::term::occurs(v, t.args[i])
                            && crate::term::occurs(w, m[v]);
                    assert(crate::term::occurs(v, t));
                    assert(m.contains_key(v));
                }
            }
            if crate::term::occurs(w, t) && !m.contains_key(w) {
                let i = choose|i: int|
                    0 <= i < t.args.len() && crate::term::occurs(w, #[trigger] t.args[i]);
                lemma_subst_occurs(m, t.args[i], w);
                assert(crate::term::occurs(w, s.args[i]));
            }
            if exists|v: TypeVar|
                #[trigger]
                m.contains_key(v) && crate::term::occurs(v, t) && crate::term::occurs(w, m[v]) {
                let v = choose|v: TypeVar|
                    #[trigger]
                    m.contains_key(v) && crate::term::occurs(v, t) && crate::term::occurs(w, m[v]);
                let i = choose|i: int|
                    0 <= i < t.args.len() && crate::term::occurs(v, #[trigger] t.args[i]);
                lemma_subst_occurs(m, t.args[i], w);
                assert(crate::term::occurs(w, s.args[i]));
            }
        },
    }
}

/// Where two steps of replacement and one give the same for each variable of a
/// term, they give the same for the term.
pub proof fn lemma_subst_subst(
    m: Map<TypeVar, Term>,
    s: Map<TypeVar, Term>,
    c: Map<TypeVar, Term>,
    t: Term,
)
    requires
        forall|x: Term|
            x.head is Var && crate::term::occurs(x.head->Var_0, t) ==> #[trigger] subst(c, x)
                == subst(s, subst(m, x)),
    ensures
        subst(c, t) == subst(s, subst(m, t)),
    decreases t,
{
    match t.head {
        Head::Var(v) => {
            assert(crate::term::occurs(v, t));
        },
        _ => {
            assert forall|i: int| 0 <= i < t.args.len() implies subst(c, #[trigger] t.args[i])
                == subst(s, subst(m, t.args[i])) by {
                assert forall|x: Term|
                    x.head is Var && crate::term::occurs(
                        x.head->Var_0,
                        t.args[i],
                    ) implies #[trigger] subst(c, x) == subst(s, subst(m, x)) by {
                    assert(crate::term::occurs(x.head->Var_0, t));
                }
                lemma_subst_subst(m, s, c, t.args[i]);
            }
            assert(subst(c, t).args =~= subst(s, subst(m, t)).args);
        },
    }
}

/// Whether what `s` binds variables to leaves alone the variables that `m` binds.
pub open spec fn avoids(s: Map<TypeVar, Term>, m: Map<TypeVar, Term>) -> bool {
    forall|v: TypeVar, w: TypeVar|
        #![trigger s.contains_key(v), m.contains_key(w)]
        s.contains_key(v) && crate::term::occurs(w, s[v]) ==> !m.contains_key(w)
}

/// Composition binds every variable of either side, keeps bindings solved, and
/// stands for one substitution after the other.
pub proof fn lemma_composed(m: Map<TypeVar, Term>, s: Map<TypeVar, Term>)
    requires
        solved(m),
        solved(s),
        avoids(s, m),
    ensures
        composed(m, s).dom() == m.dom().union(s.dom()),
        forall|k: TypeVar|
            #[trigger] composed(m, s).contains_key(k) ==> composed(m, s)[k] == (
            if m.contains_key(k) {
                subst(s, m[k])
            } else {
                s[k]
            }),
        solved(composed(m, s)),
        no_identity(composed(m, s)),
        forall|t: Term| #[trigger] subst(composed(m, s), t) == subst(s, subst(m, t)),
{
    let c = composed(m, s);
    assert forall|k: TypeVar| #[trigger] m.contains_key(k) implies apply(s, m[k]) == subst(s, m[k])
        && subst(s, m[k]) != crate::term::var(k) by {
        lemma_solved_apply(s, m[k]);
        if subst(s, m[k]) == crate::term::var(k) {
            assert(crate::term::occurs(k, subst(s, m[k])));
            lemma_subst_occurs(s, m[k], k);
            if crate::term::occurs(k, m[k]) {
                assert(m.contains_key(k));
            } else {
                let v = choose|v: TypeVar|
                    #[trigger]
                    s.contains_key(v) && crate::term::occurs(v, m[k]) && crate::term::occurs(
                        k,
                        s[v],
                    );
                assert(s.contains_key(v) && m.contains_key(k));
            }
        }
    }
    assert(c.dom() =~= m.dom().union(s.dom()));
    assert forall|v: TypeVar, w: TypeVar|
        #![trigger c.contains_key(v), c.contains_key(w)]
        c.contains_key(v) && crate::term::occurs(w, c[v]) implies !c.contains_key(w) by {
        if m.contains_key(v) {
            lemma_subst_occurs(s, m[v], w);
            if crate::term::occurs(w, m[v]) && !s.contains_key(w) {
                assert(m.contains_key(v));
                assert(!m.contains_key(w));
            } else {
                let u = choose|u: TypeVar|
                    #[trigger]
                    s.contains_key(u) && crate::term::occurs(u, m[v]) && crate::term::occurs(
                        w,
                        s[u],
                    );
                assert(s.contains_key(u));
                assert(!s.contains_key(w));
                assert(!m.contains_key(w));
            }
        } else {
            assert(s.contains_key(v));
            assert(!s.contains_key(w));
            assert(!m.contains_key(w));
        }
    }
    assert forall|k: TypeVar| #[trigger] c.contains_key(k) implies c[k] != crate::term::var(k) by {
        if c[k] == crate::term::var(k) {
            assert(crate::term::occurs(k, c[k]));
        }
    }
    assert forall|t: Term| #[trigger] subst(c, t) == subst(s, subst(m, t)) by {
        assert forall|x: Term|
            x.head is Var && crate::term::occurs(x.head->Var_0, t) implies #[trigger] subst(c, x)
            == subst(s, subst(m, x)) by {
            let v = x.head->Var_0;
            if m.contains_key(v) {
                assert(c.contains_key(v));
            } else if s.contains_key(v) {
                assert(c.contains_key(v));
            }
        }
        lemma_subst_subst(m, s, c, t);
    }
}

} // verus!
