//! What unification gives where no coercion comes into play: types become equal, it
//! fails only where nothing could make them equal, and it commits to nothing that is
//! not forced.

use crate::constraints::ConstraintModel;
use crate::term::{Head, Term, TypeVar};
use crate::unify_model::Step;
use vstd::prelude::*;

verus! {

/// Whether two types are the same. The identities of the declarations that they name
/// do not count.
pub open spec fn same(a: Term, b: Term) -> bool {
    crate::term::erase(a) == crate::term::erase(b)
}

/// Whether a type is built only from resolved types, variables, tuples, records,
/// named types, what is left of named types, and arrays without a size. Between such
/// types there are no coercions.
pub open spec fn plain(t: Term) -> bool
    decreases t,
{
    &&& match t.head {
        Head::Var(_) => t.args.len() == 0,
        Head::Concrete(_) => t.args.len() == 0,
        Head::Array => t.args.len() == 1,
        Head::Record(labels) => labels.len() == t.args.len(),
        Head::Residual(_, labels) => labels.len() == t.args.len(),
        Head::Tuple => true,
        Head::Named(_, _) => true,
        _ => false,
    }
    &&& forall|i: int| 0 <= i < t.args.len() ==> plain(#[trigger] t.args[i])
}

/// Whether all bindings are to plain types.
pub open spec fn plain_bindings(m: Map<TypeVar, Term>) -> bool {
    forall|v: TypeVar| #[trigger] m.contains_key(v) ==> plain(m[v])
}

/// Whether `r` does the same to every type before and after `s`: whatever `s` says,
/// `r` says too.
pub open spec fn refines(r: Map<TypeVar, Term>, s: Map<TypeVar, Term>) -> bool {
    forall|t: Term|
        crate::inference_laws::shaped(t) ==> same(
            crate::subst_model::subst(r, #[trigger] crate::subst_model::subst(s, t)),
            crate::subst_model::subst(r, t),
        )
}

proof fn lemma_plain_shaped(t: Term)
    requires
        plain(t),
    ensures
        crate::inference_laws::shaped(t),
    decreases t,
{
    assert forall|i: int| 0 <= i < t.args.len() implies crate::inference_laws::shaped(
        #[trigger] t.args[i],
    ) by {
        lemma_plain_shaped(t.args[i]);
    }
}

proof fn lemma_plain_subst(m: Map<TypeVar, Term>, t: Term)
    requires
        plain(t),
        plain_bindings(m),
    ensures
        plain(crate::subst_model::subst(m, t)),
    decreases t,
{
    let x = crate::subst_model::subst(m, t);
    if !(t.head is Var) {
        assert forall|i: int| 0 <= i < x.args.len() implies plain(#[trigger] x.args[i]) by {
            lemma_plain_subst(m, t.args[i]);
        }
    }
}

proof fn lemma_shaped_subst(m: Map<TypeVar, Term>, t: Term)
    requires
        crate::inference_laws::shaped(t),
        plain_bindings(m),
    ensures
        crate::inference_laws::shaped(crate::subst_model::subst(m, t)),
    decreases t,
{
    let x = crate::subst_model::subst(m, t);
    match t.head {
        Head::Var(v) => {
            if m.contains_key(v) {
                lemma_plain_shaped(m[v]);
            }
        },
        _ => {
            assert forall|i: int| 0 <= i < x.args.len() implies crate::inference_laws::shaped(
                #[trigger] x.args[i],
            ) by {
                lemma_shaped_subst(m, t.args[i]);
            }
        },
    }
}

/// Plain types that agree are the same.
pub proof fn lemma_agree_same(a: Term, b: Term)
    requires
        plain(a),
        plain(b),
        crate::unify_model::agree(a, b),
    ensures
        same(a, b),
    decreases a,
{
    if a == b {
    } else if a.head is Var && a.head == b.head {
        assert(a.args =~= b.args);
    } else if a.head is Concrete && b.head is Concrete {
    } else {
        let x = crate::term::erase(a);
        let y = crate::term::erase(b);
        assert forall|i: int| 0 <= i < a.args.len() implies x.args[i] == y.args[i] by {
            assert(crate::unify_model::agree(a.args[i], b.args[i]));
            lemma_agree_same(a.args[i], b.args[i]);
        }
        assert(x.args =~= y.args);
        match (a.head, b.head) {
            (Head::Record(l1), Head::Record(l2)) => {
                assert(l1 =~= l2);
            },
            (Head::Residual(_, l1), Head::Residual(_, l2)) => {
                assert(l1 =~= l2);
            },
            _ => {},
        }
    }
}

/// How many heads a type is made of.
spec fn weight(t: Term) -> nat
    decreases t, t.args.len() + 1,
{
    if t.head is Concrete {
        1
    } else {
        1 + weights(t, t.args.len())
    }
}

spec fn weights(t: Term, k: nat) -> nat
    decreases t, k,
{
    if k == 0 || k > t.args.len() {
        0
    } else {
        weights(t, (k - 1) as nat) + weight(t.args[k - 1])
    }
}

proof fn lemma_weight_erased(t: Term)
    ensures
        weight(crate::term::erase(t)) == weight(t),
    decreases t, t.args.len() + 1,
{
    if !(t.head is Concrete) {
        lemma_weights_erased(t, t.args.len());
    }
}

proof fn lemma_weights_erased(t: Term, k: nat)
    requires
        k <= t.args.len(),
        !(t.head is Concrete),
    ensures
        weights(crate::term::erase(t), k) == weights(t, k),
    decreases t, k,
{
    if k > 0 {
        lemma_weights_erased(t, (k - 1) as nat);
        lemma_weight_erased(t.args[k - 1]);
        assert(crate::term::erase(t).args[k - 1] == crate::term::erase(t.args[k - 1]));
    }
}

proof fn lemma_weights_grow(t: Term, i: int, k: nat)
    requires
        0 <= i < k <= t.args.len(),
    ensures
        weights(t, k) >= weight(t.args[i]),
    decreases k,
{
    if i < k - 1 {
        lemma_weights_grow(t, i, (k - 1) as nat);
    }
}

/// A type in which a variable occurs stays larger than what the variable stands for.
proof fn lemma_weight_occurs(m: Map<TypeVar, Term>, t: Term, v: TypeVar)
    requires
        plain(t),
        crate::term::occurs(v, t),
    ensures
        t.head is Var ==> crate::subst_model::subst(m, t) == crate::subst_model::subst(
            m,
            crate::term::var(v),
        ),
        !(t.head is Var) ==> weight(crate::subst_model::subst(m, t)) > weight(
            crate::subst_model::subst(m, crate::term::var(v)),
        ),
    decreases t,
{
    if t.head is Var {
        assert(t.args =~= crate::term::var(v).args);
        assert(t == crate::term::var(v));
    } else {
        let x = crate::subst_model::subst(m, t);
        let i = choose|i: int|
            0 <= i < t.args.len() && crate::term::occurs(v, #[trigger] t.args[i]);
        lemma_weight_occurs(m, t.args[i], v);
        lemma_weights_grow(x, i, x.args.len());
        assert(x.args[i] == crate::subst_model::subst(m, t.args[i]));
    }
}

/// Bindings that make a variable and a type the same say what binding the one to the
/// other says.
proof fn lemma_bind_refined(r: Map<TypeVar, Term>, v: TypeVar, b: Term, t: Term)
    requires
        same(crate::subst_model::subst(r, crate::term::var(v)), crate::subst_model::subst(r, b)),
        crate::inference_laws::shaped(t),
    ensures
        same(
            crate::subst_model::subst(
                r,
                crate::subst_model::subst(Map::empty().insert(v, b), t),
            ),
            crate::subst_model::subst(r, t),
        ),
    decreases t,
{
    let s = Map::<TypeVar, Term>::empty().insert(v, b);
    match t.head {
        Head::Var(w) => {
            if w == v {
                assert(t.args =~= crate::term::var(v).args);
                assert(t == crate::term::var(v));
            }
        },
        _ => {
            let x = crate::subst_model::subst(s, t);
            let p = crate::subst_model::subst(r, x);
            let q = crate::subst_model::subst(r, t);
            assert forall|i: int| 0 <= i < t.args.len() implies same(
                #[trigger] p.args[i],
                q.args[i],
            ) by {
                lemma_bind_refined(r, v, b, t.args[i]);
                assert(x.args[i] == crate::subst_model::subst(s, t.args[i]));
                assert(p.args[i] == crate::subst_model::subst(r, x.args[i]));
                assert(q.args[i] == crate::subst_model::subst(r, t.args[i]));
            }
            assert forall|i: int| 0 <= i < t.args.len() implies crate::term::erase(p).args[i]
                == crate::term::erase(q).args[i] by {
                if !(t.head is Concrete) {
                    assert(same(p.args[i], q.args[i]));
                }
            }
            assert(crate::term::erase(p).args =~= crate::term::erase(q).args);
        },
    }
}

proof fn lemma_nothing_refined(r: Map<TypeVar, Term>)
    ensures
        refines(r, crate::unify_model::nothing()),
{
    let none = crate::unify_model::nothing();
    assert forall|t: Term| crate::inference_laws::shaped(t) implies same(
        crate::subst_model::subst(r, #[trigger] crate::subst_model::subst(none, t)),
        crate::subst_model::subst(r, t),
    ) by {
        crate::subst_model::lemma_apply_unbound(none, t);
    }
}

/// What binding a variable comes to.
proof fn lemma_bind_general(v: TypeVar, t: Term, r: Map<TypeVar, Term>)
    requires
        plain(t),
    ensures
        crate::unify_model::bind_var_of(v, t) matches Ok(s) ==> plain_bindings(s),
        same(crate::subst_model::subst(r, crate::term::var(v)), crate::subst_model::subst(r, t))
            ==> crate::unify_model::bind_var_of(v, t) is Ok && refines(
            r,
            crate::unify_model::bind_var_of(v, t)->Ok_0,
        ),
{
    let x = crate::term::var(v);
    if same(crate::subst_model::subst(r, x), crate::subst_model::subst(r, t)) {
        if t.head == Head::Var(v) {
            lemma_nothing_refined(r);
        } else {
            if crate::term::occurs(v, t) {
                lemma_weight_occurs(r, t, v);
                lemma_weight_erased(crate::subst_model::subst(r, x));
                lemma_weight_erased(crate::subst_model::subst(r, t));
            }
            let s = Map::<TypeVar, Term>::empty().insert(v, t);
            assert forall|u: Term| crate::inference_laws::shaped(u) implies same(
                crate::subst_model::subst(r, #[trigger] crate::subst_model::subst(s, u)),
                crate::subst_model::subst(r, u),
            ) by {
                lemma_bind_refined(r, v, t, u);
            }
        }
    }
}

/// What two types that have become the same have in common.
proof fn lemma_same_parts(r: Map<TypeVar, Term>, a: Term, b: Term)
    requires
        same(crate::subst_model::subst(r, a), crate::subst_model::subst(r, b)),
        !(a.head is Var),
        !(b.head is Var),
        plain(a),
        plain(b),
    ensures
        a.head is Concrete <==> b.head is Concrete,
        a.head is Concrete ==> crate::term::erase(*a.head->Concrete_0) == crate::term::erase(
            *b.head->Concrete_0,
        ),
        !(a.head is Concrete) ==> crate::term::erase_head(a.head) == crate::term::erase_head(
            b.head,
        ),
        a.args.len() == b.args.len(),
        forall|i: int|
            0 <= i < a.args.len() ==> same(
                crate::subst_model::subst(r, #[trigger] a.args[i]),
                crate::subst_model::subst(r, b.args[i]),
            ),
{
    let x = crate::subst_model::subst(r, a);
    let y = crate::subst_model::subst(r, b);
    assert(x.head == a.head && y.head == b.head);
    let p = crate::term::erase(x);
    let q = crate::term::erase(y);
    if a.head is Concrete {
        assert(p == crate::term::concrete(crate::term::erase(*a.head->Concrete_0)));
    }
    if b.head is Concrete {
        assert(q == crate::term::concrete(crate::term::erase(*b.head->Concrete_0)));
    }
    if !(a.head is Concrete) && !(b.head is Concrete) {
        assert(p.args.len() == a.args.len() && q.args.len() == b.args.len());
        assert forall|i: int| 0 <= i < a.args.len() implies same(
            crate::subst_model::subst(r, #[trigger] a.args[i]),
            crate::subst_model::subst(r, b.args[i]),
        ) by {
            assert(p.args[i] == crate::term::erase(x.args[i]));
            assert(q.args[i] == crate::term::erase(y.args[i]));
        }
    }
}

proof fn lemma_general(a: Term, b: Term, r: Map<TypeVar, Term>)
    requires
        plain(a),
        plain(b),
    ensures
        crate::unify_model::unify_of(a, b) matches Ok(s) ==> plain_bindings(s),
        same(crate::subst_model::subst(r, a), crate::subst_model::subst(r, b))
            ==> crate::unify_model::unify_of(a, b) is Ok && refines(
            r,
            crate::unify_model::unify_of(a, b)->Ok_0,
        ),
    decreases crate::unify_model::vars2(a, b).len(), a, a.args.len() + 2,
{
    crate::unify_model::lemma_unify_unfold(a, b);
    if a.head is Var {
        assert(a.args =~= crate::term::var(a.head->Var_0).args);
        assert(a == crate::term::var(a.head->Var_0));
        lemma_bind_general(a.head->Var_0, b, r);
    } else if b.head is Var {
        assert(b.args =~= crate::term::var(b.head->Var_0).args);
        assert(b == crate::term::var(b.head->Var_0));
        lemma_bind_general(b.head->Var_0, a, r);
    } else {
        lemma_nothing_refined(r);
        if same(crate::subst_model::subst(r, a), crate::subst_model::subst(r, b)) {
            lemma_same_parts(r, a, b);
        }
        match crate::unify_model::step(a, b) {
            Step::Done(o) => {},
            Step::Element => {},
            Step::Components => {
                lemma_general_args(a, b, 0, crate::unify_model::nothing(), r);
            },
        }
    }
}

proof fn lemma_general_args(
    a: Term,
    b: Term,
    i: int,
    acc: Map<TypeVar, Term>,
    r: Map<TypeVar, Term>,
)
    requires
        plain(a),
        plain(b),
        crate::unify_model::step(a, b) is Components,
        0 <= i <= a.args.len(),
        crate::subst_model::solved(acc),
        crate::unify_model::within(acc, crate::unify_model::vars2(a, b)),
        plain_bindings(acc),
    ensures
        crate::unify_model::unify_args_of(a, b, i, acc) matches Ok(s) ==> plain_bindings(s),
        same(crate::subst_model::subst(r, a), crate::subst_model::subst(r, b)) && refines(r, acc)
            ==> crate::unify_model::unify_args_of(a, b, i, acc) is Ok && refines(
            r,
            crate::unify_model::unify_args_of(a, b, i, acc)->Ok_0,
        ),
    decreases crate::unify_model::vars2(a, b).len(), a, a.args.len() - i + 1,
{
    if i < a.args.len() {
        let fits = same(crate::subst_model::subst(r, a), crate::subst_model::subst(r, b))
            && refines(r, acc);
        if fits {
            lemma_same_parts(r, a, b);
            assert(crate::unify_model::position_fits(a, b, i));
        }
        if crate::unify_model::position_fits(a, b, i) {
            let x = crate::subst_model::apply(acc, a.args[i]);
            let y = crate::subst_model::apply(acc, b.args[i]);
            crate::unify_model::lemma_component_vars(a, b, i, acc);
            crate::subst_model::lemma_solved_apply(acc, a.args[i]);
            crate::subst_model::lemma_solved_apply(acc, b.args[i]);
            lemma_plain_subst(acc, a.args[i]);
            lemma_plain_subst(acc, b.args[i]);
            lemma_general(x, y, r);
            if fits {
                lemma_plain_shaped(a.args[i]);
                lemma_plain_shaped(b.args[i]);
                assert(same(
                    crate::subst_model::subst(r, crate::subst_model::subst(acc, a.args[i])),
                    crate::subst_model::subst(r, a.args[i]),
                ));
                assert(same(
                    crate::subst_model::subst(r, crate::subst_model::subst(acc, b.args[i])),
                    crate::subst_model::subst(r, b.args[i]),
                ));
                assert(same(
                    crate::subst_model::subst(r, a.args[i]),
                    crate::subst_model::subst(r, b.args[i]),
                ));
            }
            match crate::unify_model::unify_of(x, y) {
                Ok(s) => {
                    let next = crate::subst_model::composed(acc, s);
                    crate::unify_model::lemma_unify_total(x, y);
                    crate::unify_model::lemma_compose_good(
                        acc,
                        s,
                        crate::unify_model::vars2(a, b),
                        crate::unify_model::vars2(x, y),
                    );
                    crate::subst_model::lemma_composed(acc, s);
                    assert forall|v: TypeVar| #[trigger] next.contains_key(v) implies plain(
                        next[v],
                    ) by {
                        if acc.contains_key(v) {
                            lemma_plain_subst(s, acc[v]);
                        }
                    }
                    if fits {
                        assert forall|t: Term| crate::inference_laws::shaped(t) implies same(
                            crate::subst_model::subst(
                                r,
                                #[trigger] crate::subst_model::subst(next, t),
                            ),
                            crate::subst_model::subst(r, t),
                        ) by {
                            let u = crate::subst_model::subst(acc, t);
                            lemma_shaped_subst(acc, t);
                            assert(crate::subst_model::subst(next, t)
                                == crate::subst_model::subst(s, u));
                            assert(same(
                                crate::subst_model::subst(r, crate::subst_model::subst(s, u)),
                                crate::subst_model::subst(r, u),
                            ));
                        }
                    }
                    lemma_general_args(a, b, i + 1, next, r);
                },
                Err(_) => {},
            }
        }
    }
}

/// Unification makes two types without coercions the same. It binds only variables
/// of these types, and what it gives has nothing left to replace.
pub proof fn unified_types_are_the_same(a: Term, b: Term)
    requires
        plain(a),
        plain(b),
        crate::unify_model::unify_of(a, b) is Ok,
    ensures
        ({
            let s = crate::unify_model::unify_of(a, b)->Ok_0;
            &&& same(crate::subst_model::apply(s, a), crate::subst_model::apply(s, b))
            &&& forall|v: TypeVar| #[trigger]
                s.contains_key(v) ==> crate::term::occurs(v, a) || crate::term::occurs(v, b)
            &&& crate::acyclic::acyclic(s)
            &&& forall|t: Term| #[trigger]
                crate::subst_model::apply(s, crate::subst_model::apply(s, t))
                    == crate::subst_model::apply(s, t)
        }),
{
    let s = crate::unify_model::unify_of(a, b)->Ok_0;
    crate::inference_laws::unified_types_agree(a, b);
    crate::unify_model::lemma_unify_total(a, b);
    lemma_general(a, b, s);
    crate::acyclic::lemma_solved_acyclic(s);
    crate::subst_model::lemma_solved_apply(s, a);
    crate::subst_model::lemma_solved_apply(s, b);
    lemma_plain_subst(s, a);
    lemma_plain_subst(s, b);
    lemma_agree_same(crate::subst_model::subst(s, a), crate::subst_model::subst(s, b));
    assert forall|t: Term| #[trigger]
        crate::subst_model::apply(s, crate::subst_model::apply(s, t)) == crate::subst_model::apply(
        s,
        t,
    ) by {
        crate::acyclic::lemma_acyclic_applies(s, t);
        crate::inference_laws::applying_twice_is_applying_once(s, t);
    }
}

/// Whether a substitution makes two types the same.
pub open spec fn unifies(r: Map<TypeVar, Term>, a: Term, b: Term) -> bool {
    crate::acyclic::acyclic(r) && same(
        crate::subst_model::apply(r, a),
        crate::subst_model::apply(r, b),
    )
}

/// Unification of types without coercions fails only where no substitution makes them
/// the same.
pub proof fn unification_fails_only_without_a_unifier(a: Term, b: Term)
    requires
        plain(a),
        plain(b),
    ensures
        crate::unify_model::unify_of(a, b) is Ok <==> exists|r: Map<TypeVar, Term>| #[trigger]
            unifies(r, a, b),
{
    if crate::unify_model::unify_of(a, b) is Ok {
        unified_types_are_the_same(a, b);
        assert(unifies(crate::unify_model::unify_of(a, b)->Ok_0, a, b));
    }
    if exists|r: Map<TypeVar, Term>| #[trigger] unifies(r, a, b) {
        let r = choose|r: Map<TypeVar, Term>| #[trigger] unifies(r, a, b);
        crate::acyclic::lemma_ends(r, a);
        crate::acyclic::lemma_ends(r, b);
        lemma_general(a, b, crate::acyclic::ends(r));
    }
}

/// What unification gives is most general: every substitution that makes two types
/// without coercions the same says all that unification says of any type.
pub proof fn unification_commits_to_nothing_more(
    a: Term,
    b: Term,
    r: Map<TypeVar, Term>,
    t: Term,
)
    requires
        plain(a),
        plain(b),
        unifies(r, a, b),
        crate::inference_laws::shaped(t),
    ensures
        crate::unify_model::unify_of(a, b) is Ok,
        same(
            crate::subst_model::apply(
                r,
                crate::subst_model::apply(crate::unify_model::unify_of(a, b)->Ok_0, t),
            ),
            crate::subst_model::apply(r, t),
        ),
{
    let e = crate::acyclic::ends(r);
    crate::acyclic::lemma_ends(r, a);
    crate::acyclic::lemma_ends(r, b);
    lemma_general(a, b, e);
    let s = crate::unify_model::unify_of(a, b)->Ok_0;
    crate::unify_model::lemma_unify_total(a, b);
    crate::subst_model::lemma_solved_apply(s, t);
    crate::acyclic::lemma_ends(r, t);
    crate::acyclic::lemma_ends(r, crate::subst_model::subst(s, t));
}

/// Whether the sides of all constraints are types without coercions.
pub open spec fn plain_constraints(cs: Seq<ConstraintModel>) -> bool {
    forall|i: int| 0 <= i < cs.len() ==> plain((#[trigger] cs[i]).lhs) && plain(cs[i].rhs)
}

proof fn lemma_solution_plain(
    s: Map<TypeVar, Term>,
    m: Map<TypeVar, Term>,
    cs: Seq<ConstraintModel>,
    i: int,
    ints: Set<TypeVar>,
    floats: Set<TypeVar>,
    known: Map<TypeVar, Seq<char>>,
)
    requires
        plain_constraints(cs),
        crate::subst_model::solved(m),
        plain_bindings(m),
        0 <= i <= cs.len(),
        crate::constraints::solution(Ok(s), m, cs, i, ints, floats, known),
        crate::constraints::literals_fit(m, ints, true),
        crate::constraints::literals_fit(m, floats, false),
    ensures
        plain_bindings(s),
        crate::constraints::literals_fit(s, ints, true),
        crate::constraints::literals_fit(s, floats, false),
    decreases cs.len() - i,
{
    if i < cs.len() {
        let lhs = crate::subst_model::subst(m, cs[i].lhs);
        let rhs = crate::subst_model::subst(m, cs[i].rhs);
        crate::subst_model::lemma_solved_apply(m, cs[i].lhs);
        crate::subst_model::lemma_solved_apply(m, cs[i].rhs);
        lemma_plain_subst(m, cs[i].lhs);
        lemma_plain_subst(m, cs[i].rhs);
        lemma_general(lhs, rhs, m);
        crate::constraints::lemma_constrained_solved(m, cs[i], known);
        let next = crate::constraints::constrained(m, cs[i], known)->Ok_0;
        let u = crate::unify_model::unify_of(lhs, rhs)->Ok_0;
        crate::unify_model::lemma_unify_total(lhs, rhs);
        assert forall|v: TypeVar| #[trigger] next.contains_key(v) implies plain(next[v]) by {
            if m.contains_key(v) {
                crate::subst_model::lemma_solved_apply(u, m[v]);
                lemma_plain_subst(u, m[v]);
            }
        }
        lemma_solution_plain(s, next, cs, i + 1, ints, floats, known);
    }
}

/// Whether a type is a variable, or a resolved number type of a kind.
pub open spec fn undecided_or_number(t: Term, integer: bool) -> bool {
    match t.head {
        Head::Var(_) => true,
        Head::Concrete(c) => if integer {
            crate::term::integer_head(c.head)
        } else {
            crate::term::float_head(c.head)
        },
        _ => false,
    }
}

/// Solving constraints between types without coercions makes the two sides of every
/// one of them the same, early ones included, and leaves every literal a number of
/// its kind or undecided.
pub proof fn solved_constraints_are_equations(
    s: Map<TypeVar, Term>,
    cs: Seq<ConstraintModel>,
    ints: Set<TypeVar>,
    floats: Set<TypeVar>,
    known: Map<TypeVar, Seq<char>>,
)
    requires
        crate::constraints::solution(Ok(s), Map::empty(), cs, 0, ints, floats, known),
        plain_constraints(cs),
    ensures
        forall|i: int|
            0 <= i < cs.len() ==> same(
                crate::subst_model::apply(s, (#[trigger] cs[i]).lhs),
                crate::subst_model::apply(s, cs[i].rhs),
            ),
        forall|v: TypeVar| #[trigger]
            ints.contains(v) ==> undecided_or_number(crate::constraints::value_of(s, v), true),
        forall|v: TypeVar| #[trigger]
            floats.contains(v) ==> undecided_or_number(crate::constraints::value_of(s, v), false),
{
    crate::inference_laws::solutions_satisfy_all_constraints(s, cs, ints, floats, known);
    assert forall|v: TypeVar| #[trigger]
        crate::constraints::value_of(Map::empty(), v) == crate::term::var(v) by {
        crate::subst_model::lemma_apply_unbound(Map::empty(), crate::term::var(v));
    }
    lemma_solution_plain(s, Map::empty(), cs, 0, ints, floats, known);
    assert forall|v: TypeVar| #[trigger] plain(crate::constraints::value_of(s, v)) by {
        crate::subst_model::lemma_solved_apply(s, crate::term::var(v));
        lemma_plain_subst(s, crate::term::var(v));
    }
    assert forall|v: TypeVar| #[trigger] ints.contains(v) implies undecided_or_number(
        crate::constraints::value_of(s, v),
        true,
    ) by {
        assert(plain(crate::constraints::value_of(s, v)));
    }
    assert forall|v: TypeVar| #[trigger] floats.contains(v) implies undecided_or_number(
        crate::constraints::value_of(s, v),
        false,
    ) by {
        assert(plain(crate::constraints::value_of(s, v)));
    }
    assert forall|i: int| 0 <= i < cs.len() implies same(
        crate::subst_model::apply(s, (#[trigger] cs[i]).lhs),
        crate::subst_model::apply(s, cs[i].rhs),
    ) by {
        crate::subst_model::lemma_solved_apply(s, cs[i].lhs);
        crate::subst_model::lemma_solved_apply(s, cs[i].rhs);
        lemma_plain_subst(s, cs[i].lhs);
        lemma_plain_subst(s, cs[i].rhs);
        lemma_agree_same(
            crate::subst_model::subst(s, cs[i].lhs),
            crate::subst_model::subst(s, cs[i].rhs),
        );
    }
}

} // verus!
