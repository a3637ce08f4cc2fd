//! What unification computes, and why it is sound.

use crate::term::{Head, Term, TypeVar};
use crate::types::{CallMultiplicity, CallMutation, UseMultiplicity};
use vstd::prelude::*;

verus! {

/// The outcome of a unification: bindings, or what is wrong.
pub type Outcome = Result<Map<TypeVar, Term>, Seq<char>>;

/// Bindings that bind nothing.
pub open spec fn nothing() -> Map<TypeVar, Term> {
    Map::empty()
}

pub open spec fn cannot_unify(a: Term, b: Term) -> Seq<char> {
    "cannot unify "@ + crate::term::text(a) + " with "@ + crate::term::text(b)
}

/// What is said of a residual that meets the whole type it came from.
pub open spec fn partial_whole(brand: Seq<char>, labels: Seq<Seq<char>>) -> Seq<char> {
    "a partially-moved `"@ + brand + "` (now `"@ + brand + ".{ "@ + crate::text::joined(
        labels,
        ", "@,
    ) + " }`) cannot be used where the whole `"@ + brand + "` is required"@
}

/// What is said of two residuals of one type with different rows.
pub open spec fn partial_rows(
    brand: Seq<char>,
    have: Seq<Seq<char>>,
    want: Seq<Seq<char>>,
) -> Seq<char> {
    "a partially-moved `"@ + brand + "` here has row `{ "@ + crate::text::joined(have, ", "@)
        + " }` but `{ "@ + crate::text::joined(want, ", "@) + " }` is required"@
}

/// The bindings that make a variable stand for a term.
pub open spec fn bind_var_of(v: TypeVar, t: Term) -> Outcome {
    if t.head == Head::Var(v) {
        Ok(nothing())
    } else if crate::term::occurs(v, t) {
        Err(
            "occurs check failed: "@ + crate::term::text(crate::term::var(v)) + " occurs in "@
                + crate::term::text(t),
        )
    } else {
        Ok(Map::empty().insert(v, t))
    }
}

/// Whether a function type can be used where another is expected, as far as
/// its calls go: one that may be called often serves where one call is made,
/// and one that only reads serves where changing is allowed.
pub open spec fn calls_fit(
    have: CallMultiplicity,
    have_mutation: CallMutation,
    want: CallMultiplicity,
    want_mutation: CallMutation,
) -> bool {
    (have == CallMultiplicity::Many || want == CallMultiplicity::Once) && (have_mutation
        == CallMutation::Reading || want_mutation == CallMutation::Mutating)
}

pub open spec fn has_var(t: Term) -> bool {
    exists|v: TypeVar| crate::term::occurs(v, t)
}

pub open spec fn array_like(h: Head) -> bool {
    h is Array || h is SizedArray
}

pub open spec fn pointer_like(h: Head) -> bool {
    h is Reference || h is MutReference
}

/// How two heads are compared when function axes are checked: `None` where the
/// types are not compared further, else whether the heads fit.
pub open spec fn axes_heads(a: Head, b: Head, first_order: bool) -> Option<bool> {
    match (a, b) {
        (Head::Fun(c1, u1, m1), Head::Fun(c2, u2, m2)) => Some(
            c1 == c2 && m1 == m2 && (u1 == u2 || (first_order && u1 == UseMultiplicity::Move && u2
                == UseMultiplicity::Copy)),
        ),
        (Head::Tuple, Head::Tuple) => Some(true),
        (Head::Record(l1), Head::Record(l2)) => Some(l1 == l2),
        (Head::Named(n1, _), Head::Named(n2, _)) => Some(n1 == n2),
        (Head::Residual(b1, l1), Head::Residual(b2, l2)) => Some(b1 == b2 && l1 == l2),
        (Head::Dyn(a1), Head::Dyn(a2)) => Some(a1 == a2),
        (Head::Reference, Head::Reference) => Some(true),
        (Head::MutReference, Head::MutReference) => Some(true),
        _ => if array_like(a) && array_like(b) {
            Some(true)
        } else {
            None
        },
    }
}

/// Whether the function types inside two types have the same axes. Directly in
/// a parameter or result, a function that copies may stand where one that
/// moves is written; below that, the axes must be equal.
pub open spec fn axes_match(a: Term, b: Term, first_order: bool) -> bool
    decreases a,
{
    match axes_heads(a.head, b.head, first_order) {
        None => true,
        Some(ok) => ok && a.args.len() == b.args.len() && forall|i: int|
            0 <= i < a.args.len() ==> axes_match(
                #[trigger] a.args[i],
                b.args[i],
                first_order && !(a.head is Fun),
            ),
    }
}

/// How a pair of types is unified.
pub enum Step {
    /// At once, with this outcome.
    Done(Outcome),
    /// As the element types are.
    Element,
    /// Component by component.
    Components,
}

/// How a pair of types is unified. The type at hand comes first, the expected
/// one second.
pub open spec fn step(a: Term, b: Term) -> Step {
    let clash = Step::Done(Err(cannot_unify(a, b)));
    if a.head is Never || b.head is Never {
        Step::Done(Ok(nothing()))
    } else if a.head is Concrete && b.head is Concrete {
        if crate::term::erase(*a.head->Concrete_0) == crate::term::erase(*b.head->Concrete_0) {
            Step::Done(Ok(nothing()))
        } else {
            clash
        }
    } else if a.head is Var {
        Step::Done(bind_var_of(a.head->Var_0, b))
    } else if b.head is Var {
        Step::Done(bind_var_of(b.head->Var_0, a))
    } else if array_like(a.head) && array_like(b.head) && a.args.len() == 1 && b.args.len() == 1 {
        if a.head is SizedArray && b.head is SizedArray {
            if a.head == b.head {
                Step::Element
            } else {
                clash
            }
        } else {
            Step::Components
        }
    } else if pointer_like(a.head) && pointer_like(b.head) && a.args.len() == 1 && b.args.len()
        == 1 {
        Step::Components
    } else {
        match (a.head, b.head) {
            (Head::Fun(c1, _, m1), Head::Fun(c2, _, m2)) => if a.args.len() == b.args.len() && (
            calls_fit(c1, m1, c2, m2) || has_var(a) || has_var(b)) {
                Step::Components
            } else {
                clash
            },
            (Head::Tuple, Head::Tuple) => if a.args.len() == b.args.len() {
                Step::Components
            } else {
                clash
            },
            (Head::Record(_), Head::Record(_)) => if a.args.len() == b.args.len() {
                Step::Components
            } else {
                clash
            },
            (Head::Named(n1, _), Head::Named(n2, _)) => if n1 == n2 && a.args.len()
                == b.args.len() {
                Step::Components
            } else {
                clash
            },
            (Head::Residual(b1, l1), Head::Residual(b2, l2)) => if b1 == b2 && a.args.len()
                == b.args.len() {
                Step::Components
            } else if b1 == b2 {
                Step::Done(Err(partial_rows(b1, l1, l2)))
            } else {
                clash
            },
            (Head::Dyn(a1), Head::Dyn(a2)) => if a1 == a2 && a.args.len() == b.args.len() {
                Step::Components
            } else {
                clash
            },
            (Head::Residual(brand, labels), Head::Named(name, _)) => if brand == name {
                Step::Done(Err(partial_whole(brand, labels)))
            } else {
                clash
            },
            (Head::Named(name, _), Head::Residual(brand, labels)) => if brand == name {
                Step::Done(Err(partial_whole(brand, labels)))
            } else {
                clash
            },
            _ => clash,
        }
    }
}

/// What must hold at a position before its components are unified.
pub open spec fn position_fits(a: Term, b: Term, i: int) -> bool {
    match (a.head, b.head) {
        (Head::Fun(_, _, _), Head::Fun(_, _, _)) => axes_match(a.args[i], b.args[i], true),
        (Head::Record(l1), Head::Record(l2)) => l1[i] == l2[i],
        (Head::Residual(_, l1), Head::Residual(_, l2)) => l1[i] == l2[i],
        _ => true,
    }
}

/// The outcome of unifying two types, if `n` nested steps are enough to reach it.
pub open spec fn unify_at(n: nat, a: Term, b: Term) -> Option<Outcome>
    decreases n, 0int,
{
    if n == 0 {
        None
    } else {
        match step(a, b) {
            Step::Done(r) => Some(r),
            Step::Element => unify_at((n - 1) as nat, a.args[0], b.args[0]),
            Step::Components => unify_args_at((n - 1) as nat, a, b, 0, nothing()),
        }
    }
}

/// The outcome of unifying the components from position `i` on, each after what
/// the earlier ones have bound.
pub open spec fn unify_args_at(
    n: nat,
    a: Term,
    b: Term,
    i: int,
    acc: Map<TypeVar, Term>,
) -> Option<Outcome>
    decreases n, a.args.len() - i + 1,
{
    if i < 0 || i >= a.args.len() {
        Some(Ok(acc))
    } else if !position_fits(a, b, i) {
        Some(Err(cannot_unify(a, b)))
    } else {
        match unify_at(
            n,
            crate::subst_model::apply(acc, a.args[i]),
            crate::subst_model::apply(acc, b.args[i]),
        ) {
            Some(Ok(s)) => unify_args_at(n, a, b, i + 1, crate::subst_model::composed(acc, s)),
            r => r,
        }
    }
}

/// Whether some number of nested steps is enough.
pub open spec fn reaches(n: nat, a: Term, b: Term) -> bool {
    unify_at(n, a, b) is Some
}

/// The outcome of unifying two types.
pub open spec fn unify_of(a: Term, b: Term) -> Outcome {
    unify_at(choose|n: nat| reaches(n, a, b), a, b)->Some_0
}

/// The outcome of unifying the components from position `i` on.
pub open spec fn unify_args_of(a: Term, b: Term, i: int, acc: Map<TypeVar, Term>) -> Outcome
    decreases a.args.len() - i,
{
    if i < 0 || i >= a.args.len() {
        Ok(acc)
    } else if !position_fits(a, b, i) {
        Err(cannot_unify(a, b))
    } else {
        match unify_of(
            crate::subst_model::apply(acc, a.args[i]),
            crate::subst_model::apply(acc, b.args[i]),
        ) {
            Ok(s) => unify_args_of(a, b, i + 1, crate::subst_model::composed(acc, s)),
            Err(e) => Err(e),
        }
    }
}

proof fn lemma_more_steps(n: nat, k: nat, a: Term, b: Term)
    requires
        unify_at(n, a, b) is Some,
        n <= k,
    ensures
        unify_at(k, a, b) == unify_at(n, a, b),
    decreases n, 0int,
{
    match step(a, b) {
        Step::Done(r) => {},
        Step::Element => {
            lemma_more_steps((n - 1) as nat, (k - 1) as nat, a.args[0], b.args[0]);
        },
        Step::Components => {
            lemma_more_steps_args((n - 1) as nat, (k - 1) as nat, a, b, 0, nothing());
        },
    }
}

proof fn lemma_more_steps_args(
    n: nat,
    k: nat,
    a: Term,
    b: Term,
    i: int,
    acc: Map<TypeVar, Term>,
)
    requires
        unify_args_at(n, a, b, i, acc) is Some,
        n <= k,
    ensures
        unify_args_at(k, a, b, i, acc) == unify_args_at(n, a, b, i, acc),
    decreases n, a.args.len() - i + 1,
{
    if i < 0 || i >= a.args.len() {
    } else if !position_fits(a, b, i) {
    } else {
        let x = crate::subst_model::apply(acc, a.args[i]);
        let y = crate::subst_model::apply(acc, b.args[i]);
        lemma_more_steps(n, k, x, y);
        match unify_at(n, x, y) {
            Some(Ok(s)) => {
                lemma_more_steps_args(n, k, a, b, i + 1, crate::subst_model::composed(acc, s));
            },
            _ => {},
        }
    }
}

proof fn lemma_unify_of(n: nat, a: Term, b: Term)
    requires
        unify_at(n, a, b) is Some,
    ensures
        unify_at(n, a, b) == Some(unify_of(a, b)),
{
    assert(reaches(n, a, b));
    let c = choose|c: nat| reaches(c, a, b);
    if c <= n {
        lemma_more_steps(c, n, a, b);
    } else {
        lemma_more_steps(n, c, a, b);
    }
}

proof fn lemma_unify_args_of(n: nat, a: Term, b: Term, i: int, acc: Map<TypeVar, Term>)
    requires
        unify_args_at(n, a, b, i, acc) is Some,
    ensures
        unify_args_at(n, a, b, i, acc) == Some(unify_args_of(a, b, i, acc)),
    decreases a.args.len() - i,
{
    if 0 <= i < a.args.len() && position_fits(a, b, i) {
        let x = crate::subst_model::apply(acc, a.args[i]);
        let y = crate::subst_model::apply(acc, b.args[i]);
        lemma_unify_of(n, x, y);
        match unify_at(n, x, y) {
            Some(Ok(s)) => {
                lemma_unify_args_of(n, a, b, i + 1, crate::subst_model::composed(acc, s));
            },
            _ => {},
        }
    }
}

/// The variables of two types.
pub open spec fn vars2(a: Term, b: Term) -> Set<TypeVar> {
    crate::term::vars(a).union(crate::term::vars(b))
}

/// Whether bindings bind, and mention, only variables of a set.
pub open spec fn within(m: Map<TypeVar, Term>, vs: Set<TypeVar>) -> bool {
    forall|v: TypeVar| #[trigger]
        m.contains_key(v) ==> vs.contains(v) && crate::term::vars(m[v]).subset_of(vs)
}

/// Whether two heads are of the same kind, up to the coercions that unification
/// allows and to the axes of functions.
pub open spec fn same_kind(a: Head, b: Head, n: nat) -> bool {
    match (a, b) {
        (Head::Fun(_, _, _), Head::Fun(_, _, _)) => true,
        (Head::Tuple, Head::Tuple) => true,
        (Head::Record(l1), Head::Record(l2)) => forall|i: int|
            0 <= i < n ==> #[trigger] l1[i] == l2[i],
        (Head::SizedArray(n1), Head::SizedArray(n2)) => n1 == n2,
        (Head::Named(n1, _), Head::Named(n2, _)) => n1 == n2,
        (Head::Residual(b1, l1), Head::Residual(b2, l2)) => b1 == b2 && forall|i: int|
            0 <= i < n ==> #[trigger] l1[i] == l2[i],
        (Head::Dyn(a1), Head::Dyn(a2)) => a1 == a2,
        _ => (array_like(a) && array_like(b)) || (pointer_like(a) && pointer_like(b)),
    }
}

/// Whether two types are equal up to the coercions that unification allows: the
/// bottom type fits anywhere, sized and unsized arrays and shared and mutable
/// pointers fit each other, and functions may differ in their axes.
pub open spec fn agree(a: Term, b: Term) -> bool
    decreases a,
{
    ||| a == b
    ||| a.head is Var && a.head == b.head
    ||| a.head is Never
    ||| b.head is Never
    ||| a.head is Concrete && b.head is Concrete && crate::term::erase(*a.head->Concrete_0)
        == crate::term::erase(*b.head->Concrete_0)
    ||| (same_kind(a.head, b.head, a.args.len()) && a.args.len() == b.args.len() && forall|i: int|
        0 <= i < a.args.len() ==> agree(#[trigger] a.args[i], b.args[i]))
}

/// Types that agree still agree after substitution.
pub proof fn lemma_agree_subst(m: Map<TypeVar, Term>, a: Term, b: Term)
    requires
        agree(a, b),
    ensures
        agree(crate::subst_model::subst(m, a), crate::subst_model::subst(m, b)),
    decreases a,
{
    if a == b || a.head is Never || b.head is Never || (a.head is Var && a.head == b.head) {
    } else if a.head is Concrete && b.head is Concrete && crate::term::erase(*a.head->Concrete_0)
        == crate::term::erase(*b.head->Concrete_0) {
    } else {
        let x = crate::subst_model::subst(m, a);
        let y = crate::subst_model::subst(m, b);
        assert forall|i: int| 0 <= i < x.args.len() implies agree(
            #[trigger] x.args[i],
            y.args[i],
        ) by {
            assert(agree(a.args[i], b.args[i]));
            lemma_agree_subst(m, a.args[i], b.args[i]);
        }
    }
}

/// What holds of the bindings that unify two types.
pub open spec fn sound(a: Term, b: Term, s: Map<TypeVar, Term>) -> bool {
    &&& crate::subst_model::solved(s)
    &&& within(s, vars2(a, b))
    &&& agree(crate::subst_model::subst(s, a), crate::subst_model::subst(s, b))
}

/// The variables of terms after solved bindings are applied to them.
pub proof fn lemma_vars_shrink(
    m: Map<TypeVar, Term>,
    t: Term,
    vs: Set<TypeVar>,
)
    requires
        crate::subst_model::solved(m),
        within(m, vs),
        crate::term::vars(t).subset_of(vs),
    ensures
        crate::term::vars(crate::subst_model::subst(m, t)).subset_of(vs.difference(m.dom())),
{
    assert forall|w: TypeVar|
        crate::term::vars(crate::subst_model::subst(m, t)).contains(w) implies vs.difference(
        m.dom(),
    ).contains(w) by {
        crate::subst_model::lemma_subst_occurs(m, t, w);
        if crate::term::occurs(w, t) && !m.contains_key(w) {
            assert(crate::term::vars(t).contains(w));
        } else {
            let v = choose|v: TypeVar|
                #[trigger]
                m.contains_key(v) && crate::term::occurs(v, t) && crate::term::occurs(w, m[v]);
            assert(m.contains_key(v));
            assert(crate::term::vars(m[v]).contains(w));
            assert(!m.contains_key(w));
        }
    }
}

/// A component's variables are among those of the whole.
proof fn lemma_arg_vars(t: Term, i: int)
    requires
        !(t.head is Var),
        0 <= i < t.args.len(),
    ensures
        crate::term::vars(t.args[i]).subset_of(crate::term::vars(t)),
{
    assert forall|w: TypeVar| crate::term::vars(t.args[i]).contains(w) implies crate::term::vars(
        t,
    ).contains(w) by {
        assert(crate::term::occurs(w, t.args[i]));
    }
}

/// Whether `s` keeps every agreement that `m` has brought about.
pub open spec fn keeps_agreement(m: Map<TypeVar, Term>, s: Map<TypeVar, Term>) -> bool {
    forall|x: Term, y: Term|
        agree(
            crate::subst_model::subst(m, x),
            crate::subst_model::subst(m, y),
        ) ==> #[trigger] agree(
            crate::subst_model::subst(s, x),
            crate::subst_model::subst(s, y),
        )
}

proof fn lemma_bind_var_sound(v: TypeVar, x: Term, t: Term)
    requires
        x.head == Head::Var(v),
        bind_var_of(v, t) is Ok,
    ensures
        sound(x, t, bind_var_of(v, t)->Ok_0),
        sound(t, x, bind_var_of(v, t)->Ok_0),
{
    let s = bind_var_of(v, t)->Ok_0;
    if t.head == Head::Var(v) {
    } else {
        assert forall|w: TypeVar| s.contains_key(w) implies !crate::term::occurs(w, t) by {}
        crate::subst_model::lemma_apply_unbound(s, t);
        assert(crate::term::occurs(v, x));
        assert(vars2(x, t).contains(v));
        assert(vars2(t, x).contains(v));
        assert(crate::subst_model::subst(s, x) == t);
    }
}

/// Unification reaches an outcome, and a successful one is sound.
pub proof fn lemma_unify_total(a: Term, b: Term)
    ensures
        exists|n: nat| reaches(n, a, b),
        unify_of(a, b) is Ok ==> sound(a, b, unify_of(a, b)->Ok_0),
    decreases vars2(a, b).len(), a, a.args.len() + 2,
{
    match step(a, b) {
        Step::Done(r) => {
            assert(unify_at(1, a, b) == Some(r));
            assert(reaches(1, a, b));
            lemma_unify_of(1, a, b);
            if r is Ok {
                if a.head is Var {
                    if !(b.head is Never) {
                        lemma_bind_var_sound(a.head->Var_0, a, b);
                    } else {
                        assert(agree(
                            crate::subst_model::subst(nothing(), a),
                            crate::subst_model::subst(nothing(), b),
                        ));
                    }
                } else if b.head is Var {
                    if !(a.head is Never) {
                        lemma_bind_var_sound(b.head->Var_0, b, a);
                    }
                }
            }
        },
        Step::Element => {
            let x = a.args[0];
            let y = b.args[0];
            lemma_smaller(a, b, 0);
            lemma_unify_total(x, y);
            let n = choose|n: nat| reaches(n, x, y);
            lemma_unify_of(n, x, y);
            assert(unify_at(n + 1, a, b) == unify_at(n, x, y));
            assert(reaches(n + 1, a, b));
            lemma_unify_of(n + 1, a, b);
            if unify_of(a, b) is Ok {
                let s = unify_of(a, b)->Ok_0;
                lemma_within_grows(s, vars2(x, y), vars2(a, b));
                assert(agree(crate::subst_model::subst(s, a), crate::subst_model::subst(s, b)));
            }
        },
        Step::Components => {
            lemma_unify_args_total(a, b, 0, nothing());
            let n = choose|n: nat| unify_args_at(n, a, b, 0, nothing()) is Some;
            assert(unify_at(n + 1, a, b) == unify_args_at(n, a, b, 0, nothing()));
            assert(reaches(n + 1, a, b));
            lemma_unify_of(n + 1, a, b);
            lemma_unify_args_of(n, a, b, 0, nothing());
            if unify_of(a, b) is Ok {
                let s = unify_of(a, b)->Ok_0;
                let x = crate::subst_model::subst(s, a);
                let y = crate::subst_model::subst(s, b);
                assert forall|i: int| 0 <= i < x.args.len() implies agree(
                    #[trigger] x.args[i],
                    y.args[i],
                ) by {
                    assert(agree(
                        crate::subst_model::subst(s, a.args[i]),
                        crate::subst_model::subst(s, b.args[i]),
                    ));
                }
                assert forall|i: int| 0 <= i < a.args.len() implies position_fits(a, b, i) by {
                    assert(agree(
                        crate::subst_model::subst(s, a.args[i]),
                        crate::subst_model::subst(s, b.args[i]),
                    ));
                }
                lemma_same_kind(a, b);
            }
        },
    }
}

proof fn lemma_same_kind(a: Term, b: Term)
    requires
        step(a, b) is Components,
        forall|i: int| 0 <= i < a.args.len() ==> position_fits(a, b, i),
    ensures
        same_kind(a.head, b.head, a.args.len()),
        a.args.len() == b.args.len(),
{
    match (a.head, b.head) {
        (Head::Record(l1), Head::Record(l2)) => {
            assert forall|i: int| 0 <= i < a.args.len() implies #[trigger] l1[i] == l2[i] by {
                assert(position_fits(a, b, i));
            }
        },
        (Head::Residual(b1, l1), Head::Residual(b2, l2)) => {
            assert forall|i: int| 0 <= i < a.args.len() implies #[trigger] l1[i] == l2[i] by {
                assert(position_fits(a, b, i));
            }
        },
        _ => {},
    }
}

proof fn lemma_within_grows(m: Map<TypeVar, Term>, vs: Set<TypeVar>, ws: Set<TypeVar>)
    requires
        within(m, vs),
        vs.subset_of(ws),
    ensures
        within(m, ws),
{
}

/// The components have no variables that the types do not have.
pub proof fn lemma_smaller(a: Term, b: Term, i: int)
    requires
        !(a.head is Var),
        !(b.head is Var),
        0 <= i < a.args.len(),
        0 <= i < b.args.len(),
    ensures
        vars2(a.args[i], b.args[i]).subset_of(vars2(a, b)),
        vars2(a.args[i], b.args[i]).len() <= vars2(a, b).len(),
        vars2(a, b).finite(),
{
    lemma_arg_vars(a, i);
    lemma_arg_vars(b, i);
    crate::free_vars::lemma_vars_finite(a);
    crate::free_vars::lemma_vars_finite(b);
    vstd::set_lib::lemma_len_subset(vars2(a.args[i], b.args[i]), vars2(a, b));
}

/// What unifying a component involves: its variables are among those that are
/// not bound yet, and so unification goes on with less.
pub proof fn lemma_component_vars(a: Term, b: Term, i: int, acc: Map<TypeVar, Term>)
    requires
        step(a, b) is Components,
        0 <= i < a.args.len(),
        crate::subst_model::solved(acc),
        within(acc, vars2(a, b)),
    ensures
        ({
            let x = crate::subst_model::apply(acc, a.args[i]);
            let y = crate::subst_model::apply(acc, b.args[i]);
            &&& i < b.args.len()
            &&& crate::subst_model::applies(acc, a.args[i])
            &&& crate::subst_model::applies(acc, b.args[i])
            &&& vars2(x, y).subset_of(vars2(a, b).difference(acc.dom()))
            &&& vars2(x, y).len() <= vars2(a, b).len()
            &&& acc == nothing() ==> x == a.args[i] && y == b.args[i]
            &&& acc != nothing() ==> vars2(x, y).len() < vars2(a, b).len()
        }),
{
    let vs = vars2(a, b);
    let x = crate::subst_model::subst(acc, a.args[i]);
    let y = crate::subst_model::subst(acc, b.args[i]);
    crate::subst_model::lemma_solved_apply(acc, a.args[i]);
    crate::subst_model::lemma_solved_apply(acc, b.args[i]);
    lemma_smaller(a, b, i);
    lemma_vars_shrink(acc, a.args[i], vs);
    lemma_vars_shrink(acc, b.args[i], vs);
    let ws = vs.difference(acc.dom());
    assert(vars2(x, y).subset_of(ws));
    vstd::set_lib::lemma_len_subset(vars2(x, y), ws);
    if exists|v: TypeVar| acc.contains_key(v) {
        let v = choose|v: TypeVar| acc.contains_key(v);
        assert(vs.contains(v) && !ws.contains(v));
        assert(ws.subset_of(vs.remove(v)));
        vstd::set_lib::lemma_len_subset(ws, vs.remove(v));
        assert(acc != nothing());
    } else {
        assert(acc =~= nothing());
        assert(ws =~= vs);
        crate::subst_model::lemma_apply_unbound(acc, a.args[i]);
        crate::subst_model::lemma_apply_unbound(acc, b.args[i]);
    }
}

/// Bindings found for variables that were not bound yet can be composed.
pub proof fn lemma_compose_good(
    acc: Map<TypeVar, Term>,
    s: Map<TypeVar, Term>,
    vs: Set<TypeVar>,
    us: Set<TypeVar>,
)
    requires
        crate::subst_model::solved(acc),
        within(acc, vs),
        crate::subst_model::solved(s),
        within(s, us),
        us.subset_of(vs.difference(acc.dom())),
    ensures
        crate::subst_model::avoids(s, acc),
        crate::subst_model::solved(crate::subst_model::composed(acc, s)),
        within(crate::subst_model::composed(acc, s), vs),
        forall|k: TypeVar| #[trigger]
            acc.contains_key(k) ==> crate::subst_model::applies(s, acc[k]),
{
    let ws = vs.difference(acc.dom());
    lemma_within_grows(s, us, ws);
    assert forall|v: TypeVar, w: TypeVar|
        #![trigger s.contains_key(v), acc.contains_key(w)]
        s.contains_key(v) && crate::term::occurs(w, s[v]) implies !acc.contains_key(w) by {
        assert(crate::term::vars(s[v]).contains(w));
        assert(ws.contains(w));
    }
    let next = crate::subst_model::composed(acc, s);
    crate::subst_model::lemma_composed(acc, s);
    assert forall|v: TypeVar| #[trigger] next.contains_key(v) implies vs.contains(v)
        && crate::term::vars(next[v]).subset_of(vs) by {
        if acc.contains_key(v) {
            assert forall|w: TypeVar| crate::term::vars(next[v]).contains(w) implies vs.contains(
                w,
            ) by {
                crate::subst_model::lemma_subst_occurs(s, acc[v], w);
                if crate::term::occurs(w, acc[v]) {
                    assert(crate::term::vars(acc[v]).contains(w));
                } else {
                    let u = choose|u: TypeVar|
                        #[trigger]
                        s.contains_key(u) && crate::term::occurs(u, acc[v]) && crate::term::occurs(
                            w,
                            s[u],
                        );
                    assert(crate::term::vars(s[u]).contains(w));
                }
            }
        } else {
            assert(s.contains_key(v));
        }
    }
    assert forall|k: TypeVar| #[trigger] acc.contains_key(k) implies crate::subst_model::applies(
        s,
        acc[k],
    ) by {
        crate::subst_model::lemma_solved_apply(s, acc[k]);
    }
}

proof fn lemma_unify_args_total(a: Term, b: Term, i: int, acc: Map<TypeVar, Term>)
    requires
        step(a, b) is Components,
        0 <= i <= a.args.len(),
        crate::subst_model::solved(acc),
        within(acc, vars2(a, b)),
    ensures
        exists|n: nat| unify_args_at(n, a, b, i, acc) is Some,
        unify_args_of(a, b, i, acc) is Ok ==> {
            let s = unify_args_of(a, b, i, acc)->Ok_0;
            &&& crate::subst_model::solved(s)
            &&& within(s, vars2(a, b))
            &&& keeps_agreement(acc, s)
            &&& forall|j: int|
                i <= j < a.args.len() ==> position_fits(a, b, j) && agree(
                    crate::subst_model::subst(s, #[trigger] a.args[j]),
                    crate::subst_model::subst(s, b.args[j]),
                )
        },
    decreases vars2(a, b).len(), a, a.args.len() - i + 1,
{
    if i >= a.args.len() {
        assert(unify_args_at(0, a, b, i, acc) is Some);
    } else if !position_fits(a, b, i) {
        assert(unify_args_at(0, a, b, i, acc) is Some);
    } else {
        let x = crate::subst_model::apply(acc, a.args[i]);
        let y = crate::subst_model::apply(acc, b.args[i]);
        lemma_component_vars(a, b, i, acc);
        crate::subst_model::lemma_solved_apply(acc, a.args[i]);
        crate::subst_model::lemma_solved_apply(acc, b.args[i]);
        lemma_unify_total(x, y);
        let n1 = choose|n: nat| reaches(n, x, y);
        lemma_unify_of(n1, x, y);
        match unify_of(x, y) {
            Ok(s) => {
                let next = crate::subst_model::composed(acc, s);
                lemma_compose_good(acc, s, vars2(a, b), vars2(x, y));
                crate::subst_model::lemma_composed(acc, s);
                let k = i + 1;
                lemma_unify_args_total(a, b, k, next);
                let n2 = choose|n: nat| unify_args_at(n, a, b, k, next) is Some;
                let n = if n1 <= n2 {
                    n2
                } else {
                    n1
                };
                lemma_more_steps(n1, n, x, y);
                lemma_more_steps_args(n2, n, a, b, i + 1, next);
                assert(unify_args_at(n, a, b, i, acc) is Some);
                if unify_args_of(a, b, i + 1, next) is Ok {
                    let f = unify_args_of(a, b, i + 1, next)->Ok_0;
                    assert(agree(
                        crate::subst_model::subst(next, a.args[i]),
                        crate::subst_model::subst(next, b.args[i]),
                    ));
                    assert(keeps_agreement(acc, f)) by {
                        assert forall|p: Term, q: Term|
                            agree(
                                crate::subst_model::subst(acc, p),
                                crate::subst_model::subst(acc, q),
                            ) implies #[trigger] agree(
                            crate::subst_model::subst(f, p),
                            crate::subst_model::subst(f, q),
                        ) by {
                            lemma_agree_subst(
                                s,
                                crate::subst_model::subst(acc, p),
                                crate::subst_model::subst(acc, q),
                            );
                            assert(agree(
                                crate::subst_model::subst(next, p),
                                crate::subst_model::subst(next, q),
                            ));
                        }
                    }
                }
            },
            Err(e) => {
                assert(unify_args_at(n1, a, b, i, acc) is Some);
            },
        }
    }
}

/// How the outcome for two types comes from the outcomes for their components.
pub proof fn lemma_unify_unfold(a: Term, b: Term)
    ensures
        unify_of(a, b) == (match step(a, b) {
            Step::Done(r) => r,
            Step::Element => unify_of(a.args[0], b.args[0]),
            Step::Components => unify_args_of(a, b, 0, nothing()),
        }),
{
    lemma_unify_total(a, b);
    let n = choose|n: nat| reaches(n, a, b);
    lemma_unify_of(n, a, b);
    match step(a, b) {
        Step::Done(r) => {},
        Step::Element => {
            lemma_unify_of((n - 1) as nat, a.args[0], b.args[0]);
        },
        Step::Components => {
            lemma_unify_args_of((n - 1) as nat, a, b, 0, nothing());
        },
    }
}

} // verus!
