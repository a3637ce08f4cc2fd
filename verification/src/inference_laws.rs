//! What holds of type inference as a whole.

use crate::constraints::ConstraintModel;
use crate::context::ContextModel;
use crate::error::ErrorModel;
use crate::infer_type::InferType;
use crate::schemes::SchemeModel;
use crate::term::{Head, Term, TypeVar};
use crate::unify_model::Step;
use vstd::prelude::*;

verus! {

/// Unification makes two types agree, and says nothing of variables that are in
/// neither of them. No variable comes to stand for a type that contains it.
pub proof fn unified_types_agree(a: Term, b: Term)
    requires
        crate::unify_model::unify_of(a, b) is Ok,
    ensures
        ({
            let s = crate::unify_model::unify_of(a, b)->Ok_0;
            &&& crate::unify_model::agree(
                crate::subst_model::apply(s, a),
                crate::subst_model::apply(s, b),
            )
            &&& forall|v: TypeVar| #[trigger]
                s.contains_key(v) ==> (crate::term::occurs(v, a) || crate::term::occurs(v, b))
                    && !crate::term::occurs(v, s[v])
        }),
{
    crate::unify_model::lemma_unify_total(a, b);
    let s = crate::unify_model::unify_of(a, b)->Ok_0;
    crate::subst_model::lemma_solved_apply(s, a);
    crate::subst_model::lemma_solved_apply(s, b);
    assert forall|v: TypeVar| #[trigger] s.contains_key(v) implies (crate::term::occurs(v, a)
        || crate::term::occurs(v, b)) && !crate::term::occurs(v, s[v]) by {
        assert(crate::unify_model::vars2(a, b).contains(v));
    }
}

/// Whether a term has the shape of a type: pointers and arrays have one
/// component, and rows have a label for each.
pub open spec fn shaped(t: Term) -> bool
    decreases t,
{
    &&& crate::unify_model::array_like(t.head) || crate::unify_model::pointer_like(t.head)
        ==> t.args.len() == 1
    &&& t.head is Var || t.head is Never || t.head is Concrete ==> t.args.len() == 0
    &&& t.head matches Head::Record(labels) ==> labels.len() == t.args.len()
    &&& t.head matches Head::Residual(_, labels) ==> labels.len() == t.args.len()
    &&& forall|i: int| 0 <= i < t.args.len() ==> shaped(#[trigger] t.args[i])
    &&& unifiable_head(t.head)
}

/// Whether a head is one that an inference type can have.
pub open spec fn unifiable_head(h: Head) -> bool {
    h is Var || h is Never || h is Concrete || h is Fun || h is Tuple || h is Record || h is Named
        || h is Residual || h is Dyn || crate::unify_model::array_like(h)
        || crate::unify_model::pointer_like(h)
}

/// Every inference type has the shape of a type.
pub proof fn types_are_shaped(t: InferType)
    ensures
        shaped(t.term()),
    decreases t,
{
    match t {
        InferType::Tuple(ts) => {
            assert forall|i: int| 0 <= i < ts@.len() implies shaped((#[trigger] ts@[i]).term()) by {
                types_are_shaped(ts@[i]);
            }
        },
        InferType::Record(fs) => {
            assert forall|i: int| 0 <= i < fs@.len() implies shaped(
                (#[trigger] fs@[i]).1.term(),
            ) by {
                types_are_shaped(fs@[i].1);
            }
        },
        InferType::Array(x) => {
            types_are_shaped(*x);
        },
        InferType::SizedArray(x, _) => {
            types_are_shaped(*x);
        },
        InferType::Reference(x) => {
            types_are_shaped(*x);
        },
        InferType::MutReference(x) => {
            types_are_shaped(*x);
        },
        InferType::Fun(ps, r, _, _, _) => {
            assert forall|i: int| 0 <= i < ps@.len() implies shaped((#[trigger] ps@[i]).term()) by {
                types_are_shaped(ps@[i]);
            }
            types_are_shaped(*r);
        },
        InferType::Named(_, ts) => {
            assert forall|i: int| 0 <= i < ts@.len() implies shaped((#[trigger] ts@[i]).term()) by {
                types_are_shaped(ts@[i]);
            }
        },
        InferType::Residual { brand: _, fields } => {
            assert forall|i: int| 0 <= i < fields@.len() implies shaped(
                (#[trigger] fields@[i]).1.term(),
            ) by {
                types_are_shaped(fields@[i].1);
            }
        },
        InferType::Dyn { aspect: _, type_args } => {
            assert forall|i: int| 0 <= i < type_args@.len() implies shaped(
                (#[trigger] type_args@[i]).term(),
            ) by {
                types_are_shaped(type_args@[i]);
            }
        },
        _ => {},
    }
}

/// A variable unifies with no type that contains it, unless that is the variable
/// itself.
pub proof fn occurs_check(v: TypeVar, t: Term)
    requires
        shaped(t),
        crate::term::occurs(v, t),
        t.head != Head::Var(v),
    ensures
        crate::unify_model::unify_of(crate::term::var(v), t) is Err,
        crate::unify_model::unify_of(t, crate::term::var(v)) is Err,
{
    let x = crate::term::var(v);
    crate::unify_model::lemma_unify_unfold(x, t);
    crate::unify_model::lemma_unify_unfold(t, x);
}

proof fn lemma_axes_match_self(t: Term, first_order: bool)
    ensures
        crate::unify_model::axes_match(t, t, first_order),
    decreases t,
{
    assert forall|i: int| 0 <= i < t.args.len() implies crate::unify_model::axes_match(
        #[trigger] t.args[i],
        t.args[i],
        first_order && !(t.head is Fun),
    ) by {
        lemma_axes_match_self(t.args[i], first_order && !(t.head is Fun));
    }
}

/// A type unifies with itself, and nothing needs to be bound.
pub proof fn unifying_a_type_with_itself(t: Term)
    requires
        shaped(t),
    ensures
        crate::unify_model::unify_of(t, t) == Ok::<Map<TypeVar, Term>, Seq<char>>(
            crate::unify_model::nothing(),
        ),
    decreases t, t.args.len() + 1,
{
    crate::unify_model::lemma_unify_unfold(t, t);
    match crate::unify_model::step(t, t) {
        Step::Done(r) => {
            if let Head::Fun(c, _, m) = t.head {
                assert(crate::unify_model::calls_fit(c, m, c, m));
            }
        },
        Step::Element => {
            unifying_a_type_with_itself(t.args[0]);
        },
        Step::Components => {
            lemma_unify_args_self(t, 0);
        },
    }
}

proof fn lemma_unify_args_self(t: Term, i: int)
    requires
        shaped(t),
        0 <= i <= t.args.len(),
    ensures
        crate::unify_model::unify_args_of(t, t, i, crate::unify_model::nothing()) == Ok::<
            Map<TypeVar, Term>,
            Seq<char>,
        >(crate::unify_model::nothing()),
    decreases t, t.args.len() - i,
{
    let none = crate::unify_model::nothing();
    if i < t.args.len() {
        lemma_axes_match_self(t.args[i], true);
        crate::subst_model::lemma_apply_unbound(none, t.args[i]);
        unifying_a_type_with_itself(t.args[i]);
        assert(crate::subst_model::composed(none, none) =~= none);
        lemma_unify_args_self(t, i + 1);
    }
}

/// The bottom type fits anywhere, and nothing is learned from it.
pub proof fn the_bottom_type_fits_anywhere(a: Term, b: Term)
    requires
        a.head is Never,
    ensures
        crate::unify_model::unify_of(a, b) == Ok::<Map<TypeVar, Term>, Seq<char>>(
            crate::unify_model::nothing(),
        ),
        crate::unify_model::unify_of(b, a) == Ok::<Map<TypeVar, Term>, Seq<char>>(
            crate::unify_model::nothing(),
        ),
{
    crate::unify_model::lemma_unify_unfold(a, b);
    crate::unify_model::lemma_unify_unfold(b, a);
}

/// Whether the identity of a declaration is known makes no difference to whether two
/// types are the same: only what is written counts.
pub proof fn identities_do_not_tell_types_apart(a: Term, b: Term)
    requires
        a.head is Concrete,
        b.head is Concrete,
    ensures
        crate::unify_model::unify_of(a, b) is Ok <==> crate::term::erase(*a.head->Concrete_0)
            == crate::term::erase(*b.head->Concrete_0),
        crate::unify_model::unify_of(a, b) matches Ok(s) ==> s == crate::unify_model::nothing(),
{
    crate::unify_model::lemma_unify_unfold(a, b);
}

/// A type that erases another one unifies only with one of its own kind, a variable
/// or the bottom type: the type behind it cannot be recovered.
pub proof fn erased_types_meet_only_their_kind(a: Term, b: Term)
    requires
        a.head is Dyn,
        !(b.head is Dyn || b.head is Var || b.head is Never),
    ensures
        crate::unify_model::unify_of(a, b) is Err,
        crate::unify_model::unify_of(b, a) is Err,
{
    crate::unify_model::lemma_unify_unfold(a, b);
    crate::unify_model::lemma_unify_unfold(b, a);
}

/// Two types that erase others are the same only with the same aspect and as many
/// type arguments.
pub proof fn erased_types_differ_by_aspect(a: Term, b: Term)
    requires
        a.head is Dyn,
        b.head is Dyn,
        a.head != b.head || a.args.len() != b.args.len(),
    ensures
        crate::unify_model::unify_of(a, b) is Err,
{
    crate::unify_model::lemma_unify_unfold(a, b);
}

/// What is left of a struct never passes for a record, whatever its fields are, and
/// never for the whole struct or for what is left of another one.
pub proof fn residuals_keep_their_brand(a: Term, b: Term)
    requires
        a.head is Residual,
        b.head is Record || b.head is Named || (b.head is Residual && b.head->Residual_0
            != a.head->Residual_0),
    ensures
        crate::unify_model::unify_of(a, b) is Err,
        crate::unify_model::unify_of(b, a) is Err,
{
    crate::unify_model::lemma_unify_unfold(a, b);
    crate::unify_model::lemma_unify_unfold(b, a);
}

/// A constraint whose two sides have already become one type binds nothing more.
pub proof fn solved_constraints_bind_nothing(
    m: Map<TypeVar, Term>,
    c: ConstraintModel,
    known: Map<TypeVar, Seq<char>>,
)
    requires
        crate::subst_model::no_identity(m),
        crate::subst_model::apply(m, c.lhs) == crate::subst_model::apply(m, c.rhs),
        shaped(crate::subst_model::apply(m, c.lhs)),
    ensures
        crate::constraints::constrained(m, c, known) == Ok::<Map<TypeVar, Term>, ErrorModel>(m),
{
    let t = crate::subst_model::apply(m, c.lhs);
    let none = crate::unify_model::nothing();
    unifying_a_type_with_itself(t);
    assert(crate::subst_model::composed(m, none) =~= m) by {
        assert forall|k: TypeVar| #[trigger] m.contains_key(k) implies crate::subst_model::apply(
            none,
            m[k],
        ) == m[k] by {
            crate::subst_model::lemma_apply_unbound(none, m[k]);
        }
    }
}

/// Whether no function type is in a type.
pub open spec fn function_free(t: Term) -> bool
    decreases t,
{
    !(t.head is Fun) && forall|i: int| 0 <= i < t.args.len() ==> function_free(#[trigger] t.args[i])
}

/// Types that agree, without function types, unify and nothing needs to be bound.
pub proof fn agreeing_types_bind_nothing(a: Term, b: Term)
    requires
        crate::unify_model::agree(a, b),
        shaped(a),
        shaped(b),
        function_free(a),
        function_free(b),
    ensures
        crate::unify_model::unify_of(a, b) == Ok::<Map<TypeVar, Term>, Seq<char>>(
            crate::unify_model::nothing(),
        ),
    decreases a, a.args.len() + 1,
{
    if a == b {
        unifying_a_type_with_itself(a);
    } else {
        crate::unify_model::lemma_unify_unfold(a, b);
        match crate::unify_model::step(a, b) {
            Step::Done(r) => {},
            Step::Element => {
                assert(crate::unify_model::agree(a.args[0], b.args[0]));
                assert(shaped(a.args[0]) && shaped(b.args[0]));
                assert(function_free(a.args[0]) && function_free(b.args[0]));
                agreeing_types_bind_nothing(a.args[0], b.args[0]);
            },
            Step::Components => {
                lemma_agreeing_args(a, b, 0);
            },
        }
    }
}

proof fn lemma_agreeing_args(a: Term, b: Term, i: int)
    requires
        crate::unify_model::agree(a, b),
        crate::unify_model::step(a, b) is Components,
        a != b,
        shaped(a),
        shaped(b),
        function_free(a),
        function_free(b),
        0 <= i <= a.args.len(),
    ensures
        crate::unify_model::unify_args_of(a, b, i, crate::unify_model::nothing()) == Ok::<
            Map<TypeVar, Term>,
            Seq<char>,
        >(crate::unify_model::nothing()),
    decreases a, a.args.len() - i,
{
    let none = crate::unify_model::nothing();
    if i < a.args.len() {
        assert(crate::unify_model::agree(a.args[i], b.args[i]));
        assert(shaped(a.args[i]) && shaped(b.args[i]));
        assert(function_free(a.args[i]) && function_free(b.args[i]));
        crate::subst_model::lemma_apply_unbound(none, a.args[i]);
        crate::subst_model::lemma_apply_unbound(none, b.args[i]);
        agreeing_types_bind_nothing(a.args[i], b.args[i]);
        assert(crate::subst_model::composed(none, none) =~= none);
        lemma_agreeing_args(a, b, i + 1);
    }
}

/// Solving a constraint again changes nothing, as long as no function type is in
/// what its sides have become.
pub proof fn solving_again_changes_nothing(
    m: Map<TypeVar, Term>,
    c: ConstraintModel,
    known: Map<TypeVar, Seq<char>>,
)
    requires
        crate::subst_model::solved(m),
        crate::constraints::constrained(m, c, known) is Ok,
        sides_function_free(crate::constraints::constrained(m, c, known)->Ok_0, c),
    ensures
        ({
            let next = crate::constraints::constrained(m, c, known)->Ok_0;
            crate::constraints::constrained(next, c, known) == Ok::<
                Map<TypeVar, Term>,
                ErrorModel,
            >(next)
        }),
{
    crate::constraints::lemma_constrained_solved(m, c, known);
    let next = crate::constraints::constrained(m, c, known)->Ok_0;
    crate::subst_model::lemma_solved_apply(next, c.lhs);
    crate::subst_model::lemma_solved_apply(next, c.rhs);
    lemma_agreeing_constraint(next, c, known);
}

/// A composed substitution does what its parts do one after the other, as long as
/// following the bindings of neither leads round in a circle, the second brings back
/// no variable that the first binds, and it binds none that the first both binds and
/// mentions. It comes to an end on every type.
pub proof fn composition_is_one_after_the_other(
    m: Map<TypeVar, Term>,
    s: Map<TypeVar, Term>,
    t: Term,
)
    requires
        crate::acyclic::acyclic(m),
        crate::acyclic::acyclic(s),
        crate::subst_model::avoids(s, m),
        crate::acyclic::apart(m, s),
    ensures
        crate::subst_model::applies(crate::subst_model::composed(m, s), t),
        crate::subst_model::apply(crate::subst_model::composed(m, s), t)
            == crate::subst_model::apply(s, crate::subst_model::apply(m, t)),
{
    crate::acyclic::lemma_acyclic_composed(m, s, t);
}

/// Solved substitutions, of which no binding mentions a bound variable, are acyclic,
/// and the second of two never binds what the first both binds and mentions.
pub proof fn solved_substitutions_compose(m: Map<TypeVar, Term>, s: Map<TypeVar, Term>)
    requires
        crate::subst_model::solved(m),
    ensures
        crate::acyclic::acyclic(m),
        crate::acyclic::apart(m, s),
{
    crate::acyclic::lemma_solved_acyclic(m);
}

/// Applying a substitution twice does no more than applying it once, wherever it
/// comes to an end.
pub proof fn applying_twice_is_applying_once(m: Map<TypeVar, Term>, t: Term)
    requires
        crate::subst_model::applies(m, t),
    ensures
        crate::subst_model::applies(m, crate::subst_model::apply(m, t)),
        crate::subst_model::apply(m, crate::subst_model::apply(m, t)) == crate::subst_model::apply(
            m,
            t,
        ),
{
    let x = crate::subst_model::apply(m, t);
    assert forall|v: TypeVar| m.contains_key(v) implies !crate::term::occurs(v, x) by {
        crate::acyclic::lemma_none_left(m, t, v);
    }
    crate::subst_model::lemma_apply_unbound(m, x);
}

/// Solving makes the two sides of every constraint agree.
pub proof fn solutions_satisfy_all_constraints(
    s: Map<TypeVar, Term>,
    cs: Seq<ConstraintModel>,
    ints: Set<TypeVar>,
    floats: Set<TypeVar>,
    known: Map<TypeVar, Seq<char>>,
)
    requires
        crate::constraints::solution(Ok(s), Map::empty(), cs, 0, ints, floats, known),
    ensures
        crate::subst_model::solved(s),
        forall|i: int|
            0 <= i < cs.len() ==> crate::unify_model::agree(
                crate::subst_model::apply(s, (#[trigger] cs[i]).lhs),
                crate::subst_model::apply(s, cs[i].rhs),
            ),
{
    lemma_solution_agrees(s, Map::empty(), cs, 0, ints, floats, known);
    assert forall|i: int| 0 <= i < cs.len() implies crate::unify_model::agree(
        crate::subst_model::apply(s, (#[trigger] cs[i]).lhs),
        crate::subst_model::apply(s, cs[i].rhs),
    ) by {
        crate::subst_model::lemma_solved_apply(s, cs[i].lhs);
        crate::subst_model::lemma_solved_apply(s, cs[i].rhs);
        assert(sides_agree(s, cs[i]));
    }
}

/// Whether both sides of a constraint have become types without function types.
pub open spec fn sides_function_free(s: Map<TypeVar, Term>, c: ConstraintModel) -> bool {
    let lhs = crate::subst_model::apply(s, c.lhs);
    let rhs = crate::subst_model::apply(s, c.rhs);
    shaped(lhs) && shaped(rhs) && function_free(lhs) && function_free(rhs)
}

/// After constraints have been solved, each of them can be solved again and changes
/// nothing, as long as no function type is in what its sides have become.
pub proof fn solved_constraints_stay_solved(
    s: Map<TypeVar, Term>,
    cs: Seq<ConstraintModel>,
    ints: Set<TypeVar>,
    floats: Set<TypeVar>,
    known: Map<TypeVar, Seq<char>>,
    i: int,
)
    requires
        crate::constraints::solution(Ok(s), Map::empty(), cs, 0, ints, floats, known),
        0 <= i < cs.len(),
        sides_function_free(s, cs[i]),
    ensures
        crate::constraints::constrained(s, cs[i], known) == Ok::<Map<TypeVar, Term>, ErrorModel>(s),
{
    solutions_satisfy_all_constraints(s, cs, ints, floats, known);
    lemma_agreeing_constraint(s, cs[i], known);
}

proof fn lemma_agreeing_constraint(
    s: Map<TypeVar, Term>,
    c: ConstraintModel,
    known: Map<TypeVar, Seq<char>>,
)
    requires
        crate::subst_model::solved(s),
        sides_function_free(s, c),
        crate::unify_model::agree(
            crate::subst_model::apply(s, c.lhs),
            crate::subst_model::apply(s, c.rhs),
        ),
    ensures
        crate::constraints::constrained(s, c, known) == Ok::<Map<TypeVar, Term>, ErrorModel>(s),
{
    let none = crate::unify_model::nothing();
    agreeing_types_bind_nothing(
        crate::subst_model::apply(s, c.lhs),
        crate::subst_model::apply(s, c.rhs),
    );
    assert(crate::subst_model::composed(s, none) =~= s) by {
        assert forall|k: TypeVar| #[trigger]
            s.contains_key(k) implies crate::subst_model::apply(none, s[k]) == s[k] by {
            crate::subst_model::lemma_apply_unbound(none, s[k]);
        }
    }
}

spec fn sides_agree(m: Map<TypeVar, Term>, c: ConstraintModel) -> bool {
    crate::unify_model::agree(
        crate::subst_model::subst(m, c.lhs),
        crate::subst_model::subst(m, c.rhs),
    )
}

proof fn lemma_solution_agrees(
    s: Map<TypeVar, Term>,
    m: Map<TypeVar, Term>,
    cs: Seq<ConstraintModel>,
    i: int,
    ints: Set<TypeVar>,
    floats: Set<TypeVar>,
    known: Map<TypeVar, Seq<char>>,
)
    requires
        crate::subst_model::solved(m),
        0 <= i <= cs.len(),
        crate::constraints::solution(Ok(s), m, cs, i, ints, floats, known),
        forall|j: int| 0 <= j < i ==> sides_agree(m, #[trigger] cs[j]),
    ensures
        crate::subst_model::solved(s),
        forall|j: int| 0 <= j < cs.len() ==> sides_agree(s, #[trigger] cs[j]),
    decreases cs.len() - i,
{
    if i < cs.len() {
        crate::constraints::lemma_constrained_solved(m, cs[i], known);
        let next = crate::constraints::constrained(m, cs[i], known)->Ok_0;
        assert forall|j: int| 0 <= j < i + 1 implies sides_agree(next, #[trigger] cs[j]) by {
            if j < i {
                assert(sides_agree(m, cs[j]));
            }
        }
        lemma_solution_agrees(s, next, cs, i + 1, ints, floats, known);
    }
}

/// Instantiating a scheme that quantifies over nothing gives its type.
pub proof fn monomorphic_schemes_are_their_types(c: ContextModel, s: SchemeModel)
    requires
        s.vars.len() == 0,
    ensures
        crate::subst_model::applies(
            crate::schemes::instance_bindings(s, c.next_var as nat),
            s.ty,
        ),
        crate::context_solve::instance(c, s) == s.ty,
        crate::context_solve::instantiated(c, s) == c,
{
    crate::subst_model::lemma_apply_unbound(
        crate::schemes::instance_bindings(s, c.next_var as nat),
        s.ty,
    );
}

/// Whether all variables of a scheme have been given out already.
pub open spec fn scheme_is_old(s: SchemeModel, start: nat) -> bool {
    &&& forall|v: TypeVar| #[trigger] crate::term::occurs(v, s.ty) ==> v.0 < start
    &&& forall|i: int| 0 <= i < s.vars.len() ==> (#[trigger] s.vars[i]).0 < start
}

proof fn lemma_fresh_bindings(vars: Seq<TypeVar>, start: nat, k: nat)
    requires
        k <= vars.len(),
        start + k <= u32::MAX,
        forall|i: int| 0 <= i < vars.len() ==> (#[trigger] vars[i]).0 < start,
    ensures
        forall|v: TypeVar|
            #[trigger] crate::schemes::fresh_bindings(vars, start, k).contains_key(v)
                <==> vars.take(k as int).contains(v),
        forall|v: TypeVar|
            #[trigger] crate::schemes::fresh_bindings(vars, start, k).contains_key(v) ==> exists|
                w: u32,
            |
                start <= w < start + k && crate::schemes::fresh_bindings(vars, start, k)[v]
                    == #[trigger] crate::term::var(TypeVar(w)),
    decreases k,
{
    if k > 0 {
        lemma_fresh_bindings(vars, start, (k - 1) as nat);
        let m = crate::schemes::fresh_bindings(vars, start, k);
        let prev = crate::schemes::fresh_bindings(vars, start, (k - 1) as nat);
        let fresh = TypeVar((start + k - 1) as u32);
        assert(vars[k - 1].0 < start);
        assert(m == prev.insert(vars[k - 1], crate::term::var(fresh)));
        assert forall|v: TypeVar| #[trigger] m.contains_key(v) <==> vars.take(k as int).contains(
            v,
        ) by {
            crate::data::lemma_take_next(vars, k - 1);
        }
        assert forall|v: TypeVar| #[trigger] m.contains_key(v) implies exists|w: u32|
            start <= w < start + k && m[v] == #[trigger] crate::term::var(TypeVar(w)) by {
            if v == vars[k - 1] {
                assert(m[v] == crate::term::var(TypeVar((start + k - 1) as u32)));
            } else {
                assert(prev.contains_key(v));
                let w = choose|w: u32|
                    start <= w < start + (k - 1) && prev[v] == #[trigger] crate::term::var(
                        TypeVar(w),
                    );
                assert(m[v] == crate::term::var(TypeVar(w)));
            }
        }
    } else {
        assert(vars.take(0) =~= Seq::<TypeVar>::empty());
    }
}

proof fn lemma_instance_solved(s: SchemeModel, start: nat)
    requires
        scheme_is_old(s, start),
        start + s.vars.len() <= u32::MAX,
    ensures
        crate::subst_model::solved(crate::schemes::instance_bindings(s, start)),
{
    let k = s.vars.len();
    let m = crate::schemes::instance_bindings(s, start);
    lemma_fresh_bindings(s.vars, start, k);
    assert(s.vars.take(k as int) =~= s.vars);
    assert forall|v: TypeVar, w: TypeVar|
        #![trigger m.contains_key(v), m.contains_key(w)]
        m.contains_key(v) && crate::term::occurs(w, m[v]) implies !m.contains_key(w) by {
        let f = choose|f: u32|
            start <= f < start + k && m[v] == #[trigger] crate::term::var(TypeVar(f));
        assert(w == TypeVar(f));
        if m.contains_key(w) {
            assert(s.vars.contains(w));
        }
    }
}

/// A scheme whose variables are all old can always be instantiated. What comes
/// out has none of the quantified variables: each has been replaced by one that
/// had never been given out.
pub proof fn instances_are_fresh(s: SchemeModel, start: nat)
    requires
        scheme_is_old(s, start),
        start + s.vars.len() <= u32::MAX,
    ensures
        crate::subst_model::applies(crate::schemes::instance_bindings(s, start), s.ty),
        ({
            let t = crate::subst_model::apply(crate::schemes::instance_bindings(s, start), s.ty);
            forall|w: TypeVar| #[trigger]
                crate::term::occurs(w, t) ==> if w.0 < start {
                    crate::term::occurs(w, s.ty) && !s.vars.contains(w)
                } else {
                    w.0 < start + s.vars.len()
                }
        }),
{
    let k = s.vars.len();
    let m = crate::schemes::instance_bindings(s, start);
    lemma_fresh_bindings(s.vars, start, k);
    assert(s.vars.take(k as int) =~= s.vars);
    lemma_instance_solved(s, start);
    crate::subst_model::lemma_solved_apply(m, s.ty);
    let t = crate::subst_model::subst(m, s.ty);
    assert forall|w: TypeVar| #[trigger] crate::term::occurs(w, t) implies if w.0 < start {
        crate::term::occurs(w, s.ty) && !s.vars.contains(w)
    } else {
        w.0 < start + k
    } by {
        crate::subst_model::lemma_subst_occurs(m, s.ty, w);
        if crate::term::occurs(w, s.ty) && !m.contains_key(w) {
            assert(!s.vars.contains(w));
        } else {
            let v = choose|v: TypeVar| #[trigger]
                m.contains_key(v) && crate::term::occurs(v, s.ty) && crate::term::occurs(w, m[v]);
            let f = choose|f: u32|
                start <= f < start + k && m[v] == #[trigger] crate::term::var(TypeVar(f));
            assert(w == TypeVar(f));
        }
    }
}

/// Two instances of one scheme, made one after the other, share exactly the variables
/// that the scheme does not quantify over: each use gets copies of its own. Where it
/// quantifies over nothing, both are its type, and no variable is given out.
pub proof fn instances_share_what_is_not_quantified(s: SchemeModel, start: nat, w: TypeVar)
    requires
        scheme_is_old(s, start),
        start + 2 * s.vars.len() <= u32::MAX,
    ensures
        ({
            let first = crate::schemes::instance_bindings(s, start);
            let second = crate::schemes::instance_bindings(s, start + s.vars.len());
            let t1 = crate::subst_model::apply(first, s.ty);
            let t2 = crate::subst_model::apply(second, s.ty);
            &&& crate::subst_model::applies(first, s.ty)
            &&& crate::subst_model::applies(second, s.ty)
            &&& (crate::term::occurs(w, t1) && crate::term::occurs(w, t2)) == (crate::term::occurs(
                w,
                s.ty,
            ) && !s.vars.contains(w))
            &&& s.vars.len() == 0 ==> t1 == s.ty && t2 == s.ty
        }),
{
    let next = start + s.vars.len();
    let first = crate::schemes::instance_bindings(s, start);
    let second = crate::schemes::instance_bindings(s, next);
    instances_are_fresh(s, start);
    instances_are_fresh(s, next);
    if crate::term::occurs(w, s.ty) && !s.vars.contains(w) {
        lemma_unquantified_stays(s, start, w);
        lemma_unquantified_stays(s, next, w);
    }
    if s.vars.len() == 0 {
        crate::subst_model::lemma_apply_unbound(first, s.ty);
        crate::subst_model::lemma_apply_unbound(second, s.ty);
    }
}

proof fn lemma_unquantified_stays(s: SchemeModel, start: nat, w: TypeVar)
    requires
        scheme_is_old(s, start),
        start + s.vars.len() <= u32::MAX,
        crate::term::occurs(w, s.ty),
        !s.vars.contains(w),
    ensures
        crate::term::occurs(
            w,
            crate::subst_model::apply(crate::schemes::instance_bindings(s, start), s.ty),
        ),
{
    let k = s.vars.len();
    let m = crate::schemes::instance_bindings(s, start);
    lemma_instance_solved(s, start);
    lemma_fresh_bindings(s.vars, start, k);
    assert(s.vars.take(k as int) =~= s.vars);
    crate::subst_model::lemma_solved_apply(m, s.ty);
    crate::subst_model::lemma_subst_occurs(m, s.ty, w);
    assert(!m.contains_key(w));
}

/// Generalizing captures no variable of the environment and leaves no other
/// variable free: what is free in the scheme is free in the environment.
pub proof fn generalizing_respects_the_environment(
    vars: Seq<TypeVar>,
    ty: Term,
    env: Set<TypeVar>,
    v: TypeVar,
)
    requires
        crate::schemes::quantifies(vars, ty, env),
    ensures
        env.contains(v) ==> !vars.contains(v),
        crate::term::occurs(v, ty) && !vars.contains(v) ==> env.contains(v),
{
}

/// After defaulting, an integer literal that nothing decided is an `i64`, and a
/// float literal is an `f64` unless it shares its unknown type with an integer
/// literal.
pub proof fn literals_get_their_defaults(
    m: Map<TypeVar, Term>,
    ints: Set<TypeVar>,
    floats: Set<TypeVar>,
    r: Map<TypeVar, Term>,
    v: TypeVar,
)
    requires
        crate::constraints::values_settle(m, ints),
        crate::constraints::values_settle(m, floats),
        crate::defaulting::extends_by(m, crate::defaulting::defaults(m, ints, floats), r),
    ensures
        ints.contains(v) && (exists|w: TypeVar|
            crate::constraints::value_of(m, v) == #[trigger] crate::term::var(w))
            ==> crate::constraints::value_of(r, v) == crate::defaulting::default_integer(),
        floats.contains(v) && (exists|w: TypeVar|
            crate::constraints::value_of(m, v) == #[trigger] crate::term::var(w)
                && !crate::defaulting::stands_for(m, ints, w))
            ==> crate::constraints::value_of(r, v) == crate::defaulting::default_float(),
{
    let d = crate::defaulting::defaults(m, ints, floats);
    if ints.contains(v) || floats.contains(v) {
        assert(crate::subst_model::applies(m, crate::term::var(v)));
        let x = crate::constraints::value_of(m, v);
        if exists|w: TypeVar| x == #[trigger] crate::term::var(w) {
            let w = choose|w: TypeVar| x == #[trigger] crate::term::var(w);
            if ints.contains(v) {
                assert(crate::defaulting::stands_for(m, ints, w));
            } else {
                assert(crate::defaulting::stands_for(m, floats, w));
            }
            assert(d.contains_key(w));
            assert(crate::subst_model::subst(d, x) == d[w]);
        }
    }
}

/// Defaulting leaves alone every type in which no undecided literal occurs.
pub proof fn decided_types_keep_their_meaning(
    m: Map<TypeVar, Term>,
    ints: Set<TypeVar>,
    floats: Set<TypeVar>,
    r: Map<TypeVar, Term>,
    t: Term,
)
    requires
        crate::defaulting::extends_by(m, crate::defaulting::defaults(m, ints, floats), r),
        crate::subst_model::applies(m, t),
        forall|w: TypeVar| #[trigger]
            crate::term::occurs(w, crate::subst_model::apply(m, t))
                ==> !crate::defaulting::stands_for(m, ints, w) && !crate::defaulting::stands_for(
                m,
                floats,
                w,
            ),
    ensures
        crate::subst_model::apply(r, t) == crate::subst_model::apply(m, t),
{
    let d = crate::defaulting::defaults(m, ints, floats);
    crate::subst_model::lemma_apply_unbound(d, crate::subst_model::apply(m, t));
}

} // verus!
