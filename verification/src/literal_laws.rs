//! What solving constraints promises of the literals in them.

use crate::constraints::ConstraintModel;
use crate::context::ContextModel;
use crate::error::ErrorModel;
use crate::registry::RegistryModel;
use crate::term::{Head, Term, TypeVar};
use vstd::prelude::*;

verus! {

/// Whether a type is one of the integer types, or not known yet.
pub open spec fn integer_or_open(t: Term) -> bool {
    match t.head {
        Head::Var(_) => true,
        Head::Concrete(c) => {
            ||| c.head is I8
            ||| c.head is I16
            ||| c.head is I32
            ||| c.head is I64
            ||| c.head is U8
            ||| c.head is U16
            ||| c.head is U32
            ||| c.head is U64
        },
        _ => false,
    }
}

/// Whether a type is one of the floating-point types, or not known yet.
pub open spec fn float_or_open(t: Term) -> bool {
    match t.head {
        Head::Var(_) => true,
        Head::Concrete(c) => c.head is F32 || c.head is F64,
        _ => false,
    }
}

/// Whether a type has no values of its own, or hides which values it has.
pub open spec fn bottom_or_object(t: Term) -> bool {
    t.head is Never || t.head is Dyn
}

/// Whether a type that is known stays what it is from one set of bindings to another.
pub open spec fn heads_stay(m: Map<TypeVar, Term>, s: Map<TypeVar, Term>) -> bool {
    forall|t: Term|
        !(#[trigger] crate::subst_model::subst(m, t).head is Var) ==> crate::subst_model::subst(
            s,
            t,
        ).head == crate::subst_model::subst(m, t).head
}

proof fn lemma_step(
    m: Map<TypeVar, Term>,
    c: ConstraintModel,
    known: Map<TypeVar, Seq<char>>,
)
    requires
        crate::subst_model::solved(m),
    ensures
        crate::constraints::constrained(m, c, known) matches Ok(next) ==> heads_stay(m, next),
{
    crate::constraints::lemma_constrained_solved(m, c, known);
    if crate::constraints::constrained(m, c, known) is Ok {
        let lhs = crate::subst_model::subst(m, c.lhs);
        let rhs = crate::subst_model::subst(m, c.rhs);
        crate::subst_model::lemma_solved_apply(m, c.lhs);
        crate::subst_model::lemma_solved_apply(m, c.rhs);
        crate::unify_model::lemma_unify_total(lhs, rhs);
        let s = crate::unify_model::unify_of(lhs, rhs)->Ok_0;
        let all = Set::<TypeVar>::full();
        crate::unify_model::lemma_vars_shrink(m, c.lhs, all);
        crate::unify_model::lemma_vars_shrink(m, c.rhs, all);
        crate::unify_model::lemma_compose_good(
            m,
            s,
            all,
            crate::unify_model::vars2(lhs, rhs),
        );
        crate::subst_model::lemma_composed(m, s);
    }
}

proof fn lemma_later(
    s: Map<TypeVar, Term>,
    m: Map<TypeVar, Term>,
    cs: Seq<ConstraintModel>,
    i: int,
    known: Map<TypeVar, Seq<char>>,
)
    requires
        0 <= i,
        crate::subst_model::solved(m),
        crate::constraints::solution(Ok(s), m, cs, i, Set::empty(), Set::empty(), known),
    ensures
        crate::subst_model::solved(s),
        heads_stay(m, s),
    decreases cs.len() - i,
{
    if i < cs.len() {
        crate::constraints::lemma_constrained_solved(m, cs[i], known);
        lemma_step(m, cs[i], known);
        let next = crate::constraints::constrained(m, cs[i], known)->Ok_0;
        lemma_later(s, next, cs, i + 1, known);
        assert forall|t: Term|
            !(#[trigger] crate::subst_model::subst(
                m,
                t,
            ).head is Var) implies crate::subst_model::subst(s, t).head
            == crate::subst_model::subst(m, t).head by {
            assert(crate::subst_model::subst(next, t).head == crate::subst_model::subst(m, t).head);
        }
    }
}

/// Literals that fit in the end fit all the way.
proof fn lemma_fit_before(
    s: Map<TypeVar, Term>,
    m: Map<TypeVar, Term>,
    ints: Set<TypeVar>,
    floats: Set<TypeVar>,
)
    requires
        crate::subst_model::solved(m),
        crate::subst_model::solved(s),
        heads_stay(m, s),
        forall|v: TypeVar| #[trigger]
            ints.contains(v) ==> integer_or_open(crate::constraints::value_of(s, v)),
        forall|v: TypeVar| #[trigger]
            floats.contains(v) ==> float_or_open(crate::constraints::value_of(s, v)),
    ensures
        crate::constraints::literals_fit(m, ints, true),
        crate::constraints::literals_fit(m, floats, false),
{
    assert forall|v: TypeVar| #[trigger] ints.contains(v) implies crate::constraints::literal_fits(
        crate::constraints::value_of(m, v),
        true,
    ) by {
        crate::subst_model::lemma_solved_apply(m, crate::term::var(v));
        crate::subst_model::lemma_solved_apply(s, crate::term::var(v));
    }
    assert forall|v: TypeVar| #[trigger]
        floats.contains(v) implies crate::constraints::literal_fits(
        crate::constraints::value_of(m, v),
        false,
    ) by {
        crate::subst_model::lemma_solved_apply(m, crate::term::var(v));
        crate::subst_model::lemma_solved_apply(s, crate::term::var(v));
    }
}

proof fn lemma_literals_solved(
    s: Map<TypeVar, Term>,
    r: Result<Map<TypeVar, Term>, ErrorModel>,
    m: Map<TypeVar, Term>,
    cs: Seq<ConstraintModel>,
    i: int,
    ints: Set<TypeVar>,
    floats: Set<TypeVar>,
    known: Map<TypeVar, Seq<char>>,
)
    requires
        0 <= i,
        crate::subst_model::solved(m),
        crate::constraints::solution(Ok(s), m, cs, i, Set::empty(), Set::empty(), known),
        crate::constraints::solution(r, m, cs, i, ints, floats, known),
        forall|v: TypeVar| #[trigger]
            ints.contains(v) ==> integer_or_open(crate::constraints::value_of(s, v)),
        forall|v: TypeVar| #[trigger]
            floats.contains(v) ==> float_or_open(crate::constraints::value_of(s, v)),
    ensures
        r == Ok::<Map<TypeVar, Term>, ErrorModel>(s),
    decreases cs.len() - i,
{
    if i < cs.len() {
        crate::constraints::lemma_constrained_solved(m, cs[i], known);
        let next = crate::constraints::constrained(m, cs[i], known)->Ok_0;
        lemma_later(s, next, cs, i + 1, known);
        lemma_fit_before(s, next, ints, floats);
        lemma_literals_solved(s, r, next, cs, i + 1, ints, floats, known);
    }
}

/// Literals stand in the way of nothing that fits them. Where constraints have a solution,
/// and in it every integer literal is of type `i8`, `i16`, `i32`, `i64`, `u8`, `u16`, `u32`
/// or `u64`, or of a type that is still open, and every float literal of type `f32` or
/// `f64`, or of one that is still open, solving succeeds with that solution.
pub proof fn fitting_literals_are_solved(
    s: Map<TypeVar, Term>,
    r: Result<Map<TypeVar, Term>, ErrorModel>,
    cs: Seq<ConstraintModel>,
    ints: Set<TypeVar>,
    floats: Set<TypeVar>,
    known: Map<TypeVar, Seq<char>>,
)
    requires
        crate::constraints::solution(Ok(s), Map::empty(), cs, 0, Set::empty(), Set::empty(), known),
        crate::constraints::solution(r, Map::empty(), cs, 0, ints, floats, known),
        forall|v: TypeVar| #[trigger]
            ints.contains(v) ==> integer_or_open(crate::constraints::value_of(s, v)),
        forall|v: TypeVar| #[trigger]
            floats.contains(v) ==> float_or_open(crate::constraints::value_of(s, v)),
    ensures
        r == Ok::<Map<TypeVar, Term>, ErrorModel>(s),
{
    lemma_literals_solved(s, r, Map::empty(), cs, 0, ints, floats, known);
}

proof fn lemma_literals_kept(
    s: Map<TypeVar, Term>,
    m: Map<TypeVar, Term>,
    cs: Seq<ConstraintModel>,
    i: int,
    ints: Set<TypeVar>,
    floats: Set<TypeVar>,
    known: Map<TypeVar, Seq<char>>,
)
    requires
        0 <= i < cs.len() || (crate::constraints::literals_fit(m, ints, true)
            && crate::constraints::literals_fit(m, floats, false)),
        0 <= i,
        crate::constraints::solution(Ok(s), m, cs, i, ints, floats, known),
    ensures
        crate::constraints::literals_fit(s, ints, true),
        crate::constraints::literals_fit(s, floats, false),
    decreases cs.len() - i,
{
    if i < cs.len() {
        let next = crate::constraints::constrained(m, cs[i], known)->Ok_0;
        lemma_literals_kept(s, next, cs, i + 1, ints, floats, known);
    }
}

/// Where solving succeeds, every integer literal is of an integer type and every float
/// literal of a floating-point type, unless its type is open, without values or hidden.
pub proof fn solved_literals_fit(
    s: Map<TypeVar, Term>,
    cs: Seq<ConstraintModel>,
    ints: Set<TypeVar>,
    floats: Set<TypeVar>,
    known: Map<TypeVar, Seq<char>>,
    v: TypeVar,
)
    requires
        crate::constraints::solution(Ok(s), Map::empty(), cs, 0, ints, floats, known),
    ensures
        ints.contains(v) ==> integer_or_open(crate::constraints::value_of(s, v))
            || bottom_or_object(crate::constraints::value_of(s, v)),
        floats.contains(v) ==> float_or_open(crate::constraints::value_of(s, v))
            || bottom_or_object(crate::constraints::value_of(s, v)),
{
    let none = Map::<TypeVar, Term>::empty();
    assert forall|w: TypeVar| #[trigger]
        crate::constraints::value_of(none, w) == crate::term::var(w) by {
        crate::subst_model::lemma_apply_unbound(none, crate::term::var(w));
    }
    lemma_literals_kept(s, none, cs, 0, ints, floats, known);
}

/// Whether no type of a program coerces: it declares no enums.
pub open spec fn without_enums(reg: RegistryModel) -> bool {
    forall|t: Term| (#[trigger] crate::coercion::enum_named(reg, t)) is None
}

proof fn lemma_context_solved(
    reg: RegistryModel,
    s: Map<TypeVar, Term>,
    m: Map<TypeVar, Term>,
    cs: Seq<ConstraintModel>,
    i: int,
    w: crate::coercion::Watched,
    known: Map<TypeVar, Seq<char>>,
    after: Map<TypeVar, Term>,
    r: Result<(), ErrorModel>,
)
    requires
        0 <= i,
        without_enums(reg),
        crate::subst_model::solved(m),
        crate::constraints::solution(Ok(s), m, cs, i, Set::empty(), Set::empty(), known),
        crate::context_solve::solved_from(reg, m, cs, i, w, known, after, r),
        forall|v: TypeVar| #[trigger]
            w.ints.contains(v) ==> integer_or_open(crate::constraints::value_of(s, v)),
        forall|v: TypeVar| #[trigger]
            w.floats.contains(v) ==> float_or_open(crate::constraints::value_of(s, v)),
        forall|v: TypeVar| #[trigger]
            w.opaque.contains(v) ==> crate::constraints::value_of(s, v).head is Var,
    ensures
        after == s,
        r is Ok,
    decreases cs.len() - i,
{
    if i < cs.len() {
        crate::constraints::lemma_constrained_solved(m, cs[i], known);
        let next = crate::constraints::constrained(m, cs[i], known)->Ok_0;
        assert(crate::coercion::coerced_step(reg, m, cs[i], known) == Ok::<
            Map<TypeVar, Term>,
            ErrorModel,
        >(next));
        lemma_later(s, next, cs, i + 1, known);
        lemma_fit_before(s, next, w.ints, w.floats);
        assert forall|v: TypeVar| #[trigger] w.opaque.contains(v) implies crate::coercion::hidden(
            crate::constraints::value_of(next, v),
        ) by {
            crate::subst_model::lemma_solved_apply(next, crate::term::var(v));
            crate::subst_model::lemma_solved_apply(s, crate::term::var(v));
        }
        lemma_context_solved(reg, s, next, cs, i + 1, w, known, after, r);
    }
}

/// The same of the constraints of a context, in a program without enums: where they have a
/// solution that fits every literal and leaves every opaque result open, solving succeeds
/// with it.
pub proof fn fitting_contexts_are_solved(
    c: ContextModel,
    s: Map<TypeVar, Term>,
    after: Map<TypeVar, Term>,
    r: Result<(), ErrorModel>,
)
    requires
        without_enums(c.registry),
        c.solved == 0,
        c.solution == Map::<TypeVar, Term>::empty(),
        crate::constraints::solution(
            Ok(s),
            Map::empty(),
            c.constraints,
            0,
            Set::empty(),
            Set::empty(),
            c.var_names,
        ),
        crate::context_solve::solving(c, after, r),
        forall|v: TypeVar| #[trigger]
            c.ints.contains(v) ==> integer_or_open(crate::constraints::value_of(s, v)),
        forall|v: TypeVar| #[trigger]
            c.floats.contains(v) ==> float_or_open(crate::constraints::value_of(s, v)),
        forall|v: TypeVar| #[trigger]
            c.opaque_vars.contains(v) ==> crate::constraints::value_of(s, v).head is Var,
    ensures
        after == s,
        r is Ok,
{
    lemma_context_solved(
        c.registry,
        s,
        Map::empty(),
        c.constraints,
        0,
        crate::context_solve::watched(c),
        c.var_names,
        after,
        r,
    );
}

} // verus!
