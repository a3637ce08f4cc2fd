//! Type constraints and how they are solved.

use crate::ast::{Span, SpanModel};
use crate::data::Dup;
use crate::error::{ErrorModel, MetelError, TypeErrorCode};
use crate::infer_type::InferType;
use crate::render::{render_pair, render_type};
use crate::substitution::Substitution;
use crate::table::{KeySet, Table};
use crate::term::{Head, Term, TypeVar};
use crate::types::Type;
use crate::unify::{partial_rows_string, partial_whole_string, unify};
use vstd::prelude::*;
use vstd::string::*;

verus! {

/// A deferred type equation: `lhs` and `rhs` must unify, recorded with the
/// source `span` so that failures produce actionable error messages.
pub struct Constraint {
    pub lhs: InferType,
    pub rhs: InferType,
    pub span: Span,
    /// The binary operator that requires the two sides to agree, if any.
    pub operator: Option<&'static str>,
}

/// What a constraint says.
pub struct ConstraintModel {
    pub lhs: Term,
    pub rhs: Term,
    pub span: SpanModel,
    pub operator: Option<Seq<char>>,
}

impl DeepView for Constraint {
    type V = ConstraintModel;

    open spec fn deep_view(&self) -> ConstraintModel {
        ConstraintModel {
            lhs: self.lhs.term(),
            rhs: self.rhs.term(),
            span: self.span.deep_view(),
            operator: self.operator.deep_view(),
        }
    }
}

impl Constraint {
    pub fn new(lhs: InferType, rhs: InferType, span: Span) -> (c: Self)
        ensures
            c.deep_view() == (ConstraintModel {
                lhs: lhs.term(),
                rhs: rhs.term(),
                span: span.deep_view(),
                operator: None,
            }),
    {
        Constraint { lhs, rhs, span, operator: None }
    }

    /// A constraint that exists because a binary operator requires its operands
    /// to agree.
    pub fn for_operator(lhs: InferType, rhs: InferType, span: Span, op: &'static str) -> (c: Self)
        ensures
            c.deep_view() == (ConstraintModel {
                lhs: lhs.term(),
                rhs: rhs.term(),
                span: span.deep_view(),
                operator: Some(op@),
            }),
    {
        Constraint { lhs, rhs, span, operator: Some(op) }
    }
}

/// What is said of a residual that meets a wider row or the whole type of its
/// own brand.
pub open spec fn partial_move(a: Term, b: Term) -> Option<Seq<char>> {
    match (a.head, b.head) {
        (Head::Residual(brand, labels), Head::Named(name, _)) => if brand == name {
            Some(crate::unify_model::partial_whole(brand, labels))
        } else {
            None
        },
        (Head::Named(name, _), Head::Residual(brand, labels)) => if brand == name {
            Some(crate::unify_model::partial_whole(brand, labels))
        } else {
            None
        },
        (Head::Residual(b1, l1), Head::Residual(b2, l2)) => if b1 == b2 && a.args.len()
            != b.args.len() {
            Some(crate::unify_model::partial_rows(b1, l1, l2))
        } else {
            None
        },
        _ => None,
    }
}

/// The error for two types that do not unify.
pub open spec fn mismatch(
    a: Term,
    b: Term,
    span: SpanModel,
    operator: Option<Seq<char>>,
    known: Map<TypeVar, Seq<char>>,
) -> ErrorModel {
    let shown = crate::render::rendered(seq![a, b], known);
    match partial_move(a, b) {
        Some(m) => ErrorModel::Type(TypeErrorCode::T0001, m, span),
        None => match operator {
            Some(op) => ErrorModel::Type(
                TypeErrorCode::T0005,
                "operator `"@ + op + "` cannot be applied to `"@ + shown[0] + "` and `"@ + shown[1]
                    + "`"@,
                span,
            ),
            None => ErrorModel::Type(
                TypeErrorCode::T0001,
                "cannot unify "@ + shown[0] + " with "@ + shown[1],
                span,
            ),
        },
    }
}

/// The error for a numeric literal bound to a type that is not of its kind.
pub open spec fn literal_mismatch(
    kind: Seq<char>,
    other: Term,
    span: SpanModel,
    operator: Option<Seq<char>>,
    known: Map<TypeVar, Seq<char>>,
) -> ErrorModel {
    let shown = crate::render::rendered(seq![other], known)[0];
    match operator {
        Some(op) => ErrorModel::Type(
            TypeErrorCode::T0005,
            "operator `"@ + op + "` cannot be applied to "@ + kind + " and `"@ + shown + "`"@,
            span,
        ),
        None => ErrorModel::Type(
            TypeErrorCode::T0001,
            "cannot unify "@ + kind + " with `"@ + shown + "`"@,
            span,
        ),
    }
}

/// A diagnostic for a residual meeting a wider row / whole brand of itself.
fn partial_move_mismatch_message(a: &InferType, b: &InferType) -> (r: Option<String>)
    ensures
        r.deep_view() == partial_move(a.term(), b.term()),
{
    match (a, b) {
        (InferType::Residual { brand, fields }, InferType::Named(name, _)) => {
            if *brand == *name {
                Some(partial_whole_string(brand, fields))
            } else {
                None
            }
        },
        (InferType::Named(name, _), InferType::Residual { brand, fields }) => {
            if *brand == *name {
                Some(partial_whole_string(brand, fields))
            } else {
                None
            }
        },
        (
            InferType::Residual { brand: b1, fields: f1 },
            InferType::Residual { brand: b2, fields: f2 },
        ) => {
            if *b1 == *b2 && f1.len() != f2.len() {
                Some(partial_rows_string(b1, f1, f2))
            } else {
                None
            }
        },
        _ => None,
    }
}

/// Format a failed constraint. When it knows which operator required the two
/// sides to agree, the message names the operator.
pub fn mismatch_error(
    lhs: &InferType,
    rhs: &InferType,
    span: &Span,
    operator: Option<&'static str>,
    known_names: &Table<TypeVar, String>,
) -> (e: MetelError)
    ensures
        e@ == mismatch(
            lhs.term(),
            rhs.term(),
            span.deep_view(),
            operator.deep_view(),
            known_names@,
        ),
{
    if let Some(msg) = partial_move_mismatch_message(lhs, rhs) {
        return MetelError::type_error(TypeErrorCode::T0001, msg, span);
    }
    let (left, right) = render_pair(lhs, rhs, known_names);
    match operator {
        Some(op) => {
            let mut s = "operator `".to_owned();
            s.append(op);
            s.append("` cannot be applied to `");
            s.append(left.as_str());
            s.append("` and `");
            s.append(right.as_str());
            s.append("`");
            MetelError::type_error(TypeErrorCode::T0005, s, span)
        },
        None => {
            let mut s = "cannot unify ".to_owned();
            s.append(left.as_str());
            s.append(" with ");
            s.append(right.as_str());
            MetelError::type_error(TypeErrorCode::T0001, s, span)
        },
    }
}

/// As `mismatch_error`, for a numeric literal bound to an incompatible type.
fn literal_mismatch_error(
    operator: Option<&'static str>,
    kind: &str,
    other: &InferType,
    span: &Span,
    known_names: &Table<TypeVar, String>,
) -> (e: MetelError)
    ensures
        e@ == literal_mismatch(
            kind@,
            other.term(),
            span.deep_view(),
            operator.deep_view(),
            known_names@,
        ),
{
    let shown = render_type(other, known_names);
    match operator {
        Some(op) => {
            let mut s = "operator `".to_owned();
            s.append(op);
            s.append("` cannot be applied to ");
            s.append(kind);
            s.append(" and `");
            s.append(shown.as_str());
            s.append("`");
            MetelError::type_error(TypeErrorCode::T0005, s, span)
        },
        None => {
            let mut s = "cannot unify ".to_owned();
            s.append(kind);
            s.append(" with `");
            s.append(shown.as_str());
            s.append("`");
            MetelError::type_error(TypeErrorCode::T0001, s, span)
        },
    }
}

/// Whether a literal of a kind can have a type: a number of that kind, a type
/// that is not known, the bottom type, or `dyn`.
pub open spec fn literal_fits(t: Term, integer: bool) -> bool {
    match t.head {
        Head::Concrete(c) => if integer {
            crate::term::integer_head(c.head)
        } else {
            crate::term::float_head(c.head)
        },
        Head::Var(_) => true,
        Head::Never => true,
        Head::Dyn(_) => true,
        _ => false,
    }
}

/// What a variable stands for.
pub open spec fn value_of(m: Map<TypeVar, Term>, v: TypeVar) -> Term {
    crate::subst_model::apply(m, crate::term::var(v))
}

/// Whether all literals of a kind have types that fit.
pub open spec fn literals_fit(m: Map<TypeVar, Term>, vars: Set<TypeVar>, integer: bool) -> bool {
    forall|v: TypeVar| #[trigger] vars.contains(v) ==> literal_fits(value_of(m, v), integer)
}

/// Whether what each variable of a set stands for can be found.
pub open spec fn values_settle(m: Map<TypeVar, Term>, vars: Set<TypeVar>) -> bool {
    forall|v: TypeVar| #[trigger]
        vars.contains(v) ==> crate::subst_model::applies(m, crate::term::var(v))
}

/// Whether an error is about some literal of a kind whose type does not fit.
pub open spec fn literal_fault(
    e: ErrorModel,
    m: Map<TypeVar, Term>,
    vars: Set<TypeVar>,
    integer: bool,
    span: SpanModel,
    operator: Option<Seq<char>>,
    known: Map<TypeVar, Seq<char>>,
) -> bool {
    exists|v: TypeVar|
        #[trigger] vars.contains(v) && !literal_fits(value_of(m, v), integer) && e
            == literal_mismatch(
            if integer {
                "an integer literal"@
            } else {
                "a float literal"@
            },
            value_of(m, v),
            span,
            operator,
            known,
        )
}

/// Whether a result is that of checking the literals: integers come first.
pub open spec fn literals_checked(
    r: Result<(), ErrorModel>,
    m: Map<TypeVar, Term>,
    ints: Set<TypeVar>,
    floats: Set<TypeVar>,
    span: SpanModel,
    operator: Option<Seq<char>>,
    known: Map<TypeVar, Seq<char>>,
) -> bool {
    match r {
        Ok(_) => literals_fit(m, ints, true) && literals_fit(m, floats, false),
        Err(e) => literal_fault(e, m, ints, true, span, operator, known) || (literals_fit(
            m,
            ints,
            true,
        ) && literal_fault(e, m, floats, false, span, operator, known)),
    }
}

/// What a result says.
pub open spec fn result_model<T>(r: Result<T, MetelError>) -> Result<T, ErrorModel> {
    match r {
        Ok(x) => Ok(x),
        Err(e) => Err(e@),
    }
}

fn check_literals(
    operator: Option<&'static str>,
    subst: &Substitution,
    vars: &KeySet<TypeVar>,
    integer: bool,
    span: &Span,
    known_names: &Table<TypeVar, String>,
) -> (r: Result<(), MetelError>)
    requires
        values_settle(subst@, vars@),
    ensures
        match r {
            Ok(_) => literals_fit(subst@, vars@, integer),
            Err(e) => literal_fault(
                e@,
                subst@,
                vars@,
                integer,
                span.deep_view(),
                operator.deep_view(),
                known_names@,
            ),
        },
{
    let n: usize = vars.len();
    let mut i: usize = 0;
    while i < n
        invariant
            i <= n,
            n == vars.order().len(),
            values_settle(subst@, vars@),
            forall|j: int|
                0 <= j < i ==> literal_fits(
                    value_of(subst@, #[trigger] vars.order()[j]),
                    integer,
                ),
        decreases n - i,
    {
        let var = *vars.at(i);
        assert(vars@.contains(var));
        let ty = InferType::Var(var);
        let found = subst.apply(&ty);
        let fits = match &found {
            InferType::Concrete(t) => {
                if integer {
                    t.is_integer()
                } else {
                    t.is_float()
                }
            },
            InferType::Var(_) | InferType::Never | InferType::Dyn { aspect: _, type_args: _ } => {
                true
            },
            _ => false,
        };
        if !fits {
            let kind = if integer {
                "an integer literal"
            } else {
                "a float literal"
            };
            return Err(literal_mismatch_error(operator, kind, &found, span, known_names));
        }
        i += 1;
    }
    let again: usize = vars.len();
    proof {
        assert forall|v: TypeVar| #[trigger] vars@.contains(v) implies literal_fits(
            value_of(subst@, v),
            integer,
        ) by {
            assert(vars.order().contains(v));
        }
    }
    Ok(())
}

pub fn validate_literal_bindings(
    operator: Option<&'static str>,
    subst: &Substitution,
    integer_literal_vars: &KeySet<TypeVar>,
    float_literal_vars: &KeySet<TypeVar>,
    span: &Span,
    known_names: &Table<TypeVar, String>,
) -> (r: Result<(), MetelError>)
    requires
        values_settle(subst@, integer_literal_vars@),
        values_settle(subst@, float_literal_vars@),
    ensures
        literals_checked(
            result_model(r),
            subst@,
            integer_literal_vars@,
            float_literal_vars@,
            span.deep_view(),
            operator.deep_view(),
            known_names@,
        ),
{
    match check_literals(operator, subst, integer_literal_vars, true, span, known_names) {
        Ok(_) => check_literals(operator, subst, float_literal_vars, false, span, known_names),
        Err(e) => Err(e),
    }
}

/// The bindings after one constraint has been solved, or its error.
pub open spec fn constrained(
    m: Map<TypeVar, Term>,
    c: ConstraintModel,
    known: Map<TypeVar, Seq<char>>,
) -> Result<Map<TypeVar, Term>, ErrorModel> {
    let lhs = crate::subst_model::apply(m, c.lhs);
    let rhs = crate::subst_model::apply(m, c.rhs);
    match crate::unify_model::unify_of(lhs, rhs) {
        Ok(s) => Ok(crate::subst_model::composed(m, s)),
        Err(_) => Err(mismatch(lhs, rhs, c.span, c.operator, known)),
    }
}

/// Whether a result is that of solving the constraints from position `i` on:
/// each after what the earlier ones have bound, up to the first error.
pub open spec fn solution(
    r: Result<Map<TypeVar, Term>, ErrorModel>,
    m: Map<TypeVar, Term>,
    cs: Seq<ConstraintModel>,
    i: int,
    ints: Set<TypeVar>,
    floats: Set<TypeVar>,
    known: Map<TypeVar, Seq<char>>,
) -> bool
    decreases cs.len() - i,
{
    if i < 0 || i >= cs.len() {
        r == Ok::<Map<TypeVar, Term>, ErrorModel>(m)
    } else {
        match constrained(m, cs[i], known) {
            Err(e) => r == Err::<Map<TypeVar, Term>, ErrorModel>(e),
            Ok(next) => if literals_fit(next, ints, true) && literals_fit(next, floats, false) {
                solution(r, next, cs, i + 1, ints, floats, known)
            } else {
                r matches Err(e) && literals_checked(
                    Err(e),
                    next,
                    ints,
                    floats,
                    cs[i].span,
                    cs[i].operator,
                    known,
                )
            },
        }
    }
}

/// Solved bindings stay solved when a constraint is solved.
pub proof fn lemma_constrained_solved(
    m: Map<TypeVar, Term>,
    c: ConstraintModel,
    known: Map<TypeVar, Seq<char>>,
)
    requires
        crate::subst_model::solved(m),
    ensures
        crate::subst_model::applies(m, c.lhs),
        crate::subst_model::applies(m, c.rhs),
        constrained(m, c, known) matches Ok(next) ==> {
            &&& crate::subst_model::solved(next)
            &&& crate::unify_model::agree(
                crate::subst_model::subst(next, c.lhs),
                crate::subst_model::subst(next, c.rhs),
            )
            &&& crate::unify_model::keeps_agreement(m, next)
        },
{
    crate::subst_model::lemma_solved_apply(m, c.lhs);
    crate::subst_model::lemma_solved_apply(m, c.rhs);
    let lhs = crate::subst_model::subst(m, c.lhs);
    let rhs = crate::subst_model::subst(m, c.rhs);
    crate::unify_model::lemma_unify_total(lhs, rhs);
    if crate::unify_model::unify_of(lhs, rhs) is Ok {
        let s = crate::unify_model::unify_of(lhs, rhs)->Ok_0;
        let all = Set::<TypeVar>::full();
        crate::unify_model::lemma_vars_shrink(m, c.lhs, all);
        crate::unify_model::lemma_vars_shrink(m, c.rhs, all);
        crate::unify_model::lemma_compose_good(
            m,
            s,
            all,
            crate::unify_model::vars2(lhs, rhs),
        );
        crate::subst_model::lemma_composed(m, s);
        let next = crate::subst_model::composed(m, s);
        assert forall|p: Term, q: Term|
            crate::unify_model::agree(
                crate::subst_model::subst(m, p),
                crate::subst_model::subst(m, q),
            ) implies #[trigger] crate::unify_model::agree(
            crate::subst_model::subst(next, p),
            crate::subst_model::subst(next, q),
        ) by {
            crate::unify_model::lemma_agree_subst(
                s,
                crate::subst_model::subst(m, p),
                crate::subst_model::subst(m, q),
            );
        }
    }
}

pub proof fn lemma_solved_values(m: Map<TypeVar, Term>, vars: Set<TypeVar>)
    requires
        crate::subst_model::solved(m),
    ensures
        values_settle(m, vars),
{
    assert forall|v: TypeVar| #[trigger] vars.contains(v) implies crate::subst_model::applies(
        m,
        crate::term::var(v),
    ) by {
        crate::subst_model::lemma_solved_apply(m, crate::term::var(v));
    }
}

/// Solve a list of constraints by unifying each `lhs`/`rhs` pair in order.
///
/// The running substitution is applied to both sides before each unification
/// so that earlier bindings propagate into later constraints. Errors are
/// reported with the source span of the offending constraint.
///
/// # Errors
/// Returns an error if any constraint fails to unify, or if an integer/float
/// literal type variable resolves to a type of another kind.
pub fn solve_constraints(
    constraints: Vec<Constraint>,
    integer_literal_vars: &KeySet<TypeVar>,
    float_literal_vars: &KeySet<TypeVar>,
) -> (r: Result<Substitution, MetelError>)
    ensures
        solution(
            crate::unify::outcome(r),
            crate::unify_model::nothing(),
            constraints.deep_view(),
            0,
            integer_literal_vars@,
            float_literal_vars@,
            Map::empty(),
        ),
        r matches Ok(s) ==> crate::subst_model::solved(s@),
{
    let mut subst = Substitution::new();
    let no_declared_names: Table<TypeVar, String> = Table::new();
    let ghost cs = constraints.deep_view();
    let mut i: usize = 0;
    while i < constraints.len()
        invariant
            i <= constraints.len(),
            cs == constraints.deep_view(),
            no_declared_names@ == Map::<TypeVar, Seq<char>>::empty(),
            crate::subst_model::solved(subst@),
            forall|r: Result<Map<TypeVar, Term>, ErrorModel>|
                solution(
                    r,
                    subst@,
                    cs,
                    i as int,
                    integer_literal_vars@,
                    float_literal_vars@,
                    Map::empty(),
                ) ==> #[trigger] solution(
                    r,
                    crate::unify_model::nothing(),
                    cs,
                    0,
                    integer_literal_vars@,
                    float_literal_vars@,
                    Map::empty(),
                ),
        decreases constraints.len() - i,
    {
        let c = &constraints[i];
        let ghost m = subst@;
        assert(cs[i as int] == c.deep_view());
        proof {
            lemma_constrained_solved(m, c.deep_view(), Map::empty());
        }
        let step = apply_constraint(
            &mut subst,
            c,
            integer_literal_vars,
            float_literal_vars,
            &no_declared_names,
        );
        match step {
            Ok(_) => {},
            Err(e) => {
                return Err(e);
            },
        }
        i += 1;
    }
    Ok(subst)
}

fn apply_constraint(
    subst: &mut Substitution,
    constraint: &Constraint,
    integer_literal_vars: &KeySet<TypeVar>,
    float_literal_vars: &KeySet<TypeVar>,
    known_names: &Table<TypeVar, String>,
) -> (r: Result<(), MetelError>)
    requires
        crate::subst_model::solved(old(subst)@),
    ensures
        match constrained(old(subst)@, constraint.deep_view(), known_names@) {
            Ok(next) => final(subst)@ == next && literals_checked(
                result_model(r),
                next,
                integer_literal_vars@,
                float_literal_vars@,
                constraint.span.deep_view(),
                constraint.operator.deep_view(),
                known_names@,
            ),
            Err(e) => final(subst)@ == old(subst)@ && result_model(r) == Err::<(), ErrorModel>(e),
        },
{
    let ghost m = subst@;
    proof {
        lemma_constrained_solved(m, constraint.deep_view(), known_names@);
    }
    let lhs = subst.apply(&constraint.lhs);
    let rhs = subst.apply(&constraint.rhs);
    match unify(&lhs, &rhs) {
        Ok(s) => {
            proof {
                assert forall|k: TypeVar| #[trigger] m.contains_key(
                    k,
                ) implies crate::subst_model::applies(s@, m[k]) by {
                    crate::subst_model::lemma_solved_apply(s@, m[k]);
                }
            }
            subst.compose_in_place(&s);
            proof {
                lemma_solved_values(subst@, integer_literal_vars@);
                lemma_solved_values(subst@, float_literal_vars@);
            }
            validate_literal_bindings(
                constraint.operator,
                subst,
                integer_literal_vars,
                float_literal_vars,
                &constraint.span,
                known_names,
            )
        },
        Err(_) => Err(
            mismatch_error(
                &lhs,
                &rhs,
                &constraint.span,
                constraint.operator,
                known_names,
            ),
        ),
    }
}

} // verus!
