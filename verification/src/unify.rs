//! Unification of inference types.

use crate::data::Dup;
use crate::error::MetelError;
use crate::free_vars::{contains_type_var, occurs_in};
use crate::infer_type::InferType;
use crate::substitution::Substitution;
use crate::term::{Term, TypeVar};
use crate::text::join;
use crate::types::{CallMultiplicity, CallMutation, UseMultiplicity};
use vstd::prelude::*;
use vstd::string::*;

verus! {

/// What a unification result says.
pub open spec fn outcome(r: Result<Substitution, MetelError>) -> Result<
    Map<TypeVar, Term>,
    crate::error::ErrorModel,
> {
    match r {
        Ok(s) => Ok(s@),
        Err(e) => Err(e@),
    }
}

/// The outcome of a unification, with the message as an internal error.
pub open spec fn as_error(r: crate::unify_model::Outcome) -> Result<
    Map<TypeVar, Term>,
    crate::error::ErrorModel,
> {
    match r {
        Ok(s) => Ok(s),
        Err(m) => Err(crate::error::ErrorModel::Internal(m)),
    }
}

fn cannot_unify(a: &InferType, b: &InferType) -> (e: MetelError)
    ensures
        e@ == crate::error::ErrorModel::Internal(
            crate::unify_model::cannot_unify(a.term(), b.term()),
        ),
{
    let mut s = "cannot unify ".to_owned();
    s.append(a.to_string().as_str());
    s.append(" with ");
    s.append(b.to_string().as_str());
    MetelError::internal(s)
}

/// The labels of fields, with commas between them.
pub fn row_string(fields: &Vec<(String, InferType)>) -> (s: String)
    ensures
        s@ == crate::text::joined(crate::types::labels_of(fields@), ", "@),
{
    let mut labels: Vec<String> = Vec::new();
    let mut i: usize = 0;
    while i < fields.len()
        invariant
            i <= fields.len(),
            labels@.len() == i,
            forall|j: int| 0 <= j < i ==> (#[trigger] labels@[j])@ == fields@[j].0@,
        decreases fields.len() - i,
    {
        labels.push(fields[i].0.clone());
        i += 1;
    }
    proof {
        assert(labels.deep_view() =~= crate::types::labels_of(fields@));
    }
    join(&labels, ", ")
}

/// What is said of a residual that meets the whole type it came from.
pub fn partial_whole_string(brand: &String, fields: &Vec<(String, InferType)>) -> (s: String)
    ensures
        s@ == crate::unify_model::partial_whole(brand@, crate::types::labels_of(fields@)),
{
    let mut s = "a partially-moved `".to_owned();
    s.append(brand.as_str());
    s.append("` (now `");
    s.append(brand.as_str());
    s.append(".{ ");
    s.append(row_string(fields).as_str());
    s.append(" }`) cannot be used where the whole `");
    s.append(brand.as_str());
    s.append("` is required");
    s
}

/// What is said of two residuals of one type with different rows.
pub fn partial_rows_string(
    brand: &String,
    have: &Vec<(String, InferType)>,
    want: &Vec<(String, InferType)>,
) -> (s: String)
    ensures
        s@ == crate::unify_model::partial_rows(
            brand@,
            crate::types::labels_of(have@),
            crate::types::labels_of(want@),
        ),
{
    let mut s = "a partially-moved `".to_owned();
    s.append(brand.as_str());
    s.append("` here has row `{ ");
    s.append(row_string(have).as_str());
    s.append(" }` but `{ ");
    s.append(row_string(want).as_str());
    s.append(" }` is required");
    s
}

/// Bind `var` to `ty`, failing if the occurs check would create an infinite type.
fn bind_var(var: TypeVar, ty: &InferType) -> (r: Result<Substitution, MetelError>)
    ensures
        outcome(r) == as_error(crate::unify_model::bind_var_of(var, ty.term())),
{
    if let InferType::Var(v) = ty {
        if v.0 == var.0 {
            return Ok(Substitution::new());
        }
    }
    if occurs_in(var, ty) {
        let mut s = "occurs check failed: ".to_owned();
        s.append(var.to_string().as_str());
        s.append(" occurs in ");
        s.append(ty.to_string().as_str());
        return Err(MetelError::internal(s));
    }
    let mut s = Substitution::new();
    s.bind(var, ty.dup());
    Ok(s)
}

/// Structural axis check for the parameter / return types of a first-order
/// function-type unification.
///
/// Structural recursion keeps the level: a `Copy` function value inside a
/// tuple that is a first-order argument is still a first-order coercion site.
/// Only descending through the parameters / return of a `Fun` goes one
/// function level deeper, where every axis must match exactly.
fn nested_fun_axes_match_at(a: &InferType, b: &InferType, first_order: bool) -> (r: bool)
    ensures
        r == crate::unify_model::axes_match(a.term(), b.term(), first_order),
    decreases a.term(),
{
    let (heads, below) = match (a, b) {
        (InferType::Fun(_, _, c1, u1, m1), InferType::Fun(_, _, c2, u2, m2)) => {
            let use_ok = *u1 == *u2 || (first_order && *u1 == UseMultiplicity::Move && *u2
                == UseMultiplicity::Copy);
            (*c1 == *c2 && use_ok && *m1 == *m2, false)
        },
        (InferType::Tuple(_), InferType::Tuple(_)) => (true, first_order),
        (InferType::Record(f1), InferType::Record(f2)) => (
            crate::types::same_labels(f1, f2),
            first_order,
        ),
        (
            InferType::Array(_) | InferType::SizedArray(_, _),
            InferType::Array(_) | InferType::SizedArray(_, _),
        ) => (true, first_order),
        (InferType::Reference(_), InferType::Reference(_)) => (true, first_order),
        (InferType::MutReference(_), InferType::MutReference(_)) => (true, first_order),
        (InferType::Named(n1, _), InferType::Named(n2, _)) => (*n1 == *n2, first_order),
        (
            InferType::Residual { brand: b1, fields: f1 },
            InferType::Residual { brand: b2, fields: f2 },
        ) => (*b1 == *b2 && crate::types::same_labels(f1, f2), first_order),
        (
            InferType::Dyn { aspect: a1, type_args: _ },
            InferType::Dyn { aspect: a2, type_args: _ },
        ) => (*a1 == *a2, first_order),
        _ => {
            return true;
        },
    };
    let n: u128 = a.arity();
    if !heads || n != b.arity() {
        return false;
    }
    let mut i: u128 = 0;
    while i < n
        invariant
            i <= n,
            n == a.term().args.len(),
            n == b.term().args.len(),
            below == (first_order && !(a.term().head is Fun)),
            crate::unify_model::axes_heads(a.term().head, b.term().head, first_order) == Some(
                true,
            ),
            forall|j: int|
                0 <= j < i ==> crate::unify_model::axes_match(
                    #[trigger] a.term().args[j],
                    b.term().args[j],
                    below,
                ),
        decreases n - i,
    {
        let c = a.child(i);
        if !nested_fun_axes_match_at(c, b.child(i), below) {
            return false;
        }
        i += 1;
    }
    true
}

fn nested_fun_axes_match(a: &InferType, b: &InferType) -> (r: bool)
    ensures
        r == crate::unify_model::axes_match(a.term(), b.term(), true),
{
    nested_fun_axes_match_at(a, b, true)
}

/// What must hold at a position before its components are unified.
fn position_fits(a: &InferType, b: &InferType, i: u128) -> (r: bool)
    requires
        i < a.term().args.len(),
        i < b.term().args.len(),
    ensures
        r == crate::unify_model::position_fits(a.term(), b.term(), i as int),
{
    match (a, b) {
        (InferType::Fun(_, _, _, _, _), InferType::Fun(_, _, _, _, _)) => nested_fun_axes_match(
            a.child(i),
            b.child(i),
        ),
        (InferType::Record(f1), InferType::Record(f2)) => {
            assert(f1.len() <= usize::MAX && f2.len() <= usize::MAX);
            f1[i as usize].0 == f2[i as usize].0
        },
        (
            InferType::Residual { brand: _, fields: f1 },
            InferType::Residual { brand: _, fields: f2 },
        ) => {
            assert(f1.len() <= usize::MAX && f2.len() <= usize::MAX);
            f1[i as usize].0 == f2[i as usize].0
        },
        _ => true,
    }
}

/// How unification goes on after the heads have been compared.
enum Next {
    Done(Result<Substitution, MetelError>),
    Element,
    Components,
}

/// Whether a step is the one that the model takes.
spec fn is_step(n: Next, s: crate::unify_model::Step) -> bool {
    match n {
        Next::Done(r) => s matches crate::unify_model::Step::Done(o) && outcome(r) == as_error(o),
        Next::Element => s is Element,
        Next::Components => s is Components,
    }
}

fn calls_fit(
    have: CallMultiplicity,
    have_mutation: CallMutation,
    want: CallMultiplicity,
    want_mutation: CallMutation,
) -> (r: bool)
    ensures
        r == crate::unify_model::calls_fit(have, have_mutation, want, want_mutation),
{
    (have == CallMultiplicity::Many || want == CallMultiplicity::Once) && (have_mutation
        == CallMutation::Reading || want_mutation == CallMutation::Mutating)
}

fn unify_heads(a: &InferType, b: &InferType) -> (n: Next)
    ensures
        is_step(n, crate::unify_model::step(a.term(), b.term())),
{
    let same_arity = a.arity() == b.arity();
    match (a, b) {
        (InferType::Never, _) => Next::Done(Ok(Substitution::new())),
        (_, InferType::Never) => Next::Done(Ok(Substitution::new())),
        (InferType::Concrete(t1), InferType::Concrete(t2)) => {
            if t1.same_type(t2) {
                Next::Done(Ok(Substitution::new()))
            } else {
                Next::Done(Err(cannot_unify(a, b)))
            }
        },
        (InferType::Var(v), _) => Next::Done(bind_var(*v, b)),
        (_, InferType::Var(v)) => Next::Done(bind_var(*v, a)),
        (InferType::Fun(_, _, c1, _, m1), InferType::Fun(_, _, c2, _, m2)) => {
            // Function capability widening is directional: callers pass the
            // actual type on the left and the expected type on the right. How
            // a function value is used never makes two types clash.
            if same_arity && (calls_fit(*c1, *m1, *c2, *m2) || contains_type_var(a)
                || contains_type_var(b)) {
                Next::Components
            } else {
                Next::Done(Err(cannot_unify(a, b)))
            }
        },
        (InferType::Tuple(_), InferType::Tuple(_)) => {
            if same_arity {
                Next::Components
            } else {
                Next::Done(Err(cannot_unify(a, b)))
            }
        },
        (InferType::Record(_), InferType::Record(_)) => {
            if same_arity {
                Next::Components
            } else {
                Next::Done(Err(cannot_unify(a, b)))
            }
        },
        (InferType::SizedArray(_, n1), InferType::SizedArray(_, n2)) => {
            if *n1 == *n2 {
                Next::Element
            } else {
                Next::Done(Err(cannot_unify(a, b)))
            }
        },
        (InferType::Array(_) | InferType::SizedArray(_, _), InferType::Array(_)) => {
            Next::Components
        },
        (InferType::Array(_), InferType::SizedArray(_, _)) => Next::Components,
        (
            InferType::Reference(_) | InferType::MutReference(_),
            InferType::Reference(_) | InferType::MutReference(_),
        ) => Next::Components,
        (InferType::Named(n1, _), InferType::Named(n2, _)) => {
            if *n1 == *n2 && same_arity {
                Next::Components
            } else {
                Next::Done(Err(cannot_unify(a, b)))
            }
        },
        (
            InferType::Residual { brand: b1, fields: f1 },
            InferType::Residual { brand: b2, fields: f2 },
        ) => {
            if *b1 == *b2 && same_arity {
                Next::Components
            } else if *b1 == *b2 {
                Next::Done(Err(MetelError::internal(partial_rows_string(b1, f1, f2))))
            } else {
                Next::Done(Err(cannot_unify(a, b)))
            }
        },
        // `dyn Aspect` unifies only with `dyn` of the same aspect: the type behind
        // it is erased, and nothing may recover it by unifying with it.
        (
            InferType::Dyn { aspect: a1, type_args: _ },
            InferType::Dyn { aspect: a2, type_args: _ },
        ) => {
            if *a1 == *a2 && same_arity {
                Next::Components
            } else {
                Next::Done(Err(cannot_unify(a, b)))
            }
        },
        (InferType::Residual { brand, fields }, InferType::Named(name, _)) => {
            if *brand == *name {
                Next::Done(Err(MetelError::internal(partial_whole_string(brand, fields))))
            } else {
                Next::Done(Err(cannot_unify(a, b)))
            }
        },
        (InferType::Named(name, _), InferType::Residual { brand, fields }) => {
            if *brand == *name {
                Next::Done(Err(MetelError::internal(partial_whole_string(brand, fields))))
            } else {
                Next::Done(Err(cannot_unify(a, b)))
            }
        },
        _ => Next::Done(Err(cannot_unify(a, b))),
    }
}

/// Unify two inference types, returning a substitution that makes them equal,
/// up to the coercions that the language allows. The actual type comes first,
/// the expected type second.
///
/// # Errors
/// Returns an error if the types are structurally incompatible or if the occurs
/// check detects an infinite type.
pub fn unify(a: &InferType, b: &InferType) -> (r: Result<Substitution, MetelError>)
    ensures
        outcome(r) == as_error(crate::unify_model::unify_of(a.term(), b.term())),
        r matches Ok(s) ==> crate::unify_model::sound(a.term(), b.term(), s@),
    decreases crate::unify_model::vars2(a.term(), b.term()).len(), a.term(),
{
    proof {
        crate::unify_model::lemma_unify_unfold(a.term(), b.term());
        crate::unify_model::lemma_unify_total(a.term(), b.term());
    }
    match unify_heads(a, b) {
        Next::Done(r) => r,
        Next::Element => {
            let x = a.child(0);
            let y = b.child(0);
            proof {
                crate::unify_model::lemma_smaller(a.term(), b.term(), 0);
            }
            unify(x, y)
        },
        Next::Components => {
            let mut acc = Substitution::new();
            let n: u128 = a.arity();
            let mut i: u128 = 0;
            while i < n
                invariant
                    i <= n,
                    n == a.term().args.len(),
                    crate::unify_model::step(a.term(), b.term()) is Components,
                    crate::subst_model::solved(acc@),
                    crate::unify_model::within(
                        acc@,
                        crate::unify_model::vars2(a.term(), b.term()),
                    ),
                    crate::unify_model::unify_args_of(a.term(), b.term(), i as int, acc@)
                        == crate::unify_model::unify_of(a.term(), b.term()),
                decreases n - i,
            {
                proof {
                    crate::unify_model::lemma_component_vars(
                        a.term(),
                        b.term(),
                        i as int,
                        acc@,
                    );
                }
                if !position_fits(a, b, i) {
                    return Err(cannot_unify(a, b));
                }
                let c = a.child(i);
                let d = b.child(i);
                let step = if acc.is_empty() {
                    unify(c, d)
                } else {
                    let x = acc.apply(c);
                    let y = acc.apply(d);
                    unify(&x, &y)
                };
                match step {
                    Ok(s) => {
                        proof {
                            crate::unify_model::lemma_compose_good(
                                acc@,
                                s@,
                                crate::unify_model::vars2(a.term(), b.term()),
                                crate::unify_model::vars2(
                                    crate::subst_model::apply(acc@, c.term()),
                                    crate::subst_model::apply(acc@, d.term()),
                                ),
                            );
                        }
                        acc.compose_in_place(&s);
                    },
                    Err(e) => {
                        return Err(e);
                    },
                }
                i += 1;
            }
            Ok(acc)
        },
    }
}

} // verus!
