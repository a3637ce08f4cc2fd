//! Constraint solving with coercion from enums that have one inhabited variant.

use crate::ast::{Span, SpanModel};
use crate::constraints::{mismatch_error, validate_literal_bindings, Constraint, ConstraintModel};
use crate::data::Dup;
use crate::definitions::{EnumModel, VariantModel};
use crate::error::{ErrorModel, MetelError, TypeErrorCode};
use crate::infer_type::InferType;
use crate::registry::{RegistryModel, TypeDefinitionRegistry};
use crate::render::render_type;
use crate::substitution::Substitution;
use crate::table::{KeySet, Table};
use crate::term::{Head, Term, TypeVar};
use crate::types::Type;
use crate::unify::unify;
use vstd::prelude::*;
use vstd::string::*;

verus! {

/// The name and type arguments of a named type, resolved or not.
pub open spec fn named_parts(t: Term) -> Option<(Seq<char>, Seq<Term>)> {
    match t.head {
        Head::Concrete(c) => match c.head {
            Head::Named(name, _) => Some(
                (name, Seq::new(c.args.len(), |i: int| crate::term::concrete(c.args[i]))),
            ),
            _ => None,
        },
        Head::Named(name, _) => Some((name, t.args)),
        _ => None,
    }
}

/// Bindings with one more, which is dropped where it would bind a variable to
/// itself.
pub open spec fn bound(m: Map<TypeVar, Term>, v: TypeVar, t: Term) -> Map<TypeVar, Term> {
    if t == crate::term::var(v) {
        m.remove(v)
    } else {
        m.insert(v, t)
    }
}

/// The bindings of the first `k` type parameters to type arguments.
pub open spec fn args_bound(params: Seq<TypeVar>, args: Seq<Term>, k: nat) -> Map<TypeVar, Term>
    decreases k,
{
    if k == 0 {
        Map::empty()
    } else {
        bound(args_bound(params, args, (k - 1) as nat), params[k - 1], args[k - 1])
    }
}

/// The bindings of type parameters to type arguments, as far as there are both.
pub open spec fn params_bound(params: Seq<TypeVar>, args: Seq<Term>) -> Map<TypeVar, Term> {
    args_bound(
        params,
        args,
        if params.len() <= args.len() {
            params.len()
        } else {
            args.len()
        },
    )
}

/// Whether a variant has a field of the bottom type.
pub open spec fn uninhabited(v: VariantModel, m: Map<TypeVar, Term>) -> bool {
    exists|i: int|
        0 <= i < v.fields.len() && crate::subst_model::apply(
            m,
            (#[trigger] v.fields[i]).ty,
        ).head is Never
}

/// Whether the types of all fields settle.
pub open spec fn fields_settle(info: EnumModel, m: Map<TypeVar, Term>) -> bool {
    forall|i: int, j: int|
        0 <= i < info.variants.len() && 0 <= j < info.variants[i].fields.len()
            ==> crate::subst_model::applies(m, (#[trigger] info.variants[i].fields[j]).ty)
}

/// Whether a variant is the only inhabited one, and has one field.
pub open spec fn sole_payload(info: EnumModel, m: Map<TypeVar, Term>, i: int) -> bool {
    &&& 0 <= i < info.variants.len()
    &&& info.variants[i].fields.len() == 1
    &&& !uninhabited(info.variants[i], m)
    &&& forall|j: int|
        0 <= j < info.variants.len() && j != i ==> uninhabited(#[trigger] info.variants[j], m)
}

/// The enum that a type names.
pub open spec fn enum_named(reg: RegistryModel, t: Term) -> Option<EnumModel> {
    match named_parts(t) {
        Some((name, _)) => match reg.type_decl_ids.get(name) {
            Some(id) => reg.enum_env.get(id),
            None => None,
        },
        None => None,
    }
}

/// Whether finding out if a type coerces comes to an end.
pub open spec fn coercion_settles(reg: RegistryModel, t: Term) -> bool {
    match enum_named(reg, t) {
        Some(info) => info.variants.len() <= 1 || fields_settle(
            info,
            params_bound(info.type_params, named_parts(t)->Some_0.1),
        ),
        None => true,
    }
}

/// The type that a type coerces to: the payload of the only inhabited variant
/// of an enum with several variants.
pub open spec fn coerced(reg: RegistryModel, t: Term) -> Option<Term> {
    match enum_named(reg, t) {
        Some(info) => {
            let m = params_bound(info.type_params, named_parts(t)->Some_0.1);
            if info.variants.len() > 1 && exists|i: int| sole_payload(info, m, i) {
                let i = choose|i: int| sole_payload(info, m, i);
                Some(crate::subst_model::apply(m, info.variants[i].fields[0].ty))
            } else {
                None
            }
        },
        None => None,
    }
}

proof fn lemma_sole_unique(info: EnumModel, m: Map<TypeVar, Term>, i: int, j: int)
    requires
        sole_payload(info, m, i),
        sole_payload(info, m, j),
    ensures
        i == j,
{
    if i != j {
        assert(uninhabited(info.variants[i], m));
    }
}

fn has_bottom_field(variant: &crate::definitions::VariantInfo, remap: &Substitution) -> (b: bool)
    requires
        forall|j: int|
            0 <= j < variant.fields@.len() ==> crate::subst_model::applies(
                remap@,
                (#[trigger] variant.fields@[j]).ty.term(),
            ),
    ensures
        b == uninhabited(variant.deep_view(), remap@),
{
    let ghost v = variant.deep_view();
    let mut i: usize = 0;
    while i < variant.fields.len()
        invariant
            i <= variant.fields.len(),
            v == variant.deep_view(),
            forall|j: int|
                0 <= j < variant.fields@.len() ==> crate::subst_model::applies(
                    remap@,
                    (#[trigger] variant.fields@[j]).ty.term(),
                ),
            forall|j: int|
                0 <= j < i ==> !(crate::subst_model::apply(
                    remap@,
                    (#[trigger] v.fields[j]).ty,
                ).head is Never),
        decreases variant.fields.len() - i,
    {
        let ty = remap.apply(&variant.fields[i].ty);
        assert(v.fields[i as int].ty == variant.fields@[i as int].ty.term());
        if let InferType::Never = ty {
            assert(crate::subst_model::apply(remap@, v.fields[i as int].ty).head is Never);
            return true;
        }
        i += 1;
    }
    false
}

/// If `actual` names an enum with more than one variant, exactly one of which
/// is inhabited (all others have some field substituted to `!`) with exactly
/// one field, return that field's (substituted) type.
pub fn singleton_coerce_field_ty(registry: &TypeDefinitionRegistry, actual: &InferType) -> (r:
    Option<InferType>)
    requires
        coercion_settles(registry@, actual.term()),
    ensures
        r.deep_view() == coerced(registry@, actual.term()),
{
    let ghost t = actual.term();
    let mut args: Vec<InferType> = Vec::new();
    let name = match actual {
        InferType::Concrete(Type::Named(name, targs, _)) => {
            let mut i: usize = 0;
            while i < targs.len()
                invariant
                    i <= targs.len(),
                    args@.len() == i,
                    forall|j: int|
                        0 <= j < i ==> (#[trigger] args@[j]).term() == crate::term::concrete(
                            targs@[j].term(),
                        ),
                decreases targs.len() - i,
            {
                args.push(InferType::Concrete(targs[i].dup()));
                i += 1;
            }
            proof {
                assert(args.deep_view() =~= named_parts(t)->Some_0.1);
            }
            name
        },
        InferType::Named(name, targs) => {
            args = targs.dup();
            proof {
                assert(args.deep_view() =~= named_parts(t)->Some_0.1);
            }
            name
        },
        _ => {
            return None;
        },
    };
    let info = match registry.enum_info_by_decl_name(name.as_str()) {
        Some(info) => info,
        None => {
            return None;
        },
    };
    let ghost model = info.deep_view();
    if info.variants.len() <= 1 {
        return None;
    }
    let params = &info.type_params;
    let mut remap = Substitution::new();
    let mut i: usize = 0;
    while i < params.len() && i < args.len()
        invariant
            i <= params.len(),
            i <= args.len(),
            remap@ == args_bound(params.deep_view(), args.deep_view(), i as nat),
        decreases params.len() - i,
    {
        remap.bind(params[i], args[i].dup());
        i += 1;
    }
    let ghost m = params_bound(model.type_params, named_parts(t)->Some_0.1);
    assert(remap@ == m);
    let mut payload: Option<InferType> = None;
    let ghost mut at: int = -1;
    let mut k: usize = 0;
    while k < info.variants.len()
        invariant
            k <= info.variants.len(),
            model == info.deep_view(),
            remap@ == m,
            fields_settle(model, m),
            enum_named(registry@, t) == Some(model),
            m == params_bound(model.type_params, named_parts(t)->Some_0.1),
            model.variants.len() > 1,
            t == actual.term(),
            match payload {
                Some(ty) => {
                    &&& 0 <= at < k
                    &&& model.variants[at].fields.len() == 1
                    &&& !uninhabited(model.variants[at], m)
                    &&& ty.term() == crate::subst_model::apply(
                        m,
                        model.variants[at].fields[0].ty,
                    )
                    &&& forall|j: int|
                        0 <= j < k && j != at ==> uninhabited(#[trigger] model.variants[j], m)
                },
                None => forall|j: int|
                    0 <= j < k ==> uninhabited(#[trigger] model.variants[j], m),
            },
        decreases info.variants.len() - k,
    {
        let variant = &info.variants[k];
        proof {
            assert(model.variants[k as int] == variant.deep_view());
            assert forall|j: int|
                0 <= j < variant.fields@.len() implies crate::subst_model::applies(
                remap@,
                (#[trigger] variant.fields@[j]).ty.term(),
            ) by {
                assert(model.variants[k as int].fields[j].ty == variant.fields@[j].ty.term());
            }
        }
        if !has_bottom_field(variant, &remap) {
            if variant.fields.len() != 1 || payload.is_some() {
                proof {
                    if exists|i: int| sole_payload(model, m, i) {
                        let c = choose|i: int| sole_payload(model, m, i);
                        if c != k {
                            assert(uninhabited(model.variants[k as int], m));
                        } else {
                            assert(uninhabited(model.variants[at], m));
                        }
                    }
                }
                return None;
            }
            let ty = remap.apply(&variant.fields[0].ty);
            proof {
                at = k as int;
                assert(model.variants[k as int].fields[0].ty == variant.fields@[0].ty.term());
            }
            payload = Some(ty);
        }
        k += 1;
    }
    proof {
        match &payload {
            Some(_) => {
                assert(sole_payload(model, m, at));
                let c = choose|i: int| sole_payload(model, m, i);
                lemma_sole_unique(model, m, c, at);
            },
            None => {
                if exists|i: int| sole_payload(model, m, i) {
                    let c = choose|i: int| sole_payload(model, m, i);
                    assert(uninhabited(model.variants[c], m));
                }
            },
        }
    }
    payload
}

/// Bindings after a variable on one side of a constraint has been bound anew.
pub open spec fn rebound(m: Map<TypeVar, Term>, side: Term, t: Term) -> Map<TypeVar, Term> {
    match side.head {
        Head::Var(v) => bound(m, v, t),
        _ => m,
    }
}

/// The bindings after one constraint has been solved, or its error. Where the
/// two sides do not unify, each that coerces is taken as what it coerces to,
/// and a variable that stood for it is bound to that.
pub open spec fn coerced_step(
    reg: RegistryModel,
    m: Map<TypeVar, Term>,
    c: ConstraintModel,
    known: Map<TypeVar, Seq<char>>,
) -> Result<Map<TypeVar, Term>, ErrorModel> {
    let lhs = crate::subst_model::apply(m, c.lhs);
    let rhs = crate::subst_model::apply(m, c.rhs);
    let clash = crate::constraints::mismatch(lhs, rhs, c.span, c.operator, known);
    match crate::unify_model::unify_of(lhs, rhs) {
        Ok(s) => Ok(crate::subst_model::composed(m, s)),
        Err(_) => {
            let l = coerced(reg, lhs);
            let r = coerced(reg, rhs);
            if l is None && r is None {
                Err(clash)
            } else {
                let a = if l is Some {
                    l->Some_0
                } else {
                    lhs
                };
                let b = if r is Some {
                    r->Some_0
                } else {
                    rhs
                };
                let m1 = if l is Some {
                    rebound(m, c.lhs, a)
                } else {
                    m
                };
                let m2 = if r is Some {
                    rebound(m1, c.rhs, b)
                } else {
                    m1
                };
                match crate::unify_model::unify_of(a, b) {
                    Ok(s) => Ok(crate::subst_model::composed(m2, s)),
                    Err(_) => Err(clash),
                }
            }
        },
    }
}

/// Whether a marker for an opaque return type still hides its type.
pub open spec fn hidden(t: Term) -> bool {
    t.head is Var || t.head is Never
}

/// Whether all markers for opaque return types still hide their types.
pub open spec fn all_hidden(m: Map<TypeVar, Term>, vars: Set<TypeVar>) -> bool {
    forall|v: TypeVar| #[trigger]
        vars.contains(v) ==> hidden(crate::constraints::value_of(m, v))
}

/// The error for a marker whose type has been named.
pub open spec fn opaque_error(
    t: Term,
    span: SpanModel,
    known: Map<TypeVar, Seq<char>>,
) -> ErrorModel {
    ErrorModel::Type(
        TypeErrorCode::T0018,
        "cannot name the concrete type of an opaque `extends Aspect` return value; use `extends Aspect` or a generic bound instead (resolved to `"@
            + crate::render::rendered(seq![t], known)[0] + "`)"@,
        span,
    )
}

/// The sets of type variables that solving watches over.
pub struct Watched {
    pub ints: Set<TypeVar>,
    pub floats: Set<TypeVar>,
    pub opaque: Set<TypeVar>,
}

/// Whether bindings are acceptable for all watched variables.
pub open spec fn accepted(m: Map<TypeVar, Term>, w: Watched) -> bool {
    crate::constraints::literals_fit(m, w.ints, true) && crate::constraints::literals_fit(
        m,
        w.floats,
        false,
    ) && all_hidden(m, w.opaque)
}

/// Whether an error is about some watched variable: a literal, or where those
/// are all right, an opaque return type.
pub open spec fn watched_fault(
    e: ErrorModel,
    m: Map<TypeVar, Term>,
    w: Watched,
    c: ConstraintModel,
    known: Map<TypeVar, Seq<char>>,
) -> bool {
    if crate::constraints::literals_fit(m, w.ints, true) && crate::constraints::literals_fit(
        m,
        w.floats,
        false,
    ) {
        exists|v: TypeVar|
            #[trigger] w.opaque.contains(v) && !hidden(crate::constraints::value_of(m, v)) && e
                == opaque_error(crate::constraints::value_of(m, v), c.span, known)
    } else {
        crate::constraints::literals_checked(
            Err(e),
            m,
            w.ints,
            w.floats,
            c.span,
            c.operator,
            known,
        )
    }
}

/// Whether solving a constraint comes to an end.
pub open spec fn step_settles(
    reg: RegistryModel,
    m: Map<TypeVar, Term>,
    c: ConstraintModel,
    w: Watched,
    known: Map<TypeVar, Seq<char>>,
) -> bool {
    let lhs = crate::subst_model::apply(m, c.lhs);
    let rhs = crate::subst_model::apply(m, c.rhs);
    &&& crate::subst_model::applies(m, c.lhs)
    &&& crate::subst_model::applies(m, c.rhs)
    &&& crate::unify_model::unify_of(lhs, rhs) is Err ==> coercion_settles(reg, lhs)
        && coercion_settles(reg, rhs)
    &&& coerced_step(reg, m, c, known) matches Ok(next) ==> crate::constraints::values_settle(
        next,
        w.ints,
    ) && crate::constraints::values_settle(next, w.floats) && crate::constraints::values_settle(
        next,
        w.opaque,
    )
}

/// Whether bindings and a result are what solving a constraint leaves.
pub open spec fn step_done(
    reg: RegistryModel,
    m: Map<TypeVar, Term>,
    c: ConstraintModel,
    w: Watched,
    known: Map<TypeVar, Seq<char>>,
    after: Map<TypeVar, Term>,
    r: Result<(), ErrorModel>,
) -> bool {
    match coerced_step(reg, m, c, known) {
        Err(e) => after == m && r == Err::<(), ErrorModel>(e),
        Ok(next) => after == next && match r {
            Ok(_) => accepted(next, w),
            Err(e) => !accepted(next, w) && watched_fault(e, next, w, c, known),
        },
    }
}

fn check_opaque(
    subst: &Substitution,
    vars: &KeySet<TypeVar>,
    span: &Span,
    known_names: &Table<TypeVar, String>,
) -> (r: Result<(), MetelError>)
    requires
        crate::constraints::values_settle(subst@, vars@),
    ensures
        match r {
            Ok(_) => all_hidden(subst@, vars@),
            Err(e) => exists|v: TypeVar|
                #[trigger] vars@.contains(v) && !hidden(
                    crate::constraints::value_of(subst@, v),
                ) && e@ == opaque_error(
                    crate::constraints::value_of(subst@, v),
                    span.deep_view(),
                    known_names@,
                ),
        },
{
    let n: usize = vars.len();
    let mut i: usize = 0;
    while i < n
        invariant
            i <= n,
            n == vars.order().len(),
            crate::constraints::values_settle(subst@, vars@),
            forall|j: int|
                0 <= j < i ==> hidden(
                    crate::constraints::value_of(subst@, #[trigger] vars.order()[j]),
                ),
        decreases n - i,
    {
        let var = *vars.at(i);
        assert(vars@.contains(var));
        let ty = InferType::Var(var);
        let found = subst.apply(&ty);
        let ok = match &found {
            InferType::Var(_) | InferType::Never => true,
            _ => false,
        };
        if !ok {
            let mut s =
                "cannot name the concrete type of an opaque `extends Aspect` return value; use `extends Aspect` or a generic bound instead (resolved to `".to_owned();
            s.append(render_type(&found, known_names).as_str());
            s.append("`)");
            return Err(MetelError::type_error(TypeErrorCode::T0018, s, span));
        }
        i += 1;
    }
    let again: usize = vars.len();
    proof {
        assert forall|v: TypeVar| #[trigger] vars@.contains(v) implies hidden(
            crate::constraints::value_of(subst@, v),
        ) by {
            assert(vars.order().contains(v));
        }
    }
    Ok(())
}

/// Composes bindings with those of a unification.
fn compose_solved(subst: &mut Substitution, s: &Substitution)
    requires
        crate::subst_model::solved(s@),
    ensures
        final(subst)@ == crate::subst_model::composed(old(subst)@, s@),
{
    proof {
        assert forall|k: TypeVar| #[trigger] subst@.contains_key(
            k,
        ) implies crate::subst_model::applies(s@, subst@[k]) by {
            crate::subst_model::lemma_solved_apply(s@, subst@[k]);
        }
    }
    subst.compose_in_place(s);
}

/// Binds the variable on one side of a constraint, if there is one.
fn rebind(subst: &mut Substitution, side: &InferType, ty: &InferType)
    ensures
        final(subst)@ == rebound(old(subst)@, side.term(), ty.term()),
{
    if let InferType::Var(v) = side {
        subst.bind(*v, ty.dup());
    }
}

/// Registry-aware constraint solving: when the two sides don't unify directly,
/// retry via coercion from enums with one inhabited variant before giving up.
pub fn apply_constraint_with_coercion(
    subst: &mut Substitution,
    constraint: &Constraint,
    integer_literal_vars: &KeySet<TypeVar>,
    float_literal_vars: &KeySet<TypeVar>,
    opaque_return_vars: &KeySet<TypeVar>,
    registry: &TypeDefinitionRegistry,
    known_names: &Table<TypeVar, String>,
) -> (r: Result<(), MetelError>)
    requires
        step_settles(
            registry@,
            old(subst)@,
            constraint.deep_view(),
            Watched {
                ints: integer_literal_vars@,
                floats: float_literal_vars@,
                opaque: opaque_return_vars@,
            },
            known_names@,
        ),
    ensures
        step_done(
            registry@,
            old(subst)@,
            constraint.deep_view(),
            Watched {
                ints: integer_literal_vars@,
                floats: float_literal_vars@,
                opaque: opaque_return_vars@,
            },
            known_names@,
            final(subst)@,
            crate::constraints::result_model(r),
        ),
{
    let lhs = subst.apply(&constraint.lhs);
    let rhs = subst.apply(&constraint.rhs);
    match unify(&lhs, &rhs) {
        Ok(s) => {
            compose_solved(subst, &s);
        },
        Err(_) => {
            let lhs_field = singleton_coerce_field_ty(registry, &lhs);
            let rhs_field = singleton_coerce_field_ty(registry, &rhs);
            if lhs_field.is_none() && rhs_field.is_none() {
                return Err(
                    mismatch_error(&lhs, &rhs, &constraint.span, constraint.operator, known_names),
                );
            }
            let a = match &lhs_field {
                Some(field) => field,
                None => &lhs,
            };
            let b = match &rhs_field {
                Some(field) => field,
                None => &rhs,
            };
            match unify(a, b) {
                Ok(s) => {
                    // Composition keeps the first binding of a variable, so a
                    // variable that stands for the enum is bound anew: every
                    // later use of it sees the coerced type.
                    if lhs_field.is_some() {
                        rebind(subst, &constraint.lhs, a);
                    }
                    if rhs_field.is_some() {
                        rebind(subst, &constraint.rhs, b);
                    }
                    compose_solved(subst, &s);
                },
                Err(_) => {
                    return Err(
                        mismatch_error(
                            &lhs,
                            &rhs,
                            &constraint.span,
                            constraint.operator,
                            known_names,
                        ),
                    );
                },
            }
        },
    }
    match validate_literal_bindings(
        constraint.operator,
        subst,
        integer_literal_vars,
        float_literal_vars,
        &constraint.span,
        known_names,
    ) {
        Ok(_) => {},
        Err(e) => {
            return Err(e);
        },
    }
    check_opaque(subst, opaque_return_vars, &constraint.span, known_names)
}

} // verus!
