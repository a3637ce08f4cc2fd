//! Why solving comes to an end, coercions included.

use crate::coercion::Watched;
use crate::constraints::ConstraintModel;
use crate::context::ContextModel;
use crate::error::ErrorModel;
use crate::registry::RegistryModel;
use crate::symbols::SymbolId;
use crate::term::{Head, Term, TypeVar};
use crate::unify_model::Step;
use vstd::prelude::*;

verus! {

/// Whether a variable is a type parameter of some enum.
pub open spec fn enum_param(reg: RegistryModel, v: TypeVar) -> bool {
    exists|id: SymbolId| #[trigger]
        reg.enum_env.contains_key(id) && reg.enum_env[id].type_params.contains(v)
}

/// Whether a type that names an enum has an argument for each type parameter.
pub open spec fn args_complete(reg: RegistryModel, t: Term) -> bool {
    match crate::coercion::enum_named(reg, t) {
        Some(info) => info.type_params.len()
            <= crate::coercion::named_parts(t)->Some_0.1.len(),
        None => true,
    }
}

/// Whether a resolved type gives every enum all its arguments.
pub open spec fn concrete_complete(reg: RegistryModel, c: Term) -> bool
    decreases c,
{
    args_complete(reg, crate::term::concrete(c)) && forall|i: int|
        0 <= i < c.args.len() ==> concrete_complete(reg, #[trigger] c.args[i])
}

/// Whether a type mentions no type parameter of an enum but those of a list, and
/// gives every enum all its arguments.
pub open spec fn ordinary(reg: RegistryModel, own: Seq<TypeVar>, t: Term) -> bool
    decreases t,
{
    match t.head {
        Head::Var(v) => own.contains(v) || !enum_param(reg, v),
        Head::Concrete(c) => concrete_complete(reg, *c) && t.args.len() == 0,
        _ => args_complete(reg, t) && forall|i: int|
            0 <= i < t.args.len() ==> ordinary(reg, own, #[trigger] t.args[i]),
    }
}

/// Whether a type mentions no type parameter of an enum, and gives every enum
/// all its arguments.
pub open spec fn tame(reg: RegistryModel, t: Term) -> bool {
    ordinary(reg, Seq::empty(), t)
}

/// Whether bindings bind no type parameter of an enum, and bind to tame types.
pub open spec fn tame_bindings(reg: RegistryModel, m: Map<TypeVar, Term>) -> bool {
    forall|v: TypeVar| #[trigger] m.contains_key(v) ==> !enum_param(reg, v) && tame(reg, m[v])
}

/// Whether the fields of every enum mention no type parameters but its own.
pub open spec fn enums_closed(reg: RegistryModel) -> bool {
    forall|id: SymbolId, i: int, j: int|
        reg.enum_env.contains_key(id) && 0 <= i < reg.enum_env[id].variants.len() && 0 <= j
            < reg.enum_env[id].variants[i].fields.len() ==> owns_vars(
            reg,
            reg.enum_env[id].type_params,
            (#[trigger] reg.enum_env[id].variants[i].fields[j]).ty,
        )
}

/// Whether all variables of a type are in a list, and every enum has all its
/// arguments.
pub open spec fn owns_vars(reg: RegistryModel, own: Seq<TypeVar>, t: Term) -> bool
    decreases t,
{
    match t.head {
        Head::Var(v) => own.contains(v),
        Head::Concrete(c) => concrete_complete(reg, *c) && t.args.len() == 0,
        _ => args_complete(reg, t) && forall|i: int|
            0 <= i < t.args.len() ==> owns_vars(reg, own, #[trigger] t.args[i]),
    }
}

proof fn lemma_parts_subst(reg: RegistryModel, m: Map<TypeVar, Term>, t: Term)
    requires
        !(t.head is Var),
        !(t.head is Concrete),
        args_complete(reg, t),
    ensures
        args_complete(reg, crate::subst_model::subst(m, t)),
{
}

/// Putting tame types into a tame type gives a tame type.
proof fn lemma_tame_subst(reg: RegistryModel, m: Map<TypeVar, Term>, t: Term)
    requires
        tame_bindings(reg, m),
        tame(reg, t),
    ensures
        tame(reg, crate::subst_model::subst(m, t)),
    decreases t,
{
    match t.head {
        Head::Var(v) => {},
        Head::Concrete(_) => {
            assert(crate::subst_model::subst(m, t).args =~= t.args);
        },
        _ => {
            let x = crate::subst_model::subst(m, t);
            lemma_parts_subst(reg, m, t);
            assert forall|i: int| 0 <= i < x.args.len() implies ordinary(
                reg,
                Seq::empty(),
                #[trigger] x.args[i],
            ) by {
                assert(tame(reg, t.args[i]));
                lemma_tame_subst(reg, m, t.args[i]);
            }
        },
    }
}

proof fn lemma_tame_composed(reg: RegistryModel, m: Map<TypeVar, Term>, s: Map<TypeVar, Term>)
    requires
        crate::subst_model::solved(m),
        crate::subst_model::solved(s),
        crate::subst_model::avoids(s, m),
        tame_bindings(reg, m),
        tame_bindings(reg, s),
    ensures
        tame_bindings(reg, crate::subst_model::composed(m, s)),
{
    crate::subst_model::lemma_composed(m, s);
    let c = crate::subst_model::composed(m, s);
    assert forall|v: TypeVar| #[trigger] c.contains_key(v) implies !enum_param(reg, v) && tame(
        reg,
        c[v],
    ) by {
        if m.contains_key(v) {
            lemma_tame_subst(reg, s, m[v]);
        } else {
            assert(s.contains_key(v));
        }
    }
}

/// Unifying tame types gives tame bindings.
proof fn lemma_tame_unify(reg: RegistryModel, a: Term, b: Term)
    requires
        tame(reg, a),
        tame(reg, b),
        crate::unify_model::unify_of(a, b) is Ok,
    ensures
        tame_bindings(reg, crate::unify_model::unify_of(a, b)->Ok_0),
    decreases crate::unify_model::vars2(a, b).len(), a, a.args.len() + 2,
{
    crate::unify_model::lemma_unify_unfold(a, b);
    match crate::unify_model::step(a, b) {
        Step::Done(_) => {},
        Step::Element => {
            crate::unify_model::lemma_smaller(a, b, 0);
            assert(tame(reg, a.args[0]) && tame(reg, b.args[0]));
            lemma_tame_unify(reg, a.args[0], b.args[0]);
        },
        Step::Components => {
            lemma_tame_args(reg, a, b, 0, crate::unify_model::nothing());
        },
    }
}

proof fn lemma_tame_args(
    reg: RegistryModel,
    a: Term,
    b: Term,
    i: int,
    acc: Map<TypeVar, Term>,
)
    requires
        crate::unify_model::step(a, b) is Components,
        tame(reg, a),
        tame(reg, b),
        tame_bindings(reg, acc),
        crate::subst_model::solved(acc),
        crate::unify_model::within(acc, crate::unify_model::vars2(a, b)),
        0 <= i <= a.args.len(),
        crate::unify_model::unify_args_of(a, b, i, acc) is Ok,
    ensures
        tame_bindings(reg, crate::unify_model::unify_args_of(a, b, i, acc)->Ok_0),
    decreases crate::unify_model::vars2(a, b).len(), a, a.args.len() - i + 1,
{
    if i < a.args.len() {
        crate::unify_model::lemma_component_vars(a, b, i, acc);
        let x = crate::subst_model::apply(acc, a.args[i]);
        let y = crate::subst_model::apply(acc, b.args[i]);
        crate::subst_model::lemma_solved_apply(acc, a.args[i]);
        crate::subst_model::lemma_solved_apply(acc, b.args[i]);
        assert(tame(reg, a.args[i]) && tame(reg, b.args[i]));
        lemma_tame_subst(reg, acc, a.args[i]);
        lemma_tame_subst(reg, acc, b.args[i]);
        let s = crate::unify_model::unify_of(x, y)->Ok_0;
        lemma_tame_unify(reg, x, y);
        crate::unify_model::lemma_unify_total(x, y);
        crate::unify_model::lemma_compose_good(
            acc,
            s,
            crate::unify_model::vars2(a, b),
            crate::unify_model::vars2(x, y),
        );
        lemma_tame_composed(reg, acc, s);
        lemma_tame_args(reg, a, b, i + 1, crate::subst_model::composed(acc, s));
    }
}

/// The bindings of an enum's type parameters to tame arguments.
proof fn lemma_args_bound(
    reg: RegistryModel,
    params: Seq<TypeVar>,
    args: Seq<Term>,
    k: nat,
)
    requires
        k <= params.len(),
        k <= args.len(),
        forall|i: int| 0 <= i < params.len() ==> enum_param(reg, #[trigger] params[i]),
        forall|i: int| 0 <= i < args.len() ==> tame(reg, #[trigger] args[i]),
    ensures
        ({
            let m = crate::coercion::args_bound(params, args, k);
            &&& forall|v: TypeVar| #[trigger] m.contains_key(v) <==> params.take(k as int).contains(v)
            &&& forall|v: TypeVar| #[trigger]
                m.contains_key(v) ==> exists|i: int|
                    0 <= i < k && m[v] == #[trigger] args[i]
        }),
    decreases k,
{
    if k > 0 {
        lemma_args_bound(reg, params, args, (k - 1) as nat);
        let prev = crate::coercion::args_bound(params, args, (k - 1) as nat);
        let m = crate::coercion::args_bound(params, args, k);
        let p = params[k - 1];
        assert(args[k - 1] != crate::term::var(p)) by {
            assert(tame(reg, args[k - 1]));
            assert(enum_param(reg, p));
        }
        assert(m == prev.insert(p, args[k - 1]));
        crate::data::lemma_take_next(params, k - 1);
        assert forall|v: TypeVar| #[trigger] m.contains_key(v) implies exists|i: int|
            0 <= i < k && m[v] == #[trigger] args[i] by {
            if v == p {
                assert(m[v] == args[k - 1]);
            } else {
                assert(prev.contains_key(v));
                let i = choose|i: int| 0 <= i < k - 1 && prev[v] == #[trigger] args[i];
                assert(m[v] == args[i]);
            }
        }
    } else {
        assert(params.take(0) =~= Seq::<TypeVar>::empty());
    }
}

/// A variable that occurs in a tame type is no type parameter of an enum.
proof fn lemma_tame_occurs(reg: RegistryModel, t: Term, w: TypeVar)
    requires
        tame(reg, t),
        crate::term::occurs(w, t),
    ensures
        !enum_param(reg, w),
    decreases t,
{
    match t.head {
        Head::Var(v) => {},
        _ => {
            let i = choose|i: int|
                0 <= i < t.args.len() && crate::term::occurs(w, #[trigger] t.args[i]);
            assert(tame(reg, t.args[i]));
            lemma_tame_occurs(reg, t.args[i], w);
        },
    }
}

/// A type over an enum's parameters becomes tame when they are replaced, and
/// only variables of the arguments are left in it.
proof fn lemma_params_replaced(
    reg: RegistryModel,
    params: Seq<TypeVar>,
    args: Seq<Term>,
    m: Map<TypeVar, Term>,
    t: Term,
)
    requires
        owns_vars(reg, params, t),
        forall|i: int| 0 <= i < args.len() ==> tame(reg, #[trigger] args[i]),
        forall|v: TypeVar| #[trigger] m.contains_key(v) <==> params.contains(v),
        forall|v: TypeVar| #[trigger]
            m.contains_key(v) ==> exists|i: int| 0 <= i < args.len() && m[v] == #[trigger] args[i],
    ensures
        tame(reg, crate::subst_model::subst(m, t)),
        forall|w: TypeVar| #[trigger]
            crate::term::occurs(w, crate::subst_model::subst(m, t)) ==> exists|i: int|
                0 <= i < args.len() && crate::term::occurs(w, #[trigger] args[i]),
    decreases t,
{
    let x = crate::subst_model::subst(m, t);
    match t.head {
        Head::Var(v) => {
            assert(m.contains_key(v));
            let i = choose|i: int| 0 <= i < args.len() && m[v] == #[trigger] args[i];
            assert(x == args[i]);
        },
        Head::Concrete(_) => {
            assert(x.args =~= t.args);
        },
        _ => {
            lemma_parts_subst(reg, m, t);
            assert forall|i: int| 0 <= i < x.args.len() implies ordinary(
                reg,
                Seq::empty(),
                #[trigger] x.args[i],
            ) by {
                lemma_params_replaced(reg, params, args, m, t.args[i]);
                assert(x.args[i] == crate::subst_model::subst(m, t.args[i]));
            }
            assert forall|w: TypeVar| #[trigger] crate::term::occurs(w, x) implies exists|i: int|
                0 <= i < args.len() && crate::term::occurs(w, #[trigger] args[i]) by {
                let j = choose|j: int|
                    0 <= j < x.args.len() && crate::term::occurs(w, #[trigger] x.args[j]);
                lemma_params_replaced(reg, params, args, m, t.args[j]);
            }
        },
    }
}

/// What a tame type coerces to is tame and has only its variables, and finding
/// that out comes to an end.
proof fn lemma_tame_coerced(reg: RegistryModel, t: Term)
    requires
        enums_closed(reg),
        tame(reg, t),
    ensures
        crate::coercion::coercion_settles(reg, t),
        crate::coercion::coerced(reg, t) matches Some(x) ==> tame(reg, x) && forall|w: TypeVar|
            #[trigger] crate::term::occurs(w, x) ==> crate::term::occurs(w, t),
{
    if crate::coercion::enum_named(reg, t) is Some {
        if let Head::Concrete(c) = t.head {
            assert(t == crate::term::concrete(*c)) by {
                assert(t.args =~= Seq::<Term>::empty());
            }
        }
        assert(args_complete(reg, t));
        let info = crate::coercion::enum_named(reg, t)->Some_0;
        let name = crate::coercion::named_parts(t)->Some_0.0;
        let args = crate::coercion::named_parts(t)->Some_0.1;
        let id = reg.type_decl_ids[name];
        let params = info.type_params;
        assert(reg.enum_env.contains_key(id) && reg.enum_env[id] == info);
        assert forall|i: int| 0 <= i < params.len() implies enum_param(
            reg,
            #[trigger] params[i],
        ) by {
            assert(reg.enum_env[id].type_params.contains(params[i]));
        }
        assert forall|i: int| 0 <= i < args.len() implies tame(reg, #[trigger] args[i]) && forall|
            w: TypeVar,
        |
            crate::term::occurs(w, args[i]) ==> crate::term::occurs(w, t) by {
            if t.head is Named {
                assert(args[i] == t.args[i]);
            } else {
                assert(args[i].head is Concrete);
                assert(args[i].args.len() == 0);
                lemma_concrete_complete(reg, t, i);
            }
        }
        lemma_args_bound(reg, params, args, params.len());
        assert(params.take(params.len() as int) =~= params);
        let m = crate::coercion::params_bound(params, args);
        assert(crate::subst_model::solved(m)) by {
            assert forall|v: TypeVar, w: TypeVar|
                #![trigger m.contains_key(v), m.contains_key(w)]
                m.contains_key(v) && crate::term::occurs(w, m[v]) implies !m.contains_key(w) by {
                let i = choose|i: int| 0 <= i < params.len() && m[v] == #[trigger] args[i];
                lemma_tame_occurs(reg, args[i], w);
                if m.contains_key(w) {
                    let j = params.index_of(w);
                    assert(enum_param(reg, params[j]));
                }
            }
        }
        assert(crate::coercion::fields_settle(info, m)) by {
            assert forall|i: int, j: int|
                0 <= i < info.variants.len() && 0 <= j
                    < info.variants[i].fields.len() implies crate::subst_model::applies(
                m,
                (#[trigger] info.variants[i].fields[j]).ty,
            ) by {
                crate::subst_model::lemma_solved_apply(m, info.variants[i].fields[j].ty);
            }
        }
        if crate::coercion::coerced(reg, t) is Some {
            let i = choose|i: int| crate::coercion::sole_payload(info, m, i);
            let f = info.variants[i].fields[0].ty;
            assert(owns_vars(reg, reg.enum_env[id].type_params, reg.enum_env[id].variants[i].fields[
                0].ty));
            crate::subst_model::lemma_solved_apply(m, f);
            assert forall|v: TypeVar| #[trigger] m.contains_key(v) implies exists|i: int|
                0 <= i < args.len() && m[v] == #[trigger] args[i] by {
                let i = choose|i: int| 0 <= i < params.len() && m[v] == #[trigger] args[i];
                assert(m[v] == args[i]);
            }
            lemma_params_replaced(reg, params, args, m, f);
        }
    }
}

/// The arguments of a resolved type, seen as inference types, are tame if each
/// enum among them has all its arguments.
proof fn lemma_concrete_complete(reg: RegistryModel, t: Term, i: int)
    requires
        tame(reg, t),
        t.head is Concrete,
        crate::coercion::named_parts(t) is Some,
        0 <= i < crate::coercion::named_parts(t)->Some_0.1.len(),
    ensures
        tame(reg, crate::coercion::named_parts(t)->Some_0.1[i]),
{
    let c = *t.head->Concrete_0;
    assert(concrete_complete(reg, c.args[i]));
}

/// A binding of a variable that is bound already, to a type with none but free
/// variables, keeps bindings solved and tame.
proof fn lemma_rebound(
    reg: RegistryModel,
    start: Map<TypeVar, Term>,
    m: Map<TypeVar, Term>,
    side: Term,
    from: Term,
    x: Term,
)
    requires
        crate::subst_model::solved(m),
        tame_bindings(reg, m),
        m.dom() == start.dom(),
        crate::subst_model::solved(start),
        from == crate::subst_model::subst(start, side),
        !(from.head is Var),
        tame(reg, x),
        forall|w: TypeVar| #[trigger]
            crate::term::occurs(w, x) ==> crate::term::occurs(w, from),
    ensures
        crate::subst_model::solved(crate::coercion::rebound(m, side, x)),
        tame_bindings(reg, crate::coercion::rebound(m, side, x)),
        crate::coercion::rebound(m, side, x).dom() == start.dom(),
{
    if let Head::Var(v) = side.head {
        assert(start.contains_key(v));
        assert(m.contains_key(v));
        assert forall|w: TypeVar| #[trigger]
            crate::term::occurs(w, x) implies !start.contains_key(w) by {
            crate::subst_model::lemma_subst_occurs(start, side, w);
        }
        let next = crate::coercion::rebound(m, side, x);
        if x == crate::term::var(v) {
            assert(crate::term::occurs(v, x));
        }
        assert(next == m.insert(v, x));
        assert(next.dom() =~= start.dom());
        assert forall|u: TypeVar, w: TypeVar|
            #![trigger next.contains_key(u), next.contains_key(w)]
            next.contains_key(u) && crate::term::occurs(w, next[u]) implies !next.contains_key(
            w,
        ) by {
            if u != v {
                assert(m.contains_key(u));
                if next.contains_key(w) {
                    assert(m.contains_key(w));
                }
            } else if next.contains_key(w) {
                assert(start.contains_key(w));
            }
        }
    }
}

/// Solving one constraint over tame types comes to an end and keeps the bindings
/// solved and tame.
proof fn lemma_step_settles(
    reg: RegistryModel,
    m: Map<TypeVar, Term>,
    c: ConstraintModel,
    w: Watched,
    known: Map<TypeVar, Seq<char>>,
)
    requires
        enums_closed(reg),
        crate::subst_model::solved(m),
        tame_bindings(reg, m),
        tame(reg, c.lhs),
        tame(reg, c.rhs),
    ensures
        crate::coercion::step_settles(reg, m, c, w, known),
        crate::coercion::coerced_step(reg, m, c, known) matches Ok(next)
            ==> crate::subst_model::solved(next) && tame_bindings(reg, next),
{
    crate::subst_model::lemma_solved_apply(m, c.lhs);
    crate::subst_model::lemma_solved_apply(m, c.rhs);
    let lhs = crate::subst_model::subst(m, c.lhs);
    let rhs = crate::subst_model::subst(m, c.rhs);
    lemma_tame_subst(reg, m, c.lhs);
    lemma_tame_subst(reg, m, c.rhs);
    lemma_tame_coerced(reg, lhs);
    lemma_tame_coerced(reg, rhs);
    let all = Set::<TypeVar>::full();
    assert(crate::unify_model::within(m, all));
    crate::unify_model::lemma_vars_shrink(m, c.lhs, all);
    crate::unify_model::lemma_vars_shrink(m, c.rhs, all);
    if crate::coercion::coerced_step(reg, m, c, known) is Ok {
        let l = crate::coercion::coerced(reg, lhs);
        let r = crate::coercion::coerced(reg, rhs);
        if crate::unify_model::unify_of(lhs, rhs) is Ok {
            lemma_settled_step(reg, m, lhs, rhs);
        } else {
            let a = if l is Some {
                l->Some_0
            } else {
                lhs
            };
            let b = if r is Some {
                r->Some_0
            } else {
                rhs
            };
            let m1 = if l is Some {
                crate::coercion::rebound(m, c.lhs, a)
            } else {
                m
            };
            let m2 = if r is Some {
                crate::coercion::rebound(m1, c.rhs, b)
            } else {
                m1
            };
            if l is Some {
                lemma_rebound(reg, m, m, c.lhs, lhs, a);
            }
            if r is Some {
                lemma_rebound(reg, m, m1, c.rhs, rhs, b);
            }
            assert forall|v: TypeVar|
                crate::unify_model::vars2(a, b).contains(v) implies all.difference(
                m2.dom(),
            ).contains(v) by {
                if crate::term::occurs(v, a) {
                    assert(crate::term::occurs(v, lhs));
                    assert(crate::term::vars(lhs).contains(v));
                } else {
                    assert(crate::term::occurs(v, rhs));
                    assert(crate::term::vars(rhs).contains(v));
                }
            }
            lemma_settled_step(reg, m2, a, b);
        }
        let next = crate::coercion::coerced_step(reg, m, c, known)->Ok_0;
        assert forall|v: TypeVar| crate::subst_model::applies(
            next,
            #[trigger] crate::term::var(v),
        ) by {
            crate::subst_model::lemma_solved_apply(next, crate::term::var(v));
        }
    }
}

proof fn lemma_settled_step(reg: RegistryModel, m: Map<TypeVar, Term>, a: Term, b: Term)
    requires
        crate::subst_model::solved(m),
        tame_bindings(reg, m),
        tame(reg, a),
        tame(reg, b),
        crate::unify_model::vars2(a, b).subset_of(Set::<TypeVar>::full().difference(m.dom())),
        crate::unify_model::unify_of(a, b) is Ok,
    ensures
        ({
            let next = crate::subst_model::composed(m, crate::unify_model::unify_of(a, b)->Ok_0);
            crate::subst_model::solved(next) && tame_bindings(reg, next)
        }),
{
    let s = crate::unify_model::unify_of(a, b)->Ok_0;
    let all = Set::<TypeVar>::full();
    crate::unify_model::lemma_unify_total(a, b);
    assert(crate::unify_model::within(m, all));
    crate::unify_model::lemma_compose_good(m, s, all, crate::unify_model::vars2(a, b));
    lemma_tame_unify(reg, a, b);
    lemma_tame_composed(reg, m, s);
}

proof fn lemma_steps_settle(
    reg: RegistryModel,
    m: Map<TypeVar, Term>,
    cs: Seq<ConstraintModel>,
    i: int,
    w: Watched,
    known: Map<TypeVar, Seq<char>>,
)
    requires
        enums_closed(reg),
        crate::subst_model::solved(m),
        tame_bindings(reg, m),
        0 <= i <= cs.len(),
        forall|j: int|
            0 <= j < cs.len() ==> tame(reg, (#[trigger] cs[j]).lhs) && tame(reg, cs[j].rhs),
    ensures
        crate::context_solve::steps_settle(reg, m, cs, i, w, known),
    decreases cs.len() - i,
{
    if i < cs.len() {
        lemma_step_settles(reg, m, cs[i], w, known);
        match crate::coercion::coerced_step(reg, m, cs[i], known) {
            Ok(next) => {
                if crate::coercion::accepted(next, w) {
                    lemma_steps_settle(reg, next, cs, i + 1, w, known);
                }
            },
            Err(_) => {},
        }
    }
}

/// Solving always comes to an end, with coercions and all, where the constraints
/// and what is solved already are about types of the program: every enum has all
/// its arguments, and the type parameters of enum declarations occur in the
/// declarations only.
pub proof fn solving_comes_to_an_end(c: ContextModel)
    requires
        enums_closed(c.registry),
        crate::subst_model::solved(c.solution),
        tame_bindings(c.registry, c.solution),
        c.solved <= c.constraints.len(),
        forall|j: int|
            0 <= j < c.constraints.len() ==> tame(c.registry, (#[trigger] c.constraints[j]).lhs)
                && tame(c.registry, c.constraints[j].rhs),
    ensures
        crate::context_solve::solving_settles(c),
{
    lemma_steps_settle(
        c.registry,
        c.solution,
        c.constraints,
        c.solved as int,
        crate::context_solve::watched(c),
        c.var_names,
    );
}

proof fn lemma_accepted_from(
    reg: RegistryModel,
    m: Map<TypeVar, Term>,
    cs: Seq<ConstraintModel>,
    i: int,
    w: Watched,
    known: Map<TypeVar, Seq<char>>,
    after: Map<TypeVar, Term>,
    r: Result<(), ErrorModel>,
)
    requires
        crate::context_solve::solved_from(reg, m, cs, i, w, known, after, r),
        r is Ok,
        i < cs.len() || crate::coercion::accepted(m, w),
    ensures
        crate::coercion::accepted(after, w),
    decreases cs.len() - i,
{
    if i < cs.len() {
        if let Ok(next) = crate::coercion::coerced_step(reg, m, cs[i], known) {
            lemma_accepted_from(reg, next, cs, i + 1, w, known, after, r);
        }
    }
}

/// Where solving succeeds, every unsuffixed literal has a type that fits it or is
/// still open, and no opaque result has been given a type that can be named.
pub proof fn literals_and_opaque_results_are_respected(
    c: ContextModel,
    after: Map<TypeVar, Term>,
    r: Result<(), ErrorModel>,
)
    requires
        crate::context_solve::solving(c, after, r),
        r is Ok,
        c.solved < c.constraints.len() || crate::coercion::accepted(
            c.solution,
            crate::context_solve::watched(c),
        ),
    ensures
        forall|v: TypeVar| #[trigger]
            c.ints.contains(v) ==> crate::constraints::literal_fits(
                crate::constraints::value_of(after, v),
                true,
            ),
        forall|v: TypeVar| #[trigger]
            c.floats.contains(v) ==> crate::constraints::literal_fits(
                crate::constraints::value_of(after, v),
                false,
            ),
        forall|v: TypeVar| #[trigger]
            c.opaque_vars.contains(v) ==> crate::coercion::hidden(
                crate::constraints::value_of(after, v),
            ),
{
    lemma_accepted_from(
        c.registry,
        c.solution,
        c.constraints,
        c.solved as int,
        crate::context_solve::watched(c),
        c.var_names,
        after,
        r,
    );
}

} // verus!
