//! How matches, methods, places and nested functions run.

use crate::ast::{ReceiverKind, SpanModel};
use crate::environment::StopModel;
use crate::error::RuntimeErrorCode;
use crate::machine::World;
use crate::runtime::{RuntimeModel, WantedModel};
use crate::runtime_types::MethodModel;
use crate::semantics::{Out, ReceiverModel, SignalModel};
use crate::store::{EnvModel, StoreModel};
use crate::symbols::SymbolId;
use crate::term::Term;
use crate::typed_ast::{
    AssignOp,
    BindingId,
    MethodDispatch,
    TypedDecl,
    TypedExpr,
    TypedMatch,
    TypedPlace,
};
use crate::values::{CellId, LocalId, SegmentModel, ValueHead, ValueTerm};
use vstd::prelude::*;

verus! {

/// What running an expression comes to.
pub open spec fn run(e: TypedExpr, env: EnvModel, rt: RuntimeModel, w: World, n: nat) -> Out {
    crate::semantics::expr_run(e, env, rt, w, n)
}

/// What is matched runs first, references to it are followed, and then the arms are tried from the
/// first.
pub proof fn matches_run_what_is_matched_first(
    m: TypedMatch,
    env: EnvModel,
    rt: RuntimeModel,
    w: World,
    n: nat,
)
    ensures
        ({
            let out = crate::semantics::match_run(m, env, rt, w, n);
            let o = run(*m.scrutinee, env, rt, w, n);
            let x = crate::reach::peeled(
                o.w.store,
                crate::control_laws::value(o),
                m.span.deep_view(),
                n,
            );
            &&& !crate::control_laws::has_value(o) ==> out == o
            &&& crate::control_laws::has_value(o) && x is Ok ==> out == crate::semantics::arms_run(
                m.arms@,
                0,
                x->Ok_0,
                m.span.deep_view(),
                o.env,
                rt,
                o.w,
                n,
            )
            &&& crate::control_laws::has_value(o) && x is Err ==> out.r == Err::<
                SignalModel,
                StopModel,
            >(x->Err_0)
        }),
{
}

/// An arm runs in a scope of its own, in which its pattern's names are bound, and which ends with
/// it. So does its guard, whose truth it has.
pub proof fn arms_bind_their_names(
    body: crate::typed_ast::TypedBlock,
    guard: std::rc::Rc<TypedExpr>,
    bs: Seq<(Seq<char>, Option<LocalId>, ValueTerm)>,
    env: EnvModel,
    rt: RuntimeModel,
    w: World,
    n: nat,
)
    ensures
        ({
            let (bound, s, e) = crate::semantics::bindings_bound(
                w.store,
                crate::environment::scope_opened(env),
                bs,
                0,
            );
            let u = World { store: s, ..w };
            let b = crate::semantics::block_run(body, e, rt, u, n);
            let g = run(*guard, e, rt, u, n);
            let asked = crate::semantics::guard_run(Some(guard), bs, env, rt, w, n);
            let out = crate::semantics::arm_run(body, bs, env, rt, w, n);
            &&& bound ==> out.r == b.r && out.w == b.w && out.env
                == crate::environment::scope_ended(b.env)
            &&& bound && crate::control_laws::has_value(g) && crate::control_laws::value(g).head
                is Boolean ==> asked.0 == Ok::<bool, Result<SignalModel, StopModel>>(
                crate::control_laws::value(g).head->Boolean_0,
            ) && asked.2 == g.w && asked.1 == crate::environment::scope_ended(g.env)
            &&& bound && g.r is Err ==> asked.0 is Err
        }),
{
}

/// The names of a pattern are bound one after the other, each to a copy of its value.
pub proof fn pattern_names_are_bound_in_order(
    s: StoreModel,
    env: EnvModel,
    bs: Seq<(Seq<char>, Option<LocalId>, ValueTerm)>,
    i: int,
)
    requires
        0 <= i <= bs.len(),
    ensures
        ({
            let r = crate::semantics::bindings_bound(s, env, bs, i);
            &&& i == bs.len() ==> r == (true, s, env)
            &&& i < bs.len() ==> match crate::environment::variable_defined(
                s,
                env,
                bs[i].1,
                bs[i].0,
                bs[i].2,
            ) {
                Some((t, e)) => r == crate::semantics::bindings_bound(t, e, bs, i + 1),
                None => !r.0,
            }
        }),
{
}

/// A method call runs its receiver, then its arguments in order, and finds the method by the value
/// that references from the receiver lead to. Without one the program ends.
pub proof fn methods_are_found_on_the_receiver(
    e: TypedExpr,
    env: EnvModel,
    rt: RuntimeModel,
    w: World,
    n: nat,
)
    requires
        e is MethodCall,
        n > 0,
    ensures
        ({
            let k = (n - 1) as nat;
            let out = run(e, env, rt, w, n);
            let name = e->MethodCall_method@;
            let span = e->MethodCall_span.deep_view();
            let args = e->MethodCall_args@;
            let o = run(*e->MethodCall_receiver, env, rt, w, k);
            let l = crate::semantics::list_run(args, 0, Seq::empty(), o.env, rt, o.w, k);
            let x = crate::reach::peeled(l.2.store, crate::control_laws::value(o), span, k);
            let m = crate::semantics::found_method(e->MethodCall_dispatch, rt, x->Ok_0, name);
            let ready = crate::control_laws::has_value(o) && l.0 is Ok && x is Ok;
            &&& !crate::control_laws::has_value(o) ==> out == o
            &&& crate::control_laws::has_value(o) && l.0 is Err ==> out == (Out {
                r: l.0->Err_0,
                env: l.1,
                w: l.2,
            })
            &&& ready && m is None ==> out.w == l.2 && crate::control_laws::failing(
                out,
                RuntimeErrorCode::R0009,
                span,
            )
            &&& ready && m is Some ==> out == crate::semantics::method_applied(
                m->Some_0,
                *e->MethodCall_receiver,
                crate::control_laws::value(o),
                x->Ok_0,
                name,
                l.0->Ok_0,
                crate::semantics::expr_types(args),
                e->MethodCall_ty.deep_view(),
                span,
                l.1,
                rt,
                l.2,
                k,
            )
        }),
{
    assert(run(e, env, rt, w, n) == crate::semantics::method_run(
        *e->MethodCall_receiver,
        e->MethodCall_method@,
        e->MethodCall_args@,
        e->MethodCall_ty.deep_view(),
        e->MethodCall_dispatch,
        e->MethodCall_span.deep_view(),
        env,
        rt,
        w,
        (n - 1) as nat,
    ));
}

/// A method that is known to be of an aspect is taken from the impls of that aspect for the type
/// of the value, and only where they have none, from what the value has under the name.
pub proof fn methods_of_the_aspect_come_first(
    aspect_id: SymbolId,
    rt: RuntimeModel,
    v: ValueTerm,
    id: SymbolId,
    name: Seq<char>,
)
    requires
        crate::runtime::type_id_of(rt, v) == Some(id),
        rt.types.dom().contains(id),
    ensures
        ({
            let found = crate::semantics::found_method(
                MethodDispatch::Aspect { aspect_id },
                rt,
                v,
                name,
            );
            let of_aspect = crate::runtime::from_impls(
                rt.types[id].impls,
                WantedModel::OfAspect(aspect_id),
                name,
            );
            &&& of_aspect is Some ==> found == of_aspect
            &&& of_aspect is None && v.head is Struct ==> found == crate::runtime::method_of(
                rt,
                v,
                name,
            )
        }),
{
}

/// A method that takes its receiver by value is called with the value; one that shares it is
/// called with the place, and what was handed to it on the way is written back. A function without
/// a receiver is no method.
pub proof fn receivers_are_handed_as_they_are_taken(
    m: MethodModel,
    receiver: TypedExpr,
    recv: ValueTerm,
    view: ValueTerm,
    name: Seq<char>,
    vs: Seq<ValueTerm>,
    static_args: Seq<Term>,
    expected: Term,
    span: SpanModel,
    env: EnvModel,
    rt: RuntimeModel,
    w: World,
    n: nat,
)
    ensures
        ({
            let out = crate::semantics::method_applied(
                m,
                receiver,
                recv,
                view,
                name,
                vs,
                static_args,
                expected,
                span,
                env,
                rt,
                w,
                n,
            );
            let by_value = crate::semantics::method_called(
                m.body,
                ReceiverModel::Value(view),
                vs,
                Some(static_args),
                Some(crate::semantics::expr_type(receiver)),
                Some(expected),
                span,
                rt,
                w,
                n,
            );
            let handed = crate::semantics::receiver_handed(receiver, recv, view, env, rt, w.store, n);
            let h = handed->Some_0;
            let shared = crate::semantics::method_called(
                m.body,
                h.receiver,
                vs,
                Some(static_args),
                Some(crate::semantics::expr_type(receiver)),
                Some(expected),
                span,
                rt,
                World { store: h.store, ..w },
                n,
            );
            &&& m.receiver is None ==> out.w == w && crate::control_laws::failing(
                out,
                RuntimeErrorCode::R0009,
                span,
            )
            &&& m.receiver == Some(ReceiverKind::Value) ==> out == (Out {
                r: by_value.r,
                env,
                w: by_value.w,
            })
            &&& m.receiver is Some && m.receiver != Some(ReceiverKind::Value) && handed is Some
                && h.back is None && shared.r is Ok ==> out == (Out {
                r: shared.r,
                env,
                w: shared.w,
            })
            &&& m.receiver is Some && m.receiver != Some(ReceiverKind::Value) && handed is Some
                && shared.r is Err ==> out == (Out {
                r: Err(shared.r->Err_0),
                env,
                w: shared.w,
            })
        }),
{
}

/// A place that is a variable is read from the cell that its identity names, and a part of a place
/// from the value of the place.
pub proof fn places_are_read(
    name: String,
    id: LocalId,
    sym: SymbolId,
    c: CellId,
    ident_span: crate::ast::Span,
    env: EnvModel,
    rt: RuntimeModel,
    w: World,
    n: nat,
)
    requires
        n > 0,
        c.0 < w.store.cells.len(),
    ensures
        ({
            let local = TypedPlace::Ident(name, Some(BindingId::Local(id)), ident_span);
            let global = TypedPlace::Ident(name, Some(BindingId::Global(sym)), ident_span);
            let v = w.store.cells[c.0 as int];
            let found = (Ok::<ValueTerm, StopModel>(v), env, w);
            &&& crate::assoc::entry(env.frame, id) == Some(c) ==> crate::semantics::place_run(
                local,
                env,
                rt,
                w,
                n,
            ) == found
            &&& crate::assoc::entry(env.frame, id) is None ==> crate::semantics::place_run(
                local,
                env,
                rt,
                w,
                n,
            ).0 is Err
            &&& rt.globals.dom().contains(sym) && rt.globals[sym] == c
                ==> crate::semantics::place_run(global, env, rt, w, n) == found
        }),
{
}

/// A part of a place is the part of the value of the place.
pub proof fn parts_of_places_are_read(
    p: TypedPlace,
    env: EnvModel,
    rt: RuntimeModel,
    w: World,
    n: nat,
)
    requires
        n > 0,
    ensures
        ({
            let k = (n - 1) as nat;
            let out = crate::semantics::place_run(p, env, rt, w, n);
            &&& p matches TypedPlace::Field { object, field, span } ==> {
                let (r, e, v) = crate::semantics::place_run(*object, env, rt, w, k);
                &&& r is Err ==> out == (r, e, v)
                &&& r is Ok ==> out == (
                    crate::semantics::place_field(r->Ok_0, field@, span.deep_view()),
                    e,
                    v,
                )
            }
            &&& p matches TypedPlace::Tuple { object, index, span } ==> {
                let (r, e, v) = crate::semantics::place_run(*object, env, rt, w, k);
                &&& r is Err ==> out == (r, e, v)
                &&& r is Ok ==> out == (
                    crate::semantics::place_element(r->Ok_0, index, span.deep_view()),
                    e,
                    v,
                )
            }
            &&& p matches TypedPlace::Index { object, index, span } ==> {
                let (r, e, v) = crate::semantics::place_run(*object, env, rt, w, k);
                let i = run(*index, e, rt, v, k);
                &&& r is Err ==> out == (r, e, v)
                &&& r is Ok && crate::control_laws::has_value(i) ==> out == (
                    crate::semantics::place_item(
                        i.w.store,
                        r->Ok_0,
                        crate::control_laws::value(i),
                        span.deep_view(),
                    ),
                    i.env,
                    i.w,
                )
            }
        }),
{
}

/// What is a part of a place is what is a part of a value.
pub proof fn parts_of_places_are_parts(
    s: StoreModel,
    v: ValueTerm,
    f: Seq<char>,
    i: usize,
    k: u64,
    span: SpanModel,
)
    requires
        v.head is Array ==> v.head->Array_0.0 < s.arrays.len(),
    ensures
        crate::semantics::field_part(v, f, span) is Ok ==> crate::semantics::place_field(v, f, span)
            == crate::semantics::field_part(v, f, span),
        crate::semantics::field_part(v, f, span) is Err ==> crate::semantics::place_field(
            v,
            f,
            span,
        ) is Err,
        v.head is Tuple ==> crate::semantics::place_element(v, i, span)
            == crate::semantics::tuple_part(v, i, span),
        !(v.head is Tuple) ==> crate::semantics::place_element(v, i, span) is Err,
        ({
            let idx = ValueTerm {
                head: ValueHead::Int(crate::values::IntKind::U64, k as int),
                args: Seq::empty(),
            };
            let items = s.arrays[v.head->Array_0.0 as int];
            let r = crate::semantics::place_item(s, v, idx, span);
            &&& v.head is Array && k < items.len() && k <= 0x7fff_ffff_ffff_ffff ==> r == Ok::<
                ValueTerm,
                StopModel,
            >(items[k as int])
            &&& v.head is Array && k >= items.len() ==> r is Err
        }),
{
}

/// A field or component of a variable is assigned in the variable's own cell, or in the one that an
/// exclusive reference in it leads to; the path to it names the parts from the outside in.
pub proof fn assigned_parts_are_found_from_their_root(
    p: TypedPlace,
    span: SpanModel,
    env: EnvModel,
    rt: RuntimeModel,
    w: World,
    n: nat,
    id: LocalId,
    c: CellId,
)
    requires
        n > 0,
        c.0 < w.store.cells.len(),
    ensures
        ({
            let k = (n - 1) as nat;
            let out = crate::semantics::place_root(p, span, env, rt, w, n);
            let held = w.store.cells[c.0 as int].head;
            let none = Seq::<SegmentModel>::empty();
            &&& p is Ident && p->Ident_1 == Some(BindingId::Local(id)) && crate::assoc::entry(
                env.frame,
                id,
            ) == Some(c) ==> out == (
                Ok::<_, StopModel>(
                    if held is MutReference {
                        (held->MutReference_0, none)
                    } else {
                        (c, none)
                    },
                ),
                env,
                w,
            )
            &&& p matches TypedPlace::Field { object, field, span: _ } ==> {
                let (r, e, v) = crate::semantics::place_root(*object, span, env, rt, w, k);
                &&& r is Err ==> out == (r, e, v)
                &&& r is Ok ==> out == (
                    Ok::<_, StopModel>((r->Ok_0.0, r->Ok_0.1.push(SegmentModel::Field(field@)))),
                    e,
                    v,
                )
            }
            &&& p matches TypedPlace::Tuple { object, index, span: _ } ==> {
                let (r, e, v) = crate::semantics::place_root(*object, span, env, rt, w, k);
                &&& r is Err ==> out == (r, e, v)
                &&& r is Ok ==> out == (
                    Ok::<_, StopModel>((r->Ok_0.0, r->Ok_0.1.push(SegmentModel::TupleIndex(index)))),
                    e,
                    v,
                )
            }
        }),
{
}

/// An assignment changes what its place names: a variable, what a reference leads to, an element
/// of an array, or a part of a variable.
pub proof fn assignments_change_what_they_name(
    p: TypedPlace,
    op: AssignOp,
    rhs: ValueTerm,
    span: SpanModel,
    env: EnvModel,
    rt: RuntimeModel,
    w: World,
    n: nat,
)
    ensures
        ({
            let out = crate::semantics::target_assigned(p, op, rhs, span, env, rt, w, n);
            &&& p matches TypedPlace::Ident(name, binding, ident_span) ==> out
                == crate::semantics::variable_assigned(
                name@,
                binding,
                ident_span.deep_view(),
                op,
                rhs,
                span,
                env,
                rt,
                w,
            )
            &&& p matches TypedPlace::Deref { object, span: tspan } ==> {
                let o = run(*object, env, rt, w, n);
                &&& !crate::control_laws::has_value(o) ==> out == o
                &&& crate::control_laws::has_value(o) ==> out
                    == crate::semantics::referent_assigned(
                    crate::control_laws::value(o),
                    tspan.deep_view(),
                    op,
                    rhs,
                    span,
                    o.env,
                    o.w,
                    n,
                )
            }
            &&& p is Field || p is Tuple ==> {
                let tspan = if p is Field {
                    p->Field_span.deep_view()
                } else {
                    p->Tuple_span.deep_view()
                };
                let (r, e, v) = crate::semantics::place_root(p, tspan, env, rt, w, n);
                &&& r is Ok ==> out == crate::semantics::part_assigned(
                    r->Ok_0.0,
                    r->Ok_0.1,
                    tspan,
                    op,
                    rhs,
                    span,
                    e,
                    v,
                    n,
                )
                &&& r is Err ==> out.r == Err::<SignalModel, StopModel>(r->Err_0)
            }
            &&& p matches TypedPlace::Index { object, index, span: tspan } ==> {
                let (r, e, v) = crate::semantics::place_run(*object, env, rt, w, n);
                let x = crate::reach::peeled(v.store, r->Ok_0, tspan.deep_view(), n);
                let i = run(*index, e, rt, v, n);
                &&& r is Ok && x is Ok && crate::control_laws::has_value(i) ==> out
                    == crate::semantics::element_assigned(
                    x->Ok_0,
                    crate::control_laws::value(i),
                    op,
                    rhs,
                    span,
                    i.env,
                    i.w,
                )
                &&& r is Err ==> out.r == Err::<SignalModel, StopModel>(r->Err_0)
            }
        }),
{
    if p is Field {
        assert(crate::semantics::target_assigned(p, op, rhs, span, env, rt, w, n)
            == crate::semantics::rooted_assigned(
            p,
            p->Field_span.deep_view(),
            op,
            rhs,
            span,
            env,
            rt,
            w,
            n,
        ));
    }
    if p is Tuple {
        assert(crate::semantics::target_assigned(p, op, rhs, span, env, rt, w, n)
            == crate::semantics::rooted_assigned(
            p,
            p->Tuple_span.deep_view(),
            op,
            rhs,
            span,
            env,
            rt,
            w,
            n,
        ));
    }
}

/// Before a block runs, each function in it has a cell under its name, in order; other
/// declarations have none.
pub proof fn functions_have_places(ds: Seq<TypedDecl>, i: int, env: EnvModel, s: StoreModel)
    requires
        0 <= i <= ds.len(),
    ensures
        ({
            let r = crate::semantics::places_made(ds, i, env, s);
            let own = CellId(s.cells.len() as usize);
            let unit = ValueTerm { head: ValueHead::Unit, args: Seq::empty() };
            &&& i == ds.len() ==> r == (s, env)
            &&& i < ds.len() && !(ds[i] is Fun) ==> r == crate::semantics::places_made(
                ds,
                i + 1,
                env,
                s,
            )
            &&& i < ds.len() && ds[i] is Fun ==> r == crate::semantics::places_made(
                ds,
                i + 1,
                crate::environment::variable_bound(
                    env,
                    ds[i]->Fun_0.local_id,
                    ds[i]->Fun_0.name@,
                    own,
                ),
                StoreModel { cells: s.cells.push(unit), ..s },
            )
        }),
{
}

/// A function that waits is made when it is first called, and no longer waits; anything else is
/// called as it is.
pub proof fn waiting_functions_are_made_when_called(
    callee: TypedExpr,
    v: ValueTerm,
    id: LocalId,
    env: EnvModel,
    w: World,
)
    requires
        callee is Ident,
        callee->Ident_1 == Some(BindingId::Local(id)),
    ensures
        ({
            let out = crate::semantics::callee_made(callee, v, env, w);
            let waits = crate::environment::waiting(env.pending, id);
            let taken = EnvModel {
                pending: crate::environment::no_longer_waiting(env.pending, id),
                ..env
            };
            let made = crate::semantics::function_made(waits->Some_0, taken, w.store);
            &&& !(v.head is Unit) || waits is None ==> out == crate::control_laws::done(v, env, w)
            &&& v.head is Unit && waits is Some && made is Ok ==> out.env == taken && out.w == (World {
                store: made->Ok_0,
                ..w
            })
            &&& v.head is Unit && waits is Some && made is Ok ==> {
                let c = crate::assoc::entry(taken.frame, id);
                c is Some && c->Some_0.0 < made->Ok_0.cells.len() ==> out
                    == crate::control_laws::done(
                    made->Ok_0.cells[c->Some_0.0 as int],
                    taken,
                    World { store: made->Ok_0, ..w },
                )
            }
        }),
{
}

} // verus!
