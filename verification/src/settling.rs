//! Parts of programs that come to an end come to the same end however deep they
//! may nest, and leave behind what was there.

use crate::ast::{ReceiverKind, SpanModel};
use crate::environment::StopModel;
use crate::machine::World;
use crate::runtime::RuntimeModel;
use crate::runtime_types::MethodModel;
use crate::semantics::{CallOut, Out, ReceiverModel, SignalModel, TypedBody, TypingModel};
use crate::store::{ClosureCode, EnvModel, StoreModel};
use crate::symbols::SymbolId;
use crate::term::Term;
use crate::type_expr::TypeExpr;
use crate::typed_ast::{
    AssignOp, BinOp, BindingId, MethodDispatch, TypedBinding, TypedBlock, TypedDecl, TypedExpr,
    TypedFor, TypedForIn, TypedForInit, TypedMatch, TypedMatchArm, TypedPlace, TypedStmt,
    TypedWhile, UnaryOp,
};
use crate::values::{CallableModel, CellId, IntKind, LocalId, SegmentModel, ValueHead, ValueTerm};
use std::rc::Rc;
use vstd::prelude::*;

verus! {

/// Whether a part of a program that comes to an end comes to the same end where it
/// may nest deeper, and leaves behind what was there.
pub open spec fn settles(w: World, o: Out, deeper: Out) -> bool {
    &&& crate::depth::ended(o.r) ==> deeper == o
    &&& crate::depth::kept(w, o.r is Ok, o.w)
}

/// The same of a call.
pub open spec fn call_settles(w: World, o: CallOut, deeper: CallOut) -> bool {
    &&& crate::depth::ended(o.r) ==> deeper == o
    &&& crate::depth::kept(w, o.r is Ok, o.w)
}

/// The same of the body of a call.
pub open spec fn body_settles(w: World, o: (CallOut, bool), deeper: (CallOut, bool)) -> bool {
    &&& crate::depth::ended(o.0.r) ==> deeper == o
    &&& crate::depth::kept(w, o.0.r is Ok, o.0.w)
}

/// The same of rounds of a loop.
pub open spec fn rounds_settle(w: World, o: (bool, Out), deeper: (bool, Out)) -> bool {
    &&& crate::depth::ended(o.1.r) ==> deeper == o
    &&& crate::depth::kept(w, o.1.r is Ok, o.1.w)
}

/// The same of several parts, of which one may jump or stop.
pub open spec fn parts_settle<T>(
    w: World,
    o: (Result<T, Result<SignalModel, StopModel>>, EnvModel, World),
    deeper: (Result<T, Result<SignalModel, StopModel>>, EnvModel, World),
) -> bool {
    match o.0 {
        Ok(_) => deeper == o && crate::depth::kept(w, true, o.2),
        Err(r) => (crate::depth::ended(r) ==> deeper == o) && crate::depth::kept(
            w,
            r is Ok,
            o.2,
        ),
    }
}

/// The same of a place.
pub open spec fn place_settles<T>(
    w: World,
    o: (Result<T, StopModel>, EnvModel, World),
    deeper: (Result<T, StopModel>, EnvModel, World),
) -> bool {
    &&& crate::depth::ended(o.0) ==> deeper == o
    &&& crate::depth::kept(w, o.0 is Ok, o.2)
}

proof fn lemma_variable_assigned(
    name: Seq<char>,
    binding: Option<BindingId>,
    op: AssignOp,
    rhs: ValueTerm,
    span: SpanModel,
    env: EnvModel,
    rt: RuntimeModel,
    w: World,
)
    ensures
        forall|ident_span: SpanModel|
            crate::depth::kept(
                w,
                true,
                (#[trigger] crate::semantics::variable_assigned(
                    name,
                    binding,
                    ident_span,
                    op,
                    rhs,
                    span,
                    env,
                    rt,
                    w,
                )).w,
            ),
{
    let global = match binding {
        Some(BindingId::Global(sym)) => rt.globals.get(sym),
        _ => None,
    };
    let own = crate::copying::name_cell(env.scopes, name);
    let cell = if global is Some {
        global
    } else {
        own
    };
    match cell {
        Some(c) => {
            let (v, u) = crate::semantics::new_value(
                op,
                crate::store::cell_at(w.store, c),
                rhs,
                span,
                w,
            );
            match v {
                Ok(x) => crate::depth::lemma_value_copied(u.store, x),
                Err(_) => {},
            }
        },
        None => {},
    }
}

proof fn lemma_part_assigned(
    c: CellId,
    path: Seq<SegmentModel>,
    tspan: SpanModel,
    op: AssignOp,
    rhs: ValueTerm,
    span: SpanModel,
    env: EnvModel,
    w: World,
    n: nat,
    more: nat,
)
    requires
        n <= more,
    ensures
        settles(
            w,
            crate::semantics::part_assigned(c, path, tspan, op, rhs, span, env, w, n),
            crate::semantics::part_assigned(c, path, tspan, op, rhs, span, env, w, more),
        ),
{
    let held = crate::store::cell_at(w.store, c);
    crate::depth::lemma_path_read(w.store, held, path, tspan, n, more);
    let cur = if op is Assign {
        Ok(rhs)
    } else {
        crate::reach::path_read(w.store, held, path, tspan, n)
    };
    match cur {
        Ok(cur) => {
            let (v, u) = crate::semantics::new_value(op, cur, rhs, span, w);
            match v {
                Ok(x) => crate::depth::lemma_path_written(
                    u.store,
                    crate::store::cell_at(u.store, c),
                    path,
                    x,
                    tspan,
                    n,
                    more,
                ),
                Err(_) => {},
            }
        },
        Err(_) => {},
    }
}

proof fn lemma_referent_assigned(
    p: ValueTerm,
    tspan: SpanModel,
    op: AssignOp,
    rhs: ValueTerm,
    span: SpanModel,
    env: EnvModel,
    w: World,
    n: nat,
    more: nat,
)
    requires
        n <= more,
    ensures
        settles(
            w,
            crate::semantics::referent_assigned(p, tspan, op, rhs, span, env, w, n),
            crate::semantics::referent_assigned(p, tspan, op, rhs, span, env, w, more),
        ),
{
    match p.head {
        ValueHead::MutFieldReference(c, path) => lemma_part_assigned(
            c,
            path,
            tspan,
            op,
            rhs,
            span,
            env,
            w,
            n,
            more,
        ),
        _ => {},
    }
}

proof fn lemma_receiver_handed(
    e: TypedExpr,
    v: ValueTerm,
    view: ValueTerm,
    env: EnvModel,
    rt: RuntimeModel,
    s: StoreModel,
    n: nat,
    more: nat,
)
    requires
        n <= more,
    ensures
        crate::semantics::receiver_handed(e, v, view, env, rt, s, n) is Some
            ==> crate::semantics::receiver_handed(e, v, view, env, rt, s, more)
            == crate::semantics::receiver_handed(e, v, view, env, rt, s, n),
        crate::semantics::receiver_handed(e, v, view, env, rt, s, n) matches Some(h)
            ==> crate::depth::grown(s, h.store),
{
    match e {
        TypedExpr::Ident(name, binding, _, _) => {
            match crate::semantics::identified_cell(name@, binding, env, rt) {
                Some(c) => crate::depth::lemma_chain_end(s, c, n, more),
                None => {},
            }
        },
        _ => {},
    }
}

proof fn lemma_callee_made(callee: TypedExpr, v: ValueTerm, env: EnvModel, w: World)
    ensures
        crate::depth::kept(w, true, crate::semantics::callee_made(callee, v, env, w).w),
{
}

/// The body of code that is called.
pub proof fn lemma_body_run(
    code: ClosureCode,
    t: TypingModel,
    env: EnvModel,
    rt: RuntimeModel,
    w: World,
    n: nat,
    more: nat,
)
    requires
        n <= more,
    ensures
        body_settles(
            w,
            crate::semantics::body_run(code, t, env, rt, w, n),
            crate::semantics::body_run(code, t, env, rt, w, more),
        ),
    decreases n, 8int, 0int,
{
    let (body, u) = crate::semantics::body_typed(code, t, w);
    match body {
        TypedBody::Block(b) => lemma_block_run(b, env, rt, u, n, more),
        _ => {},
    }
}

/// A call of something callable.
#[verifier::rlimit(40)]
pub proof fn lemma_callable_called(
    c: CallableModel,
    args: Seq<ValueTerm>,
    static_args: Option<Seq<Term>>,
    expected: Option<Term>,
    span: SpanModel,
    rt: RuntimeModel,
    w: World,
    n: nat,
    more: nat,
)
    requires
        n <= more,
    ensures
        call_settles(
            w,
            crate::semantics::callable_called(c, args, static_args, expected, span, rt, w, n),
            crate::semantics::callable_called(c, args, static_args, expected, span, rt, w, more),
        ),
    decreases n, 9int, 0int,
{
    match c {
        CallableModel::Intrinsic(label, fun) => crate::depth::lemma_intrinsic_called(
            label,
            fun,
            args,
            span,
            w,
            n,
            more,
        ),
        CallableModel::Closure(id) => match crate::store::closure_at(w.store, id) {
            None => {},
            Some(made) => {
                let code = made.code;
                let marked = if crate::store::mutating(code) {
                    crate::machine::stored(w, crate::store::call_marked(w.store, id, true))
                } else {
                    w
                };
                let entered = crate::machine::frame_pushed(
                    marked,
                    crate::semantics::frame_label(code),
                    span,
                );
                let opened = crate::environment::scope_opened(made.captured);
                crate::depth::lemma_args_bound(entered.store, opened, code, args, 0, 0);
                let (bound, s, env) = crate::semantics::args_bound(
                    entered.store,
                    opened,
                    code,
                    args,
                    0,
                    0,
                );
                let typing = TypingModel {
                    receiver: None,
                    args,
                    static_receiver: None,
                    static_args,
                    expected,
                    span,
                };
                let u = crate::machine::stored(entered, s);
                lemma_body_run(code, typing, env, rt, u, n, more);
                let (o, _) = crate::semantics::body_run(code, typing, env, rt, u, n);
                crate::depth::lemma_frame(
                    marked,
                    crate::semantics::frame_label(code),
                    span,
                    o.r is Ok,
                    o.w,
                );
                crate::depth::lemma_frame(
                    marked,
                    crate::semantics::frame_label(code),
                    span,
                    false,
                    u,
                );
            },
        },
    }
}

/// A call of a method.
#[verifier::rlimit(40)]
pub proof fn lemma_method_called(
    c: CallableModel,
    receiver: ReceiverModel,
    args: Seq<ValueTerm>,
    static_args: Option<Seq<Term>>,
    static_receiver: Option<Term>,
    expected: Option<Term>,
    span: SpanModel,
    rt: RuntimeModel,
    w: World,
    n: nat,
    more: nat,
)
    requires
        n <= more,
    ensures
        call_settles(
            w,
            crate::semantics::method_called(
                c,
                receiver,
                args,
                static_args,
                static_receiver,
                expected,
                span,
                rt,
                w,
                n,
            ),
            crate::semantics::method_called(
                c,
                receiver,
                args,
                static_args,
                static_receiver,
                expected,
                span,
                rt,
                w,
                more,
            ),
        ),
    decreases n, 10int, 0int,
{
    match c {
        CallableModel::Intrinsic(_, _) => lemma_callable_called(
            c,
            seq![crate::semantics::receiver_term(w.store, receiver)] + args,
            static_args,
            expected,
            span,
            rt,
            w,
            n,
            more,
        ),
        CallableModel::Closure(id) => match crate::store::closure_at(w.store, id) {
            None => {},
            Some(made) => {
                let code = made.code;
                let entered = crate::machine::frame_pushed(
                    w,
                    crate::semantics::frame_label(code),
                    span,
                );
                let value = crate::semantics::receiver_term(entered.store, receiver);
                let opened = crate::environment::scope_opened(made.captured);
                match receiver {
                    ReceiverModel::Value(v) => if crate::semantics::code_params(code).len() > 0 {
                        crate::depth::lemma_variable_defined(
                            entered.store,
                            opened,
                            crate::copying::id_at(crate::semantics::code_param_ids(code), 0),
                            crate::semantics::code_params(code)[0].name@,
                            v,
                        );
                    },
                    ReceiverModel::Shared(_) => {},
                }
                let (received, s, e) = crate::semantics::receiver_bound(
                    entered.store,
                    opened,
                    code,
                    receiver,
                );
                crate::depth::lemma_args_bound(s, e, code, args, 1, 0);
                let (bound, t, env) = crate::semantics::args_bound(s, e, code, args, 1, 0);
                let typing = TypingModel {
                    receiver: Some(value),
                    args,
                    static_receiver,
                    static_args,
                    expected,
                    span,
                };
                let u = crate::machine::stored(entered, t);
                lemma_body_run(code, typing, env, rt, u, n, more);
                let (o, _) = crate::semantics::body_run(code, typing, env, rt, u, n);
                crate::depth::lemma_frame(
                    w,
                    crate::semantics::frame_label(code),
                    span,
                    o.r is Ok,
                    o.w,
                );
                crate::depth::lemma_frame(w, crate::semantics::frame_label(code), span, false, u);
                crate::depth::lemma_frame(
                    w,
                    crate::semantics::frame_label(code),
                    span,
                    false,
                    crate::machine::stored(entered, s),
                );
            },
        },
    }
}

/// A call of a value.
pub proof fn lemma_value_called(
    v: ValueTerm,
    args: Seq<ValueTerm>,
    static_args: Option<Seq<Term>>,
    expected: Option<Term>,
    span: SpanModel,
    rt: RuntimeModel,
    w: World,
    n: nat,
    more: nat,
)
    requires
        n <= more,
    ensures
        call_settles(
            w,
            crate::semantics::value_called(v, args, static_args, expected, span, rt, w, n),
            crate::semantics::value_called(v, args, static_args, expected, span, rt, w, more),
        ),
    decreases n, 11int, 0int,
{
    crate::depth::lemma_call_target(v, span, w.store, n, more);
    match crate::semantics::call_target(v, span, w.store, n) {
        Ok(target) => match target.head {
            ValueHead::Callable(c) => lemma_callable_called(
                c,
                args,
                static_args,
                expected,
                span,
                rt,
                w,
                n,
                more,
            ),
            _ => {},
        },
        Err(_) => {},
    }
}

/// The values of expressions.
pub proof fn lemma_list_run(
    es: Seq<Rc<TypedExpr>>,
    i: int,
    done: Seq<ValueTerm>,
    env: EnvModel,
    rt: RuntimeModel,
    w: World,
    n: nat,
    more: nat,
)
    requires
        n <= more,
    ensures
        parts_settle(
            w,
            crate::semantics::list_run(es, i, done, env, rt, w, n),
            crate::semantics::list_run(es, i, done, env, rt, w, more),
        ),
    decreases n, 1int, es.len() - i,
{
    if 0 <= i < es.len() {
        lemma_expr_run(crate::depth::whole(es[i]), env, rt, w, n, more);
        let o = crate::semantics::expr_run(crate::depth::whole(es[i]), env, rt, w, n);
        match o.r {
            Ok(SignalModel::Value(v)) => lemma_list_run(
                es,
                i + 1,
                done.push(v),
                o.env,
                rt,
                o.w,
                n,
                more,
            ),
            _ => {},
        }
    }
}

/// An expression.
#[verifier::rlimit(60)]
pub proof fn lemma_expr_run(
    e: TypedExpr,
    env: EnvModel,
    rt: RuntimeModel,
    w: World,
    n: nat,
    more: nat,
)
    requires
        n <= more,
    ensures
        settles(
            w,
            crate::semantics::expr_run(e, env, rt, w, n),
            crate::semantics::expr_run(e, env, rt, w, more),
        ),
    decreases n, 0int, 0int,
{
    if n > 0 {
        match e {
            TypedExpr::Tuple(es, _, _) => lemma_tuple_run(
                es@,
                env,
                rt,
                w,
                (n - 1) as nat,
                (more - 1) as nat,
            ),
            TypedExpr::Array(es, _, _) => lemma_array_run(
                es@,
                env,
                rt,
                w,
                (n - 1) as nat,
                (more - 1) as nat,
            ),
            TypedExpr::RecordLiteral { fields, ty, span } => lemma_record_run(
                fields@,
                env,
                rt,
                w,
                (n - 1) as nat,
                (more - 1) as nat,
            ),
            TypedExpr::RepeatArray(elem, count, _, _) => lemma_repeat_run(
                crate::depth::whole(elem),
                count,
                env,
                rt,
                w,
                (n - 1) as nat,
                (more - 1) as nat,
            ),
            TypedExpr::BinOp(lhs, op, rhs, _, span) => lemma_binop_run(
                crate::depth::whole(lhs),
                op,
                crate::depth::whole(rhs),
                span.deep_view(),
                env,
                rt,
                w,
                (n - 1) as nat,
                (more - 1) as nat,
            ),
            TypedExpr::RefTemp { init, mutable, ty, span } => lemma_ref_temp_run(
                crate::depth::whole(init),
                mutable,
                env,
                rt,
                w,
                (n - 1) as nat,
                (more - 1) as nat,
            ),
            TypedExpr::UnaryOp(op, operand, _, span) => lemma_unary_run(
                op,
                crate::depth::whole(operand),
                span.deep_view(),
                env,
                rt,
                w,
                (n - 1) as nat,
                (more - 1) as nat,
            ),
            TypedExpr::Cast { expr, target_type, ty, span } => lemma_cast_run(
                crate::depth::whole(expr),
                target_type,
                span.deep_view(),
                env,
                rt,
                w,
                (n - 1) as nat,
                (more - 1) as nat,
            ),
            TypedExpr::TupleAccess { object, index, ty, span } => lemma_tuple_access_run(
                crate::depth::whole(object),
                index,
                span.deep_view(),
                env,
                rt,
                w,
                (n - 1) as nat,
                (more - 1) as nat,
            ),
            TypedExpr::Index { object, index, ty, span } => lemma_index_run(
                crate::depth::whole(object),
                crate::depth::whole(index),
                span.deep_view(),
                env,
                rt,
                w,
                (n - 1) as nat,
                (more - 1) as nat,
            ),
            TypedExpr::If { condition, then_branch, else_branch, ty, span } => lemma_if_run(
                crate::depth::whole(condition),
                crate::depth::whole(then_branch),
                else_branch,
                env,
                rt,
                w,
                (n - 1) as nat,
                (more - 1) as nat,
            ),
            TypedExpr::Loop { body, ty, span } => lemma_loop_run(
                crate::depth::whole(body),
                env,
                rt,
                w,
                (n - 1) as nat,
                (more - 1) as nat,
            ),
            TypedExpr::Match(x) => lemma_match_run(
                crate::depth::whole(x),
                env,
                rt,
                w,
                (n - 1) as nat,
                (more - 1) as nat,
            ),
            TypedExpr::SingletonCoerce { inner, field, ty, span } => lemma_singleton_run(
                crate::depth::whole(inner),
                field@,
                env,
                rt,
                w,
                (n - 1) as nat,
                (more - 1) as nat,
            ),
            TypedExpr::DynCoerce { inner, aspect_id, aspect, type_args, span } => lemma_dyn_run(
                crate::depth::whole(inner),
                aspect_id,
                aspect@,
                type_args.deep_view(),
                env,
                rt,
                w,
                (n - 1) as nat,
                (more - 1) as nat,
            ),
            TypedExpr::Return(value, _) => lemma_return_run(
                value,
                env,
                rt,
                w,
                (n - 1) as nat,
                (more - 1) as nat,
            ),
            TypedExpr::Break(value, _) => lemma_break_run(
                value,
                env,
                rt,
                w,
                (n - 1) as nat,
                (more - 1) as nat,
            ),
            TypedExpr::Assign { target, op, value, span } => lemma_assign_run(
                crate::depth::whole(target),
                op,
                crate::depth::whole(value),
                span.deep_view(),
                env,
                rt,
                w,
                (n - 1) as nat,
                (more - 1) as nat,
            ),
            TypedExpr::StructLiteral { path, fields, type_id, variant_id, ty, span } => lemma_struct_run(
                path.deep_view(),
                fields@,
                type_id,
                variant_id,
                env,
                rt,
                w,
                (n - 1) as nat,
                (more - 1) as nat,
            ),
            TypedExpr::FieldAccess { object, field, ty, span } => lemma_field_run(
                crate::depth::whole(object),
                field@,
                span.deep_view(),
                env,
                rt,
                w,
                (n - 1) as nat,
                (more - 1) as nat,
            ),
            TypedExpr::MethodCall { receiver, method, args, ty, dispatch, span } => lemma_method_run(
                crate::depth::whole(receiver),
                method@,
                args@,
                ty.deep_view(),
                dispatch,
                span.deep_view(),
                env,
                rt,
                w,
                (n - 1) as nat,
                (more - 1) as nat,
            ),
            TypedExpr::Call { callee, args, ty, callee_id, span } => lemma_call_run(
                crate::depth::whole(callee),
                args@,
                ty.deep_view(),
                callee_id,
                span.deep_view(),
                env,
                rt,
                w,
                (n - 1) as nat,
                (more - 1) as nat,
            ),
            TypedExpr::Closure(c) => {
                let made = crate::depth::whole(c);
                crate::depth::lemma_closure_captured(
                    w.store,
                    env,
                    made.captures@,
                    made.capture_ids@,
                    made.span.deep_view(),
                );
            },
            _ => {},
        }
    }
}

/// A tuple.
pub proof fn lemma_tuple_run(
    es: Seq<Rc<TypedExpr>>,
    env: EnvModel,
    rt: RuntimeModel,
    w: World,
    n: nat,
    more: nat,
)
    requires
        n <= more,
    ensures
        settles(
            w,
            crate::semantics::tuple_run(es, env, rt, w, n),
            crate::semantics::tuple_run(es, env, rt, w, more),
        ),
    decreases n, 12int, 0int,
{
    lemma_list_run(es, 0, Seq::empty(), env, rt, w, n, more);
}

/// An array.
pub proof fn lemma_array_run(
    es: Seq<Rc<TypedExpr>>,
    env: EnvModel,
    rt: RuntimeModel,
    w: World,
    n: nat,
    more: nat,
)
    requires
        n <= more,
    ensures
        settles(
            w,
            crate::semantics::array_run(es, env, rt, w, n),
            crate::semantics::array_run(es, env, rt, w, more),
        ),
    decreases n, 12int, 0int,
{
    lemma_list_run(es, 0, Seq::empty(), env, rt, w, n, more);
}

/// A record.
pub proof fn lemma_record_run(
    fields: Seq<(String, Rc<TypedExpr>)>,
    env: EnvModel,
    rt: RuntimeModel,
    w: World,
    n: nat,
    more: nat,
)
    requires
        n <= more,
    ensures
        settles(
            w,
            crate::semantics::record_run(fields, env, rt, w, n),
            crate::semantics::record_run(fields, env, rt, w, more),
        ),
    decreases n, 12int, 0int,
{
    lemma_list_run(crate::semantics::field_exprs(fields), 0, Seq::empty(), env, rt, w, n, more);
}

/// A struct or variant.
pub proof fn lemma_struct_run(
    path: Seq<Seq<char>>,
    fields: Seq<(String, Rc<TypedExpr>)>,
    type_id: Option<SymbolId>,
    variant_id: Option<crate::symbols::VariantId>,
    env: EnvModel,
    rt: RuntimeModel,
    w: World,
    n: nat,
    more: nat,
)
    requires
        n <= more,
    ensures
        settles(
            w,
            crate::semantics::struct_run(path, fields, type_id, variant_id, env, rt, w, n),
            crate::semantics::struct_run(path, fields, type_id, variant_id, env, rt, w, more),
        ),
    decreases n, 12int, 0int,
{
    lemma_list_run(crate::semantics::field_exprs(fields), 0, Seq::empty(), env, rt, w, n, more);
}

/// An array of equal elements.
pub proof fn lemma_repeat_run(
    elem: TypedExpr,
    count: u64,
    env: EnvModel,
    rt: RuntimeModel,
    w: World,
    n: nat,
    more: nat,
)
    requires
        n <= more,
    ensures
        settles(
            w,
            crate::semantics::repeat_run(elem, count, env, rt, w, n),
            crate::semantics::repeat_run(elem, count, env, rt, w, more),
        ),
    decreases n, 12int, 0int,
{
    lemma_expr_run(elem, env, rt, w, n, more);
}

/// A binary operator.
pub proof fn lemma_binop_run(
    lhs: TypedExpr,
    op: BinOp,
    rhs: TypedExpr,
    span: SpanModel,
    env: EnvModel,
    rt: RuntimeModel,
    w: World,
    n: nat,
    more: nat,
)
    requires
        n <= more,
    ensures
        settles(
            w,
            crate::semantics::binop_run(lhs, op, rhs, span, env, rt, w, n),
            crate::semantics::binop_run(lhs, op, rhs, span, env, rt, w, more),
        ),
    decreases n, 12int, 0int,
{
    lemma_expr_run(lhs, env, rt, w, n, more);
    let l = crate::semantics::expr_run(lhs, env, rt, w, n);
    lemma_expr_run(rhs, l.env, rt, l.w, n, more);
}

/// A reference to a new cell.
pub proof fn lemma_ref_temp_run(
    init: TypedExpr,
    mutable: bool,
    env: EnvModel,
    rt: RuntimeModel,
    w: World,
    n: nat,
    more: nat,
)
    requires
        n <= more,
    ensures
        settles(
            w,
            crate::semantics::ref_temp_run(init, mutable, env, rt, w, n),
            crate::semantics::ref_temp_run(init, mutable, env, rt, w, more),
        ),
    decreases n, 12int, 0int,
{
    lemma_expr_run(init, env, rt, w, n, more);
}

/// The path of a place expression.
pub proof fn lemma_place_path(
    e: TypedExpr,
    span: SpanModel,
    env: EnvModel,
    rt: RuntimeModel,
    w: World,
    n: nat,
    more: nat,
)
    requires
        n <= more,
    ensures
        parts_settle(
            w,
            crate::semantics::place_path(e, span, env, rt, w, n),
            crate::semantics::place_path(e, span, env, rt, w, more),
        ),
    decreases n, 2int, 0int,
{
    if n > 0 {
        match e {
            TypedExpr::FieldAccess { object, field, ty, span: _ } => lemma_place_path(
                crate::depth::whole(object),
                span,
                env,
                rt,
                w,
                (n - 1) as nat,
                (more - 1) as nat,
            ),
            TypedExpr::TupleAccess { object, index, ty, span: _ } => lemma_place_path(
                crate::depth::whole(object),
                span,
                env,
                rt,
                w,
                (n - 1) as nat,
                (more - 1) as nat,
            ),
            TypedExpr::Index { object, index, ty, span: _ } => {
                lemma_place_path(
                    crate::depth::whole(object),
                    span,
                    env,
                    rt,
                    w,
                    (n - 1) as nat,
                    (more - 1) as nat,
                );
                let (p, e1, w1) = crate::semantics::place_path(
                    crate::depth::whole(object),
                    span,
                    env,
                    rt,
                    w,
                    (n - 1) as nat,
                );
                lemma_expr_run(
                    crate::depth::whole(index),
                    e1,
                    rt,
                    w1,
                    (n - 1) as nat,
                    (more - 1) as nat,
                );
            },
            TypedExpr::UnaryOp(UnaryOp::Deref, object, _, _) => lemma_place_path(
                crate::depth::whole(object),
                span,
                env,
                rt,
                w,
                (n - 1) as nat,
                (more - 1) as nat,
            ),
            _ => {},
        }
    }
}

/// A unary operator.
pub proof fn lemma_unary_run(
    op: UnaryOp,
    operand: TypedExpr,
    span: SpanModel,
    env: EnvModel,
    rt: RuntimeModel,
    w: World,
    n: nat,
    more: nat,
)
    requires
        n <= more,
    ensures
        settles(
            w,
            crate::semantics::unary_run(op, operand, span, env, rt, w, n),
            crate::semantics::unary_run(op, operand, span, env, rt, w, more),
        ),
    decreases n, 12int, 0int,
{
    if op is Ref || op is RefMut {
        lemma_reference_run(op is RefMut, operand, span, env, rt, w, n, more);
    } else {
        lemma_expr_run(operand, env, rt, w, n, more);
        let o = crate::semantics::expr_run(operand, env, rt, w, n);
        match o.r {
            Ok(SignalModel::Value(v)) => crate::depth::lemma_unary_result(
                op,
                v,
                span,
                o.w.store,
                n,
                more,
            ),
            _ => {},
        }
    }
}

/// A reference that is taken.
pub proof fn lemma_reference_run(
    mutable: bool,
    operand: TypedExpr,
    span: SpanModel,
    env: EnvModel,
    rt: RuntimeModel,
    w: World,
    n: nat,
    more: nat,
)
    requires
        n <= more,
    ensures
        settles(
            w,
            crate::semantics::reference_run(mutable, operand, span, env, rt, w, n),
            crate::semantics::reference_run(mutable, operand, span, env, rt, w, more),
        ),
    decreases n, 11int, 0int,
{
    match operand {
        TypedExpr::UnaryOp(UnaryOp::Deref, inner, _, _) => lemma_expr_run(
            crate::depth::whole(inner),
            env,
            rt,
            w,
            n,
            more,
        ),
        TypedExpr::Ident(_, _, _, _) => {},
        _ => lemma_place_path(operand, span, env, rt, w, n, more),
    }
}

/// A cast.
pub proof fn lemma_cast_run(
    e: TypedExpr,
    target: TypeExpr,
    span: SpanModel,
    env: EnvModel,
    rt: RuntimeModel,
    w: World,
    n: nat,
    more: nat,
)
    requires
        n <= more,
    ensures
        settles(
            w,
            crate::semantics::cast_run(e, target, span, env, rt, w, n),
            crate::semantics::cast_run(e, target, span, env, rt, w, more),
        ),
    decreases n, 12int, 0int,
{
    lemma_expr_run(e, env, rt, w, n, more);
    let o = crate::semantics::expr_run(e, env, rt, w, n);
    match o.r {
        Ok(SignalModel::Value(v)) => match crate::semantics::cast_conversion(target, v, rt) {
            Some(f) => lemma_value_called(
                crate::values::plain(ValueHead::Callable(f.body)),
                seq![v],
                None,
                None,
                span,
                rt,
                o.w,
                n,
                more,
            ),
            None => {},
        },
        _ => {},
    }
}

/// An element of a tuple.
pub proof fn lemma_tuple_access_run(
    object: TypedExpr,
    index: usize,
    span: SpanModel,
    env: EnvModel,
    rt: RuntimeModel,
    w: World,
    n: nat,
    more: nat,
)
    requires
        n <= more,
    ensures
        settles(
            w,
            crate::semantics::tuple_access_run(object, index, span, env, rt, w, n),
            crate::semantics::tuple_access_run(object, index, span, env, rt, w, more),
        ),
    decreases n, 12int, 0int,
{
    lemma_expr_run(object, env, rt, w, n, more);
    let o = crate::semantics::expr_run(object, env, rt, w, n);
    match o.r {
        Ok(SignalModel::Value(v)) => crate::depth::lemma_peeled(o.w.store, v, span, n, more),
        _ => {},
    }
}

/// An element of an array.
pub proof fn lemma_index_run(
    object: TypedExpr,
    index: TypedExpr,
    span: SpanModel,
    env: EnvModel,
    rt: RuntimeModel,
    w: World,
    n: nat,
    more: nat,
)
    requires
        n <= more,
    ensures
        settles(
            w,
            crate::semantics::index_run(object, index, span, env, rt, w, n),
            crate::semantics::index_run(object, index, span, env, rt, w, more),
        ),
    decreases n, 12int, 0int,
{
    lemma_expr_run(object, env, rt, w, n, more);
    let o = crate::semantics::expr_run(object, env, rt, w, n);
    match o.r {
        Ok(SignalModel::Value(v)) => crate::depth::lemma_peeled(o.w.store, v, span, n, more),
        _ => {},
    }
    lemma_expr_run(index, o.env, rt, o.w, n, more);
}

/// A field.
pub proof fn lemma_field_run(
    object: TypedExpr,
    field: Seq<char>,
    span: SpanModel,
    env: EnvModel,
    rt: RuntimeModel,
    w: World,
    n: nat,
    more: nat,
)
    requires
        n <= more,
    ensures
        settles(
            w,
            crate::semantics::field_run(object, field, span, env, rt, w, n),
            crate::semantics::field_run(object, field, span, env, rt, w, more),
        ),
    decreases n, 12int, 0int,
{
    lemma_expr_run(object, env, rt, w, n, more);
    let o = crate::semantics::expr_run(object, env, rt, w, n);
    match o.r {
        Ok(SignalModel::Value(v)) => crate::depth::lemma_peeled(o.w.store, v, span, n, more),
        _ => {},
    }
}

/// A choice.
pub proof fn lemma_if_run(
    condition: TypedExpr,
    then_branch: TypedBlock,
    else_branch: Option<Rc<TypedBlock>>,
    env: EnvModel,
    rt: RuntimeModel,
    w: World,
    n: nat,
    more: nat,
)
    requires
        n <= more,
    ensures
        settles(
            w,
            crate::semantics::if_run(condition, then_branch, else_branch, env, rt, w, n),
            crate::semantics::if_run(condition, then_branch, else_branch, env, rt, w, more),
        ),
    decreases n, 12int, 0int,
{
    lemma_expr_run(condition, env, rt, w, n, more);
    let o = crate::semantics::expr_run(condition, env, rt, w, n);
    lemma_block_run(then_branch, o.env, rt, o.w, n, more);
    match else_branch {
        Some(b) => lemma_block_run(crate::depth::whole(b), o.env, rt, o.w, n, more),
        None => {},
    }
}

/// A loop.
pub proof fn lemma_loop_run(
    body: TypedBlock,
    env: EnvModel,
    rt: RuntimeModel,
    w: World,
    n: nat,
    more: nat,
)
    requires
        n <= more,
    ensures
        settles(
            w,
            crate::semantics::loop_run(body, env, rt, w, n),
            crate::semantics::loop_run(body, env, rt, w, more),
        ),
    decreases n, 12int, 0int,
{
    if n > 0 {
        lemma_block_run(body, env, rt, w, (n - 1) as nat, (more - 1) as nat);
        let o = crate::semantics::block_run(body, env, rt, w, (n - 1) as nat);
        lemma_loop_run(body, o.env, rt, o.w, (n - 1) as nat, (more - 1) as nat);
    }
}

/// The guard of an arm.
pub proof fn lemma_guard_run(
    guard: Option<Rc<TypedExpr>>,
    bs: Seq<(Seq<char>, Option<LocalId>, ValueTerm)>,
    env: EnvModel,
    rt: RuntimeModel,
    w: World,
    n: nat,
    more: nat,
)
    requires
        n <= more,
    ensures
        parts_settle(
            w,
            crate::semantics::guard_run(guard, bs, env, rt, w, n),
            crate::semantics::guard_run(guard, bs, env, rt, w, more),
        ),
    decreases n, 8int, 0int,
{
    match guard {
        Some(g) => {
            let opened = crate::environment::scope_opened(env);
            crate::depth::lemma_bindings_bound(w.store, opened, bs, 0);
            let (bound, s, e) = crate::semantics::bindings_bound(w.store, opened, bs, 0);
            lemma_expr_run(crate::depth::whole(g), e, rt, crate::machine::stored(w, s), n, more);
        },
        None => {},
    }
}

/// An arm that is taken.
pub proof fn lemma_arm_run(
    body: TypedBlock,
    bs: Seq<(Seq<char>, Option<LocalId>, ValueTerm)>,
    env: EnvModel,
    rt: RuntimeModel,
    w: World,
    n: nat,
    more: nat,
)
    requires
        n <= more,
    ensures
        settles(
            w,
            crate::semantics::arm_run(body, bs, env, rt, w, n),
            crate::semantics::arm_run(body, bs, env, rt, w, more),
        ),
    decreases n, 8int, 0int,
{
    let opened = crate::environment::scope_opened(env);
    crate::depth::lemma_bindings_bound(w.store, opened, bs, 0);
    let (bound, s, e) = crate::semantics::bindings_bound(w.store, opened, bs, 0);
    lemma_block_run(body, e, rt, crate::machine::stored(w, s), n, more);
}

/// The arms of a match.
pub proof fn lemma_arms_run(
    arms: Seq<TypedMatchArm>,
    i: int,
    v: ValueTerm,
    span: SpanModel,
    env: EnvModel,
    rt: RuntimeModel,
    w: World,
    n: nat,
    more: nat,
)
    requires
        n <= more,
    ensures
        settles(
            w,
            crate::semantics::arms_run(arms, i, v, span, env, rt, w, n),
            crate::semantics::arms_run(arms, i, v, span, env, rt, w, more),
        ),
    decreases n, 9int, arms.len() - i,
{
    if 0 <= i < arms.len() {
        let found = crate::pattern::matched(w.store, arms[i].pattern, v, Seq::empty());
        crate::depth::lemma_matched(w.store, arms[i].pattern, v, Seq::empty());
        let u = crate::machine::stored(w, found.store);
        if found.fits {
            lemma_guard_run(arms[i].guard, found.bindings, env, rt, u, n, more);
            match crate::semantics::guard_run(arms[i].guard, found.bindings, env, rt, u, n) {
                (Ok(false), e, x) => lemma_arms_run(arms, i + 1, v, span, e, rt, x, n, more),
                (Ok(true), e, x) => lemma_arm_run(
                    crate::depth::whole(arms[i].body),
                    found.bindings,
                    e,
                    rt,
                    x,
                    n,
                    more,
                ),
                _ => {},
            }
        } else {
            lemma_arms_run(arms, i + 1, v, span, env, rt, u, n, more);
        }
    }
}

/// A match.
pub proof fn lemma_match_run(
    m: TypedMatch,
    env: EnvModel,
    rt: RuntimeModel,
    w: World,
    n: nat,
    more: nat,
)
    requires
        n <= more,
    ensures
        settles(
            w,
            crate::semantics::match_run(m, env, rt, w, n),
            crate::semantics::match_run(m, env, rt, w, more),
        ),
    decreases n, 12int, 0int,
{
    lemma_expr_run(crate::depth::whole(m.scrutinee), env, rt, w, n, more);
    let o = crate::semantics::expr_run(crate::depth::whole(m.scrutinee), env, rt, w, n);
    match o.r {
        Ok(SignalModel::Value(v)) => {
            crate::depth::lemma_peeled(o.w.store, v, m.span.deep_view(), n, more);
            match crate::reach::peeled(o.w.store, v, m.span.deep_view(), n) {
                Ok(x) => lemma_arms_run(m.arms@, 0, x, m.span.deep_view(), o.env, rt, o.w, n, more),
                Err(_) => {},
            }
        },
        _ => {},
    }
}

/// What the one inhabited variant holds.
pub proof fn lemma_singleton_run(
    inner: TypedExpr,
    field: Seq<char>,
    env: EnvModel,
    rt: RuntimeModel,
    w: World,
    n: nat,
    more: nat,
)
    requires
        n <= more,
    ensures
        settles(
            w,
            crate::semantics::singleton_run(inner, field, env, rt, w, n),
            crate::semantics::singleton_run(inner, field, env, rt, w, more),
        ),
    decreases n, 12int, 0int,
{
    lemma_expr_run(inner, env, rt, w, n, more);
}

/// A value seen as an aspect.
pub proof fn lemma_dyn_run(
    inner: TypedExpr,
    aspect_id: SymbolId,
    aspect: Seq<char>,
    type_args: Seq<Term>,
    env: EnvModel,
    rt: RuntimeModel,
    w: World,
    n: nat,
    more: nat,
)
    requires
        n <= more,
    ensures
        settles(
            w,
            crate::semantics::dyn_run(inner, aspect_id, aspect, type_args, env, rt, w, n),
            crate::semantics::dyn_run(inner, aspect_id, aspect, type_args, env, rt, w, more),
        ),
    decreases n, 12int, 0int,
{
    lemma_expr_run(inner, env, rt, w, n, more);
}

/// A `return`.
pub proof fn lemma_return_run(
    value: Option<Rc<TypedExpr>>,
    env: EnvModel,
    rt: RuntimeModel,
    w: World,
    n: nat,
    more: nat,
)
    requires
        n <= more,
    ensures
        settles(
            w,
            crate::semantics::return_run(value, env, rt, w, n),
            crate::semantics::return_run(value, env, rt, w, more),
        ),
    decreases n, 12int, 0int,
{
    match value {
        Some(e) => lemma_expr_run(crate::depth::whole(e), env, rt, w, n, more),
        None => {},
    }
}

/// A `break`.
pub proof fn lemma_break_run(
    value: Option<Rc<TypedExpr>>,
    env: EnvModel,
    rt: RuntimeModel,
    w: World,
    n: nat,
    more: nat,
)
    requires
        n <= more,
    ensures
        settles(
            w,
            crate::semantics::break_run(value, env, rt, w, n),
            crate::semantics::break_run(value, env, rt, w, more),
        ),
    decreases n, 12int, 0int,
{
    match value {
        Some(e) => lemma_expr_run(crate::depth::whole(e), env, rt, w, n, more),
        None => {},
    }
}

/// The root of a place.
pub proof fn lemma_place_root(
    p: TypedPlace,
    span: SpanModel,
    env: EnvModel,
    rt: RuntimeModel,
    w: World,
    n: nat,
    more: nat,
)
    requires
        n <= more,
    ensures
        place_settles(
            w,
            crate::semantics::place_root(p, span, env, rt, w, n),
            crate::semantics::place_root(p, span, env, rt, w, more),
        ),
    decreases n, 2int, 0int,
{
    if n > 0 {
        match p {
            TypedPlace::Deref { object, span: _ } => lemma_expr_run(
                crate::depth::whole(object),
                env,
                rt,
                w,
                (n - 1) as nat,
                (more - 1) as nat,
            ),
            TypedPlace::Field { object, field, span: _ } => lemma_place_root(
                crate::depth::whole(object),
                span,
                env,
                rt,
                w,
                (n - 1) as nat,
                (more - 1) as nat,
            ),
            TypedPlace::Tuple { object, index, span: _ } => lemma_place_root(
                crate::depth::whole(object),
                span,
                env,
                rt,
                w,
                (n - 1) as nat,
                (more - 1) as nat,
            ),
            _ => {},
        }
    }
}

/// What a place holds.
pub proof fn lemma_place_run(
    p: TypedPlace,
    env: EnvModel,
    rt: RuntimeModel,
    w: World,
    n: nat,
    more: nat,
)
    requires
        n <= more,
    ensures
        place_settles(
            w,
            crate::semantics::place_run(p, env, rt, w, n),
            crate::semantics::place_run(p, env, rt, w, more),
        ),
    decreases n, 2int, 0int,
{
    if n > 0 {
        match p {
            TypedPlace::Deref { object, span } => lemma_expr_run(
                crate::depth::whole(object),
                env,
                rt,
                w,
                (n - 1) as nat,
                (more - 1) as nat,
            ),
            TypedPlace::Field { object, field, span } => lemma_place_run(
                crate::depth::whole(object),
                env,
                rt,
                w,
                (n - 1) as nat,
                (more - 1) as nat,
            ),
            TypedPlace::Tuple { object, index, span } => lemma_place_run(
                crate::depth::whole(object),
                env,
                rt,
                w,
                (n - 1) as nat,
                (more - 1) as nat,
            ),
            TypedPlace::Index { object, index, span } => {
                lemma_place_run(
                    crate::depth::whole(object),
                    env,
                    rt,
                    w,
                    (n - 1) as nat,
                    (more - 1) as nat,
                );
                let (r, e, v) = crate::semantics::place_run(
                    crate::depth::whole(object),
                    env,
                    rt,
                    w,
                    (n - 1) as nat,
                );
                lemma_expr_run(
                    crate::depth::whole(index),
                    e,
                    rt,
                    v,
                    (n - 1) as nat,
                    (more - 1) as nat,
                );
            },
            _ => {},
        }
    }
}

/// An assignment of a value.
#[verifier::rlimit(40)]
pub proof fn lemma_target_assigned(
    target: TypedPlace,
    op: AssignOp,
    rhs: ValueTerm,
    span: SpanModel,
    env: EnvModel,
    rt: RuntimeModel,
    w: World,
    n: nat,
    more: nat,
)
    requires
        n <= more,
    ensures
        settles(
            w,
            crate::semantics::target_assigned(target, op, rhs, span, env, rt, w, n),
            crate::semantics::target_assigned(target, op, rhs, span, env, rt, w, more),
        ),
    decreases n, 11int, 0int,
{
    match target {
        TypedPlace::Ident(name, binding, _) => lemma_variable_assigned(
            name@,
            binding,
            op,
            rhs,
            span,
            env,
            rt,
            w,
        ),
        TypedPlace::Deref { object, span: tspan } => {
            lemma_expr_run(crate::depth::whole(object), env, rt, w, n, more);
            let o = crate::semantics::expr_run(crate::depth::whole(object), env, rt, w, n);
            match o.r {
                Ok(SignalModel::Value(p)) => lemma_referent_assigned(
                    p,
                    tspan.deep_view(),
                    op,
                    rhs,
                    span,
                    o.env,
                    o.w,
                    n,
                    more,
                ),
                _ => {},
            }
        },
        TypedPlace::Index { object, index, span: tspan } => {
            lemma_place_run(crate::depth::whole(object), env, rt, w, n, more);
            let (r, e, v) = crate::semantics::place_run(crate::depth::whole(object), env, rt, w, n);
            match r {
                Ok(raw) => crate::depth::lemma_peeled(v.store, raw, tspan.deep_view(), n, more),
                Err(_) => {},
            }
            lemma_expr_run(crate::depth::whole(index), e, rt, v, n, more);
        },
        TypedPlace::Field { object, field, span: tspan } => lemma_rooted_assigned(
            target,
            tspan.deep_view(),
            op,
            rhs,
            span,
            env,
            rt,
            w,
            n,
            more,
        ),
        TypedPlace::Tuple { object, index, span: tspan } => lemma_rooted_assigned(
            target,
            tspan.deep_view(),
            op,
            rhs,
            span,
            env,
            rt,
            w,
            n,
            more,
        ),
    }
}

/// An assignment to a part of what a place holds.
pub proof fn lemma_rooted_assigned(
    target: TypedPlace,
    tspan: SpanModel,
    op: AssignOp,
    rhs: ValueTerm,
    span: SpanModel,
    env: EnvModel,
    rt: RuntimeModel,
    w: World,
    n: nat,
    more: nat,
)
    requires
        n <= more,
    ensures
        settles(
            w,
            crate::semantics::rooted_assigned(target, tspan, op, rhs, span, env, rt, w, n),
            crate::semantics::rooted_assigned(target, tspan, op, rhs, span, env, rt, w, more),
        ),
    decreases n, 10int, 0int,
{
    lemma_place_root(target, tspan, env, rt, w, n, more);
    match crate::semantics::place_root(target, tspan, env, rt, w, n) {
        (Ok((c, path)), e, v) => lemma_part_assigned(c, path, tspan, op, rhs, span, e, v, n, more),
        _ => {},
    }
}

/// An assignment.
pub proof fn lemma_assign_run(
    target: TypedPlace,
    op: AssignOp,
    value: TypedExpr,
    span: SpanModel,
    env: EnvModel,
    rt: RuntimeModel,
    w: World,
    n: nat,
    more: nat,
)
    requires
        n <= more,
    ensures
        settles(
            w,
            crate::semantics::assign_run(target, op, value, span, env, rt, w, n),
            crate::semantics::assign_run(target, op, value, span, env, rt, w, more),
        ),
    decreases n, 12int, 0int,
{
    lemma_expr_run(value, env, rt, w, n, more);
    let o = crate::semantics::expr_run(value, env, rt, w, n);
    match o.r {
        Ok(SignalModel::Value(v)) => lemma_target_assigned(
            target,
            op,
            v,
            span,
            o.env,
            rt,
            o.w,
            n,
            more,
        ),
        _ => {},
    }
}

/// A call of a method that has been found.
pub proof fn lemma_method_applied(
    m: MethodModel,
    receiver: TypedExpr,
    recv: ValueTerm,
    view: ValueTerm,
    name: Seq<char>,
    vs: Seq<ValueTerm>,
    static_args: Seq<Term>,
    expected: Term,
    span: SpanModel,
    env: EnvModel,
    rt: RuntimeModel,
    w: World,
    n: nat,
    more: nat,
)
    requires
        n <= more,
    ensures
        settles(
            w,
            crate::semantics::method_applied(
                m,
                receiver,
                recv,
                view,
                name,
                vs,
                static_args,
                expected,
                span,
                env,
                rt,
                w,
                n,
            ),
            crate::semantics::method_applied(
                m,
                receiver,
                recv,
                view,
                name,
                vs,
                static_args,
                expected,
                span,
                env,
                rt,
                w,
                more,
            ),
        ),
    decreases n, 11int, 0int,
{
    match m.receiver {
        None => {},
        Some(ReceiverKind::Value) => lemma_method_called(
            m.body,
            ReceiverModel::Value(view),
            vs,
            Some(static_args),
            Some(crate::semantics::expr_type(receiver)),
            Some(expected),
            span,
            rt,
            w,
            n,
            more,
        ),
        Some(_) => {
            lemma_receiver_handed(receiver, recv, view, env, rt, w.store, n, more);
            match crate::semantics::receiver_handed(receiver, recv, view, env, rt, w.store, n) {
                Some(h) => lemma_method_called(
                    m.body,
                    h.receiver,
                    vs,
                    Some(static_args),
                    Some(crate::semantics::expr_type(receiver)),
                    Some(expected),
                    span,
                    rt,
                    crate::machine::stored(w, h.store),
                    n,
                    more,
                ),
                None => {},
            }
        },
    }
}

/// A call of a method.
#[verifier::rlimit(30)]
pub proof fn lemma_method_run(
    receiver: TypedExpr,
    name: Seq<char>,
    args: Seq<Rc<TypedExpr>>,
    expected: Term,
    dispatch: MethodDispatch,
    span: SpanModel,
    env: EnvModel,
    rt: RuntimeModel,
    w: World,
    n: nat,
    more: nat,
)
    requires
        n <= more,
    ensures
        settles(
            w,
            crate::semantics::method_run(
                receiver,
                name,
                args,
                expected,
                dispatch,
                span,
                env,
                rt,
                w,
                n,
            ),
            crate::semantics::method_run(
                receiver,
                name,
                args,
                expected,
                dispatch,
                span,
                env,
                rt,
                w,
                more,
            ),
        ),
    decreases n, 12int, 0int,
{
    lemma_expr_run(receiver, env, rt, w, n, more);
    let o = crate::semantics::expr_run(receiver, env, rt, w, n);
    match o.r {
        Ok(SignalModel::Value(recv)) => {
            lemma_list_run(args, 0, Seq::empty(), o.env, rt, o.w, n, more);
            match crate::semantics::list_run(args, 0, Seq::empty(), o.env, rt, o.w, n) {
                (Ok(vs), e, v) => {
                    crate::depth::lemma_peeled(v.store, recv, span, n, more);
                    match crate::reach::peeled(v.store, recv, span, n) {
                        Ok(view) => match crate::semantics::found_method(dispatch, rt, view, name) {
                            Some(m) => lemma_method_applied(
                                m,
                                receiver,
                                recv,
                                view,
                                name,
                                vs,
                                crate::semantics::expr_types(args),
                                expected,
                                span,
                                e,
                                rt,
                                v,
                                n,
                                more,
                            ),
                            None => {},
                        },
                        Err(_) => {},
                    }
                },
                _ => {},
            }
        },
        _ => {},
    }
}

/// What is called.
pub proof fn lemma_callee_run(
    callee: TypedExpr,
    callee_id: Option<SymbolId>,
    env: EnvModel,
    rt: RuntimeModel,
    w: World,
    n: nat,
    more: nat,
)
    requires
        n <= more,
    ensures
        settles(
            w,
            crate::semantics::callee_run(callee, callee_id, env, rt, w, n),
            crate::semantics::callee_run(callee, callee_id, env, rt, w, more),
        ),
    decreases n, 9int, 0int,
{
    lemma_expr_run(callee, env, rt, w, n, more);
}

/// A call.
#[verifier::rlimit(30)]
pub proof fn lemma_call_run(
    callee: TypedExpr,
    args: Seq<Rc<TypedExpr>>,
    expected: Term,
    callee_id: Option<SymbolId>,
    span: SpanModel,
    env: EnvModel,
    rt: RuntimeModel,
    w: World,
    n: nat,
    more: nat,
)
    requires
        n <= more,
    ensures
        settles(
            w,
            crate::semantics::call_run(callee, args, expected, callee_id, span, env, rt, w, n),
            crate::semantics::call_run(callee, args, expected, callee_id, span, env, rt, w, more),
        ),
    decreases n, 12int, 0int,
{
    lemma_callee_run(callee, callee_id, env, rt, w, n, more);
    let o = crate::semantics::callee_run(callee, callee_id, env, rt, w, n);
    match o.r {
        Ok(SignalModel::Value(first)) => {
            lemma_callee_made(callee, first, o.env, o.w);
            let m = crate::semantics::callee_made(callee, first, o.env, o.w);
            match m.r {
                Ok(SignalModel::Value(f)) => {
                    lemma_list_run(args, 0, Seq::empty(), m.env, rt, m.w, n, more);
                    match crate::semantics::list_run(args, 0, Seq::empty(), m.env, rt, m.w, n) {
                        (Ok(vs), e, v) => lemma_value_called(
                            f,
                            vs,
                            Some(crate::semantics::expr_types(args)),
                            Some(expected),
                            span,
                            rt,
                            v,
                            n,
                            more,
                        ),
                        _ => {},
                    }
                },
                _ => {},
            }
        },
        _ => {},
    }
}

/// A block.
#[verifier::rlimit(30)]
pub proof fn lemma_block_run(
    b: TypedBlock,
    env: EnvModel,
    rt: RuntimeModel,
    w: World,
    n: nat,
    more: nat,
)
    requires
        n <= more,
    ensures
        settles(
            w,
            crate::semantics::block_run(b, env, rt, w, n),
            crate::semantics::block_run(b, env, rt, w, more),
        ),
    decreases n, 7int, 0int,
{
    let opened = crate::environment::scope_opened(env);
    crate::depth::lemma_hoisted(b.stmts@, opened, w.store);
    let (r, e1, s) = crate::semantics::hoisted(b.stmts@, opened, w.store);
    let u = crate::machine::stored(w, s);
    lemma_decls_run(b.stmts@, 0, e1, rt, u, n, more);
    let o = crate::semantics::decls_run(b.stmts@, 0, e1, rt, u, n);
    match b.tail {
        Some(e) => lemma_expr_run(crate::depth::whole(e), o.env, rt, o.w, n, more),
        None => {},
    }
}

/// Declarations.
pub proof fn lemma_decls_run(
    ds: Seq<TypedDecl>,
    i: int,
    env: EnvModel,
    rt: RuntimeModel,
    w: World,
    n: nat,
    more: nat,
)
    requires
        n <= more,
    ensures
        settles(
            w,
            crate::semantics::decls_run(ds, i, env, rt, w, n),
            crate::semantics::decls_run(ds, i, env, rt, w, more),
        ),
    decreases n, 6int, ds.len() - i,
{
    if 0 <= i < ds.len() {
        lemma_decl_run(ds[i], env, rt, w, n, more);
        let o = crate::semantics::decl_run(ds[i], env, rt, w, n);
        lemma_decls_run(ds, i + 1, o.env, rt, o.w, n, more);
    }
}

/// A variable that is declared.
pub proof fn lemma_binding_run(
    d: TypedBinding,
    env: EnvModel,
    rt: RuntimeModel,
    w: World,
    n: nat,
    more: nat,
)
    requires
        n <= more,
    ensures
        settles(
            w,
            crate::semantics::binding_run(d, env, rt, w, n),
            crate::semantics::binding_run(d, env, rt, w, more),
        ),
    decreases n, 1int, 0int,
{
    lemma_expr_run(crate::depth::whole(d.value), env, rt, w, n, more);
    let o = crate::semantics::expr_run(crate::depth::whole(d.value), env, rt, w, n);
    match o.r {
        Ok(SignalModel::Value(v)) => crate::depth::lemma_variable_defined(
            o.w.store,
            o.env,
            d.local_id,
            d.name@,
            v,
        ),
        _ => {},
    }
}

/// A declaration.
pub proof fn lemma_decl_run(
    d: TypedDecl,
    env: EnvModel,
    rt: RuntimeModel,
    w: World,
    n: nat,
    more: nat,
)
    requires
        n <= more,
    ensures
        settles(
            w,
            crate::semantics::decl_run(d, env, rt, w, n),
            crate::semantics::decl_run(d, env, rt, w, more),
        ),
    decreases n, 5int, 0int,
{
    match d {
        TypedDecl::Let(b) => lemma_binding_run(b, env, rt, w, n, more),
        TypedDecl::Mut(b) => lemma_binding_run(b, env, rt, w, n, more),
        TypedDecl::Stmt(s) => lemma_stmt_run(s, env, rt, w, n, more),
        _ => {},
    }
}

/// A statement.
pub proof fn lemma_stmt_run(
    s: TypedStmt,
    env: EnvModel,
    rt: RuntimeModel,
    w: World,
    n: nat,
    more: nat,
)
    requires
        n <= more,
    ensures
        settles(
            w,
            crate::semantics::stmt_run(s, env, rt, w, n),
            crate::semantics::stmt_run(s, env, rt, w, more),
        ),
    decreases n, 4int, 0int,
{
    match s {
        TypedStmt::Expr(e) => lemma_expr_run(crate::depth::whole(e), env, rt, w, n, more),
        TypedStmt::While(x) => lemma_while_run(crate::depth::whole(x), env, rt, w, n, more),
        TypedStmt::For(x) => lemma_for_run(crate::depth::whole(x), env, rt, w, n, more),
        TypedStmt::ForIn(x) => {
            let iterable = crate::depth::whole(crate::depth::whole(x).iterable);
            lemma_expr_run(iterable, env, rt, w, n, more);
            let o = crate::semantics::expr_run(iterable, env, rt, w, n);
            match o.r {
                Ok(SignalModel::Value(v)) => lemma_for_in_run(
                    crate::depth::whole(x),
                    v,
                    o.env,
                    rt,
                    o.w,
                    n,
                    more,
                ),
                _ => {},
            }
        },
    }
}

/// A `while` loop.
pub proof fn lemma_while_run(
    x: TypedWhile,
    env: EnvModel,
    rt: RuntimeModel,
    w: World,
    n: nat,
    more: nat,
)
    requires
        n <= more,
    ensures
        settles(
            w,
            crate::semantics::while_run(x, env, rt, w, n),
            crate::semantics::while_run(x, env, rt, w, more),
        ),
    decreases n, 3int, 0int,
{
    if n > 0 {
        lemma_expr_run(
            crate::depth::whole(x.condition),
            env,
            rt,
            w,
            (n - 1) as nat,
            (more - 1) as nat,
        );
        let c = crate::semantics::expr_run(
            crate::depth::whole(x.condition),
            env,
            rt,
            w,
            (n - 1) as nat,
        );
        lemma_block_run(
            crate::depth::whole(x.body),
            c.env,
            rt,
            c.w,
            (n - 1) as nat,
            (more - 1) as nat,
        );
        let o = crate::semantics::block_run(
            crate::depth::whole(x.body),
            c.env,
            rt,
            c.w,
            (n - 1) as nat,
        );
        lemma_while_run(x, o.env, rt, o.w, (n - 1) as nat, (more - 1) as nat);
    }
}

/// The beginning of a `for` loop.
pub proof fn lemma_for_init_run(
    init: Option<TypedForInit>,
    env: EnvModel,
    rt: RuntimeModel,
    w: World,
    n: nat,
    more: nat,
)
    requires
        n <= more,
    ensures
        settles(
            w,
            crate::semantics::for_init_run(init, env, rt, w, n),
            crate::semantics::for_init_run(init, env, rt, w, more),
        ),
    decreases n, 2int, 0int,
{
    match init {
        None => {},
        Some(TypedForInit::Let(b)) => lemma_binding_run(b, env, rt, w, n, more),
        Some(TypedForInit::Mut(b)) => lemma_binding_run(b, env, rt, w, n, more),
        Some(TypedForInit::Expr(e)) => lemma_expr_run(crate::depth::whole(e), env, rt, w, n, more),
    }
}

/// A `for` loop.
pub proof fn lemma_for_run(
    f: TypedFor,
    env: EnvModel,
    rt: RuntimeModel,
    w: World,
    n: nat,
    more: nat,
)
    requires
        n <= more,
    ensures
        settles(
            w,
            crate::semantics::for_run(f, env, rt, w, n),
            crate::semantics::for_run(f, env, rt, w, more),
        ),
    decreases n, 3int, 1int,
{
    let opened = crate::environment::scope_opened(env);
    lemma_for_init_run(f.init, opened, rt, w, n, more);
    let o = crate::semantics::for_init_run(f.init, opened, rt, w, n);
    lemma_for_rounds(f, o.env, rt, o.w, n, more);
}

/// The rounds of a `for` loop.
#[verifier::rlimit(40)]
pub proof fn lemma_for_rounds(
    f: TypedFor,
    env: EnvModel,
    rt: RuntimeModel,
    w: World,
    n: nat,
    more: nat,
)
    requires
        n <= more,
    ensures
        rounds_settle(
            w,
            crate::semantics::for_rounds(f, env, rt, w, n),
            crate::semantics::for_rounds(f, env, rt, w, more),
        ),
    decreases n, 3int, 0int,
{
    if n > 0 {
        let k = (n - 1) as nat;
        match f.condition {
            Some(e) => lemma_expr_run(
                crate::depth::whole(e),
                env,
                rt,
                w,
                (n - 1) as nat,
                (more - 1) as nat,
            ),
            None => {},
        }
        let c = match f.condition {
            Some(e) => crate::semantics::expr_run(crate::depth::whole(e), env, rt, w, k),
            None => crate::semantics::val(crate::values::bool_term(true), env, w),
        };
        lemma_block_run(
            crate::depth::whole(f.body),
            c.env,
            rt,
            c.w,
            (n - 1) as nat,
            (more - 1) as nat,
        );
        let o = crate::semantics::block_run(crate::depth::whole(f.body), c.env, rt, c.w, k);
        match f.step {
            None => lemma_for_rounds(f, o.env, rt, o.w, (n - 1) as nat, (more - 1) as nat),
            Some(e) => {
                lemma_expr_run(
                    crate::depth::whole(e),
                    o.env,
                    rt,
                    o.w,
                    (n - 1) as nat,
                    (more - 1) as nat,
                );
                let s = crate::semantics::expr_run(crate::depth::whole(e), o.env, rt, o.w, k);
                lemma_for_rounds(f, s.env, rt, s.w, (n - 1) as nat, (more - 1) as nat);
            },
        }
    }
}

/// One round of a `for`-`in` loop.
pub proof fn lemma_round_run(
    f: TypedForIn,
    item: ValueTerm,
    env: EnvModel,
    rt: RuntimeModel,
    w: World,
    n: nat,
    more: nat,
)
    requires
        n <= more,
    ensures
        rounds_settle(
            w,
            crate::semantics::round_run(f, item, env, rt, w, n),
            crate::semantics::round_run(f, item, env, rt, w, more),
        ),
    decreases n, 8int, 0int,
{
    let opened = crate::environment::scope_opened(env);
    crate::depth::lemma_variable_defined(w.store, opened, f.binding_id, f.binding@, item);
    match crate::environment::variable_defined(w.store, opened, f.binding_id, f.binding@, item) {
        Some((s, e)) => lemma_block_run(
            crate::depth::whole(f.body),
            e,
            rt,
            crate::machine::stored(w, s),
            n,
            more,
        ),
        None => {},
    }
}

/// A `for`-`in` loop over values.
pub proof fn lemma_items_run(
    f: TypedForIn,
    items: Seq<ValueTerm>,
    i: int,
    env: EnvModel,
    rt: RuntimeModel,
    w: World,
    n: nat,
    more: nat,
)
    requires
        n <= more,
    ensures
        settles(
            w,
            crate::semantics::items_run(f, items, i, env, rt, w, n),
            crate::semantics::items_run(f, items, i, env, rt, w, more),
        ),
    decreases n, 9int, items.len() - i,
{
    if 0 <= i < items.len() {
        lemma_round_run(f, items[i], env, rt, w, n, more);
        let (goes_on, o) = crate::semantics::round_run(f, items[i], env, rt, w, n);
        lemma_items_run(f, items, i + 1, o.env, rt, o.w, n, more);
    }
}

/// A `for`-`in` loop over numbers.
pub proof fn lemma_range_run(
    f: TypedForIn,
    from: int,
    to: int,
    env: EnvModel,
    rt: RuntimeModel,
    w: World,
    n: nat,
    more: nat,
)
    requires
        n <= more,
    ensures
        settles(
            w,
            crate::semantics::range_run(f, from, to, env, rt, w, n),
            crate::semantics::range_run(f, from, to, env, rt, w, more),
        ),
    decreases n, 9int, to - from,
{
    if from < to {
        let item = crate::values::int_term(IntKind::I64, from);
        lemma_round_run(f, item, env, rt, w, n, more);
        let (goes_on, o) = crate::semantics::round_run(f, item, env, rt, w, n);
        lemma_range_run(f, from + 1, to, o.env, rt, o.w, n, more);
    }
}

/// A `for`-`in` loop over what a method gives.
pub proof fn lemma_iteration_run(
    f: TypedForIn,
    next: CallableModel,
    cell: CellId,
    env: EnvModel,
    rt: RuntimeModel,
    w: World,
    n: nat,
    more: nat,
)
    requires
        n <= more,
    ensures
        settles(
            w,
            crate::semantics::iteration_run(f, next, cell, env, rt, w, n),
            crate::semantics::iteration_run(f, next, cell, env, rt, w, more),
        ),
    decreases n, 3int, 0int,
{
    if n > 0 {
        let k = (n - 1) as nat;
        let receiver = ReceiverModel::Shared(cell);
        let span = f.span.deep_view();
        lemma_method_called(
            next,
            receiver,
            Seq::empty(),
            None,
            None,
            None,
            span,
            rt,
            w,
            (n - 1) as nat,
            (more - 1) as nat,
        );
        let c = crate::semantics::method_called(
            next,
            receiver,
            Seq::empty(),
            None,
            None,
            None,
            span,
            rt,
            w,
            k,
        );
        match c.r {
            Ok(SignalModel::Value(v)) => match crate::semantics::next_item(v) {
                Ok(Some(item)) => {
                    lemma_round_run(f, item, env, rt, c.w, (n - 1) as nat, (more - 1) as nat);
                    let (goes_on, o) = crate::semantics::round_run(f, item, env, rt, c.w, k);
                    lemma_iteration_run(
                        f,
                        next,
                        cell,
                        o.env,
                        rt,
                        o.w,
                        (n - 1) as nat,
                        (more - 1) as nat,
                    );
                },
                _ => {},
            },
            _ => {},
        }
    }
}

/// A `for`-`in` loop.
#[verifier::rlimit(40)]
pub proof fn lemma_for_in_run(
    f: TypedForIn,
    raw: ValueTerm,
    env: EnvModel,
    rt: RuntimeModel,
    w: World,
    n: nat,
    more: nat,
)
    requires
        n <= more,
    ensures
        settles(
            w,
            crate::semantics::for_in_run(f, raw, env, rt, w, n),
            crate::semantics::for_in_run(f, raw, env, rt, w, more),
        ),
    decreases n, 3int, 1int,
{
    if n > 0 {
        let k = (n - 1) as nat;
        let span = f.span.deep_view();
        crate::depth::lemma_peeled(w.store, raw, span, k, (more - 1) as nat);
        match crate::reach::peeled(w.store, raw, span, k) {
            Ok(v) => match v.head {
                ValueHead::Array(a) => lemma_items_run(
                    f,
                    crate::store::array_at(w.store, a),
                    0,
                    env,
                    rt,
                    w,
                    (n - 1) as nat,
                    (more - 1) as nat,
                ),
                ValueHead::Struct(name, _, _) => {
                    match (
                        crate::semantics::range_bound(v, "start"@),
                        crate::semantics::range_bound(v, "end"@),
                    ) {
                        (Ok(from), Ok(to)) => lemma_range_run(
                            f,
                            from,
                            if name == "Range"@ { to } else { to + 1 },
                            env,
                            rt,
                            w,
                            (n - 1) as nat,
                            (more - 1) as nat,
                        ),
                        _ => {},
                    }
                    let next = match crate::runtime::type_id_of(rt, v) {
                        Some(id) => crate::runtime::regular_method(rt, id, "next"@),
                        None => None,
                    };
                    match next {
                        Some(m) => {
                            crate::depth::lemma_value_copied(w.store, v);
                            match crate::copying::value_copied(w.store, v) {
                                Some((s, x)) => {
                                    let (t, c) = crate::store::cell_made(s, x);
                                    lemma_iteration_run(
                                        f,
                                        m.body,
                                        c,
                                        env,
                                        rt,
                                        crate::machine::stored(w, t),
                                        (n - 1) as nat,
                                        (more - 1) as nat,
                                    );
                                },
                                None => {},
                            }
                        },
                        None => {},
                    }
                },
                _ => {},
            },
            Err(_) => {},
        }
    }
}

} // verus!
