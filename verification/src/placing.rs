//! Places: what can be referred to and assigned to.

use crate::ast::Span;
use crate::copying::deep_clone_value;
use crate::data::Dup;
use crate::environment::{Stop, StopModel};
use crate::error::{MetelError, RuntimeErrorCode};
use crate::evaluator::{
    bounds_error, compute, eval_expr, internal, panicked, position_of, take_tuple_part,
    wrapped_text, Signal,
};
use crate::host::{Event, Host};
use crate::machine::Machine;
use crate::operators::assign_binop;
use crate::reach::{peel, read_path, write_path};
use crate::runtime::RuntimeRegistry;
use crate::semantics::SignalModel;
use crate::store::{Environment, Store};
use crate::text::decimal_string;
use crate::typed_ast::{AssignOp, BindingId, TypedExpr, TypedPlace, UnaryOp};
use crate::values::{CellId, PathSegment, SegmentModel, Value};
use vstd::prelude::*;
use vstd::string::*;

verus! {

broadcast use {
    crate::machine::lemma_begins,
    crate::machine::lemma_begins_itself,
    crate::machine::lemma_exchanged,
    crate::machine::lemma_nothing_exchanged,
};

/// The variable and the path that a place leads through.
pub open spec fn path_model(r: Result<(String, Vec<PathSegment>), Result<Signal, Stop>>) -> Result<
    (Seq<char>, Seq<SegmentModel>),
    Result<SignalModel, StopModel>,
> {
    match r {
        Ok((root, path)) => Ok((root@, path.deep_view())),
        Err(other) => Err(crate::evaluator::signal_model(other)),
    }
}

/// The cell and the path that a place leads through.
pub open spec fn root_model(r: Result<(CellId, Vec<PathSegment>), Stop>) -> Result<
    (CellId, Seq<SegmentModel>),
    StopModel,
> {
    match r {
        Ok((root, path)) => Ok((root, path.deep_view())),
        Err(e) => Err(e.deep_view()),
    }
}

fn push_step(path: &mut Vec<PathSegment>, seg: PathSegment)
    ensures
        final(path).deep_view() == old(path).deep_view().push(seg.deep_view()),
{
    let ghost prev = path.deep_view();
    assert(prev.len() == path@.len());
    path.push(seg);
    assert(path.deep_view() =~= prev.push(seg.deep_view()));
}

fn no_steps() -> (path: Vec<PathSegment>)
    ensures
        path.deep_view() == Seq::<SegmentModel>::empty(),
{
    let path: Vec<PathSegment> = Vec::new();
    assert(path.deep_view() =~= Seq::<SegmentModel>::empty());
    path
}

fn add_step(p: Result<(String, Vec<PathSegment>), Result<Signal, Stop>>, seg: PathSegment) -> (r:
    Result<(String, Vec<PathSegment>), Result<Signal, Stop>>)
    ensures
        path_model(r) == (match path_model(p) {
            Ok((root, path)) => Ok((root, path.push(seg.deep_view()))),
            Err(other) => Err(other),
        }),
{
    match p {
        Ok((root, path)) => {
            let mut path = path;
            push_step(&mut path, seg);
            Ok((root, path))
        },
        Err(other) => Err(other),
    }
}

fn path_position(v: &Value) -> (r: Option<usize>)
    ensures
        r == crate::semantics::path_index(v@),
{
    match v {
        Value::I64(k) => if *k >= 0 {
            Some(*k as u64 as usize)
        } else {
            None
        },
        Value::U64(k) => Some(*k as usize),
        _ => None,
    }
}

/// The variable and the path that a place expression leads through.
pub(crate) fn build_mut_path<H: Host>(
    e: &TypedExpr,
    span: &Span,
    env: &mut Environment,
    runtime: &RuntimeRegistry,
    m: &mut Machine,
    host: &mut H,
    fuel: u64,
) -> (r: Result<(String, Vec<PathSegment>), Result<Signal, Stop>>)
    requires
        old(env)@.scopes.len() > 0,
    ensures
        final(env)@.scopes.len() >= old(env)@.scopes.len(),
        crate::machine::begins(old(m).log@, final(m).log@),
        crate::machine::exchanged(
            old(m).log@,
            final(m).log@,
            old(host).history(),
            final(host).history(),
        ),
        forall|tape: Seq<Event>|
            crate::machine::begins(final(m).log@, tape) ==> crate::semantics::place_path(
                *e,
                span.deep_view(),
                old(env)@,
                runtime@,
                #[trigger] old(m).on(tape),
                fuel as nat,
            ) == (path_model(r), final(env)@, final(m).on(tape)),
    decreases fuel, 2int, 0int,
{
    if fuel == 0 {
        return Err(Err(Stop::Endless));
    }
    let k: u64 = fuel - 1;
    match e {
        TypedExpr::Ident(name, _, _, _) => Ok((name.clone(), no_steps())),
        TypedExpr::FieldAccess { object, field, ty: _, span: _ } => {
            let p = build_mut_path(object, span, env, runtime, m, host, k);
            add_step(p, PathSegment::Field(field.clone()))
        },
        TypedExpr::TupleAccess { object, index, ty: _, span: _ } => {
            let p = build_mut_path(object, span, env, runtime, m, host, k);
            add_step(p, PathSegment::TupleIndex(*index))
        },
        TypedExpr::Index { object, index, ty: _, span: _ } => {
            let (root, path) = match build_mut_path(object, span, env, runtime, m, host, k) {
                Ok(p) => p,
                Err(other) => {
                    return Err(other);
                },
            };
            let v = match eval_expr(index, env, runtime, m, host, k) {
                Ok(Signal::Value(v)) => v,
                other => {
                    return Err(other);
                },
            };
            match path_position(&v) {
                Some(i) => {
                    let mut path = path;
                    push_step(&mut path, PathSegment::ArrayIndex(i));
                    Ok((root, path))
                },
                None => Err(
                    Err(
                        panicked(
                            RuntimeErrorCode::R0004,
                            "&var: array index must be a non-negative integer".to_owned(),
                            span,
                        ),
                    ),
                ),
            }
        },
        TypedExpr::UnaryOp(UnaryOp::Deref, object, _, _) => build_mut_path(
            object,
            span,
            env,
            runtime,
            m,
            host,
            k,
        ),
        _ => Err(Err(internal("build_mut_path: not a lvalue path"))),
    }
}

/// The cell that a place names directly.
fn place_cell(
    binding: Option<BindingId>,
    env: &Environment,
    runtime: &RuntimeRegistry,
) -> (r: Option<
    CellId,
>)
    ensures
        r == (match binding {
            Some(BindingId::Global(sym)) => runtime@.globals.get(sym),
            Some(BindingId::Local(id)) => crate::assoc::entry(env@.frame, id),
            None => None,
        }),
{
    match binding {
        Some(BindingId::Global(sym)) => runtime.global_slot(sym),
        Some(BindingId::Local(id)) => env.get_local_rc(id),
        None => None,
    }
}

fn no_such_place(name: &String, span: &Span) -> (e: Stop)
    ensures
        e.deep_view() == crate::semantics::place_not_found(name@, span.deep_view()),
{
    panicked(
        RuntimeErrorCode::R0003,
        wrapped_text("assign: `", name.as_str(), "` not found"),
        span,
    )
}

fn root_further(p: Result<(CellId, Vec<PathSegment>), Stop>, seg: PathSegment) -> (r: Result<
    (CellId, Vec<PathSegment>),
    Stop,
>)
    ensures
        root_model(r) == (match root_model(p) {
            Ok((root, path)) => Ok((root, path.push(seg.deep_view()))),
            Err(e) => Err(e),
        }),
{
    match p {
        Ok((root, path)) => {
            let mut path = path;
            push_step(&mut path, seg);
            Ok((root, path))
        },
        Err(e) => Err(e),
    }
}

/// The cell that is the root of a place, and the path from there.
pub(crate) fn resolve_place_assign_root<H: Host>(
    p: &TypedPlace,
    span: &Span,
    env: &mut Environment,
    runtime: &RuntimeRegistry,
    m: &mut Machine,
    host: &mut H,
    fuel: u64,
) -> (r: Result<(CellId, Vec<PathSegment>), Stop>)
    requires
        old(env)@.scopes.len() > 0,
    ensures
        final(env)@.scopes.len() >= old(env)@.scopes.len(),
        crate::machine::begins(old(m).log@, final(m).log@),
        crate::machine::exchanged(
            old(m).log@,
            final(m).log@,
            old(host).history(),
            final(host).history(),
        ),
        forall|tape: Seq<Event>|
            crate::machine::begins(final(m).log@, tape) ==> crate::semantics::place_root(
                *p,
                span.deep_view(),
                old(env)@,
                runtime@,
                #[trigger] old(m).on(tape),
                fuel as nat,
            ) == (root_model(r), final(env)@, final(m).on(tape)),
    decreases fuel, 2int, 0int,
{
    if fuel == 0 {
        return Err(Stop::Endless);
    }
    let k: u64 = fuel - 1;
    match p {
        TypedPlace::Ident(name, binding, ident_span) => match place_cell(*binding, env, runtime) {
            None => Err(no_such_place(name, ident_span)),
            Some(c) => match m.store.cell(c) {
                Value::MutReference(inner) => Ok((inner, no_steps())),
                _ => Ok((c, no_steps())),
            },
        },
        TypedPlace::Deref { object, span: tspan } => {
            match eval_expr(object, env, runtime, m, host, k) {
                Err(e) => Err(e),
                Ok(Signal::Value(v)) => match v {
                    Value::MutReference(c) => Ok((c, no_steps())),
                    _ => Err(
                        panicked(
                            RuntimeErrorCode::R0003,
                            "assign: not a &var reference".to_owned(),
                            tspan,
                        ),
                    ),
                },
                Ok(_) => Err(Stop::Undefined),
            }
        },
        TypedPlace::Field { object, field, span: _ } => {
            let p = resolve_place_assign_root(object, span, env, runtime, m, host, k);
            root_further(p, PathSegment::Field(field.clone()))
        },
        TypedPlace::Tuple { object, index, span: _ } => {
            let p = resolve_place_assign_root(object, span, env, runtime, m, host, k);
            root_further(p, PathSegment::TupleIndex(*index))
        },
        TypedPlace::Index { object: _, index: _, span: _ } => Err(
            panicked(
                RuntimeErrorCode::R0003,
                "assign: unsupported receiver form".to_owned(),
                span,
            ),
        ),
    }
}

fn field_of_place(v: &Value, f: &String, span: &Span) -> (r: Result<Value, Stop>)
    ensures
        crate::reach::reach_model(r) == crate::semantics::place_field(v@, f@, span.deep_view()),
{
    match v.fields() {
        None => Err(
            Stop::Error(
                MetelError::internal(
                    wrapped_text(
                        "field `",
                        f.as_str(),
                        "`: receiver is not a record/struct/enum",
                    ),
                ),
            ),
        ),
        Some(_) => match v.field(f.as_str()) {
            Some(x) => Ok(x.dup()),
            None => Err(
                panicked(
                    RuntimeErrorCode::R0008,
                    wrapped_text("field access: no field `", f.as_str(), "`"),
                    span,
                ),
            ),
        },
    }
}

fn element_of_place(v: &Value, i: usize, span: &Span) -> (r: Result<Value, Stop>)
    ensures
        crate::reach::reach_model(r) == crate::semantics::place_element(v@, i, span.deep_view()),
{
    match v {
        Value::Tuple(_) => take_tuple_part(v, i, span),
        _ => Err(
            Stop::Error(
                MetelError::internal(
                    wrapped_text(
                        "tuple `",
                        decimal_string(i as u128).as_str(),
                        "`: receiver is not a tuple",
                    ),
                ),
            ),
        ),
    }
}

fn item_of_place(store: &Store, v: &Value, idx: &Value, span: &Span) -> (r: Result<Value, Stop>)
    ensures
        crate::reach::reach_model(r) == crate::semantics::place_item(
            store@,
            v@,
            idx@,
            span.deep_view(),
        ),
{
    match idx {
        Value::U64(k) => {
            if *k > i64::MAX as u64 {
                return Err(
                    panicked(
                        RuntimeErrorCode::R0004,
                        wrapped_text(
                            "index ",
                            decimal_string(*k as u128).as_str(),
                            " out of bounds",
                        ),
                        span,
                    ),
                );
            }
            match v {
                Value::Array(a) => {
                    let n: usize = store.array_len(*a);
                    if *k < n as u64 {
                        Ok(store.element(*a, *k as usize))
                    } else {
                        Err(bounds_error(*k, n, span))
                    }
                },
                _ => Err(internal("index: receiver is not an Array")),
            }
        },
        _ => Err(internal("index: expected u64 index (typechecker should have caught this)")),
    }
}

/// What a place holds.
pub(crate) fn eval_typed_place_value<H: Host>(
    p: &TypedPlace,
    env: &mut Environment,
    runtime: &RuntimeRegistry,
    m: &mut Machine,
    host: &mut H,
    fuel: u64,
) -> (r: Result<Value, Stop>)
    requires
        old(env)@.scopes.len() > 0,
    ensures
        final(env)@.scopes.len() >= old(env)@.scopes.len(),
        crate::machine::begins(old(m).log@, final(m).log@),
        crate::machine::exchanged(
            old(m).log@,
            final(m).log@,
            old(host).history(),
            final(host).history(),
        ),
        forall|tape: Seq<Event>|
            crate::machine::begins(final(m).log@, tape) ==> crate::semantics::place_run(
                *p,
                old(env)@,
                runtime@,
                #[trigger] old(m).on(tape),
                fuel as nat,
            ) == (crate::reach::reach_model(r), final(env)@, final(m).on(tape)),
    decreases fuel, 2int, 0int,
{
    if fuel == 0 {
        return Err(Stop::Endless);
    }
    let k: u64 = fuel - 1;
    match p {
        TypedPlace::Ident(name, binding, ident_span) => match place_cell(*binding, env, runtime) {
            None => Err(no_such_place(name, ident_span)),
            Some(c) => Ok(m.store.cell(c)),
        },
        TypedPlace::Deref { object, span } => match eval_expr(object, env, runtime, m, host, k) {
            Err(e) => Err(e),
            Ok(Signal::Value(v)) => match v {
                Value::Reference(c) => Ok(m.store.cell(c)),
                Value::MutReference(c) => Ok(m.store.cell(c)),
                _ => Err(
                    panicked(
                        RuntimeErrorCode::R0003,
                        "assign: not a pointer".to_owned(),
                        span,
                    ),
                ),
            },
            Ok(_) => Err(Stop::Undefined),
        },
        TypedPlace::Field { object, field, span } => {
            match eval_typed_place_value(object, env, runtime, m, host, k) {
                Err(e) => Err(e),
                Ok(x) => field_of_place(&x, field, span),
            }
        },
        TypedPlace::Tuple { object, index, span } => {
            match eval_typed_place_value(object, env, runtime, m, host, k) {
                Err(e) => Err(e),
                Ok(x) => element_of_place(&x, *index, span),
            }
        },
        TypedPlace::Index { object, index, span } => {
            let x = match eval_typed_place_value(object, env, runtime, m, host, k) {
                Ok(x) => x,
                Err(e) => {
                    return Err(e);
                },
            };
            match eval_expr(index, env, runtime, m, host, k) {
                Err(e) => Err(e),
                Ok(Signal::Value(idx)) => item_of_place(&m.store, &x, &idx, span),
                Ok(_) => Err(Stop::Undefined),
            }
        },
    }
}

/// The new value that an assignment gives.
fn assigned_value<H: Host>(
    op: AssignOp,
    cur: Value,
    rhs: Value,
    span: &Span,
    m: &mut Machine,
    host: &mut H,
) -> (r: Result<Value, Stop>)
    ensures
        crate::machine::begins(old(m).log@, final(m).log@),
        crate::machine::exchanged(
            old(m).log@,
            final(m).log@,
            old(host).history(),
            final(host).history(),
        ),
        final(m).store == old(m).store,
        forall|tape: Seq<Event>|
            crate::machine::begins(final(m).log@, tape) ==> crate::semantics::new_value(
                op,
                cur@,
                rhs@,
                span.deep_view(),
                #[trigger] old(m).on(tape),
            ) == (crate::reach::reach_model(r), final(m).on(tape)),
{
    match assign_binop(op) {
        None => Ok(rhs),
        Some(b) => compute(b, cur, rhs, span, m, host),
    }
}

/// Assigns to a variable.
fn assign_variable<H: Host>(
    name: &String,
    binding: Option<BindingId>,
    ident_span: &Span,
    op: AssignOp,
    rhs: Value,
    span: &Span,
    env: &Environment,
    runtime: &RuntimeRegistry,
    m: &mut Machine,
    host: &mut H,
) -> (r: Result<Signal, Stop>)
    ensures
        crate::machine::begins(old(m).log@, final(m).log@),
        crate::machine::exchanged(
            old(m).log@,
            final(m).log@,
            old(host).history(),
            final(host).history(),
        ),
        forall|tape: Seq<Event>|
            crate::machine::begins(final(m).log@, tape) ==> crate::semantics::variable_assigned(
                name@,
                binding,
                ident_span.deep_view(),
                op,
                rhs@,
                span.deep_view(),
                env@,
                runtime@,
                #[trigger] old(m).on(tape),
            ) == crate::evaluator::out_model(r, env@, final(m).on(tape)),
{
    let global = match binding {
        Some(BindingId::Global(sym)) => runtime.global_slot(sym),
        _ => None,
    };
    let cell = match global {
        Some(c) => Some(c),
        None => env.get_rc(name.as_str()),
    };
    let c = match cell {
        Some(c) => c,
        None => {
            return Err(
                panicked(
                    RuntimeErrorCode::R0003,
                    wrapped_text("assign: undefined `", name.as_str(), "`"),
                    ident_span,
                ),
            );
        },
    };
    let cur = m.store.cell(c);
    let x = match assigned_value(op, cur, rhs, span, m, host) {
        Ok(x) => x,
        Err(e) => {
            return Err(e);
        },
    };
    let ghost before = *m;
    let copy = deep_clone_value(&mut m.store, &x);
    let r = match copy {
        None => Err(Stop::Endless),
        Some(y) => {
            m.store.set_cell(c, y);
            Ok(Signal::Value(Value::Unit))
        },
    };
    proof {
        crate::machine::lemma_stored(before, *m);
    }
    r
}

/// Assigns to a part of what is in a cell.
fn assign_part<H: Host>(
    c: CellId,
    path: &Vec<PathSegment>,
    tspan: &Span,
    op: AssignOp,
    rhs: Value,
    span: &Span,
    env: &Environment,
    m: &mut Machine,
    host: &mut H,
    limit: u64,
) -> (r: Result<Signal, Stop>)
    ensures
        crate::machine::begins(old(m).log@, final(m).log@),
        crate::machine::exchanged(
            old(m).log@,
            final(m).log@,
            old(host).history(),
            final(host).history(),
        ),
        forall|tape: Seq<Event>|
            crate::machine::begins(final(m).log@, tape) ==> crate::semantics::part_assigned(
                c,
                path.deep_view(),
                tspan.deep_view(),
                op,
                rhs@,
                span.deep_view(),
                env@,
                #[trigger] old(m).on(tape),
                limit as nat,
            ) == crate::evaluator::out_model(r, env@, final(m).on(tape)),
{
    let read = match op {
        AssignOp::Assign => Ok(rhs.dup()),
        _ => read_path(&m.store, &m.store.cell(c), path, tspan, limit),
    };
    let cur = match read {
        Ok(x) => x,
        Err(e) => {
            return Err(e);
        },
    };
    let x = match assigned_value(op, cur, rhs, span, m, host) {
        Ok(x) => x,
        Err(e) => {
            return Err(e);
        },
    };
    let ghost before = *m;
    let written = write_path(&mut m.store, c, path, x, tspan, limit);
    proof {
        crate::machine::lemma_stored(before, *m);
    }
    match written {
        Ok(_) => Ok(Signal::Value(Value::Unit)),
        Err(e) => Err(e),
    }
}

/// Assigns to a cell.
fn assign_cell<H: Host>(
    c: CellId,
    op: AssignOp,
    rhs: Value,
    span: &Span,
    env: &Environment,
    m: &mut Machine,
    host: &mut H,
) -> (r: Result<Signal, Stop>)
    ensures
        crate::machine::begins(old(m).log@, final(m).log@),
        crate::machine::exchanged(
            old(m).log@,
            final(m).log@,
            old(host).history(),
            final(host).history(),
        ),
        forall|tape: Seq<Event>|
            crate::machine::begins(final(m).log@, tape) ==> crate::semantics::cell_assigned(
                c,
                op,
                rhs@,
                span.deep_view(),
                env@,
                #[trigger] old(m).on(tape),
            ) == crate::evaluator::out_model(r, env@, final(m).on(tape)),
{
    let cur = m.store.cell(c);
    let x = match assigned_value(op, cur, rhs, span, m, host) {
        Ok(x) => x,
        Err(e) => {
            return Err(e);
        },
    };
    let ghost before = *m;
    m.store.set_cell(c, x);
    proof {
        crate::machine::lemma_stored(before, *m);
    }
    Ok(Signal::Value(Value::Unit))
}

/// Assigns to what a reference leads to.
fn assign_referent<H: Host>(
    p: Value,
    tspan: &Span,
    op: AssignOp,
    rhs: Value,
    span: &Span,
    env: &Environment,
    m: &mut Machine,
    host: &mut H,
    limit: u64,
) -> (r: Result<Signal, Stop>)
    ensures
        crate::machine::begins(old(m).log@, final(m).log@),
        crate::machine::exchanged(
            old(m).log@,
            final(m).log@,
            old(host).history(),
            final(host).history(),
        ),
        forall|tape: Seq<Event>|
            crate::machine::begins(final(m).log@, tape) ==> crate::semantics::referent_assigned(
                p@,
                tspan.deep_view(),
                op,
                rhs@,
                span.deep_view(),
                env@,
                #[trigger] old(m).on(tape),
                limit as nat,
            ) == crate::evaluator::out_model(r, env@, final(m).on(tape)),
{
    match p {
        Value::Reference(c) => assign_cell(c, op, rhs, span, env, m, host),
        Value::MutReference(c) => assign_cell(c, op, rhs, span, env, m, host),
        Value::MutFieldReference { root, path } => assign_part(
            root,
            &path,
            tspan,
            op,
            rhs,
            span,
            env,
            m,
            host,
            limit,
        ),
        _ => Err(
            panicked(
                RuntimeErrorCode::R0003,
                "assign: dereference target is not a pointer".to_owned(),
                tspan,
            ),
        ),
    }
}

/// Assigns to an element of an array.
fn assign_element<H: Host>(
    v: &Value,
    idx: &Value,
    op: AssignOp,
    rhs: Value,
    span: &Span,
    env: &Environment,
    m: &mut Machine,
    host: &mut H,
) -> (r: Result<Signal, Stop>)
    ensures
        crate::machine::begins(old(m).log@, final(m).log@),
        crate::machine::exchanged(
            old(m).log@,
            final(m).log@,
            old(host).history(),
            final(host).history(),
        ),
        forall|tape: Seq<Event>|
            crate::machine::begins(final(m).log@, tape) ==> crate::semantics::element_assigned(
                v@,
                idx@,
                op,
                rhs@,
                span.deep_view(),
                env@,
                #[trigger] old(m).on(tape),
            ) == crate::evaluator::out_model(r, env@, final(m).on(tape)),
{
    let i: usize = match position_of(idx) {
        Some(i) => i,
        None => {
            return Err(
                internal("index: expected u64 index (typechecker should have caught this)"),
            );
        },
    };
    let a = match v {
        Value::Array(a) => *a,
        _ => {
            return Err(
                internal(
                    "index assign: receiver is not an Array (typechecker should have caught this)",
                ),
            );
        },
    };
    let n: usize = m.store.array_len(a);
    if i >= n {
        return Err(bounds_error(i as u64, n, span));
    }
    let cur = m.store.element(a, i);
    let x = match assigned_value(op, cur, rhs, span, m, host) {
        Ok(x) => x,
        Err(e) => {
            return Err(e);
        },
    };
    let ghost before = *m;
    m.store.set_element(a, i, x);
    proof {
        crate::machine::lemma_stored(before, *m);
    }
    Ok(Signal::Value(Value::Unit))
}

/// Assigns to a part of what a place holds.
pub(crate) fn assign_rooted<H: Host>(
    target: &TypedPlace,
    tspan: &Span,
    op: AssignOp,
    rhs: Value,
    span: &Span,
    env: &mut Environment,
    runtime: &RuntimeRegistry,
    m: &mut Machine,
    host: &mut H,
    fuel: u64,
) -> (r: Result<Signal, Stop>)
    requires
        old(env)@.scopes.len() > 0,
    ensures
        final(env)@.scopes.len() >= old(env)@.scopes.len(),
        crate::machine::begins(old(m).log@, final(m).log@),
        crate::machine::exchanged(
            old(m).log@,
            final(m).log@,
            old(host).history(),
            final(host).history(),
        ),
        forall|tape: Seq<Event>|
            crate::machine::begins(final(m).log@, tape) ==> crate::semantics::rooted_assigned(
                *target,
                tspan.deep_view(),
                op,
                rhs@,
                span.deep_view(),
                old(env)@,
                runtime@,
                #[trigger] old(m).on(tape),
                fuel as nat,
            ) == crate::evaluator::out_model(r, final(env)@, final(m).on(tape)),
    decreases fuel, 10int, 0int,
{
    match resolve_place_assign_root(target, tspan, env, runtime, m, host, fuel) {
        Err(e) => Err(e),
        Ok((c, path)) => assign_part(c, &path, tspan, op, rhs, span, env, m, host, fuel),
    }
}

/// Assigns a value that has been computed.
pub(crate) fn assign_target<H: Host>(
    target: &TypedPlace,
    op: AssignOp,
    rhs: Value,
    span: &Span,
    env: &mut Environment,
    runtime: &RuntimeRegistry,
    m: &mut Machine,
    host: &mut H,
    fuel: u64,
) -> (r: Result<Signal, Stop>)
    requires
        old(env)@.scopes.len() > 0,
    ensures
        final(env)@.scopes.len() >= old(env)@.scopes.len(),
        crate::machine::begins(old(m).log@, final(m).log@),
        crate::machine::exchanged(
            old(m).log@,
            final(m).log@,
            old(host).history(),
            final(host).history(),
        ),
        forall|tape: Seq<Event>|
            crate::machine::begins(final(m).log@, tape) ==> crate::semantics::target_assigned(
                *target,
                op,
                rhs@,
                span.deep_view(),
                old(env)@,
                runtime@,
                #[trigger] old(m).on(tape),
                fuel as nat,
            ) == crate::evaluator::out_model(r, final(env)@, final(m).on(tape)),
    decreases fuel, 11int, 0int,
{
    match target {
        TypedPlace::Ident(name, binding, ident_span) => assign_variable(
            name,
            *binding,
            ident_span,
            op,
            rhs,
            span,
            env,
            runtime,
            m,
            host,
        ),
        TypedPlace::Deref { object, span: tspan } => {
            let p = match eval_expr(object, env, runtime, m, host, fuel) {
                Ok(Signal::Value(p)) => p,
                other => {
                    return other;
                },
            };
            assign_referent(p, tspan, op, rhs, span, env, m, host, fuel)
        },
        TypedPlace::Index { object, index, span: tspan } => {
            let raw = match eval_typed_place_value(object, env, runtime, m, host, fuel) {
                Ok(raw) => raw,
                Err(e) => {
                    return Err(e);
                },
            };
            let arr = match peel(&m.store, &raw, tspan, fuel) {
                Ok(arr) => arr,
                Err(e) => {
                    return Err(e);
                },
            };
            let idx = match eval_expr(index, env, runtime, m, host, fuel) {
                Ok(Signal::Value(idx)) => idx,
                other => {
                    return other;
                },
            };
            assign_element(&arr, &idx, op, rhs, span, env, m, host)
        },
        TypedPlace::Field { object: _, field: _, span: tspan } => assign_rooted(
            target,
            tspan,
            op,
            rhs,
            span,
            env,
            runtime,
            m,
            host,
            fuel,
        ),
        TypedPlace::Tuple { object: _, index: _, span: tspan } => assign_rooted(
            target,
            tspan,
            op,
            rhs,
            span,
            env,
            runtime,
            m,
            host,
            fuel,
        ),
    }
}

/// Evaluates an assignment.
pub(crate) fn eval_assign_expr<H: Host>(
    target: &TypedPlace,
    op: AssignOp,
    value: &TypedExpr,
    span: &Span,
    env: &mut Environment,
    runtime: &RuntimeRegistry,
    m: &mut Machine,
    host: &mut H,
    fuel: u64,
) -> (r: Result<Signal, Stop>)
    requires
        old(env)@.scopes.len() > 0,
    ensures
        final(env)@.scopes.len() >= old(env)@.scopes.len(),
        crate::machine::begins(old(m).log@, final(m).log@),
        crate::machine::exchanged(
            old(m).log@,
            final(m).log@,
            old(host).history(),
            final(host).history(),
        ),
        forall|tape: Seq<Event>|
            crate::machine::begins(final(m).log@, tape) ==> crate::semantics::assign_run(
                *target,
                op,
                *value,
                span.deep_view(),
                old(env)@,
                runtime@,
                #[trigger] old(m).on(tape),
                fuel as nat,
            ) == crate::evaluator::out_model(r, final(env)@, final(m).on(tape)),
    decreases fuel, 12int, 0int,
{
    let rhs = match eval_expr(value, env, runtime, m, host, fuel) {
        Ok(Signal::Value(v)) => v,
        other => {
            return other;
        },
    };
    assign_target(target, op, rhs, span, env, runtime, m, host, fuel)
}

} // verus!
