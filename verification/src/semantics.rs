//! What programs mean: the value that an expression has, the jump that it makes
//! or the error that it ends with, and what it leaves behind.
//!
//! The numbers say how deep things may nest and how often loops may go round. No
//! program that comes to an end depends on them, once they are large enough.

use crate::ast::{ReceiverKind, SpanModel};
use crate::environment::StopModel;
use crate::error::{ErrorModel, RuntimeErrorCode};
use crate::host::{GenericCallModel, ReplyModel, TaskModel};
use crate::machine::World;
use crate::native_keys::NativeFn;
use crate::operators::ComputedModel;
use crate::runtime::{RuntimeModel, WantedModel};
use crate::runtime_types::MethodModel;
use crate::store::{ClosureCode, ClosureModel, EnvModel, StoreModel};
use crate::symbols::{SymbolId, OVERLOAD_SYM_START};
use crate::term::Term;
use crate::type_expr::TypeExpr;
use crate::typed_ast::{
    AssignOp, BinOp, BindingId, ClosureBody, FunBody, GenericBody, MethodDispatch, Param,
    TypedBinding, TypedBlock, TypedClosure, TypedDecl, TypedExpr, TypedFor, TypedForIn,
    TypedForInit, TypedFunDecl, TypedMatch, TypedMatchArm, TypedPlace, TypedStmt, TypedWhile,
    UnaryOp,
};
use crate::values::{
    CallableModel, CellId, FloatKind, IntKind, LocalId, SegmentModel, ValueHead, ValueTerm,
};
use std::rc::Rc;
use vstd::prelude::*;

verus! {

/// What an expression comes to: a value, or a jump.
pub enum SignalModel {
    Value(ValueTerm),
    Return(ValueTerm),
    Break(ValueTerm),
    Continue,
}

/// What running a part of a program comes to, and what it leaves behind.
pub struct Out {
    pub r: Result<SignalModel, StopModel>,
    pub env: EnvModel,
    pub w: World,
}

pub open spec fn val(v: ValueTerm, env: EnvModel, w: World) -> Out {
    Out { r: Ok(SignalModel::Value(v)), env, w }
}

pub open spec fn unit(env: EnvModel, w: World) -> Out {
    val(crate::values::unit_term(), env, w)
}

pub open spec fn stop(e: StopModel, env: EnvModel, w: World) -> Out {
    Out { r: Err(e), env, w }
}

/// A failure that the type checker should have prevented.
pub open spec fn internal(message: Seq<char>) -> StopModel {
    StopModel::Error(ErrorModel::Internal(message))
}

/// A failure of the program.
pub open spec fn panicked(
    code: RuntimeErrorCode,
    message: Seq<char>,
    span: SpanModel,
) -> StopModel {
    StopModel::Error(ErrorModel::Runtime(code, message, span, Seq::empty()))
}

/// A result or a stop as what running comes to.
pub open spec fn out_of(r: Result<ValueTerm, StopModel>, env: EnvModel, w: World) -> Out {
    match r {
        Ok(v) => val(v, env, w),
        Err(e) => stop(e, env, w),
    }
}

/// What is in the cell of a variable.
pub open spec fn held(s: StoreModel, c: Option<CellId>) -> Option<ValueTerm> {
    match c {
        Some(c) => Some(crate::store::cell_at(s, c)),
        None => None,
    }
}

/// What a name means: a variable, or else a name that is known everywhere.
pub open spec fn named(name: Seq<char>, env: EnvModel, rt: RuntimeModel, s: StoreModel) -> Option<
    ValueTerm,
> {
    match crate::copying::name_cell(env.scopes, name) {
        Some(c) => Some(crate::store::cell_at(s, c)),
        None => crate::runtime::core_value(rt, name),
    }
}

/// What an identifier means: what it is bound to where that is known, or else
/// what its name means.
pub open spec fn identified(
    name: Seq<char>,
    binding: Option<BindingId>,
    env: EnvModel,
    rt: RuntimeModel,
    s: StoreModel,
) -> Option<ValueTerm> {
    let bound = match binding {
        Some(BindingId::Local(id)) => held(s, crate::assoc::entry(env.frame, id)),
        Some(BindingId::Global(sym)) => match rt.globals.get(sym) {
            Some(c) => Some(crate::store::cell_at(s, c)),
            None => rt.symbol_values.get(sym),
        },
        None => None,
    };
    if bound is Some {
        bound
    } else {
        named(name, env, rt, s)
    }
}

/// The cell of an identifier.
pub open spec fn identified_cell(
    name: Seq<char>,
    binding: Option<BindingId>,
    env: EnvModel,
    rt: RuntimeModel,
) -> Option<CellId> {
    let bound = match binding {
        Some(BindingId::Local(id)) => crate::assoc::entry(env.frame, id),
        Some(BindingId::Global(sym)) => rt.globals.get(sym),
        None => None,
    };
    if bound is Some {
        bound
    } else {
        crate::copying::name_cell(env.scopes, name)
    }
}

pub open spec fn or_undefined(
    v: Option<ValueTerm>,
    name: Seq<char>,
    span: SpanModel,
    env: EnvModel,
    w: World,
) -> Out {
    match v {
        Some(v) => val(v, env, w),
        None => stop(
            StopModel::Error(crate::environment::undefined_variable(name, span)),
            env,
            w,
        ),
    }
}

/// What a path comes to. A path that stands for nothing else is a variant
/// without fields.
pub open spec fn path_out(
    path: Seq<Seq<char>>,
    span: SpanModel,
    env: EnvModel,
    rt: RuntimeModel,
    w: World,
) -> Out {
    if path.len() == 1 {
        or_undefined(named(path[0], env, rt, w.store), path[0], span, env, w)
    } else {
        let registered = crate::runtime::path_value(rt, path);
        let found = if registered is Some {
            registered
        } else {
            held(
                w.store,
                crate::copying::name_cell(env.scopes, crate::text::joined(path, "::"@)),
            )
        };
        match found {
            Some(v) => val(v, env, w),
            None => if path.len() == 0 {
                stop(StopModel::Undefined, env, w)
            } else {
                val(
                    crate::values::plain(
                        ValueHead::Enum(
                            path[path.len() - 2],
                            None,
                            path.last(),
                            None,
                            Seq::empty(),
                        ),
                    ),
                    env,
                    w,
                )
            },
        }
    }
}

/// Fields after the first `k` names have been given values, where a later one
/// replaces an earlier one of the same name.
pub open spec fn fields_from(names: Seq<Seq<char>>, vs: Seq<ValueTerm>, k: int) -> Seq<
    (Seq<char>, ValueTerm),
>
    decreases k,
{
    if k <= 0 {
        Seq::empty()
    } else {
        crate::assoc::put(fields_from(names, vs, k - 1), names[k - 1], vs[k - 1])
    }
}

pub open spec fn names_of(fields: Seq<(Seq<char>, ValueTerm)>) -> Seq<Seq<char>> {
    Seq::new(fields.len(), |i: int| fields[i].0)
}

pub open spec fn values_of(fields: Seq<(Seq<char>, ValueTerm)>) -> Seq<ValueTerm> {
    Seq::new(fields.len(), |i: int| fields[i].1)
}

/// A record with fields.
pub open spec fn record_term(fields: Seq<(Seq<char>, ValueTerm)>) -> ValueTerm {
    ValueTerm { head: ValueHead::Record(names_of(fields)), args: values_of(fields) }
}

/// The value of a struct literal: a variant where the path has two segments.
pub open spec fn struct_out(
    path: Seq<Seq<char>>,
    type_id: Option<SymbolId>,
    variant_id: Option<crate::symbols::VariantId>,
    fields: Seq<(Seq<char>, ValueTerm)>,
    env: EnvModel,
    w: World,
) -> Out {
    if path.len() == 2 {
        val(
            ValueTerm {
                head: ValueHead::Enum(path[0], type_id, path[1], variant_id, names_of(fields)),
                args: values_of(fields),
            },
            env,
            w,
        )
    } else if path.len() == 0 {
        stop(internal("struct literal: empty path"@), env, w)
    } else {
        val(
            ValueTerm {
                head: ValueHead::Struct(path.last(), type_id, names_of(fields)),
                args: values_of(fields),
            },
            env,
            w,
        )
    }
}

/// The number that an answer to floating-point arithmetic gives.
pub open spec fn float_answered(kind: FloatKind, reply: Option<ReplyModel>) -> Result<
    ValueTerm,
    StopModel,
> {
    match reply {
        Some(ReplyModel::Bits(bits)) => Ok(
            crate::literals::float_term(kind, bits, bits as u32),
        ),
        _ => Err(crate::natives::unexpected_reply()),
    }
}

/// What an operator gives, with the host's help for floating-point arithmetic.
pub open spec fn computed(op: BinOp, a: ValueTerm, b: ValueTerm, span: SpanModel, w: World) -> (
    Result<ValueTerm, StopModel>,
    World,
) {
    if !crate::operators::computable(op, a, b) {
        (Err(StopModel::Undefined), w)
    } else {
        match crate::operators::binop_result(op, a, b, span) {
            Err(e) => (Err(StopModel::Error(e)), w),
            Ok(ComputedModel::Value(v)) => (Ok(v), w),
            Ok(ComputedModel::Float(t)) => {
                let (v, reply) = crate::machine::asked(w, TaskModel::FloatOp(t));
                (float_answered(t.kind, reply), v)
            },
        }
    }
}

/// The new value that an assignment gives.
pub open spec fn new_value(
    op: AssignOp,
    cur: ValueTerm,
    rhs: ValueTerm,
    span: SpanModel,
    w: World,
) -> (Result<ValueTerm, StopModel>, World) {
    match crate::operators::assigned_op(op) {
        None => (Ok(rhs), w),
        Some(b) => computed(b, cur, rhs, span, w),
    }
}

/// A reference taken to what another reference leads to.
pub open spec fn reborrowed(
    mutable: bool,
    v: ValueTerm,
    span: SpanModel,
    env: EnvModel,
    w: World,
) -> Out {
    if mutable {
        match v.head {
            ValueHead::MutReference(c) => val(v, env, w),
            ValueHead::MutFieldReference(c, path) => val(v, env, w),
            _ => stop(
                panicked(
                    RuntimeErrorCode::R0003,
                    "cannot take `&var` through a shared reference: "@
                        + crate::inspect::inspected(v),
                    span,
                ),
                env,
                w,
            ),
        }
    } else {
        match v.head {
            ValueHead::Reference(c) => val(v, env, w),
            ValueHead::MutReference(c) => val(
                crate::values::plain(ValueHead::Reference(c)),
                env,
                w,
            ),
            ValueHead::FieldReference(c, path) => val(v, env, w),
            ValueHead::MutFieldReference(c, path) => val(
                crate::values::plain(ValueHead::FieldReference(c, path)),
                env,
                w,
            ),
            _ => {
                let (t, c) = crate::store::cell_made(w.store, v);
                val(
                    crate::values::plain(ValueHead::Reference(c)),
                    env,
                    crate::machine::stored(w, t),
                )
            },
        }
    }
}

/// A reference to a cell.
pub open spec fn reference_term(mutable: bool, c: CellId) -> ValueTerm {
    crate::values::plain(
        if mutable {
            ValueHead::MutReference(c)
        } else {
            ValueHead::Reference(c)
        },
    )
}

/// What a unary operator other than the taking of a reference gives.
pub open spec fn unary_result(
    op: UnaryOp,
    v: ValueTerm,
    span: SpanModel,
    s: StoreModel,
    n: nat,
) -> Result<
    ValueTerm,
    StopModel,
> {
    match op {
        UnaryOp::Neg => match v.head {
            ValueHead::Int(kind, k) => if crate::operators::unsigned(kind) {
                Err(
                    internal(
                        "unary `-`: expected numeric type (typechecker should have caught this)"@,
                    ),
                )
            } else {
                Ok(crate::values::int_term(kind, crate::literals::wrapped(kind, -k)))
            },
            ValueHead::Float(kind, bits) => Ok(
                crate::values::plain(
                    ValueHead::Float(kind, crate::operators::float_negated(kind, bits)),
                ),
            ),
            _ => Err(
                internal(
                    "unary `-`: expected numeric type (typechecker should have caught this)"@,
                ),
            ),
        },
        UnaryOp::Not => match v.head {
            ValueHead::Boolean(b) => Ok(crate::values::bool_term(!b)),
            _ => Err(
                internal("unary `!`: expected boolean (typechecker should have caught this)"@),
            ),
        },
        _ => match v.head {
            ValueHead::Reference(c) => Ok(crate::store::cell_at(s, c)),
            ValueHead::MutReference(c) => Ok(crate::store::cell_at(s, c)),
            ValueHead::FieldReference(c, path) => crate::reach::path_read(
                s,
                crate::store::cell_at(s, c),
                path,
                span,
                n,
            ),
            ValueHead::MutFieldReference(c, path) => crate::reach::path_read(
                s,
                crate::store::cell_at(s, c),
                path,
                span,
                n,
            ),
            _ => Err(
                internal("unary `*`: expected pointer (typechecker should have caught this)"@),
            ),
        },
    }
}

/// Whether an expression names a place: a variable, or a part of what a place
/// holds or leads to.
pub open spec fn names_place(e: TypedExpr) -> bool
    decreases e,
{
    match e {
        TypedExpr::Ident(_, _, _, _) => true,
        TypedExpr::FieldAccess { object, field, ty, span } => names_place(*object),
        TypedExpr::TupleAccess { object, index, ty, span } => names_place(*object),
        TypedExpr::Index { object, index, ty, span } => names_place(*object),
        TypedExpr::UnaryOp(UnaryOp::Deref, object, _, _) => names_place(*object),
        _ => false,
    }
}

/// The element of a tuple.
pub open spec fn tuple_part(
    v: ValueTerm,
    i: usize,
    span: SpanModel,
) -> Result<ValueTerm, StopModel> {
    if v.head is Tuple {
        if i < v.args.len() {
            Ok(v.args[i as int])
        } else {
            Err(
                panicked(
                    RuntimeErrorCode::R0005,
                    "tuple index "@ + crate::text::decimal(i as nat) + " out of bounds"@,
                    span,
                ),
            )
        }
    } else {
        Err(internal("tuple access on non-tuple (typechecker should have caught this)"@))
    }
}

/// What is said of an index that an array does not have.
pub open spec fn out_of_bounds(i: nat, len: nat, span: SpanModel) -> StopModel {
    panicked(
        RuntimeErrorCode::R0004,
        "index "@ + crate::text::decimal(i) + " out of bounds (len "@ + crate::text::decimal(len)
            + ")"@,
        span,
    )
}

/// The position that an index value stands for.
pub open spec fn index_position(v: ValueTerm) -> Option<usize> {
    match v.head {
        ValueHead::Int(IntKind::U64, k) => Some(k as u64 as usize),
        _ => None,
    }
}

/// The element of an array.
pub open spec fn array_part(s: StoreModel, v: ValueTerm, idx: ValueTerm, span: SpanModel) -> Result<
    ValueTerm,
    StopModel,
> {
    match index_position(idx) {
        None => Err(
            internal("index: expected u64 index (typechecker should have caught this)"@),
        ),
        Some(i) => match v.head {
            ValueHead::Array(a) => {
                let items = crate::store::array_at(s, a);
                if i < items.len() {
                    Ok(items[i as int])
                } else {
                    Err(out_of_bounds(i as nat, items.len(), span))
                }
            },
            _ => Err(internal("index: expected Array (typechecker should have caught this)"@)),
        },
    }
}

/// The field of a value.
pub open spec fn field_part(v: ValueTerm, f: Seq<char>, span: SpanModel) -> Result<
    ValueTerm,
    StopModel,
> {
    if crate::values::field_labels(v.head) is None {
        Err(
            internal(
                "field access on non-record/struct/enum (typechecker should have caught this)"@,
            ),
        )
    } else {
        match crate::values::field_of(v, f) {
            Some(x) => Ok(x),
            None => Err(
                panicked(RuntimeErrorCode::R0008, "no field `"@ + f + "` on value"@, span),
            ),
        }
    }
}

/// What the one inhabited variant holds.
pub open spec fn payload(v: ValueTerm, f: Seq<char>) -> Result<ValueTerm, StopModel> {
    if v.head is Enum {
        match crate::values::field_of(v, f) {
            Some(x) => Ok(x),
            None => Err(internal("singleton coercion: missing field `"@ + f + "`"@)),
        }
    } else {
        Err(internal("singleton coercion on non-enum value"@))
    }
}

/// A value seen as an aspect.
pub open spec fn seen_as(
    v: ValueTerm,
    aspect_id: SymbolId,
    aspect: Seq<char>,
    type_args: Seq<Term>,
    env: EnvModel,
    rt: RuntimeModel,
    w: World,
) -> Out {
    match crate::runtime::type_id_of(rt, v) {
        None => stop(
            internal("dyn Aspect coercion: value has no resolvable concrete type"@),
            env,
            w,
        ),
        Some(id) => {
            let (t, c) = crate::store::cell_made(w.store, v);
            val(
                crate::values::plain(ValueHead::Dyn(c, id, aspect_id, aspect, type_args)),
                env,
                crate::machine::stored(w, t),
            )
        },
    }
}

/// A closure value that has been made.
pub open spec fn closure_out(c: TypedClosure, env: EnvModel, w: World) -> Out {
    match crate::environment::closure_captured(
        w.store,
        env,
        c.captures@,
        c.capture_ids@,
        c.span.deep_view(),
    ) {
        Err(e) => stop(e, env, w),
        Ok((s, captured)) => {
            let ctx = if c.body is Untyped {
                env.type_ctx
            } else {
                None
            };
            let (t, id) = crate::store::closure_made(
                s,
                ClosureModel {
                    code: ClosureCode::Closure(Rc::new(c), ctx),
                    captured,
                    in_call: false,
                },
            );
            val(
                crate::values::plain(ValueHead::Callable(CallableModel::Closure(id))),
                env,
                crate::machine::stored(w, t),
            )
        },
    }
}

/// The name of a function or closure.
pub open spec fn code_label(code: ClosureCode) -> Option<Seq<char>> {
    match code {
        ClosureCode::Closure(c, _) => c.name.deep_view(),
        ClosureCode::Fun(f, _) => Some(f.name@),
    }
}

pub open spec fn code_params(code: ClosureCode) -> Seq<Param> {
    match code {
        ClosureCode::Closure(c, _) => c.params@,
        ClosureCode::Fun(f, _) => f.params@,
    }
}

pub open spec fn code_param_ids(code: ClosureCode) -> Seq<Option<LocalId>> {
    match code {
        ClosureCode::Closure(c, _) => c.param_ids@,
        ClosureCode::Fun(f, _) => f.param_ids@,
    }
}

/// The module whose types a generic body is typed with.
pub open spec fn code_ctx(code: ClosureCode) -> Option<usize> {
    match code {
        ClosureCode::Closure(_, ctx) => ctx,
        ClosureCode::Fun(_, ctx) => ctx,
    }
}

/// What is run when code is called.
pub enum BodyModel {
    Typed(TypedBlock),
    Generic(GenericBody),
    Native,
}

pub open spec fn code_body(code: ClosureCode) -> BodyModel {
    match code {
        ClosureCode::Closure(c, _) => match c.body {
            ClosureBody::Typed(b) => BodyModel::Typed(*b),
            ClosureBody::Untyped(g) => BodyModel::Generic(g),
        },
        ClosureCode::Fun(f, _) => match f.body {
            FunBody::Typed(b) => BodyModel::Typed(*b),
            FunBody::Generic(g) => BodyModel::Generic(g),
            FunBody::Native(_) => BodyModel::Native,
        },
    }
}

/// The store and the environment after arguments, from `i` on, have been bound to
/// parameters that stand `shift` places further on, up to the first that contains
/// itself. The first part says whether there is none.
pub open spec fn args_bound(
    s: StoreModel,
    env: EnvModel,
    code: ClosureCode,
    args: Seq<ValueTerm>,
    shift: int,
    i: int,
) -> (bool, StoreModel, EnvModel)
    decreases args.len() - i,
{
    if i < 0 || i >= args.len() {
        (true, s, env)
    } else if 0 <= i + shift < code_params(code).len() {
        match crate::environment::variable_defined(
            s,
            env,
            crate::copying::id_at(code_param_ids(code), i + shift),
            code_params(code)[i + shift].name@,
            args[i],
        ) {
            Some((t, e)) => args_bound(t, e, code, args, shift, i + 1),
            None => (false, s, env),
        }
    } else {
        args_bound(s, env, code, args, shift, i + 1)
    }
}

/// How a receiver is handed over: as a value, or as the cell that holds it.
pub enum ReceiverModel {
    Value(ValueTerm),
    Shared(CellId),
}

/// The value of a receiver.
pub open spec fn receiver_term(s: StoreModel, r: ReceiverModel) -> ValueTerm {
    match r {
        ReceiverModel::Value(v) => v,
        ReceiverModel::Shared(c) => crate::store::cell_at(s, c),
    }
}

/// The store and the environment after a receiver has been bound to the first
/// parameter, unless it contains itself.
pub open spec fn receiver_bound(
    s: StoreModel,
    env: EnvModel,
    code: ClosureCode,
    r: ReceiverModel,
) -> (bool, StoreModel, EnvModel) {
    if code_params(code).len() == 0 {
        (true, s, env)
    } else {
        let id = crate::copying::id_at(code_param_ids(code), 0);
        let name = code_params(code)[0].name@;
        match r {
            ReceiverModel::Value(v) => match crate::environment::variable_defined(
                s,
                env,
                id,
                name,
                v,
            ) {
                Some((t, e)) => (true, t, e),
                None => (false, s, env),
            },
            ReceiverModel::Shared(c) => (
                true,
                s,
                crate::environment::variable_bound(env, id, name, c),
            ),
        }
    }
}

/// What a call comes to, and what it leaves behind.
pub struct CallOut {
    pub r: Result<SignalModel, StopModel>,
    pub w: World,
}

/// What a call of a host function comes to.
pub open spec fn native_called(
    fun: NativeFn,
    args: Seq<ValueTerm>,
    span: SpanModel,
    w: World,
    n: nat,
) -> (Result<ValueTerm, StopModel>, World) {
    match crate::natives::native_started(w.store, fun, args, span, n) {
        crate::natives::NativeModel::Done(Ok((t, v))) => (Ok(v), crate::machine::stored(w, t)),
        crate::natives::NativeModel::Done(Err(e)) => (Err(e), w),
        crate::natives::NativeModel::Ask(task) => {
            let (u, reply) = crate::machine::asked(w, task);
            match reply {
                None => (Err(crate::natives::unexpected_reply()), u),
                Some(answer) => match crate::natives::native_finished(
                    u.store,
                    fun,
                    args,
                    span,
                    answer,
                ) {
                    Ok((t, v)) => (Ok(v), crate::machine::stored(u, t)),
                    Err(e) => (Err(e), u),
                },
            }
        },
    }
}

/// An intrinsic that has been called, as part of a profile.
pub open spec fn intrinsic_called(
    label: Seq<char>,
    fun: NativeFn,
    args: Seq<ValueTerm>,
    span: SpanModel,
    w: World,
    n: nat,
) -> CallOut {
    let (r, u) = native_called(fun, args, span, crate::machine::profile_entered(w, label), n);
    CallOut {
        r: match r {
            Ok(v) => Ok(SignalModel::Value(v)),
            Err(e) => Err(crate::machine::stop_stacked(u, e)),
        },
        w: crate::machine::profile_left(u),
    }
}

/// A result of a body as the result of the call: a `return` ends there.
pub open spec fn returned(r: Result<SignalModel, StopModel>, w: World) -> Result<
    SignalModel,
    StopModel,
> {
    match r {
        Ok(SignalModel::Return(v)) => Ok(SignalModel::Value(v)),
        Ok(other) => Ok(other),
        Err(e) => Err(crate::machine::stop_stacked(w, e)),
    }
}

/// A call of a generic function or method, as its body is typed for it.
pub struct TypingModel {
    pub receiver: Option<ValueTerm>,
    pub args: Seq<ValueTerm>,
    pub static_receiver: Option<Term>,
    pub static_args: Option<Seq<Term>>,
    pub expected: Option<Term>,
    pub span: SpanModel,
}

/// What is said of a generic function that cannot be typed.
pub open spec fn untypable(method: bool, name: Option<Seq<char>>, span: SpanModel) -> StopModel {
    panicked(
        RuntimeErrorCode::R0002,
        (if method {
            "generic method `"@
        } else {
            "generic closure `"@
        }) + (match name {
            Some(name) => name,
            None => "<anonymous>"@,
        }) + "` has no type context — construction-at-call-time unavailable"@,
        span,
    )
}

/// The typed body of code that is called. Where typing fails, the call ends at
/// once.
pub enum TypedBody {
    Block(TypedBlock),
    Fails(StopModel),
    Ends(StopModel),
}

/// The body that an answer gives, where `missing` is said of a function that cannot
/// be typed.
pub open spec fn body_answered(reply: Option<ReplyModel>, missing: StopModel) -> TypedBody {
    match reply {
        Some(ReplyModel::Body(None)) => TypedBody::Fails(missing),
        Some(ReplyModel::Body(Some(Ok(b)))) => TypedBody::Block(b),
        Some(ReplyModel::Body(Some(Err(e)))) => TypedBody::Ends(StopModel::Error(e)),
        _ => TypedBody::Ends(crate::natives::unexpected_reply()),
    }
}

pub open spec fn body_typed(code: ClosureCode, t: TypingModel, w: World) -> (TypedBody, World) {
    match code_body(code) {
        BodyModel::Typed(b) => (TypedBody::Block(b), w),
        BodyModel::Native => (TypedBody::Ends(StopModel::Undefined), w),
        BodyModel::Generic(g) => {
            let missing = crate::machine::stop_stacked(
                w,
                untypable(t.receiver is Some, code_label(code), t.span),
            );
            match (code_label(code), code_ctx(code)) {
                (Some(name), Some(ctx)) => {
                    let (u, reply) = crate::machine::asked(
                        w,
                        TaskModel::Construct(
                            GenericCallModel {
                                body: g,
                                ctx,
                                name,
                                receiver: t.receiver,
                                args: t.args,
                                static_receiver: t.static_receiver,
                                static_args: t.static_args,
                                expected: t.expected,
                                span: t.span,
                            },
                        ),
                    );
                    (body_answered(reply, missing), u)
                },
                _ => (TypedBody::Fails(missing), w),
            }
        },
    }
}

/// A call of a closure or function, from when its parameters have been bound to
/// when its body has ended. Where the second part says so, the call ends at once.
pub open spec fn body_run(
    code: ClosureCode,
    t: TypingModel,
    env: EnvModel,
    rt: RuntimeModel,
    w: World,
    n: nat,
) -> (CallOut, bool)
    decreases n, 8int, 0int,
{
    let (body, u) = body_typed(code, t, w);
    match body {
        TypedBody::Ends(e) => (CallOut { r: Err(e), w: u }, true),
        TypedBody::Fails(e) => (CallOut { r: Err(e), w: u }, false),
        TypedBody::Block(b) => {
            let o = block_run(b, env, rt, u, n);
            (CallOut { r: o.r, w: o.w }, false)
        },
    }
}

/// The name under which a call is recorded.
pub open spec fn frame_label(code: ClosureCode) -> Seq<char> {
    match code_label(code) {
        Some(name) => name,
        None => "<closure>"@,
    }
}

/// What a call of something callable comes to.
pub open spec fn callable_called(
    c: CallableModel,
    args: Seq<ValueTerm>,
    static_args: Option<Seq<Term>>,
    expected: Option<Term>,
    span: SpanModel,
    rt: RuntimeModel,
    w: World,
    n: nat,
) -> CallOut
    decreases n, 9int, 0int,
{
    match c {
        CallableModel::Intrinsic(label, fun) => intrinsic_called(label, fun, args, span, w, n),
        CallableModel::Closure(id) => match crate::store::closure_at(w.store, id) {
            None => CallOut { r: Err(StopModel::Undefined), w },
            Some(made) => {
                let code = made.code;
                let changes = crate::store::mutating(code);
                if changes && made.in_call {
                    CallOut {
                        r: Err(
                            crate::machine::stop_stacked(
                                w,
                                panicked(
                                    RuntimeErrorCode::R0015,
                                    "re-entrant call to a mutating closure"@,
                                    span,
                                ),
                            ),
                        ),
                        w,
                    }
                } else {
                    let marked = if changes {
                        crate::machine::stored(w, crate::store::call_marked(w.store, id, true))
                    } else {
                        w
                    };
                    let entered = crate::machine::frame_pushed(marked, frame_label(code), span);
                    match args_bound(
                        entered.store,
                        crate::environment::scope_opened(made.captured),
                        code,
                        args,
                        0,
                        0,
                    ) {
                        (false, s, _) => CallOut {
                            r: Err(StopModel::Endless),
                            w: crate::machine::stored(entered, s),
                        },
                        (true, s, env) => {
                            let (o, ends) = body_run(
                                code,
                                TypingModel {
                                    receiver: None,
                                    args,
                                    static_receiver: None,
                                    static_args,
                                    expected,
                                    span,
                                },
                                env,
                                rt,
                                crate::machine::stored(entered, s),
                                n,
                            );
                            if ends {
                                o
                            } else {
                                let left = crate::machine::frame_popped(o.w);
                                CallOut {
                                    r: returned(o.r, o.w),
                                    w: if changes {
                                        crate::machine::stored(
                                            left,
                                            crate::store::call_marked(left.store, id, false),
                                        )
                                    } else {
                                        left
                                    },
                                }
                            }
                        },
                    }
                }
            },
        },
    }
}

/// What a call of a method comes to.
pub open spec fn method_called(
    c: CallableModel,
    receiver: ReceiverModel,
    args: Seq<ValueTerm>,
    static_args: Option<Seq<Term>>,
    static_receiver: Option<Term>,
    expected: Option<Term>,
    span: SpanModel,
    rt: RuntimeModel,
    w: World,
    n: nat,
) -> CallOut
    decreases n, 10int, 0int,
{
    match c {
        CallableModel::Intrinsic(_, _) => callable_called(
            c,
            seq![receiver_term(w.store, receiver)] + args,
            static_args,
            expected,
            span,
            rt,
            w,
            n,
        ),
        CallableModel::Closure(id) => match crate::store::closure_at(w.store, id) {
            None => CallOut { r: Err(StopModel::Undefined), w },
            Some(made) => {
                let code = made.code;
                let entered = crate::machine::frame_pushed(w, frame_label(code), span);
                let value = receiver_term(entered.store, receiver);
                match receiver_bound(
                    entered.store,
                    crate::environment::scope_opened(made.captured),
                    code,
                    receiver,
                ) {
                    (false, s, _) => CallOut {
                        r: Err(StopModel::Endless),
                        w: crate::machine::stored(entered, s),
                    },
                    (true, s, e) => match args_bound(s, e, code, args, 1, 0) {
                        (false, t, _) => CallOut {
                            r: Err(StopModel::Endless),
                            w: crate::machine::stored(entered, t),
                        },
                        (true, t, env) => {
                            let (o, ends) = body_run(
                                code,
                                TypingModel {
                                    receiver: Some(value),
                                    args,
                                    static_receiver,
                                    static_args,
                                    expected,
                                    span,
                                },
                                env,
                                rt,
                                crate::machine::stored(entered, t),
                                n,
                            );
                            if ends {
                                o
                            } else {
                                CallOut {
                                    r: returned(o.r, o.w),
                                    w: crate::machine::frame_popped(o.w),
                                }
                            }
                        },
                    },
                }
            },
        },
    }
}

/// The number of the kind of a value.
pub open spec fn kind_number(h: ValueHead) -> nat {
    match h {
        ValueHead::Int(IntKind::I64, _) => 0,
        ValueHead::Int(IntKind::I8, _) => 1,
        ValueHead::Int(IntKind::I16, _) => 2,
        ValueHead::Int(IntKind::I32, _) => 3,
        ValueHead::Int(IntKind::U8, _) => 4,
        ValueHead::Int(IntKind::U16, _) => 5,
        ValueHead::Int(IntKind::U32, _) => 6,
        ValueHead::Int(IntKind::U64, _) => 7,
        ValueHead::Float(FloatKind::F64, _) => 8,
        ValueHead::Float(FloatKind::F32, _) => 9,
        ValueHead::Char(_) => 10,
        ValueHead::Boolean(_) => 11,
        ValueHead::Str(_) => 12,
        ValueHead::Unit => 13,
        ValueHead::Tuple => 14,
        ValueHead::Array(_) => 15,
        ValueHead::Record(_) => 16,
        ValueHead::Struct(_, _, _) => 17,
        ValueHead::Enum(_, _, _, _, _) => 18,
        ValueHead::Callable(_) => 19,
        ValueHead::Reference(_) => 20,
        ValueHead::MutReference(_) => 21,
        ValueHead::FieldReference(_, _) => 22,
        ValueHead::MutFieldReference(_, _) => 23,
        ValueHead::Dyn(_, _, _, _, _) => 24,
    }
}

/// What is called where a value is called: one reference is followed.
pub open spec fn call_target(v: ValueTerm, span: SpanModel, s: StoreModel, n: nat) -> Result<
    ValueTerm,
    StopModel,
> {
    match v.head {
        ValueHead::Reference(c) => Ok(crate::store::cell_at(s, c)),
        ValueHead::MutReference(c) => Ok(crate::store::cell_at(s, c)),
        ValueHead::FieldReference(c, path) => crate::reach::path_read(
            s,
            crate::store::cell_at(s, c),
            path,
            span,
            n,
        ),
        ValueHead::MutFieldReference(c, path) => crate::reach::path_read(
            s,
            crate::store::cell_at(s, c),
            path,
            span,
            n,
        ),
        _ => Ok(v),
    }
}

/// What a call of a value comes to.
pub open spec fn value_called(
    v: ValueTerm,
    args: Seq<ValueTerm>,
    static_args: Option<Seq<Term>>,
    expected: Option<Term>,
    span: SpanModel,
    rt: RuntimeModel,
    w: World,
    n: nat,
) -> CallOut
    decreases n, 11int, 0int,
{
    match call_target(v, span, w.store, n) {
        Err(e) => CallOut { r: Err(e), w },
        Ok(f) => match f.head {
            ValueHead::Callable(c) => callable_called(
                c,
                args,
                static_args,
                expected,
                span,
                rt,
                w,
                n,
            ),
            ValueHead::Unit => CallOut {
                r: Err(
                    crate::machine::stop_stacked(
                        w,
                        panicked(
                            RuntimeErrorCode::R0002,
                            "call: target is Unit, not a function"@,
                            span,
                        ),
                    ),
                ),
                w,
            },
            h => CallOut {
                r: Err(
                    crate::machine::stop_stacked(
                        w,
                        panicked(
                            RuntimeErrorCode::R0010,
                            "call: expected a closure or builtin, got Discriminant("@
                                + crate::text::decimal(kind_number(h)) + ")"@,
                            span,
                        ),
                    ),
                ),
                w,
            },
        },
    }
}

/// The values of expressions, from `i` on, up to the first that jumps or stops.
pub open spec fn list_run(
    es: Seq<Rc<TypedExpr>>,
    i: int,
    done: Seq<ValueTerm>,
    env: EnvModel,
    rt: RuntimeModel,
    w: World,
    n: nat,
) -> (Result<Seq<ValueTerm>, Result<SignalModel, StopModel>>, EnvModel, World)
    decreases n, 1int, es.len() - i,
{
    if i < 0 || i >= es.len() {
        (Ok(done), env, w)
    } else {
        let o = expr_run(*es[i], env, rt, w, n);
        match o.r {
            Ok(SignalModel::Value(v)) => list_run(es, i + 1, done.push(v), o.env, rt, o.w, n),
            r => (Err(r), o.env, o.w),
        }
    }
}

/// The values of fields, in the order in which they are written.
pub open spec fn field_exprs(fields: Seq<(String, Rc<TypedExpr>)>) -> Seq<Rc<TypedExpr>> {
    Seq::new(fields.len(), |i: int| fields[i].1)
}

/// The names of fields, in the order in which they are written.
pub open spec fn field_names(fields: Seq<(String, Rc<TypedExpr>)>) -> Seq<Seq<char>> {
    Seq::new(fields.len(), |i: int| fields[i].0@)
}

/// What an expression comes to.
pub open spec fn expr_run(e: TypedExpr, env: EnvModel, rt: RuntimeModel, w: World, n: nat) -> Out
    decreases n, 0int, 0int,
{
    if n == 0 {
        stop(StopModel::Endless, env, w)
    } else {
        let k = (n - 1) as nat;
        match e {
            TypedExpr::Literal(lit, ty, _) => val(crate::literals::literal_term(lit, ty), env, w),
            TypedExpr::Ident(name, binding, _, span) => or_undefined(
                identified(name@, binding, env, rt, w.store),
                name@,
                span.deep_view(),
                env,
                w,
            ),
            TypedExpr::Path(path, _, span) => path_out(
                path.deep_view(),
                span.deep_view(),
                env,
                rt,
                w,
            ),
            TypedExpr::Tuple(es, _, _) => tuple_run(es@, env, rt, w, k),
            TypedExpr::Array(es, _, _) => array_run(es@, env, rt, w, k),
            TypedExpr::RecordLiteral { fields, ty, span } => record_run(fields@, env, rt, w, k),
            TypedExpr::RepeatArray(elem, count, _, _) => repeat_run(*elem, count, env, rt, w, k),
            TypedExpr::BinOp(lhs, op, rhs, _, span) => binop_run(
                *lhs,
                op,
                *rhs,
                span.deep_view(),
                env,
                rt,
                w,
                k,
            ),
            TypedExpr::RefTemp { init, mutable, ty, span } => ref_temp_run(
                *init,
                mutable,
                env,
                rt,
                w,
                k,
            ),
            TypedExpr::UnaryOp(op, operand, _, span) => unary_run(
                op,
                *operand,
                span.deep_view(),
                env,
                rt,
                w,
                k,
            ),
            TypedExpr::Cast { expr, target_type, ty, span } => cast_run(
                *expr,
                target_type,
                span.deep_view(),
                env,
                rt,
                w,
                k,
            ),
            TypedExpr::TupleAccess { object, index, ty, span } => tuple_access_run(
                *object,
                index,
                span.deep_view(),
                env,
                rt,
                w,
                k,
            ),
            TypedExpr::Index { object, index, ty, span } => index_run(
                *object,
                *index,
                span.deep_view(),
                env,
                rt,
                w,
                k,
            ),
            TypedExpr::If { condition, then_branch, else_branch, ty, span } => if_run(
                *condition,
                *then_branch,
                else_branch,
                env,
                rt,
                w,
                k,
            ),
            TypedExpr::Loop { body, ty, span } => loop_run(*body, env, rt, w, k),
            TypedExpr::Match(m) => match_run(*m, env, rt, w, k),
            TypedExpr::SingletonCoerce { inner, field, ty, span } => singleton_run(
                *inner,
                field@,
                env,
                rt,
                w,
                k,
            ),
            TypedExpr::DynCoerce { inner, aspect_id, aspect, type_args, span } => dyn_run(
                *inner,
                aspect_id,
                aspect@,
                type_args.deep_view(),
                env,
                rt,
                w,
                k,
            ),
            TypedExpr::Return(value, _) => return_run(value, env, rt, w, k),
            TypedExpr::Break(value, _) => break_run(value, env, rt, w, k),
            TypedExpr::Continue(_) => Out { r: Ok(SignalModel::Continue), env, w },
            TypedExpr::Assign { target, op, value, span } => assign_run(
                *target,
                op,
                *value,
                span.deep_view(),
                env,
                rt,
                w,
                k,
            ),
            TypedExpr::StructLiteral { path, fields, type_id, variant_id, ty, span } => struct_run(
                path.deep_view(),
                fields@,
                type_id,
                variant_id,
                env,
                rt,
                w,
                k,
            ),
            TypedExpr::FieldAccess { object, field, ty, span } => field_run(
                *object,
                field@,
                span.deep_view(),
                env,
                rt,
                w,
                k,
            ),
            TypedExpr::MethodCall { receiver, method, args, ty, dispatch, span } => method_run(
                *receiver,
                method@,
                args@,
                ty.deep_view(),
                dispatch,
                span.deep_view(),
                env,
                rt,
                w,
                k,
            ),
            TypedExpr::Call { callee, args, ty, callee_id, span } => call_run(
                *callee,
                args@,
                ty.deep_view(),
                callee_id,
                span.deep_view(),
                env,
                rt,
                w,
                k,
            ),
            TypedExpr::Closure(c) => closure_out(*c, env, w),
        }
    }
}

pub open spec fn tuple_run(
    es: Seq<Rc<TypedExpr>>,
    env: EnvModel,
    rt: RuntimeModel,
    w: World,
    n: nat,
) -> Out
    decreases n, 12int, 0int,
{
    match list_run(es, 0, Seq::empty(), env, rt, w, n) {
        (Err(r), e, v) => Out { r, env: e, w: v },
        (Ok(vs), e, v) => val(ValueTerm { head: ValueHead::Tuple, args: vs }, e, v),
    }
}

pub open spec fn array_run(
    es: Seq<Rc<TypedExpr>>,
    env: EnvModel,
    rt: RuntimeModel,
    w: World,
    n: nat,
) -> Out
    decreases n, 12int, 0int,
{
    match list_run(es, 0, Seq::empty(), env, rt, w, n) {
        (Err(r), e, v) => Out { r, env: e, w: v },
        (Ok(vs), e, v) => {
            let (t, a) = crate::store::array_made(v.store, vs);
            val(crate::values::plain(ValueHead::Array(a)), e, crate::machine::stored(v, t))
        },
    }
}

pub open spec fn record_run(
    fields: Seq<(String, Rc<TypedExpr>)>,
    env: EnvModel,
    rt: RuntimeModel,
    w: World,
    n: nat,
) -> Out
    decreases n, 12int, 0int,
{
    match list_run(field_exprs(fields), 0, Seq::empty(), env, rt, w, n) {
        (Err(r), e, v) => Out { r, env: e, w: v },
        (Ok(vs), e, v) => val(
            record_term(fields_from(field_names(fields), vs, fields.len() as int)),
            e,
            v,
        ),
    }
}

pub open spec fn struct_run(
    path: Seq<Seq<char>>,
    fields: Seq<(String, Rc<TypedExpr>)>,
    type_id: Option<SymbolId>,
    variant_id: Option<crate::symbols::VariantId>,
    env: EnvModel,
    rt: RuntimeModel,
    w: World,
    n: nat,
) -> Out
    decreases n, 12int, 0int,
{
    match list_run(field_exprs(fields), 0, Seq::empty(), env, rt, w, n) {
        (Err(r), e, v) => Out { r, env: e, w: v },
        (Ok(vs), e, v) => struct_out(
            path,
            type_id,
            variant_id,
            fields_from(field_names(fields), vs, fields.len() as int),
            e,
            v,
        ),
    }
}

/// A value several times over.
pub open spec fn copies(v: ValueTerm, n: nat) -> Seq<ValueTerm> {
    Seq::new(n, |i: int| v)
}

pub open spec fn repeat_run(
    elem: TypedExpr,
    count: u64,
    env: EnvModel,
    rt: RuntimeModel,
    w: World,
    n: nat,
) -> Out
    decreases n, 12int, 0int,
{
    let o = expr_run(elem, env, rt, w, n);
    match o.r {
        Ok(SignalModel::Value(v)) => {
            let (t, a) = crate::store::array_made(o.w.store, copies(v, count as nat));
            val(crate::values::plain(ValueHead::Array(a)), o.env, crate::machine::stored(o.w, t))
        },
        _ => o,
    }
}

/// Whether the left operand of a logical operator decides it: the value that it
/// then has.
pub open spec fn decided(op: BinOp, v: ValueTerm) -> Result<Option<ValueTerm>, StopModel> {
    match v.head {
        ValueHead::Boolean(b) => if b == (op is Or) {
            Ok(Some(crate::values::bool_term(b)))
        } else {
            Ok(None)
        },
        _ => Err(
            internal(
                if op is And {
                    "&&: expected boolean (typechecker should have caught this)"@
                } else {
                    "||: expected boolean (typechecker should have caught this)"@
                },
            ),
        ),
    }
}

pub open spec fn binop_run(
    lhs: TypedExpr,
    op: BinOp,
    rhs: TypedExpr,
    span: SpanModel,
    env: EnvModel,
    rt: RuntimeModel,
    w: World,
    n: nat,
) -> Out
    decreases n, 12int, 0int,
{
    let l = expr_run(lhs, env, rt, w, n);
    match l.r {
        Ok(SignalModel::Value(a)) => if op is And || op is Or {
            match decided(op, a) {
                Err(e) => stop(e, l.env, l.w),
                Ok(Some(v)) => val(v, l.env, l.w),
                Ok(None) => expr_run(rhs, l.env, rt, l.w, n),
            }
        } else {
            let r = expr_run(rhs, l.env, rt, l.w, n);
            match r.r {
                Ok(SignalModel::Value(b)) => {
                    let (v, u) = computed(op, a, b, span, r.w);
                    out_of(v, r.env, u)
                },
                _ => r,
            }
        },
        _ => l,
    }
}

pub open spec fn ref_temp_run(
    init: TypedExpr,
    mutable: bool,
    env: EnvModel,
    rt: RuntimeModel,
    w: World,
    n: nat,
) -> Out
    decreases n, 12int, 0int,
{
    let o = expr_run(init, env, rt, w, n);
    match o.r {
        Ok(SignalModel::Value(v)) => {
            let (t, c) = crate::store::cell_made(o.w.store, v);
            val(reference_term(mutable, c), o.env, crate::machine::stored(o.w, t))
        },
        _ => o,
    }
}

/// The variable and the path that a place expression leads through.
pub open spec fn place_path(
    e: TypedExpr,
    span: SpanModel,
    env: EnvModel,
    rt: RuntimeModel,
    w: World,
    n: nat,
) -> (
    Result<(Seq<char>, Seq<SegmentModel>), Result<SignalModel, StopModel>>,
    EnvModel,
    World,
)
    decreases n, 2int, 0int,
{
    if n == 0 {
        (Err(Err(StopModel::Endless)), env, w)
    } else {
        let k = (n - 1) as nat;
        match e {
            TypedExpr::Ident(name, _, _, _) => (Ok((name@, Seq::empty())), env, w),
            TypedExpr::FieldAccess { object, field, ty: _, span: _ } => step_added(
                place_path(*object, span, env, rt, w, k),
                SegmentModel::Field(field@),
            ),
            TypedExpr::TupleAccess { object, index, ty: _, span: _ } => step_added(
                place_path(*object, span, env, rt, w, k),
                SegmentModel::TupleIndex(index),
            ),
            TypedExpr::Index { object, index, ty: _, span: _ } => {
                let (p, e1, w1) = place_path(*object, span, env, rt, w, k);
                match p {
                    Err(_) => (p, e1, w1),
                    Ok((root, path)) => {
                        let o = expr_run(*index, e1, rt, w1, k);
                        match o.r {
                            Ok(SignalModel::Value(v)) => match path_index(v) {
                                Some(i) => (
                                    Ok((root, path.push(SegmentModel::ArrayIndex(i)))),
                                    o.env,
                                    o.w,
                                ),
                                None => (
                                    Err(
                                        Err(
                                            panicked(
                                                RuntimeErrorCode::R0004,
                                                "&var: array index must be a non-negative integer"@,
                                                span,
                                            ),
                                        ),
                                    ),
                                    o.env,
                                    o.w,
                                ),
                            },
                            r => (Err(r), o.env, o.w),
                        }
                    },
                }
            },
            TypedExpr::UnaryOp(UnaryOp::Deref, object, _, _) => place_path(
                *object,
                span,
                env,
                rt,
                w,
                k,
            ),
            _ => (Err(Err(internal("build_mut_path: not a lvalue path"@))), env, w),
        }
    }
}

/// A path with one more step.
pub open spec fn step_added(
    p: (
        Result<(Seq<char>, Seq<SegmentModel>), Result<SignalModel, StopModel>>,
        EnvModel,
        World,
    ),
    seg: SegmentModel,
) -> (
    Result<(Seq<char>, Seq<SegmentModel>), Result<SignalModel, StopModel>>,
    EnvModel,
    World,
) {
    match p.0 {
        Ok((root, path)) => (Ok((root, path.push(seg))), p.1, p.2),
        Err(_) => p,
    }
}

/// The position that an index in a path stands for.
pub open spec fn path_index(v: ValueTerm) -> Option<usize> {
    match v.head {
        ValueHead::Int(IntKind::I64, k) => if k >= 0 {
            Some(k as u64 as usize)
        } else {
            None
        },
        ValueHead::Int(IntKind::U64, k) => Some(k as u64 as usize),
        _ => None,
    }
}

pub open spec fn unary_run(
    op: UnaryOp,
    operand: TypedExpr,
    span: SpanModel,
    env: EnvModel,
    rt: RuntimeModel,
    w: World,
    n: nat,
) -> Out
    decreases n, 12int, 0int,
{
    if op is Ref || op is RefMut {
        reference_run(op is RefMut, operand, span, env, rt, w, n)
    } else {
        let o = expr_run(operand, env, rt, w, n);
        match o.r {
            Ok(SignalModel::Value(v)) => out_of(
                unary_result(op, v, span, o.w.store, n),
                o.env,
                o.w,
            ),
            _ => o,
        }
    }
}

/// What is said where a reference is taken to what is no place.
pub open spec fn no_place(mutable: bool) -> StopModel {
    if mutable {
        internal("mutable address-of requires an addressable lvalue"@)
    } else {
        internal(
            "address-of requires an addressable lvalue (identifier, field access, tuple access, or array index)"@,
        )
    }
}

pub open spec fn reference_run(
    mutable: bool,
    operand: TypedExpr,
    span: SpanModel,
    env: EnvModel,
    rt: RuntimeModel,
    w: World,
    n: nat,
) -> Out
    decreases n, 11int, 0int,
{
    match operand {
        TypedExpr::UnaryOp(UnaryOp::Deref, inner, _, _) => {
            let o = expr_run(*inner, env, rt, w, n);
            match o.r {
                Ok(SignalModel::Value(v)) => reborrowed(mutable, v, span, o.env, o.w),
                _ => o,
            }
        },
        TypedExpr::Ident(name, binding, _, _) => or_undefined(
            match identified_cell(name@, binding, env, rt) {
                Some(c) => Some(reference_term(mutable, c)),
                None => None,
            },
            name@,
            span,
            env,
            w,
        ),
        _ => if names_place(operand) {
            match place_path(operand, span, env, rt, w, n) {
                (Err(r), e, v) => Out { r, env: e, w: v },
                (Ok((root, path)), e, v) => or_undefined(
                    match crate::copying::name_cell(e.scopes, root) {
                        Some(c) => Some(
                            crate::values::plain(
                                if mutable {
                                    ValueHead::MutFieldReference(c, path)
                                } else {
                                    ValueHead::FieldReference(c, path)
                                },
                            ),
                        ),
                        None => None,
                    },
                    root,
                    span,
                    e,
                    v,
                ),
            }
        } else {
            stop(no_place(mutable), env, w)
        },
    }
}

/// The conversion that a cast calls.
pub open spec fn cast_conversion(target: TypeExpr, v: ValueTerm, rt: RuntimeModel) -> Option<
    MethodModel,
> {
    match (target, crate::runtime_types::named_type_of(v)) {
        (TypeExpr::Named(name, _), Some(source)) => crate::runtime::conversion(rt, name@, source),
        _ => None,
    }
}

pub open spec fn cast_run(
    e: TypedExpr,
    target: TypeExpr,
    span: SpanModel,
    env: EnvModel,
    rt: RuntimeModel,
    w: World,
    n: nat,
) -> Out
    decreases n, 12int, 0int,
{
    let o = expr_run(e, env, rt, w, n);
    match o.r {
        Ok(SignalModel::Value(v)) => match cast_conversion(target, v, rt) {
            Some(f) => {
                let c = value_called(
                    crate::values::plain(ValueHead::Callable(f.body)),
                    seq![v],
                    None,
                    None,
                    span,
                    rt,
                    o.w,
                    n,
                );
                Out { r: c.r, env: o.env, w: c.w }
            },
            None => o,
        },
        _ => o,
    }
}

pub open spec fn tuple_access_run(
    object: TypedExpr,
    index: usize,
    span: SpanModel,
    env: EnvModel,
    rt: RuntimeModel,
    w: World,
    n: nat,
) -> Out
    decreases n, 12int, 0int,
{
    let o = expr_run(object, env, rt, w, n);
    match o.r {
        Ok(SignalModel::Value(v)) => match crate::reach::peeled(o.w.store, v, span, n) {
            Err(e) => stop(e, o.env, o.w),
            Ok(x) => out_of(tuple_part(x, index, span), o.env, o.w),
        },
        _ => o,
    }
}

pub open spec fn index_run(
    object: TypedExpr,
    index: TypedExpr,
    span: SpanModel,
    env: EnvModel,
    rt: RuntimeModel,
    w: World,
    n: nat,
) -> Out
    decreases n, 12int, 0int,
{
    let o = expr_run(object, env, rt, w, n);
    match o.r {
        Ok(SignalModel::Value(v)) => match crate::reach::peeled(o.w.store, v, span, n) {
            Err(e) => stop(e, o.env, o.w),
            Ok(x) => {
                let i = expr_run(index, o.env, rt, o.w, n);
                match i.r {
                    Ok(SignalModel::Value(idx)) => out_of(
                        array_part(i.w.store, x, idx, span),
                        i.env,
                        i.w,
                    ),
                    _ => i,
                }
            },
        },
        _ => o,
    }
}

pub open spec fn field_run(
    object: TypedExpr,
    field: Seq<char>,
    span: SpanModel,
    env: EnvModel,
    rt: RuntimeModel,
    w: World,
    n: nat,
) -> Out
    decreases n, 12int, 0int,
{
    let o = expr_run(object, env, rt, w, n);
    match o.r {
        Ok(SignalModel::Value(v)) => match crate::reach::peeled(o.w.store, v, span, n) {
            Err(e) => stop(e, o.env, o.w),
            Ok(x) => out_of(field_part(x, field, span), o.env, o.w),
        },
        _ => o,
    }
}

pub open spec fn if_run(
    condition: TypedExpr,
    then_branch: TypedBlock,
    else_branch: Option<Rc<TypedBlock>>,
    env: EnvModel,
    rt: RuntimeModel,
    w: World,
    n: nat,
) -> Out
    decreases n, 12int, 0int,
{
    let o = expr_run(condition, env, rt, w, n);
    match o.r {
        Ok(SignalModel::Value(v)) => match v.head {
            ValueHead::Boolean(true) => block_run(then_branch, o.env, rt, o.w, n),
            ValueHead::Boolean(false) => match else_branch {
                Some(b) => block_run(*b, o.env, rt, o.w, n),
                None => unit(o.env, o.w),
            },
            _ => stop(
                internal("if: expected boolean condition (typechecker should have caught this)"@),
                o.env,
                o.w,
            ),
        },
        _ => o,
    }
}

/// A loop that goes round until it is left.
pub open spec fn loop_run(
    body: TypedBlock,
    env: EnvModel,
    rt: RuntimeModel,
    w: World,
    n: nat,
) -> Out
    decreases n, 12int, 0int,
{
    if n == 0 {
        stop(StopModel::Endless, env, w)
    } else {
        let o = block_run(body, env, rt, w, (n - 1) as nat);
        match o.r {
            Ok(SignalModel::Value(_)) => loop_run(body, o.env, rt, o.w, (n - 1) as nat),
            Ok(SignalModel::Continue) => loop_run(body, o.env, rt, o.w, (n - 1) as nat),
            Ok(SignalModel::Break(v)) => val(v, o.env, o.w),
            _ => o,
        }
    }
}

/// The store and the environment after variables, from `i` on, have been bound,
/// up to the first whose value contains itself. The first part says whether there
/// is none.
pub open spec fn bindings_bound(
    s: StoreModel,
    env: EnvModel,
    bs: Seq<(Seq<char>, Option<LocalId>, ValueTerm)>,
    i: int,
) -> (bool, StoreModel, EnvModel)
    decreases bs.len() - i,
{
    if i < 0 || i >= bs.len() {
        (true, s, env)
    } else {
        match crate::environment::variable_defined(s, env, bs[i].1, bs[i].0, bs[i].2) {
            Some((t, e)) => bindings_bound(t, e, bs, i + 1),
            None => (false, s, env),
        }
    }
}

/// What the guard of an arm says: whether the arm is taken.
pub open spec fn guard_run(
    guard: Option<Rc<TypedExpr>>,
    bs: Seq<(Seq<char>, Option<LocalId>, ValueTerm)>,
    env: EnvModel,
    rt: RuntimeModel,
    w: World,
    n: nat,
) -> (Result<bool, Result<SignalModel, StopModel>>, EnvModel, World)
    decreases n, 8int, 0int,
{
    match guard {
        None => (Ok(true), env, w),
        Some(g) => match bindings_bound(
            w.store,
            crate::environment::scope_opened(env),
            bs,
            0,
        ) {
            (false, s, e) => (Err(Err(StopModel::Endless)), e, crate::machine::stored(w, s)),
            (true, s, e) => {
                let o = expr_run(*g, e, rt, crate::machine::stored(w, s), n);
                match o.r {
                    Err(_) => (Err(o.r), o.env, o.w),
                    Ok(SignalModel::Value(v)) => match v.head {
                        ValueHead::Boolean(b) => (
                            Ok(b),
                            crate::environment::scope_ended(o.env),
                            o.w,
                        ),
                        _ => (
                            Err(
                                Err(
                                    internal(
                                        "match guard: expected boolean (typechecker should have caught this)"@,
                                    ),
                                ),
                            ),
                            crate::environment::scope_ended(o.env),
                            o.w,
                        ),
                    },
                    _ => (Err(o.r), crate::environment::scope_ended(o.env), o.w),
                }
            },
        },
    }
}

/// The body of an arm that is taken.
pub open spec fn arm_run(
    body: TypedBlock,
    bs: Seq<(Seq<char>, Option<LocalId>, ValueTerm)>,
    env: EnvModel,
    rt: RuntimeModel,
    w: World,
    n: nat,
) -> Out
    decreases n, 8int, 0int,
{
    match bindings_bound(w.store, crate::environment::scope_opened(env), bs, 0) {
        (false, s, e) => stop(StopModel::Endless, e, crate::machine::stored(w, s)),
        (true, s, e) => {
            let o = block_run(body, e, rt, crate::machine::stored(w, s), n);
            Out { env: crate::environment::scope_ended(o.env), ..o }
        },
    }
}

/// The arms of a match, from `i` on: the first that fits is taken.
pub open spec fn arms_run(
    arms: Seq<TypedMatchArm>,
    i: int,
    v: ValueTerm,
    span: SpanModel,
    env: EnvModel,
    rt: RuntimeModel,
    w: World,
    n: nat,
) -> Out
    decreases n, 9int, arms.len() - i,
{
    if i < 0 || i >= arms.len() {
        stop(
            panicked(RuntimeErrorCode::R0006, "match: no arm matched scrutinee"@, span),
            env,
            w,
        )
    } else {
        let m = crate::pattern::matched(w.store, arms[i].pattern, v, Seq::empty());
        let u = crate::machine::stored(w, m.store);
        if !m.fits {
            arms_run(arms, i + 1, v, span, env, rt, u, n)
        } else {
            match guard_run(arms[i].guard, m.bindings, env, rt, u, n) {
                (Err(r), e, x) => Out { r, env: e, w: x },
                (Ok(false), e, x) => arms_run(arms, i + 1, v, span, e, rt, x, n),
                (Ok(true), e, x) => arm_run(*arms[i].body, m.bindings, e, rt, x, n),
            }
        }
    }
}

pub open spec fn match_run(m: TypedMatch, env: EnvModel, rt: RuntimeModel, w: World, n: nat) -> Out
    decreases n, 12int, 0int,
{
    let o = expr_run(*m.scrutinee, env, rt, w, n);
    match o.r {
        Ok(SignalModel::Value(v)) => match crate::reach::peeled(
            o.w.store,
            v,
            m.span.deep_view(),
            n,
        ) {
            Err(e) => stop(e, o.env, o.w),
            Ok(x) => arms_run(m.arms@, 0, x, m.span.deep_view(), o.env, rt, o.w, n),
        },
        _ => o,
    }
}

pub open spec fn singleton_run(
    inner: TypedExpr,
    field: Seq<char>,
    env: EnvModel,
    rt: RuntimeModel,
    w: World,
    n: nat,
) -> Out
    decreases n, 12int, 0int,
{
    let o = expr_run(inner, env, rt, w, n);
    match o.r {
        Ok(SignalModel::Value(v)) => out_of(payload(v, field), o.env, o.w),
        _ => o,
    }
}

pub open spec fn dyn_run(
    inner: TypedExpr,
    aspect_id: SymbolId,
    aspect: Seq<char>,
    type_args: Seq<Term>,
    env: EnvModel,
    rt: RuntimeModel,
    w: World,
    n: nat,
) -> Out
    decreases n, 12int, 0int,
{
    let o = expr_run(inner, env, rt, w, n);
    match o.r {
        Ok(SignalModel::Value(v)) => seen_as(v, aspect_id, aspect, type_args, o.env, rt, o.w),
        _ => o,
    }
}

pub open spec fn return_run(
    value: Option<Rc<TypedExpr>>,
    env: EnvModel,
    rt: RuntimeModel,
    w: World,
    n: nat,
) -> Out
    decreases n, 12int, 0int,
{
    match value {
        None => Out { r: Ok(SignalModel::Return(crate::values::unit_term())), env, w },
        Some(e) => {
            let o = expr_run(*e, env, rt, w, n);
            match o.r {
                Ok(SignalModel::Value(v)) => Out { r: Ok(SignalModel::Return(v)), ..o },
                _ => o,
            }
        },
    }
}

pub open spec fn break_run(
    value: Option<Rc<TypedExpr>>,
    env: EnvModel,
    rt: RuntimeModel,
    w: World,
    n: nat,
) -> Out
    decreases n, 12int, 0int,
{
    match value {
        None => Out { r: Ok(SignalModel::Break(crate::values::unit_term())), env, w },
        Some(e) => {
            let o = expr_run(*e, env, rt, w, n);
            match o.r {
                Ok(SignalModel::Value(v)) => Out { r: Ok(SignalModel::Break(v)), ..o },
                _ => o,
            }
        },
    }
}

/// What is said of an assignment to a name that means nothing.
pub open spec fn assign_undefined(name: Seq<char>, span: SpanModel) -> StopModel {
    panicked(RuntimeErrorCode::R0003, "assign: undefined `"@ + name + "`"@, span)
}

/// What is said of a place whose variable is not known.
pub open spec fn place_not_found(name: Seq<char>, span: SpanModel) -> StopModel {
    panicked(RuntimeErrorCode::R0003, "assign: `"@ + name + "` not found"@, span)
}

/// An assignment to a variable.
pub open spec fn variable_assigned(
    name: Seq<char>,
    binding: Option<BindingId>,
    ident_span: SpanModel,
    op: AssignOp,
    rhs: ValueTerm,
    span: SpanModel,
    env: EnvModel,
    rt: RuntimeModel,
    w: World,
) -> Out {
    let global = match binding {
        Some(BindingId::Global(sym)) => rt.globals.get(sym),
        _ => None,
    };
    let own = crate::copying::name_cell(env.scopes, name);
    let cell = if global is Some {
        global
    } else {
        own
    };
    match cell {
        None => stop(assign_undefined(name, ident_span), env, w),
        Some(c) => {
            let (v, u) = new_value(op, crate::store::cell_at(w.store, c), rhs, span, w);
            match v {
                Err(e) => stop(e, env, u),
                Ok(x) => match crate::copying::value_copied(u.store, x) {
                    None => stop(StopModel::Endless, env, u),
                    Some((t, y)) => unit(
                        env,
                        crate::machine::stored(u, crate::store::cell_set(t, c, y)),
                    ),
                },
            }
        },
    }
}

/// An assignment to a part of what is in a cell.
pub open spec fn part_assigned(
    c: CellId,
    path: Seq<SegmentModel>,
    tspan: SpanModel,
    op: AssignOp,
    rhs: ValueTerm,
    span: SpanModel,
    env: EnvModel,
    w: World,
    n: nat,
) -> Out {
    let cur = if op is Assign {
        Ok(rhs)
    } else {
        crate::reach::path_read(w.store, crate::store::cell_at(w.store, c), path, tspan, n)
    };
    match cur {
        Err(e) => stop(e, env, w),
        Ok(cur) => {
            let (v, u) = new_value(op, cur, rhs, span, w);
            match v {
                Err(e) => stop(e, env, u),
                Ok(x) => match crate::reach::path_written(
                    u.store,
                    crate::store::cell_at(u.store, c),
                    path,
                    x,
                    tspan,
                    n,
                ) {
                    Err(e) => stop(e, env, u),
                    Ok((t, y)) => unit(
                        env,
                        crate::machine::stored(u, crate::store::cell_set(t, c, y)),
                    ),
                },
            }
        },
    }
}

/// An assignment to what a reference leads to.
pub open spec fn referent_assigned(
    p: ValueTerm,
    tspan: SpanModel,
    op: AssignOp,
    rhs: ValueTerm,
    span: SpanModel,
    env: EnvModel,
    w: World,
    n: nat,
) -> Out {
    match p.head {
        ValueHead::Reference(c) => cell_assigned(c, op, rhs, span, env, w),
        ValueHead::MutReference(c) => cell_assigned(c, op, rhs, span, env, w),
        ValueHead::MutFieldReference(c, path) => part_assigned(
            c,
            path,
            tspan,
            op,
            rhs,
            span,
            env,
            w,
            n,
        ),
        _ => stop(
            panicked(
                RuntimeErrorCode::R0003,
                "assign: dereference target is not a pointer"@,
                tspan,
            ),
            env,
            w,
        ),
    }
}

/// An assignment to a cell.
pub open spec fn cell_assigned(
    c: CellId,
    op: AssignOp,
    rhs: ValueTerm,
    span: SpanModel,
    env: EnvModel,
    w: World,
) -> Out {
    let (v, u) = new_value(op, crate::store::cell_at(w.store, c), rhs, span, w);
    match v {
        Err(e) => stop(e, env, u),
        Ok(x) => unit(env, crate::machine::stored(u, crate::store::cell_set(u.store, c, x))),
    }
}

/// An assignment to an element of an array.
pub open spec fn element_assigned(
    v: ValueTerm,
    idx: ValueTerm,
    op: AssignOp,
    rhs: ValueTerm,
    span: SpanModel,
    env: EnvModel,
    w: World,
) -> Out {
    match index_position(idx) {
        None => stop(
            internal("index: expected u64 index (typechecker should have caught this)"@),
            env,
            w,
        ),
        Some(i) => match v.head {
            ValueHead::Array(a) => {
                let items = crate::store::array_at(w.store, a);
                if i >= items.len() {
                    stop(out_of_bounds(i as nat, items.len(), span), env, w)
                } else {
                    let (x, u) = new_value(op, items[i as int], rhs, span, w);
                    match x {
                        Err(e) => stop(e, env, u),
                        Ok(y) => unit(
                            env,
                            crate::machine::stored(
                                u,
                                crate::store::array_set(u.store, a, items.update(i as int, y)),
                            ),
                        ),
                    }
                }
            },
            _ => stop(
                internal(
                    "index assign: receiver is not an Array (typechecker should have caught this)"@,
                ),
                env,
                w,
            ),
        },
    }
}

/// The cell that is the root of a place, and the path from there.
pub open spec fn place_root(
    p: TypedPlace,
    span: SpanModel,
    env: EnvModel,
    rt: RuntimeModel,
    w: World,
    n: nat,
) -> (Result<(CellId, Seq<SegmentModel>), StopModel>, EnvModel, World)
    decreases n, 2int, 0int,
{
    if n == 0 {
        (Err(StopModel::Endless), env, w)
    } else {
        let k = (n - 1) as nat;
        match p {
            TypedPlace::Ident(name, binding, ident_span) => {
                let cell = match binding {
                    Some(BindingId::Global(sym)) => rt.globals.get(sym),
                    Some(BindingId::Local(id)) => crate::assoc::entry(env.frame, id),
                    None => None,
                };
                match cell {
                    None => (Err(place_not_found(name@, ident_span.deep_view())), env, w),
                    Some(c) => match crate::store::cell_at(w.store, c).head {
                        ValueHead::MutReference(inner) => (Ok((inner, Seq::empty())), env, w),
                        _ => (Ok((c, Seq::empty())), env, w),
                    },
                }
            },
            TypedPlace::Deref { object, span: tspan } => {
                let o = expr_run(*object, env, rt, w, k);
                match o.r {
                    Err(e) => (Err(e), o.env, o.w),
                    Ok(SignalModel::Value(v)) => match v.head {
                        ValueHead::MutReference(c) => (Ok((c, Seq::empty())), o.env, o.w),
                        _ => (
                            Err(
                                panicked(
                                    RuntimeErrorCode::R0003,
                                    "assign: not a &var reference"@,
                                    tspan.deep_view(),
                                ),
                            ),
                            o.env,
                            o.w,
                        ),
                    },
                    Ok(_) => (Err(StopModel::Undefined), o.env, o.w),
                }
            },
            TypedPlace::Field { object, field, span: _ } => root_step(
                place_root(*object, span, env, rt, w, k),
                SegmentModel::Field(field@),
            ),
            TypedPlace::Tuple { object, index, span: _ } => root_step(
                place_root(*object, span, env, rt, w, k),
                SegmentModel::TupleIndex(index),
            ),
            TypedPlace::Index { object: _, index: _, span: _ } => (
                Err(
                    panicked(
                        RuntimeErrorCode::R0003,
                        "assign: unsupported receiver form"@,
                        span,
                    ),
                ),
                env,
                w,
            ),
        }
    }
}

/// The root of a place with one more step after the path.
pub open spec fn root_step(
    p: (Result<(CellId, Seq<SegmentModel>), StopModel>, EnvModel, World),
    seg: SegmentModel,
) -> (Result<(CellId, Seq<SegmentModel>), StopModel>, EnvModel, World) {
    match p.0 {
        Ok((c, path)) => (Ok((c, path.push(seg))), p.1, p.2),
        Err(_) => p,
    }
}

/// The field of what a place holds.
pub open spec fn place_field(v: ValueTerm, f: Seq<char>, span: SpanModel) -> Result<
    ValueTerm,
    StopModel,
> {
    if crate::values::field_labels(v.head) is None {
        Err(internal("field `"@ + f + "`: receiver is not a record/struct/enum"@))
    } else {
        match crate::values::field_of(v, f) {
            Some(x) => Ok(x),
            None => Err(
                panicked(RuntimeErrorCode::R0008, "field access: no field `"@ + f + "`"@, span),
            ),
        }
    }
}

/// The element of a tuple that a place holds.
pub open spec fn place_element(v: ValueTerm, i: usize, span: SpanModel) -> Result<
    ValueTerm,
    StopModel,
> {
    if v.head is Tuple {
        tuple_part(v, i, span)
    } else {
        Err(
            internal(
                "tuple `"@ + crate::text::decimal(i as nat) + "`: receiver is not a tuple"@,
            ),
        )
    }
}

/// The element of an array that a place holds.
pub open spec fn place_item(s: StoreModel, v: ValueTerm, idx: ValueTerm, span: SpanModel) -> Result<
    ValueTerm,
    StopModel,
> {
    match idx.head {
        ValueHead::Int(IntKind::U64, k) => if k > i64::MAX {
            Err(
                panicked(
                    RuntimeErrorCode::R0004,
                    "index "@ + crate::text::decimal(k as nat) + " out of bounds"@,
                    span,
                ),
            )
        } else {
            match v.head {
                ValueHead::Array(a) => {
                    let items = crate::store::array_at(s, a);
                    if k < items.len() {
                        Ok(items[k])
                    } else {
                        Err(out_of_bounds(k as nat, items.len(), span))
                    }
                },
                _ => Err(internal("index: receiver is not an Array"@)),
            }
        },
        _ => Err(internal("index: expected u64 index (typechecker should have caught this)"@)),
    }
}

/// What a place holds.
pub open spec fn place_run(p: TypedPlace, env: EnvModel, rt: RuntimeModel, w: World, n: nat) -> (
    Result<ValueTerm, StopModel>,
    EnvModel,
    World,
)
    decreases n, 2int, 0int,
{
    if n == 0 {
        (Err(StopModel::Endless), env, w)
    } else {
        let k = (n - 1) as nat;
        match p {
            TypedPlace::Ident(name, binding, ident_span) => {
                let cell = match binding {
                    Some(BindingId::Global(sym)) => rt.globals.get(sym),
                    Some(BindingId::Local(id)) => crate::assoc::entry(env.frame, id),
                    None => None,
                };
                match cell {
                    None => (Err(place_not_found(name@, ident_span.deep_view())), env, w),
                    Some(c) => (Ok(crate::store::cell_at(w.store, c)), env, w),
                }
            },
            TypedPlace::Deref { object, span } => {
                let o = expr_run(*object, env, rt, w, k);
                match o.r {
                    Err(e) => (Err(e), o.env, o.w),
                    Ok(SignalModel::Value(v)) => match v.head {
                        ValueHead::Reference(c) => (
                            Ok(crate::store::cell_at(o.w.store, c)),
                            o.env,
                            o.w,
                        ),
                        ValueHead::MutReference(c) => (
                            Ok(crate::store::cell_at(o.w.store, c)),
                            o.env,
                            o.w,
                        ),
                        _ => (
                            Err(
                                panicked(
                                    RuntimeErrorCode::R0003,
                                    "assign: not a pointer"@,
                                    span.deep_view(),
                                ),
                            ),
                            o.env,
                            o.w,
                        ),
                    },
                    Ok(_) => (Err(StopModel::Undefined), o.env, o.w),
                }
            },
            TypedPlace::Field { object, field, span } => {
                let (r, e, v) = place_run(*object, env, rt, w, k);
                match r {
                    Err(_) => (r, e, v),
                    Ok(x) => (place_field(x, field@, span.deep_view()), e, v),
                }
            },
            TypedPlace::Tuple { object, index, span } => {
                let (r, e, v) = place_run(*object, env, rt, w, k);
                match r {
                    Err(_) => (r, e, v),
                    Ok(x) => (place_element(x, index, span.deep_view()), e, v),
                }
            },
            TypedPlace::Index { object, index, span } => {
                let (r, e, v) = place_run(*object, env, rt, w, k);
                match r {
                    Err(_) => (r, e, v),
                    Ok(x) => {
                        let o = expr_run(*index, e, rt, v, k);
                        match o.r {
                            Err(stop) => (Err(stop), o.env, o.w),
                            Ok(SignalModel::Value(idx)) => (
                                place_item(o.w.store, x, idx, span.deep_view()),
                                o.env,
                                o.w,
                            ),
                            Ok(_) => (Err(StopModel::Undefined), o.env, o.w),
                        }
                    },
                }
            },
        }
    }
}

/// An assignment of a value that has been computed.
pub open spec fn target_assigned(
    target: TypedPlace,
    op: AssignOp,
    rhs: ValueTerm,
    span: SpanModel,
    env: EnvModel,
    rt: RuntimeModel,
    w: World,
    n: nat,
) -> Out
    decreases n, 11int, 0int,
{
    match target {
        TypedPlace::Ident(name, binding, ident_span) => variable_assigned(
            name@,
            binding,
            ident_span.deep_view(),
            op,
            rhs,
            span,
            env,
            rt,
            w,
        ),
        TypedPlace::Deref { object, span: tspan } => {
            let o = expr_run(*object, env, rt, w, n);
            match o.r {
                Ok(SignalModel::Value(p)) => referent_assigned(
                    p,
                    tspan.deep_view(),
                    op,
                    rhs,
                    span,
                    o.env,
                    o.w,
                    n,
                ),
                _ => o,
            }
        },
        TypedPlace::Index { object, index, span: tspan } => {
            let (r, e, v) = place_run(*object, env, rt, w, n);
            match r {
                Err(x) => stop(x, e, v),
                Ok(raw) => match crate::reach::peeled(v.store, raw, tspan.deep_view(), n) {
                    Err(x) => stop(x, e, v),
                    Ok(arr) => {
                        let o = expr_run(*index, e, rt, v, n);
                        match o.r {
                            Ok(SignalModel::Value(idx)) => element_assigned(
                                arr,
                                idx,
                                op,
                                rhs,
                                span,
                                o.env,
                                o.w,
                            ),
                            _ => o,
                        }
                    },
                },
            }
        },
        TypedPlace::Field { object: _, field: _, span: tspan } => rooted_assigned(
            target,
            tspan.deep_view(),
            op,
            rhs,
            span,
            env,
            rt,
            w,
            n,
        ),
        TypedPlace::Tuple { object: _, index: _, span: tspan } => rooted_assigned(
            target,
            tspan.deep_view(),
            op,
            rhs,
            span,
            env,
            rt,
            w,
            n,
        ),
    }
}

/// An assignment to a part of what a place holds.
pub open spec fn rooted_assigned(
    target: TypedPlace,
    tspan: SpanModel,
    op: AssignOp,
    rhs: ValueTerm,
    span: SpanModel,
    env: EnvModel,
    rt: RuntimeModel,
    w: World,
    n: nat,
) -> Out
    decreases n, 10int, 0int,
{
    match place_root(target, tspan, env, rt, w, n) {
        (Err(x), e, v) => stop(x, e, v),
        (Ok((c, path)), e, v) => part_assigned(c, path, tspan, op, rhs, span, e, v, n),
    }
}

pub open spec fn assign_run(
    target: TypedPlace,
    op: AssignOp,
    value: TypedExpr,
    span: SpanModel,
    env: EnvModel,
    rt: RuntimeModel,
    w: World,
    n: nat,
) -> Out
    decreases n, 12int, 0int,
{
    let o = expr_run(value, env, rt, w, n);
    match o.r {
        Ok(SignalModel::Value(v)) => target_assigned(target, op, v, span, o.env, rt, o.w, n),
        _ => o,
    }
}

/// The method that a call finds on a value.
pub open spec fn found_method(
    dispatch: MethodDispatch,
    rt: RuntimeModel,
    v: ValueTerm,
    name: Seq<char>,
) -> Option<MethodModel> {
    let by_aspect = match dispatch {
        MethodDispatch::Aspect { aspect_id } => {
            let wanted = WantedModel::OfAspect(aspect_id);
            let of_type = match crate::runtime::type_id_of(rt, v) {
                Some(id) => crate::runtime::from_impls(
                    crate::runtime::type_entry(rt, id).impls,
                    wanted,
                    name,
                ),
                None => None,
            };
            if of_type is Some {
                of_type
            } else {
                match crate::runtime_types::pattern_of(v) {
                    Some(p) => crate::runtime::from_impls(
                        crate::table::list_at(rt.pattern_impls, p),
                        wanted,
                        name,
                    ),
                    None => None,
                }
            }
        },
        _ => None,
    };
    if by_aspect is Some {
        by_aspect
    } else {
        crate::runtime::method_of(rt, v, name)
    }
}

/// The cell at the end of a chain of references that starts in a cell.
pub open spec fn chain_end(s: StoreModel, c: CellId, n: nat) -> Option<CellId>
    decreases n,
{
    match crate::reach::direct_cell(crate::store::cell_at(s, c).head) {
        None => Some(c),
        Some(d) => if n == 0 {
            None
        } else {
            chain_end(s, d, (n - 1) as nat)
        },
    }
}

/// The variable and the fields that a field expression leads through.
pub open spec fn field_chain(e: TypedExpr) -> Option<(Seq<char>, Seq<Seq<char>>)>
    decreases e,
{
    match e {
        TypedExpr::Ident(name, _, _, _) => Some((name@, Seq::empty())),
        TypedExpr::FieldAccess { object, field, ty, span } => match field_chain(*object) {
            Some((root, path)) => Some((root, path.push(field@))),
            None => None,
        },
        _ => None,
    }
}

/// Whether a value is a struct or a variant.
pub open spec fn nominal(h: ValueHead) -> bool {
    h is Struct || h is Enum
}

/// What fields, from `i` on, lead to through structs and variants.
pub open spec fn chain_value(v: ValueTerm, path: Seq<Seq<char>>, i: int) -> Option<ValueTerm>
    decreases path.len() - i,
{
    if i < 0 || i >= path.len() {
        Some(v)
    } else if nominal(v.head) {
        match crate::values::field_of(v, path[i]) {
            Some(x) => chain_value(x, path, i + 1),
            None => None,
        }
    } else {
        None
    }
}

/// For a receiver that is a field: the cell of the struct that it is in, the
/// fields that lead to it, and what is there.
pub open spec fn field_receiver(e: TypedExpr, env: EnvModel, s: StoreModel) -> Option<
    (CellId, Seq<Seq<char>>, ValueTerm),
> {
    match field_chain(e) {
        None => None,
        Some((root, path)) => match crate::copying::name_cell(env.scopes, root) {
            None => None,
            Some(c) => {
                let owner = match crate::store::cell_at(s, c).head {
                    ValueHead::Reference(d) => d,
                    ValueHead::MutReference(d) => d,
                    _ => c,
                };
                match chain_value(crate::store::cell_at(s, owner), path, 0) {
                    Some(x) => Some((owner, path, x)),
                    None => None,
                }
            },
        },
    }
}

/// A struct or variant with a field that has another value, or is new.
pub open spec fn with_field(v: ValueTerm, f: Seq<char>, x: ValueTerm) -> ValueTerm {
    let labels = crate::values::field_labels(v.head)->0;
    let i = crate::values::label_at(labels, f, 0);
    if i < labels.len() {
        ValueTerm { head: v.head, args: v.args.update(i, x) }
    } else {
        ValueTerm {
            head: match v.head {
                ValueHead::Struct(name, id, _) => ValueHead::Struct(name, id, labels.push(f)),
                ValueHead::Enum(name, id, variant, vid, _) => ValueHead::Enum(
                    name,
                    id,
                    variant,
                    vid,
                    labels.push(f),
                ),
                h => h,
            },
            args: v.args.push(x),
        }
    }
}

/// A value after the field that fields, from `i` on, lead to has been given
/// another value. There is none where a field on the way is missing; what is no
/// struct or variant stays as it is.
pub open spec fn chain_written(v: ValueTerm, path: Seq<Seq<char>>, i: int, x: ValueTerm) -> Option<
    ValueTerm,
>
    decreases path.len() - i,
{
    if i < 0 || i >= path.len() || !nominal(v.head) {
        Some(v)
    } else if i == path.len() - 1 {
        Some(with_field(v, path[i], x))
    } else {
        let labels = crate::values::field_labels(v.head)->0;
        let at = crate::values::label_at(labels, path[i], 0);
        if at < labels.len() {
            match chain_written(v.args[at], path, i + 1, x) {
                Some(y) => Some(ValueTerm { head: v.head, args: v.args.update(at, y) }),
                None => None,
            }
        } else {
            None
        }
    }
}

/// How the receiver of a call is handed over, and where it is written back to.
pub struct HandedModel {
    pub receiver: ReceiverModel,
    pub back: Option<(CellId, Seq<Seq<char>>, CellId)>,
    pub store: StoreModel,
}

/// The receiver of a method that takes a reference.
pub open spec fn receiver_handed(
    e: TypedExpr,
    v: ValueTerm,
    view: ValueTerm,
    env: EnvModel,
    rt: RuntimeModel,
    s: StoreModel,
    n: nat,
) -> Option<HandedModel> {
    let direct = HandedModel {
        receiver: match crate::reach::direct_cell(v.head) {
            Some(c) => ReceiverModel::Shared(c),
            None => ReceiverModel::Value(view),
        },
        back: None,
        store: s,
    };
    match e {
        TypedExpr::Ident(name, binding, _, _) => match identified_cell(name@, binding, env, rt) {
            Some(c) => match chain_end(s, c, n) {
                Some(d) => Some(
                    HandedModel { receiver: ReceiverModel::Shared(d), back: None, store: s },
                ),
                None => None,
            },
            None => Some(
                HandedModel { receiver: ReceiverModel::Value(view), back: None, store: s },
            ),
        },
        TypedExpr::FieldAccess { object, field, ty, span } => match field_receiver(e, env, s) {
            Some((owner, path, x)) => {
                let (t, leaf) = crate::store::cell_made(s, x);
                Some(
                    HandedModel {
                        receiver: ReceiverModel::Shared(leaf),
                        back: Some((owner, path, leaf)),
                        store: t,
                    },
                )
            },
            None => Some(direct),
        },
        _ => Some(direct),
    }
}

/// The store after a receiver that is a field has been written back.
pub open spec fn written_back(
    back: Option<(CellId, Seq<Seq<char>>, CellId)>,
    s: StoreModel,
) -> Option<
    StoreModel,
> {
    match back {
        None => Some(s),
        Some((owner, path, leaf)) => match chain_written(
            crate::store::cell_at(s, owner),
            path,
            0,
            crate::store::cell_at(s, leaf),
        ) {
            Some(v) => Some(crate::store::cell_set(s, owner, v)),
            None => None,
        },
    }
}

/// The types that expressions have.
pub open spec fn expr_types(es: Seq<Rc<TypedExpr>>) -> Seq<Term> {
    Seq::new(es.len(), |i: int| expr_type(*es[i]))
}

/// The type that an expression has.
pub open spec fn expr_type(e: TypedExpr) -> Term {
    match e {
        TypedExpr::Literal(_, ty, _) => ty.deep_view(),
        TypedExpr::Ident(_, _, ty, _) => ty.deep_view(),
        TypedExpr::Path(_, ty, _) => ty.deep_view(),
        TypedExpr::Tuple(_, ty, _) => ty.deep_view(),
        TypedExpr::Array(_, ty, _) => ty.deep_view(),
        TypedExpr::RecordLiteral { fields, ty, span } => ty.deep_view(),
        TypedExpr::RepeatArray(_, _, ty, _) => ty.deep_view(),
        TypedExpr::BinOp(_, _, _, ty, _) => ty.deep_view(),
        TypedExpr::RefTemp { init, mutable, ty, span } => ty.deep_view(),
        TypedExpr::UnaryOp(_, _, ty, _) => ty.deep_view(),
        TypedExpr::Cast { expr, target_type, ty, span } => ty.deep_view(),
        TypedExpr::TupleAccess { object, index, ty, span } => ty.deep_view(),
        TypedExpr::Index { object, index, ty, span } => ty.deep_view(),
        TypedExpr::If { condition, then_branch, else_branch, ty, span } => ty.deep_view(),
        TypedExpr::Loop { body, ty, span } => ty.deep_view(),
        TypedExpr::Match(m) => m.ty.deep_view(),
        TypedExpr::SingletonCoerce { inner, field, ty, span } => ty.deep_view(),
        TypedExpr::DynCoerce { inner, aspect_id, aspect, type_args, span } => Term {
            head: crate::term::Head::Dyn(aspect@),
            args: type_args.deep_view(),
        },
        TypedExpr::Return(_, _) => crate::term::leaf(crate::term::Head::Never),
        TypedExpr::Break(_, _) => crate::term::leaf(crate::term::Head::Never),
        TypedExpr::Continue(_) => crate::term::leaf(crate::term::Head::Never),
        TypedExpr::Assign { target, op, value, span } => crate::term::leaf(
            crate::term::Head::Unit,
        ),
        TypedExpr::StructLiteral { path, fields, type_id, variant_id, ty, span } => ty.deep_view(),
        TypedExpr::FieldAccess { object, field, ty, span } => ty.deep_view(),
        TypedExpr::MethodCall { receiver, method, args, ty, dispatch, span } => ty.deep_view(),
        TypedExpr::Call { callee, args, ty, callee_id, span } => ty.deep_view(),
        TypedExpr::Closure(c) => match c.ty {
            Some(ty) => ty.deep_view(),
            None => crate::term::leaf(crate::term::Head::Never),
        },
    }
}

/// A call of a method that has been found.
pub open spec fn method_applied(
    m: MethodModel,
    receiver: TypedExpr,
    recv: ValueTerm,
    view: ValueTerm,
    name: Seq<char>,
    vs: Seq<ValueTerm>,
    static_args: Seq<Term>,
    expected: Term,
    span: SpanModel,
    env: EnvModel,
    rt: RuntimeModel,
    w: World,
    n: nat,
) -> Out
    decreases n, 11int, 0int,
{
    match m.receiver {
        None => stop(
            panicked(
                RuntimeErrorCode::R0009,
                "runtime method `"@ + name + "` is not callable with a receiver"@,
                span,
            ),
            env,
            w,
        ),
        Some(ReceiverKind::Value) => {
            let c = method_called(
                m.body,
                ReceiverModel::Value(view),
                vs,
                Some(static_args),
                Some(expr_type(receiver)),
                Some(expected),
                span,
                rt,
                w,
                n,
            );
            Out { r: c.r, env, w: c.w }
        },
        Some(_) => match receiver_handed(receiver, recv, view, env, rt, w.store, n) {
            None => stop(StopModel::Endless, env, w),
            Some(h) => {
                let c = method_called(
                    m.body,
                    h.receiver,
                    vs,
                    Some(static_args),
                    Some(expr_type(receiver)),
                    Some(expected),
                    span,
                    rt,
                    crate::machine::stored(w, h.store),
                    n,
                );
                match c.r {
                    Err(e) => stop(e, env, c.w),
                    Ok(r) => match written_back(h.back, c.w.store) {
                        None => stop(StopModel::Undefined, env, c.w),
                        Some(t) => Out { r: Ok(r), env, w: crate::machine::stored(c.w, t) },
                    },
                }
            },
        },
    }
}

pub open spec fn method_run(
    receiver: TypedExpr,
    name: Seq<char>,
    args: Seq<Rc<TypedExpr>>,
    expected: Term,
    dispatch: MethodDispatch,
    span: SpanModel,
    env: EnvModel,
    rt: RuntimeModel,
    w: World,
    n: nat,
) -> Out
    decreases n, 12int, 0int,
{
    let o = expr_run(receiver, env, rt, w, n);
    match o.r {
        Ok(SignalModel::Value(recv)) => match list_run(
            args,
            0,
            Seq::empty(),
            o.env,
            rt,
            o.w,
            n,
        ) {
            (Err(r), e, v) => Out { r, env: e, w: v },
            (Ok(vs), e, v) => match crate::reach::peeled(v.store, recv, span, n) {
                Err(x) => stop(x, e, v),
                Ok(view) => match found_method(dispatch, rt, view, name) {
                    None => stop(
                        panicked(
                            RuntimeErrorCode::R0009,
                            "method `"@ + name + "` not found on this value"@,
                            span,
                        ),
                        e,
                        v,
                    ),
                    Some(m) => method_applied(
                        m,
                        receiver,
                        recv,
                        view,
                        name,
                        vs,
                        expr_types(args),
                        expected,
                        span,
                        e,
                        rt,
                        v,
                        n,
                    ),
                },
            },
        },
        _ => o,
    }
}

/// How an identity is written.
pub open spec fn id_text(id: SymbolId) -> Seq<char> {
    "SymbolId("@ + crate::text::decimal(id.0 as nat) + ")"@
}

/// The function that a call calls: by its identity where that is known, or else
/// what the callee comes to.
pub open spec fn callee_run(
    callee: TypedExpr,
    callee_id: Option<SymbolId>,
    env: EnvModel,
    rt: RuntimeModel,
    w: World,
    n: nat,
) -> Out
    decreases n, 9int, 0int,
{
    match callee_id {
        None => expr_run(callee, env, rt, w, n),
        Some(id) => match rt.symbol_values.get(id) {
            Some(v) => val(v, env, w),
            None => if id.0 >= OVERLOAD_SYM_START {
                stop(
                    internal("no runtime value registered for overload symbol "@ + id_text(id)),
                    env,
                    w,
                )
            } else if rt.variables.contains(id) {
                expr_run(callee, env, rt, w, n)
            } else {
                stop(
                    internal("no runtime value registered for callable symbol "@ + id_text(id)),
                    env,
                    w,
                )
            },
        },
    }
}

/// The store after the closure of a function has been made and put where its name
/// is.
pub open spec fn function_made(f: TypedFunDecl, env: EnvModel, s: StoreModel) -> Result<
    StoreModel,
    StopModel,
> {
    match f.body {
        FunBody::Native(_) => Err(internal("native function in nested declaration position"@)),
        _ => {
            let ctx = if f.body is Generic {
                env.type_ctx
            } else {
                None
            };
            let (t, id) = crate::store::closure_made(
                s,
                ClosureModel {
                    code: ClosureCode::Fun(Rc::new(f), ctx),
                    captured: env,
                    in_call: false,
                },
            );
            let v = crate::values::plain(ValueHead::Callable(CallableModel::Closure(id)));
            match crate::copying::name_cell(env.scopes, f.name@) {
                None => Ok(t),
                Some(c) => Ok(crate::store::cell_set(t, c, v)),
            }
        },
    }
}

/// A function that is called before its declaration has run is made then.
pub open spec fn callee_made(
    callee: TypedExpr,
    v: ValueTerm,
    env: EnvModel,
    w: World,
) -> Out {
    match (v.head, callee) {
        (ValueHead::Unit, TypedExpr::Ident(name, Some(BindingId::Local(id)), _, _)) => {
            match crate::environment::waiting(env.pending, id) {
                None => val(v, env, w),
                Some(f) => {
                    let taken = EnvModel {
                        pending: crate::environment::no_longer_waiting(env.pending, id),
                        ..env
                    };
                    match function_made(f, taken, w.store) {
                        Err(e) => stop(e, taken, w),
                        Ok(s) => {
                            let by_id = held(s, crate::assoc::entry(taken.frame, id));
                            let by_name = held(
                                s,
                                crate::copying::name_cell(taken.scopes, name@),
                            );
                            val(
                                if by_id is Some {
                                    by_id->0
                                } else if by_name is Some {
                                    by_name->0
                                } else {
                                    crate::values::unit_term()
                                },
                                taken,
                                crate::machine::stored(w, s),
                            )
                        },
                    }
                },
            }
        },
        _ => val(v, env, w),
    }
}

pub open spec fn call_run(
    callee: TypedExpr,
    args: Seq<Rc<TypedExpr>>,
    expected: Term,
    callee_id: Option<SymbolId>,
    span: SpanModel,
    env: EnvModel,
    rt: RuntimeModel,
    w: World,
    n: nat,
) -> Out
    decreases n, 12int, 0int,
{
    let o = callee_run(callee, callee_id, env, rt, w, n);
    match o.r {
        Ok(SignalModel::Value(first)) => {
            let m = callee_made(callee, first, o.env, o.w);
            match m.r {
                Ok(SignalModel::Value(f)) => match list_run(
                    args,
                    0,
                    Seq::empty(),
                    m.env,
                    rt,
                    m.w,
                    n,
                ) {
                    (Err(r), e, v) => Out { r, env: e, w: v },
                    (Ok(vs), e, v) => {
                        let c = value_called(
                            f,
                            vs,
                            Some(expr_types(args)),
                            Some(expected),
                            span,
                            rt,
                            v,
                            n,
                        );
                        Out { r: c.r, env: e, w: c.w }
                    },
                },
                _ => m,
            }
        },
        _ => o,
    }
}

/// The store and the environment after each function declared among `ds`, from
/// `i` on, has been given a place.
pub open spec fn places_made(ds: Seq<TypedDecl>, i: int, env: EnvModel, s: StoreModel) -> (
    StoreModel,
    EnvModel,
)
    decreases ds.len() - i,
{
    if i < 0 || i >= ds.len() {
        (s, env)
    } else {
        match ds[i] {
            TypedDecl::Fun(f) => {
                let (t, c) = crate::store::cell_made(s, crate::values::unit_term());
                places_made(
                    ds,
                    i + 1,
                    crate::environment::variable_bound(env, f.local_id, f.name@, c),
                    t,
                )
            },
            _ => places_made(ds, i + 1, env, s),
        }
    }
}

/// The store after the functions declared among `ds`, from `i` on, have been made,
/// up to the first that cannot be.
pub open spec fn functions_made(ds: Seq<TypedDecl>, i: int, env: EnvModel, s: StoreModel) -> (
    Result<(), StopModel>,
    StoreModel,
)
    decreases ds.len() - i,
{
    if i < 0 || i >= ds.len() {
        (Ok(()), s)
    } else {
        match ds[i] {
            TypedDecl::Fun(f) => match function_made(*f, env, s) {
                Ok(t) => functions_made(ds, i + 1, env, t),
                Err(e) => (Err(e), s),
            },
            _ => functions_made(ds, i + 1, env, s),
        }
    }
}

/// The environment after each function declared among `ds`, from `i` on, waits to
/// be made.
pub open spec fn functions_waiting(ds: Seq<TypedDecl>, i: int, env: EnvModel) -> EnvModel
    decreases ds.len() - i,
{
    if i < 0 || i >= ds.len() {
        env
    } else {
        match ds[i] {
            TypedDecl::Fun(f) => match f.local_id {
                Some(id) => functions_waiting(
                    ds,
                    i + 1,
                    EnvModel {
                        pending: env.pending.drop_last().push(
                            crate::assoc::put(env.pending.last(), id, *f),
                        ),
                        ..env
                    },
                ),
                None => functions_waiting(ds, i + 1, env),
            },
            _ => functions_waiting(ds, i + 1, env),
        }
    }
}

/// Whether a variable is declared among `ds`.
pub open spec fn declares_variable(ds: Seq<TypedDecl>) -> bool {
    exists|i: int| 0 <= i < ds.len() && ((#[trigger] ds[i]) is Let || ds[i] is Mut)
}

/// The functions of a block, before its declarations run: each has a place, and
/// is made at once where no variable is declared beside it.
pub open spec fn hoisted(ds: Seq<TypedDecl>, env: EnvModel, s: StoreModel) -> (
    Result<(), StopModel>,
    EnvModel,
    StoreModel,
) {
    let (t, e) = places_made(ds, 0, env, s);
    if declares_variable(ds) {
        (Ok(()), functions_waiting(ds, 0, e), t)
    } else {
        let (r, u) = functions_made(ds, 0, e, t);
        (r, e, u)
    }
}

/// What a block comes to.
pub open spec fn block_run(b: TypedBlock, env: EnvModel, rt: RuntimeModel, w: World, n: nat) -> Out
    decreases n, 7int, 0int,
{
    match hoisted(b.stmts@, crate::environment::scope_opened(env), w.store) {
        (Err(e), e1, s) => stop(e, e1, crate::machine::stored(w, s)),
        (Ok(_), e1, s) => {
            let o = decls_run(b.stmts@, 0, e1, rt, crate::machine::stored(w, s), n);
            match o.r {
                Err(_) => o,
                Ok(SignalModel::Value(_)) => {
                    let t = match b.tail {
                        Some(e) => expr_run(*e, o.env, rt, o.w, n),
                        None => unit(o.env, o.w),
                    };
                    Out { env: crate::environment::scope_ended(t.env), ..t }
                },
                Ok(_) => Out { env: crate::environment::scope_ended(o.env), ..o },
            }
        },
    }
}

/// What declarations, from `i` on, come to: the first jump or stop, or the unit
/// value.
pub open spec fn decls_run(
    ds: Seq<TypedDecl>,
    i: int,
    env: EnvModel,
    rt: RuntimeModel,
    w: World,
    n: nat,
) -> Out
    decreases n, 6int, ds.len() - i,
{
    if i < 0 || i >= ds.len() {
        unit(env, w)
    } else {
        let o = decl_run(ds[i], env, rt, w, n);
        match o.r {
            Ok(SignalModel::Value(_)) => decls_run(ds, i + 1, o.env, rt, o.w, n),
            _ => o,
        }
    }
}

/// A variable that is declared.
pub open spec fn binding_run(
    d: TypedBinding,
    env: EnvModel,
    rt: RuntimeModel,
    w: World,
    n: nat,
) -> Out
    decreases n, 1int, 0int,
{
    let o = expr_run(*d.value, env, rt, w, n);
    match o.r {
        Ok(SignalModel::Value(v)) => match crate::environment::variable_defined(
            o.w.store,
            o.env,
            d.local_id,
            d.name@,
            v,
        ) {
            Some((s, e)) => unit(e, crate::machine::stored(o.w, s)),
            None => stop(StopModel::Endless, o.env, o.w),
        },
        _ => o,
    }
}

/// What a declaration comes to.
pub open spec fn decl_run(d: TypedDecl, env: EnvModel, rt: RuntimeModel, w: World, n: nat) -> Out
    decreases n, 5int, 0int,
{
    match d {
        TypedDecl::Let(b) => binding_run(b, env, rt, w, n),
        TypedDecl::Mut(b) => binding_run(b, env, rt, w, n),
        TypedDecl::Fun(f) => match function_made(*f, env, w.store) {
            Ok(s) => unit(env, crate::machine::stored(w, s)),
            Err(e) => stop(e, env, w),
        },
        TypedDecl::Stmt(s) => stmt_run(s, env, rt, w, n),
        _ => unit(env, w),
    }
}

/// What a statement comes to.
pub open spec fn stmt_run(s: TypedStmt, env: EnvModel, rt: RuntimeModel, w: World, n: nat) -> Out
    decreases n, 4int, 0int,
{
    match s {
        TypedStmt::Expr(e) => {
            let o = expr_run(*e, env, rt, w, n);
            match o.r {
                Ok(SignalModel::Value(_)) => unit(o.env, o.w),
                _ => o,
            }
        },
        TypedStmt::While(x) => while_run(*x, env, rt, w, n),
        TypedStmt::For(f) => for_run(*f, env, rt, w, n),
        TypedStmt::ForIn(f) => {
            let o = expr_run(*f.iterable, env, rt, w, n);
            match o.r {
                Ok(SignalModel::Value(v)) => for_in_run(*f, v, o.env, rt, o.w, n),
                _ => o,
            }
        },
    }
}

/// A `while` loop.
pub open spec fn while_run(x: TypedWhile, env: EnvModel, rt: RuntimeModel, w: World, n: nat) -> Out
    decreases n, 3int, 0int,
{
    if n == 0 {
        stop(StopModel::Endless, env, w)
    } else {
        let k = (n - 1) as nat;
        let c = expr_run(*x.condition, env, rt, w, k);
        match c.r {
            Ok(SignalModel::Value(v)) => match v.head {
                ValueHead::Boolean(false) => unit(c.env, c.w),
                ValueHead::Boolean(true) => {
                    let o = block_run(*x.body, c.env, rt, c.w, k);
                    match o.r {
                        Ok(SignalModel::Value(_)) => while_run(x, o.env, rt, o.w, k),
                        Ok(SignalModel::Continue) => while_run(x, o.env, rt, o.w, k),
                        Ok(SignalModel::Break(_)) => unit(o.env, o.w),
                        _ => o,
                    }
                },
                _ => stop(
                    internal(
                        "while: expected boolean condition (typechecker should have caught this)"@,
                    ),
                    c.env,
                    c.w,
                ),
            },
            _ => c,
        }
    }
}

/// The beginning of a `for` loop.
pub open spec fn for_init_run(
    init: Option<TypedForInit>,
    env: EnvModel,
    rt: RuntimeModel,
    w: World,
    n: nat,
) -> Out
    decreases n, 2int, 0int,
{
    match init {
        None => unit(env, w),
        Some(TypedForInit::Let(b)) => binding_run(b, env, rt, w, n),
        Some(TypedForInit::Mut(b)) => binding_run(b, env, rt, w, n),
        Some(TypedForInit::Expr(e)) => {
            let o = expr_run(*e, env, rt, w, n);
            match o.r {
                Ok(_) => unit(o.env, o.w),
                Err(_) => o,
            }
        },
    }
}

/// A `for` loop.
pub open spec fn for_run(f: TypedFor, env: EnvModel, rt: RuntimeModel, w: World, n: nat) -> Out
    decreases n, 3int, 1int,
{
    let o = for_init_run(f.init, crate::environment::scope_opened(env), rt, w, n);
    match o.r {
        Ok(SignalModel::Value(_)) => {
            let r = for_rounds(f, o.env, rt, o.w, n);
            match r.0 {
                true => Out { env: crate::environment::scope_ended(r.1.env), ..r.1 },
                false => r.1,
            }
        },
        _ => o,
    }
}

/// The rounds of a `for` loop. The first part says whether the loop has been left
/// in order, and not by a stop within it.
pub open spec fn for_rounds(f: TypedFor, env: EnvModel, rt: RuntimeModel, w: World, n: nat) -> (
    bool,
    Out,
)
    decreases n, 3int, 0int,
{
    if n == 0 {
        (false, stop(StopModel::Endless, env, w))
    } else {
        let k = (n - 1) as nat;
        let c = match f.condition {
            Some(e) => expr_run(*e, env, rt, w, k),
            None => val(crate::values::bool_term(true), env, w),
        };
        match c.r {
            Err(_) => (false, c),
            Ok(SignalModel::Value(v)) => match v.head {
                ValueHead::Boolean(false) => (true, unit(c.env, c.w)),
                ValueHead::Boolean(true) => {
                    let o = block_run(*f.body, c.env, rt, c.w, k);
                    match o.r {
                        Err(_) => (false, o),
                        Ok(SignalModel::Break(_)) => (true, unit(o.env, o.w)),
                        Ok(SignalModel::Return(_)) => (true, o),
                        Ok(_) => match f.step {
                            None => for_rounds(f, o.env, rt, o.w, k),
                            Some(e) => {
                                let s = expr_run(*e, o.env, rt, o.w, k);
                                match s.r {
                                    Err(_) => (false, s),
                                    Ok(_) => for_rounds(f, s.env, rt, s.w, k),
                                }
                            },
                        },
                    }
                },
                _ => (
                    true,
                    stop(
                        internal(
                            "for: expected boolean condition (typechecker should have caught this)"@,
                        ),
                        c.env,
                        c.w,
                    ),
                ),
            },
            Ok(_) => (true, c),
        }
    }
}

/// One round of a `for`-`in` loop. The first part says whether the loop goes on.
pub open spec fn round_run(
    f: TypedForIn,
    item: ValueTerm,
    env: EnvModel,
    rt: RuntimeModel,
    w: World,
    n: nat,
) -> (bool, Out)
    decreases n, 8int, 0int,
{
    match crate::environment::variable_defined(
        w.store,
        crate::environment::scope_opened(env),
        f.binding_id,
        f.binding@,
        item,
    ) {
        None => (false, stop(StopModel::Endless, crate::environment::scope_opened(env), w)),
        Some((s, e)) => {
            let o = block_run(*f.body, e, rt, crate::machine::stored(w, s), n);
            let closed = crate::environment::scope_ended(o.env);
            match o.r {
                Err(_) => (false, o),
                Ok(SignalModel::Break(_)) => (false, unit(closed, o.w)),
                Ok(SignalModel::Return(_)) => (false, Out { env: closed, ..o }),
                Ok(_) => (true, unit(closed, o.w)),
            }
        },
    }
}

/// A `for`-`in` loop over values, from `i` on.
pub open spec fn items_run(
    f: TypedForIn,
    items: Seq<ValueTerm>,
    i: int,
    env: EnvModel,
    rt: RuntimeModel,
    w: World,
    n: nat,
) -> Out
    decreases n, 9int, items.len() - i,
{
    if i < 0 || i >= items.len() {
        unit(env, w)
    } else {
        let (goes_on, o) = round_run(f, items[i], env, rt, w, n);
        if goes_on {
            items_run(f, items, i + 1, o.env, rt, o.w, n)
        } else {
            o
        }
    }
}

/// A `for`-`in` loop over the numbers from one up to another, which is left out.
pub open spec fn range_run(
    f: TypedForIn,
    from: int,
    to: int,
    env: EnvModel,
    rt: RuntimeModel,
    w: World,
    n: nat,
) -> Out
    decreases n, 9int, to - from,
{
    if from >= to {
        unit(env, w)
    } else {
        let (goes_on, o) = round_run(
            f,
            crate::values::int_term(IntKind::I64, from),
            env,
            rt,
            w,
            n,
        );
        if goes_on {
            range_run(f, from + 1, to, o.env, rt, o.w, n)
        } else {
            o
        }
    }
}

/// A bound of a range.
pub open spec fn range_bound(v: ValueTerm, f: Seq<char>) -> Result<int, StopModel> {
    match crate::values::field_of(v, f) {
        Some(ValueTerm { head: ValueHead::Int(IntKind::I64, k), args: _ }) => Ok(k),
        _ => Err(internal("range: missing or non-Int field `"@ + f + "`"@)),
    }
}

/// What the next value of an iteration is, if there is one.
pub open spec fn next_item(v: ValueTerm) -> Result<Option<ValueTerm>, StopModel> {
    match v.head {
        ValueHead::Enum(name, _, variant, _, _) => if name == "Perhaps"@ {
            if variant == "None"@ {
                Ok(None)
            } else {
                match crate::values::field_of(v, "value"@) {
                    Some(x) => Ok(Some(x)),
                    None => Ok(Some(crate::values::unit_term())),
                }
            }
        } else {
            Err(internal("Iterable::next: expected Perhaps value"@))
        },
        _ => Err(internal("Iterable::next: expected Perhaps value"@)),
    }
}

/// A `for`-`in` loop over what a method gives, as long as it gives something.
pub open spec fn iteration_run(
    f: TypedForIn,
    next: CallableModel,
    cell: CellId,
    env: EnvModel,
    rt: RuntimeModel,
    w: World,
    n: nat,
) -> Out
    decreases n, 3int, 0int,
{
    if n == 0 {
        stop(StopModel::Endless, env, w)
    } else {
        let k = (n - 1) as nat;
        let c = method_called(
            next,
            ReceiverModel::Shared(cell),
            Seq::empty(),
            None,
            None,
            None,
            f.span.deep_view(),
            rt,
            w,
            k,
        );
        match c.r {
            Err(e) => stop(e, env, c.w),
            Ok(SignalModel::Value(v)) => match next_item(v) {
                Err(e) => stop(e, env, c.w),
                Ok(None) => unit(env, c.w),
                Ok(Some(item)) => {
                    let (goes_on, o) = round_run(f, item, env, rt, c.w, k);
                    if goes_on {
                        iteration_run(f, next, cell, o.env, rt, o.w, k)
                    } else {
                        o
                    }
                },
            },
            Ok(_) => stop(StopModel::Undefined, env, c.w),
        }
    }
}

/// A `for`-`in` loop over a value.
pub open spec fn for_in_run(
    f: TypedForIn,
    raw: ValueTerm,
    env: EnvModel,
    rt: RuntimeModel,
    w: World,
    n: nat,
) -> Out
    decreases n, 3int, 1int,
{
    if n == 0 {
        stop(StopModel::Endless, env, w)
    } else {
        let k = (n - 1) as nat;
        let span = f.span.deep_view();
        match crate::reach::peeled(w.store, raw, span, k) {
            Err(e) => stop(e, env, w),
            Ok(v) => match v.head {
                ValueHead::Array(a) => items_run(
                    f,
                    crate::store::array_at(w.store, a),
                    0,
                    env,
                    rt,
                    w,
                    k,
                ),
                ValueHead::Struct(name, _, _) => if name == "Range"@ || name
                    == "RangeInclusive"@ {
                    match (range_bound(v, "start"@), range_bound(v, "end"@)) {
                        (Err(e), _) => stop(e, env, w),
                        (Ok(_), Err(e)) => stop(e, env, w),
                        (Ok(from), Ok(to)) => range_run(
                            f,
                            from,
                            if name == "Range"@ {
                                to
                            } else {
                                to + 1
                            },
                            env,
                            rt,
                            w,
                            k,
                        ),
                    }
                } else {
                    let next = match crate::runtime::type_id_of(rt, v) {
                        Some(id) => crate::runtime::regular_method(rt, id, "next"@),
                        None => None,
                    };
                    match next {
                        None => stop(
                            panicked(
                                RuntimeErrorCode::R0011,
                                "for-in: `"@ + name
                                    + "` does not implement Iterable (no `next` method)"@,
                                span,
                            ),
                            env,
                            w,
                        ),
                        Some(m) => match crate::copying::value_copied(w.store, v) {
                            None => stop(StopModel::Endless, env, w),
                            Some((s, x)) => {
                                let (t, c) = crate::store::cell_made(s, x);
                                iteration_run(
                                    f,
                                    m.body,
                                    c,
                                    env,
                                    rt,
                                    crate::machine::stored(w, t),
                                    k,
                                )
                            },
                        },
                    }
                },
                _ => stop(
                    panicked(
                        RuntimeErrorCode::R0011,
                        "for-in: expected Array, Range, or Iterable value"@,
                        span,
                    ),
                    env,
                    w,
                ),
            },
        }
    }
}

} // verus!
