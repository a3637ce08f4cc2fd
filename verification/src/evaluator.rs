//! Evaluating expressions.

use crate::ast::Span;
use crate::assoc::set_entry;
use crate::calling::{call_function, eval_call_expr, eval_method_call_expr};
use crate::control::{eval_block, eval_loop, eval_match};
use crate::data::Dup;
use crate::environment::{undefined_error, Stop};
use crate::error::{MetelError, RuntimeErrorCode};
use crate::host::{Event, Host, Reply, Task};
use crate::inspect::inspect;
use crate::literals::{cut, literal_value};
use crate::machine::{Machine, World};
use crate::natives::unexpected;
use crate::operators::{eval_binop, Computed};
use crate::placing::{build_mut_path, eval_assign_expr};
use crate::reach::{peel, read_path};
use crate::runtime::{std_core_lookup, RuntimeRegistry};
use crate::runtime_types::runtime_type_name;
use crate::semantics::{Out, SignalModel};
use crate::sharing::share;
use crate::spelling::concat;
use crate::store::{ClosureCode, ClosureValue, EnvModel, Environment, StoreModel};
use crate::symbols::{SymbolId, VariantId};
use crate::text::{decimal_string, join};
use crate::type_expr::TypeExpr;
use crate::typed_ast::{
    BinOp, BindingId, ClosureBody, TypedBlock, TypedClosure, TypedExpr, UnaryOp,
};
use crate::types::Type;
use crate::values::{CellId, FloatKind, IntKind, RuntimeCallable, Value, ValueTerm};
use std::rc::Rc;
use vstd::prelude::*;
use vstd::string::*;

verus! {

broadcast use {
    crate::machine::lemma_begins,
    crate::machine::lemma_begins_itself,
    crate::machine::lemma_exchanged,
    crate::machine::lemma_nothing_exchanged,
};

/// What an expression comes to: a value, or a jump.
#[derive(Debug)]
pub enum Signal {
    Value(Value),
    Return(Value),
    /// The value is that of a `loop` that is left.
    Break(Value),
    Continue,
}

impl DeepView for Signal {
    type V = SignalModel;

    open spec fn deep_view(&self) -> SignalModel {
        match self {
            Signal::Value(v) => SignalModel::Value(v@),
            Signal::Return(v) => SignalModel::Return(v@),
            Signal::Break(v) => SignalModel::Break(v@),
            Signal::Continue => SignalModel::Continue,
        }
    }
}

impl Signal {
    /// The value of a signal that is one.
    pub fn into_value(self) -> (v: Value)
        requires
            self is Value,
        ensures
            self.deep_view() == SignalModel::Value(v@),
    {
        match self {
            Signal::Value(v) => v,
            _ => Value::Unit,
        }
    }

    /// The value of a signal, or the signal where it is a jump.
    pub fn into_value_or_signal(self) -> (r: Result<Value, Signal>)
        ensures
            match r {
                Ok(v) => self == Signal::Value(v),
                Err(s) => s == self && !(self is Value),
            },
    {
        match self {
            Signal::Value(v) => Ok(v),
            other => Err(other),
        }
    }
}

/// What a signal or a stop says.
pub open spec fn signal_model(r: Result<Signal, Stop>) -> Result<
    SignalModel,
    crate::environment::StopModel,
> {
    match r {
        Ok(s) => Ok(s.deep_view()),
        Err(e) => Err(e.deep_view()),
    }
}

/// What running comes to, and what it leaves behind.
pub open spec fn out_model(r: Result<Signal, Stop>, env: EnvModel, w: World) -> Out {
    Out { r: signal_model(r), env, w }
}

/// What the values of several expressions are.
pub open spec fn list_model(r: Result<Vec<Value>, Result<Signal, Stop>>) -> Result<
    Seq<ValueTerm>,
    Result<SignalModel, crate::environment::StopModel>,
> {
    match r {
        Ok(vs) => Ok(vs.deep_view()),
        Err(other) => Err(signal_model(other)),
    }
}

/// A failure that the type checker should have prevented.
pub(crate) fn internal(message: &str) -> (e: Stop)
    ensures
        e.deep_view() == crate::semantics::internal(message@),
{
    Stop::Error(MetelError::internal(message.to_owned()))
}

/// A failure of the program.
pub(crate) fn panicked(code: RuntimeErrorCode, message: String, span: &Span) -> (e: Stop)
    ensures
        e.deep_view() == crate::semantics::panicked(code, message@, span.deep_view()),
{
    Stop::Error(MetelError::panic(code, message, span))
}

/// A text between two others.
pub(crate) fn wrapped_text(before: &str, text: &str, after: &str) -> (s: String)
    ensures
        s@ == before@ + text@ + after@,
{
    let mut s = before.to_owned();
    s.append(text);
    s.append(after);
    s
}

/// A result as a signal.
pub(crate) fn as_signal(r: Result<Value, Stop>) -> (s: Result<Signal, Stop>)
    ensures
        signal_model(s) == (match crate::reach::reach_model(r) {
            Ok(v) => Ok(SignalModel::Value(v)),
            Err(e) => Err(e),
        }),
{
    match r {
        Ok(v) => Ok(Signal::Value(v)),
        Err(e) => Err(e),
    }
}

/// What a name means.
pub(crate) fn named_value(
    name: &str,
    env: &Environment,
    runtime: &RuntimeRegistry,
    m: &Machine,
) -> (r:
    Option<Value>)
    ensures
        r.deep_view() == crate::semantics::named(name@, env@, runtime@, m.store@),
{
    match env.get(&m.store, name) {
        Some(v) => Some(v),
        None => std_core_lookup(name, runtime),
    }
}

/// What an identifier means.
fn identify(
    name: &String,
    binding: &Option<BindingId>,
    env: &Environment,
    runtime: &RuntimeRegistry,
    m: &Machine,
) -> (r: Option<Value>)
    ensures
        r.deep_view() == crate::semantics::identified(
            name@,
            *binding,
            env@,
            runtime@,
            m.store@,
        ),
{
    match binding {
        Some(BindingId::Local(id)) => match env.get_local(&m.store, *id) {
            Some(v) => {
                return Some(v);
            },
            None => {},
        },
        Some(BindingId::Global(sym)) => {
            match runtime.global_slot(*sym) {
                Some(c) => {
                    return Some(m.store.cell(c));
                },
                None => {},
            }
            match runtime.get_symbol_value(*sym) {
                Some(v) => {
                    return Some(v.dup());
                },
                None => {},
            }
        },
        None => {},
    }
    named_value(name.as_str(), env, runtime, m)
}

/// The cell of an identifier.
pub fn ident_rc(
    name: &str,
    binding: Option<BindingId>,
    env: &Environment,
    runtime: &RuntimeRegistry,
) -> (r: Option<CellId>)
    ensures
        r == crate::semantics::identified_cell(name@, binding, env@, runtime@),
{
    let bound = match binding {
        Some(BindingId::Local(id)) => env.get_local_rc(id),
        Some(BindingId::Global(sym)) => runtime.global_slot(sym),
        None => None,
    };
    match bound {
        Some(c) => Some(c),
        None => env.get_rc(name),
    }
}

fn found_or_undefined(v: Option<Value>, name: &String, span: &Span) -> (r: Result<Signal, Stop>)
    ensures
        forall|env: EnvModel, w: World| #[trigger]
            out_model(r, env, w) == crate::semantics::or_undefined(
                v.deep_view(),
                name@,
                span.deep_view(),
                env,
                w,
            ),
{
    match v {
        Some(v) => Ok(Signal::Value(v)),
        None => Err(Stop::Error(undefined_error(name, span))),
    }
}

fn eval_path(
    path: &Vec<String>,
    span: &Span,
    env: &Environment,
    runtime: &RuntimeRegistry,
    m: &Machine,
) -> (r: Result<Signal, Stop>)
    ensures
        forall|tape: Seq<Event>|
            out_model(r, env@, #[trigger] m.on(tape)) == crate::semantics::path_out(
                path.deep_view(),
                span.deep_view(),
                env@,
                runtime@,
                m.on(tape),
            ),
{
    let ghost segments = path.deep_view();
    assert(segments.len() == path@.len());
    if path.len() == 1 {
        return found_or_undefined(
            named_value(path[0].as_str(), env, runtime, m),
            &path[0],
            span,
        );
    }
    match runtime.resolve_path_value(path) {
        Some(v) => {
            return Ok(Signal::Value(v));
        },
        None => {},
    }
    match env.get(&m.store, join(path, "::").as_str()) {
        Some(v) => {
            return Ok(Signal::Value(v));
        },
        None => {},
    }
    let n: usize = path.len();
    if n == 0 {
        return Err(Stop::Undefined);
    }
    let v = Value::Enum {
        name: path[n - 2].clone(),
        type_id: None,
        variant: path[n - 1].clone(),
        variant_id: None,
        fields: Vec::new(),
    };
    proof {
        assert(v@.args =~= Seq::empty());
        assert(v@.head->Enum_4 =~= Seq::empty());
    }
    Ok(Signal::Value(v))
}

/// Fields with their names.
fn put_fields(fields: &Vec<(String, Rc<TypedExpr>)>, values: &Vec<Value>) -> (r: Vec<
    (String, Value),
>)
    requires
        fields@.len() == values@.len(),
    ensures
        r.deep_view() == crate::semantics::fields_from(
            crate::semantics::field_names(fields@),
            values.deep_view(),
            fields@.len() as int,
        ),
{
    let mut out: Vec<(String, Value)> = Vec::new();
    let ghost names = crate::semantics::field_names(fields@);
    let ghost vs = values.deep_view();
    let mut i: usize = 0;
    proof {
        assert(out.deep_view() =~= Seq::empty());
    }
    while i < fields.len()
        invariant
            i <= fields.len(),
            fields@.len() == values@.len(),
            names == crate::semantics::field_names(fields@),
            vs == values.deep_view(),
            out.deep_view() == crate::semantics::fields_from(names, vs, i as int),
        decreases fields.len() - i,
    {
        assert(vs[i as int] == values@[i as int]@);
        set_entry(&mut out, fields[i].0.clone(), values[i].dup());
        i += 1;
    }
    out
}

/// What a list of fields says, by names and values.
proof fn lemma_fields(fields: Seq<(String, Value)>, deep: Seq<(Seq<char>, ValueTerm)>)
    requires
        fields.len() == deep.len(),
        forall|i: int|
            0 <= i < fields.len() ==> (#[trigger] deep[i]) == (fields[i].0@, fields[i].1@),
    ensures
        crate::types::labels_of(fields) == crate::semantics::names_of(deep),
        crate::values::value_terms(Seq::new(fields.len(), |i: int| fields[i].1))
            == crate::semantics::values_of(deep),
{
    assert(crate::types::labels_of(fields) =~= crate::semantics::names_of(deep));
    assert(crate::values::value_terms(Seq::new(fields.len(), |i: int| fields[i].1))
        =~= crate::semantics::values_of(deep));
}

fn make_record(fields: Vec<(String, Value)>) -> (v: Value)
    ensures
        v@ == crate::semantics::record_term(fields.deep_view()),
{
    let ghost deep = fields.deep_view();
    proof {
        lemma_fields(fields@, deep);
    }
    let v = Value::Record { fields };
    proof {
        assert(v@.args =~= crate::semantics::values_of(deep));
    }
    v
}

fn make_struct(
    path: &Vec<String>,
    type_id: Option<SymbolId>,
    variant_id: Option<VariantId>,
    fields: Vec<(String, Value)>,
) -> (r: Result<Signal, Stop>)
    ensures
        forall|env: EnvModel, w: World| #[trigger]
            out_model(r, env, w) == crate::semantics::struct_out(
                path.deep_view(),
                type_id,
                variant_id,
                fields.deep_view(),
                env,
                w,
            ),
{
    let ghost deep = fields.deep_view();
    proof {
        lemma_fields(fields@, deep);
        assert(path.deep_view().len() == path@.len());
    }
    let n: usize = path.len();
    if n == 2 {
        let v = Value::Enum {
            name: path[0].clone(),
            type_id,
            variant: path[1].clone(),
            variant_id,
            fields,
        };
        proof {
            assert(v@.args =~= crate::semantics::values_of(deep));
        }
        Ok(Signal::Value(v))
    } else if n == 0 {
        Err(internal("struct literal: empty path"))
    } else {
        let v = Value::Struct { name: path[n - 1].clone(), type_id, fields };
        proof {
            assert(v@.args =~= crate::semantics::values_of(deep));
        }
        Ok(Signal::Value(v))
    }
}

fn is_computable(op: BinOp, a: &Value, b: &Value) -> (r: bool)
    ensures
        r == crate::operators::computable(op, a@, b@),
{
    match op {
        BinOp::Rem => match (a, b) {
            (Value::I8(x), Value::I8(y)) => !(*x == -0x80 && *y == -1),
            (Value::I16(x), Value::I16(y)) => !(*x == -0x8000 && *y == -1),
            (Value::I32(x), Value::I32(y)) => !(*x == -0x8000_0000 && *y == -1),
            (Value::I64(x), Value::I64(y)) => !(*x == -0x8000_0000_0000_0000 && *y == -1),
            _ => true,
        },
        _ => true,
    }
}

/// What an operator gives, with the host's help for floating-point arithmetic.
pub fn compute<H: Host>(
    op: BinOp,
    a: Value,
    b: Value,
    span: &Span,
    m: &mut Machine,
    host: &mut H,
) -> (r: Result<Value, Stop>)
    ensures
        crate::machine::begins(old(m).log@, final(m).log@),
        crate::machine::exchanged(
            old(m).log@,
            final(m).log@,
            old(host).history(),
            final(host).history(),
        ),
        final(m).store == old(m).store,
        forall|tape: Seq<Event>|
            crate::machine::begins(final(m).log@, tape) ==> crate::semantics::computed(
                op,
                a@,
                b@,
                span.deep_view(),
                #[trigger] old(m).on(tape),
            ) == (crate::reach::reach_model(r), final(m).on(tape)),
{
    if !is_computable(op, &a, &b) {
        return Err(Stop::Undefined);
    }
    match eval_binop(op, a, b, span) {
        Err(e) => Err(Stop::Error(e)),
        Ok(Computed::Value(v)) => Ok(v),
        Ok(Computed::Float(t)) => float_answer(t.kind, m.ask(host, Task::FloatOp(t))),
    }
}

/// The number that an answer to floating-point arithmetic gives.
pub fn float_answer(kind: FloatKind, reply: Reply) -> (r: Result<Value, Stop>)
    ensures
        crate::semantics::float_answered(kind, Some(reply.deep_view()))
            == crate::reach::reach_model(r),
{
    match reply {
        Reply::Bits(bits) => match kind {
            FloatKind::F64 => Ok(Value::F64(bits)),
            FloatKind::F32 => Ok(Value::F32(bits as u32)),
        },
        _ => Err(unexpected()),
    }
}

fn negate(v: &Value) -> (r: Result<Value, Stop>)
    ensures
        forall|span: crate::ast::SpanModel, s: StoreModel, n: nat| #[trigger]
            crate::semantics::unary_result(UnaryOp::Neg, v@, span, s, n)
                == crate::reach::reach_model(r),
{
    match v {
        Value::I64(n) => Ok(cut(IntKind::I64, -(*n as i128))),
        Value::I8(n) => Ok(cut(IntKind::I8, -(*n as i128))),
        Value::I16(n) => Ok(cut(IntKind::I16, -(*n as i128))),
        Value::I32(n) => Ok(cut(IntKind::I32, -(*n as i128))),
        Value::F64(bits) => Ok(
            Value::F64(
                if *bits >= 0x8000_0000_0000_0000 {
                    *bits - 0x8000_0000_0000_0000
                } else {
                    *bits + 0x8000_0000_0000_0000
                },
            ),
        ),
        Value::F32(bits) => Ok(
            Value::F32(
                if *bits >= 0x8000_0000 {
                    *bits - 0x8000_0000
                } else {
                    *bits + 0x8000_0000
                },
            ),
        ),
        _ => Err(
            internal("unary `-`: expected numeric type (typechecker should have caught this)"),
        ),
    }
}

fn apply_unary(op: UnaryOp, v: &Value, span: &Span, m: &Machine, limit: u64) -> (r: Result<
    Value,
    Stop,
>)
    requires
        !(op is Ref) && !(op is RefMut),
    ensures
        crate::reach::reach_model(r) == crate::semantics::unary_result(
            op,
            v@,
            span.deep_view(),
            m.store@,
            limit as nat,
        ),
{
    match op {
        UnaryOp::Neg => {
            let r = negate(v);
            assert(crate::semantics::unary_result(
                UnaryOp::Neg,
                v@,
                span.deep_view(),
                m.store@,
                limit as nat,
            ) == crate::reach::reach_model(r));
            r
        },
        UnaryOp::Not => match v {
            Value::Boolean(b) => Ok(Value::Boolean(!*b)),
            _ => Err(
                internal("unary `!`: expected boolean (typechecker should have caught this)"),
            ),
        },
        _ => match v {
            Value::Reference(c) | Value::MutReference(c) => Ok(m.store.cell(*c)),
            Value::FieldReference { root, path } => read_path(
                &m.store,
                &m.store.cell(*root),
                path,
                span,
                limit,
            ),
            Value::MutFieldReference { root, path } => read_path(
                &m.store,
                &m.store.cell(*root),
                path,
                span,
                limit,
            ),
            _ => Err(
                internal("unary `*`: expected pointer (typechecker should have caught this)"),
            ),
        },
    }
}

/// Whether an expression names a place.
pub fn is_lvalue_path(e: &TypedExpr) -> (b: bool)
    ensures
        b == crate::semantics::names_place(*e),
    decreases *e,
{
    match e {
        TypedExpr::Ident(_, _, _, _) => true,
        TypedExpr::FieldAccess { object, field: _, ty: _, span: _ } => is_lvalue_path(object),
        TypedExpr::TupleAccess { object, index: _, ty: _, span: _ } => is_lvalue_path(object),
        TypedExpr::Index { object, index: _, ty: _, span: _ } => is_lvalue_path(object),
        TypedExpr::UnaryOp(UnaryOp::Deref, object, _, _) => is_lvalue_path(object),
        _ => false,
    }
}

/// The element of a tuple.
pub(crate) fn take_tuple_part(v: &Value, i: usize, span: &Span) -> (r: Result<Value, Stop>)
    ensures
        crate::reach::reach_model(r) == crate::semantics::tuple_part(v@, i, span.deep_view()),
{
    match v {
        Value::Tuple(items) => if i < items.len() {
            Ok(items[i].dup())
        } else {
            Err(
                panicked(
                    RuntimeErrorCode::R0005,
                    wrapped_text(
                        "tuple index ",
                        decimal_string(i as u128).as_str(),
                        " out of bounds",
                    ),
                    span,
                ),
            )
        },
        _ => Err(internal("tuple access on non-tuple (typechecker should have caught this)")),
    }
}

/// What is said of an index that an array does not have.
pub(crate) fn bounds_error(i: u64, len: usize, span: &Span) -> (e: Stop)
    ensures
        e.deep_view() == crate::semantics::out_of_bounds(i as nat, len as nat, span.deep_view()),
{
    let mut s = "index ".to_owned();
    s.append(decimal_string(i as u128).as_str());
    s.append(" out of bounds (len ");
    s.append(decimal_string(len as u128).as_str());
    s.append(")");
    panicked(RuntimeErrorCode::R0004, s, span)
}

/// The position that an index value stands for.
pub(crate) fn position_of(v: &Value) -> (r: Option<usize>)
    ensures
        r == crate::semantics::index_position(v@),
{
    match v {
        Value::U64(u) => Some(*u as usize),
        _ => None,
    }
}

fn take_array_part(m: &Machine, v: &Value, idx: &Value, span: &Span) -> (r: Result<Value, Stop>)
    ensures
        crate::reach::reach_model(r) == crate::semantics::array_part(
            m.store@,
            v@,
            idx@,
            span.deep_view(),
        ),
{
    let i: usize = match position_of(idx) {
        Some(i) => i,
        None => {
            return Err(
                internal("index: expected u64 index (typechecker should have caught this)"),
            );
        },
    };
    match v {
        Value::Array(a) => {
            let n: usize = m.store.array_len(*a);
            if i < n {
                Ok(m.store.element(*a, i))
            } else {
                Err(bounds_error(i as u64, n, span))
            }
        },
        _ => Err(internal("index: expected Array (typechecker should have caught this)")),
    }
}

fn take_field_part(v: &Value, f: &String, span: &Span) -> (r: Result<Value, Stop>)
    ensures
        crate::reach::reach_model(r) == crate::semantics::field_part(v@, f@, span.deep_view()),
{
    match v.fields() {
        None => Err(
            internal(
                "field access on non-record/struct/enum (typechecker should have caught this)",
            ),
        ),
        Some(_) => match v.field(f.as_str()) {
            Some(x) => Ok(x.dup()),
            None => Err(
                panicked(
                    RuntimeErrorCode::R0008,
                    wrapped_text("no field `", f.as_str(), "` on value"),
                    span,
                ),
            ),
        },
    }
}

fn take_payload(v: &Value, f: &String) -> (r: Result<Value, Stop>)
    ensures
        crate::reach::reach_model(r) == crate::semantics::payload(v@, f@),
{
    match v {
        Value::Enum { name: _, type_id: _, variant: _, variant_id: _, fields: _ } => {
            match v.field(f.as_str()) {
                Some(x) => Ok(x.dup()),
                None => Err(
                    Stop::Error(
                        MetelError::internal(
                            wrapped_text("singleton coercion: missing field `", f.as_str(), "`"),
                        ),
                    ),
                ),
            }
        },
        _ => Err(internal("singleton coercion on non-enum value")),
    }
}

/// The value of a reference to a cell.
pub(crate) fn make_reference(mutable: bool, c: CellId) -> (v: Value)
    ensures
        v@ == crate::semantics::reference_term(mutable, c),
{
    if mutable {
        Value::MutReference(c)
    } else {
        Value::Reference(c)
    }
}

/// A reference taken to what another reference leads to.
fn reborrow(mutable: bool, v: Value, span: &Span, m: &mut Machine) -> (r: Result<Signal, Stop>)
    ensures
        final(m).log == old(m).log,
        forall|tape: Seq<Event>, env: EnvModel|
            crate::semantics::reborrowed(
                mutable,
                v@,
                span.deep_view(),
                env,
                #[trigger] old(m).on(tape),
            ) == #[trigger] out_model(r, env, final(m).on(tape)),
{
    let ghost before = *m;
    let r: Result<Signal, Stop> = if mutable {
        match &v {
            Value::MutReference(_) => Ok(Signal::Value(v)),
            Value::MutFieldReference { root: _, path: _ } => Ok(Signal::Value(v)),
            _ => Err(
                panicked(
                    RuntimeErrorCode::R0003,
                    concat(
                        "cannot take `&var` through a shared reference: ",
                        inspect(&v).as_str(),
                    ),
                    span,
                ),
            ),
        }
    } else {
        match v {
            Value::Reference(c) => Ok(Signal::Value(Value::Reference(c))),
            Value::MutReference(c) => Ok(Signal::Value(Value::Reference(c))),
            Value::FieldReference { root, path } => Ok(
                Signal::Value(Value::FieldReference { root, path }),
            ),
            Value::MutFieldReference { root, path } => Ok(
                Signal::Value(Value::FieldReference { root, path }),
            ),
            other => {
                let c = m.store.make_cell(other);
                Ok(Signal::Value(Value::Reference(c)))
            },
        }
    };
    proof {
        crate::machine::lemma_stored(before, *m);
    }
    r
}

/// The closure value of a closure expression.
fn make_closure_value(c: &Rc<TypedClosure>, env: &Environment, m: &mut Machine) -> (r: Result<
    Signal,
    Stop,
>)
    ensures
        final(m).log == old(m).log,
        forall|tape: Seq<Event>|
            crate::semantics::closure_out(**c, env@, #[trigger] old(m).on(tape)) == out_model(
                r,
                env@,
                final(m).on(tape),
            ),
{
    let ghost before = *m;
    match env.capture_closure(&mut m.store, &c.captures, &c.capture_ids, &c.span) {
        Err(e) => {
            proof {
                crate::machine::lemma_stored(before, *m);
            }
            Err(e)
        },
        Ok(captured) => {
            let ctx = match &c.body {
                ClosureBody::Untyped(_) => env.type_ctx,
                ClosureBody::Typed(_) => None,
            };
            let id = m.store.make_closure(
                ClosureValue {
                    code: ClosureCode::Closure(share(c), ctx),
                    captured,
                    in_call: false,
                },
            );
            proof {
                crate::machine::lemma_stored(before, *m);
            }
            Ok(Signal::Value(Value::Callable(RuntimeCallable::Closure(id))))
        },
    }
}

/// A value seen as an aspect.
fn see_as(
    v: Value,
    aspect_id: SymbolId,
    aspect: &String,
    type_args: &Vec<Type>,
    runtime: &RuntimeRegistry,
    m: &mut Machine,
) -> (r: Result<Signal, Stop>)
    ensures
        final(m).log == old(m).log,
        forall|tape: Seq<Event>, env: EnvModel|
            crate::semantics::seen_as(
                v@,
                aspect_id,
                aspect@,
                type_args.deep_view(),
                env,
                runtime@,
                #[trigger] old(m).on(tape),
            ) == #[trigger] out_model(r, env, final(m).on(tape)),
{
    let ghost before = *m;
    match runtime.resolve_value_type_id(&v) {
        None => Err(internal("dyn Aspect coercion: value has no resolvable concrete type")),
        Some(type_id) => {
            let data = m.store.make_cell(v);
            proof {
                crate::machine::lemma_stored(before, *m);
            }
            Ok(
                Signal::Value(
                    Value::DynAspect {
                        data,
                        type_id,
                        aspect_id,
                        aspect_name: aspect.clone(),
                        type_args: type_args.dup(),
                    },
                ),
            )
        },
    }
}

fn decide(op: BinOp, v: &Value) -> (r: Result<Option<Value>, Stop>)
    requires
        op is And || op is Or,
    ensures
        match r {
            Ok(x) => crate::semantics::decided(op, v@) == Ok::<
                Option<ValueTerm>,
                crate::environment::StopModel,
            >(x.deep_view()),
            Err(e) => crate::semantics::decided(op, v@) == Err::<
                Option<ValueTerm>,
                crate::environment::StopModel,
            >(e.deep_view()),
        },
{
    match v {
        Value::Boolean(b) => match op {
            BinOp::Or => if *b {
                Ok(Some(Value::Boolean(true)))
            } else {
                Ok(None)
            },
            _ => if *b {
                Ok(None)
            } else {
                Ok(Some(Value::Boolean(false)))
            },
        },
        _ => match op {
            BinOp::And => Err(
                internal("&&: expected boolean (typechecker should have caught this)"),
            ),
            _ => Err(internal("||: expected boolean (typechecker should have caught this)")),
        },
    }
}

fn repeat_value(v: &Value, n: u64) -> (r: Vec<Value>)
    ensures
        r.deep_view() == crate::semantics::copies(v@, n as nat),
{
    let mut out: Vec<Value> = Vec::new();
    let mut i: u64 = 0;
    while i < n
        invariant
            i <= n,
            out@.len() == i,
            forall|j: int| 0 <= j < i ==> (#[trigger] out@[j])@ == v@,
        decreases n - i,
    {
        out.push(v.dup());
        i += 1;
    }
    proof {
        assert(out.deep_view() =~= crate::semantics::copies(v@, n as nat));
    }
    out
}

/// The values of expressions, up to the first that jumps or stops.
pub(crate) fn eval_list<H: Host>(
    es: &Vec<Rc<TypedExpr>>,
    env: &mut Environment,
    runtime: &RuntimeRegistry,
    m: &mut Machine,
    host: &mut H,
    fuel: u64,
) -> (r: Result<Vec<Value>, Result<Signal, Stop>>)
    requires
        old(env)@.scopes.len() > 0,
    ensures
        final(env)@.scopes.len() >= old(env)@.scopes.len(),
        crate::machine::begins(old(m).log@, final(m).log@),
        crate::machine::exchanged(
            old(m).log@,
            final(m).log@,
            old(host).history(),
            final(host).history(),
        ),
        forall|tape: Seq<Event>|
            crate::machine::begins(final(m).log@, tape) ==> crate::semantics::list_run(
                es@,
                0,
                Seq::empty(),
                old(env)@,
                runtime@,
                #[trigger] old(m).on(tape),
                fuel as nat,
            ) == (list_model(r), final(env)@, final(m).on(tape)),
    decreases fuel, 1int, 1int,
{
    let ghost begin = env@;
    let ghost start = *m;
    let mut out: Vec<Value> = Vec::new();
    let mut i: usize = 0;
    proof {
        assert(out.deep_view() =~= Seq::empty());
    }
    while i < es.len()
        invariant
            i <= es.len(),
            begin.scopes.len() > 0,
            env@.scopes.len() >= begin.scopes.len(),
            begin == old(env)@,
            start == *old(m),
            crate::machine::begins(start.log@, m.log@),
            crate::machine::exchanged(start.log@, m.log@, old(host).history(), host.history()),
            forall|tape: Seq<Event>|
                crate::machine::begins(m.log@, tape) ==> crate::semantics::list_run(
                    es@,
                    0,
                    Seq::empty(),
                    begin,
                    runtime@,
                    #[trigger] start.on(tape),
                    fuel as nat,
                ) == crate::semantics::list_run(
                    es@,
                    i as int,
                    out.deep_view(),
                    env@,
                    runtime@,
                    m.on(tape),
                    fuel as nat,
                ),
        decreases es.len() - i,
    {
        let v = match eval_expr(&es[i], env, runtime, m, host, fuel) {
            Ok(Signal::Value(v)) => v,
            other => {
                return Err(other);
            },
        };
        let ghost prev = out.deep_view();
        assert(prev.len() == out@.len());
        out.push(v);
        assert(out.deep_view() =~= prev.push(v@));
        i += 1;
    }
    Ok(out)
}

/// The values of fields, up to the first that jumps or stops.
pub(crate) fn eval_field_list<H: Host>(
    fields: &Vec<(String, Rc<TypedExpr>)>,
    env: &mut Environment,
    runtime: &RuntimeRegistry,
    m: &mut Machine,
    host: &mut H,
    fuel: u64,
) -> (r: Result<Vec<Value>, Result<Signal, Stop>>)
    requires
        old(env)@.scopes.len() > 0,
    ensures
        final(env)@.scopes.len() >= old(env)@.scopes.len(),
        crate::machine::begins(old(m).log@, final(m).log@),
        crate::machine::exchanged(
            old(m).log@,
            final(m).log@,
            old(host).history(),
            final(host).history(),
        ),
        r matches Ok(vs) ==> vs@.len() == fields@.len(),
        forall|tape: Seq<Event>|
            crate::machine::begins(final(m).log@, tape) ==> crate::semantics::list_run(
                crate::semantics::field_exprs(fields@),
                0,
                Seq::empty(),
                old(env)@,
                runtime@,
                #[trigger] old(m).on(tape),
                fuel as nat,
            ) == (list_model(r), final(env)@, final(m).on(tape)),
    decreases fuel, 1int, 1int,
{
    let ghost begin = env@;
    let ghost start = *m;
    let mut out: Vec<Value> = Vec::new();
    let mut i: usize = 0;
    proof {
        assert(out.deep_view() =~= Seq::empty());
    }
    while i < fields.len()
        invariant
            i <= fields.len(),
            out@.len() == i,
            begin.scopes.len() > 0,
            env@.scopes.len() >= begin.scopes.len(),
            begin == old(env)@,
            start == *old(m),
            crate::machine::begins(start.log@, m.log@),
            crate::machine::exchanged(start.log@, m.log@, old(host).history(), host.history()),
            forall|tape: Seq<Event>|
                crate::machine::begins(m.log@, tape) ==> crate::semantics::list_run(
                    crate::semantics::field_exprs(fields@),
                    0,
                    Seq::empty(),
                    begin,
                    runtime@,
                    #[trigger] start.on(tape),
                    fuel as nat,
                ) == crate::semantics::list_run(
                    crate::semantics::field_exprs(fields@),
                    i as int,
                    out.deep_view(),
                    env@,
                    runtime@,
                    m.on(tape),
                    fuel as nat,
                ),
        decreases fields.len() - i,
    {
        let v = match eval_expr(&fields[i].1, env, runtime, m, host, fuel) {
            Ok(Signal::Value(v)) => v,
            other => {
                return Err(other);
            },
        };
        let ghost prev = out.deep_view();
        assert(prev.len() == out@.len());
        out.push(v);
        assert(out.deep_view() =~= prev.push(v@));
        i += 1;
    }
    Ok(out)
}

pub(crate) fn eval_tuple<H: Host>(
    es: &Vec<Rc<TypedExpr>>,
    env: &mut Environment,
    runtime: &RuntimeRegistry,
    m: &mut Machine,
    host: &mut H,
    fuel: u64,
) -> (r: Result<Signal, Stop>)
    requires
        old(env)@.scopes.len() > 0,
    ensures
        final(env)@.scopes.len() >= old(env)@.scopes.len(),
        crate::machine::begins(old(m).log@, final(m).log@),
        crate::machine::exchanged(
            old(m).log@,
            final(m).log@,
            old(host).history(),
            final(host).history(),
        ),
        forall|tape: Seq<Event>|
            crate::machine::begins(final(m).log@, tape) ==> crate::semantics::tuple_run(
                es@,
                old(env)@,
                runtime@,
                #[trigger] old(m).on(tape),
                fuel as nat,
            ) == out_model(r, final(env)@, final(m).on(tape)),
    decreases fuel, 12int, 0int,
{
    let vs = match eval_list(es, env, runtime, m, host, fuel) {
        Ok(vs) => vs,
        Err(other) => {
            return other;
        },
    };
    let v = Value::Tuple(vs);
    proof {
        assert(v@.args =~= vs.deep_view());
    }
    Ok(Signal::Value(v))
}

pub(crate) fn eval_array<H: Host>(
    es: &Vec<Rc<TypedExpr>>,
    env: &mut Environment,
    runtime: &RuntimeRegistry,
    m: &mut Machine,
    host: &mut H,
    fuel: u64,
) -> (r: Result<Signal, Stop>)
    requires
        old(env)@.scopes.len() > 0,
    ensures
        final(env)@.scopes.len() >= old(env)@.scopes.len(),
        crate::machine::begins(old(m).log@, final(m).log@),
        crate::machine::exchanged(
            old(m).log@,
            final(m).log@,
            old(host).history(),
            final(host).history(),
        ),
        forall|tape: Seq<Event>|
            crate::machine::begins(final(m).log@, tape) ==> crate::semantics::array_run(
                es@,
                old(env)@,
                runtime@,
                #[trigger] old(m).on(tape),
                fuel as nat,
            ) == out_model(r, final(env)@, final(m).on(tape)),
    decreases fuel, 12int, 0int,
{
    let vs = match eval_list(es, env, runtime, m, host, fuel) {
        Ok(vs) => vs,
        Err(other) => {
            return other;
        },
    };
    let ghost before = *m;
    let a = m.store.make_array(vs);
    proof {
        crate::machine::lemma_stored(before, *m);
    }
    Ok(Signal::Value(Value::Array(a)))
}

pub(crate) fn eval_record<H: Host>(
    fields: &Vec<(String, Rc<TypedExpr>)>,
    env: &mut Environment,
    runtime: &RuntimeRegistry,
    m: &mut Machine,
    host: &mut H,
    fuel: u64,
) -> (r: Result<Signal, Stop>)
    requires
        old(env)@.scopes.len() > 0,
    ensures
        final(env)@.scopes.len() >= old(env)@.scopes.len(),
        crate::machine::begins(old(m).log@, final(m).log@),
        crate::machine::exchanged(
            old(m).log@,
            final(m).log@,
            old(host).history(),
            final(host).history(),
        ),
        forall|tape: Seq<Event>|
            crate::machine::begins(final(m).log@, tape) ==> crate::semantics::record_run(
                fields@,
                old(env)@,
                runtime@,
                #[trigger] old(m).on(tape),
                fuel as nat,
            ) == out_model(r, final(env)@, final(m).on(tape)),
    decreases fuel, 12int, 0int,
{
    let vs = match eval_field_list(fields, env, runtime, m, host, fuel) {
        Ok(vs) => vs,
        Err(other) => {
            return other;
        },
    };
    Ok(Signal::Value(make_record(put_fields(fields, &vs))))
}

pub(crate) fn eval_struct_literal_expr<H: Host>(
    path: &Vec<String>,
    fields: &Vec<(String, Rc<TypedExpr>)>,
    type_id: Option<SymbolId>,
    variant_id: Option<VariantId>,
    env: &mut Environment,
    runtime: &RuntimeRegistry,
    m: &mut Machine,
    host: &mut H,
    fuel: u64,
) -> (r: Result<Signal, Stop>)
    requires
        old(env)@.scopes.len() > 0,
    ensures
        final(env)@.scopes.len() >= old(env)@.scopes.len(),
        crate::machine::begins(old(m).log@, final(m).log@),
        crate::machine::exchanged(
            old(m).log@,
            final(m).log@,
            old(host).history(),
            final(host).history(),
        ),
        forall|tape: Seq<Event>|
            crate::machine::begins(final(m).log@, tape) ==> crate::semantics::struct_run(
                path.deep_view(),
                fields@,
                type_id,
                variant_id,
                old(env)@,
                runtime@,
                #[trigger] old(m).on(tape),
                fuel as nat,
            ) == out_model(r, final(env)@, final(m).on(tape)),
    decreases fuel, 12int, 0int,
{
    let vs = match eval_field_list(fields, env, runtime, m, host, fuel) {
        Ok(vs) => vs,
        Err(other) => {
            return other;
        },
    };
    make_struct(path, type_id, variant_id, put_fields(fields, &vs))
}

pub(crate) fn eval_repeat<H: Host>(
    elem: &TypedExpr,
    count: u64,
    env: &mut Environment,
    runtime: &RuntimeRegistry,
    m: &mut Machine,
    host: &mut H,
    fuel: u64,
) -> (r: Result<Signal, Stop>)
    requires
        old(env)@.scopes.len() > 0,
    ensures
        final(env)@.scopes.len() >= old(env)@.scopes.len(),
        crate::machine::begins(old(m).log@, final(m).log@),
        crate::machine::exchanged(
            old(m).log@,
            final(m).log@,
            old(host).history(),
            final(host).history(),
        ),
        forall|tape: Seq<Event>|
            crate::machine::begins(final(m).log@, tape) ==> crate::semantics::repeat_run(
                *elem,
                count,
                old(env)@,
                runtime@,
                #[trigger] old(m).on(tape),
                fuel as nat,
            ) == out_model(r, final(env)@, final(m).on(tape)),
    decreases fuel, 12int, 0int,
{
    let v = match eval_expr(elem, env, runtime, m, host, fuel) {
        Ok(Signal::Value(v)) => v,
        other => {
            return other;
        },
    };
    let ghost before = *m;
    let items = repeat_value(&v, count);
    let a = m.store.make_array(items);
    proof {
        crate::machine::lemma_stored(before, *m);
    }
    Ok(Signal::Value(Value::Array(a)))
}

pub(crate) fn eval_binop_expr<H: Host>(
    lhs: &TypedExpr,
    op: BinOp,
    rhs: &TypedExpr,
    span: &Span,
    env: &mut Environment,
    runtime: &RuntimeRegistry,
    m: &mut Machine,
    host: &mut H,
    fuel: u64,
) -> (r: Result<Signal, Stop>)
    requires
        old(env)@.scopes.len() > 0,
    ensures
        final(env)@.scopes.len() >= old(env)@.scopes.len(),
        crate::machine::begins(old(m).log@, final(m).log@),
        crate::machine::exchanged(
            old(m).log@,
            final(m).log@,
            old(host).history(),
            final(host).history(),
        ),
        forall|tape: Seq<Event>|
            crate::machine::begins(final(m).log@, tape) ==> crate::semantics::binop_run(
                *lhs,
                op,
                *rhs,
                span.deep_view(),
                old(env)@,
                runtime@,
                #[trigger] old(m).on(tape),
                fuel as nat,
            ) == out_model(r, final(env)@, final(m).on(tape)),
    decreases fuel, 12int, 0int,
{
    let a = match eval_expr(lhs, env, runtime, m, host, fuel) {
        Ok(Signal::Value(v)) => v,
        other => {
            return other;
        },
    };
    match op {
        BinOp::And | BinOp::Or => {
            return match decide(op, &a) {
                Err(e) => Err(e),
                Ok(Some(v)) => Ok(Signal::Value(v)),
                Ok(None) => eval_expr(rhs, env, runtime, m, host, fuel),
            };
        },
        _ => {},
    }
    let b = match eval_expr(rhs, env, runtime, m, host, fuel) {
        Ok(Signal::Value(v)) => v,
        other => {
            return other;
        },
    };
    as_signal(compute(op, a, b, span, m, host))
}

pub(crate) fn eval_ref_temp<H: Host>(
    init: &TypedExpr,
    mutable: bool,
    env: &mut Environment,
    runtime: &RuntimeRegistry,
    m: &mut Machine,
    host: &mut H,
    fuel: u64,
) -> (r: Result<Signal, Stop>)
    requires
        old(env)@.scopes.len() > 0,
    ensures
        final(env)@.scopes.len() >= old(env)@.scopes.len(),
        crate::machine::begins(old(m).log@, final(m).log@),
        crate::machine::exchanged(
            old(m).log@,
            final(m).log@,
            old(host).history(),
            final(host).history(),
        ),
        forall|tape: Seq<Event>|
            crate::machine::begins(final(m).log@, tape) ==> crate::semantics::ref_temp_run(
                *init,
                mutable,
                old(env)@,
                runtime@,
                #[trigger] old(m).on(tape),
                fuel as nat,
            ) == out_model(r, final(env)@, final(m).on(tape)),
    decreases fuel, 12int, 0int,
{
    let v = match eval_expr(init, env, runtime, m, host, fuel) {
        Ok(Signal::Value(v)) => v,
        other => {
            return other;
        },
    };
    let ghost before = *m;
    let c = m.store.make_cell(v);
    proof {
        crate::machine::lemma_stored(before, *m);
    }
    Ok(Signal::Value(make_reference(mutable, c)))
}

pub(crate) fn eval_reference<H: Host>(
    mutable: bool,
    operand: &TypedExpr,
    span: &Span,
    env: &mut Environment,
    runtime: &RuntimeRegistry,
    m: &mut Machine,
    host: &mut H,
    fuel: u64,
) -> (r: Result<Signal, Stop>)
    requires
        old(env)@.scopes.len() > 0,
    ensures
        final(env)@.scopes.len() >= old(env)@.scopes.len(),
        crate::machine::begins(old(m).log@, final(m).log@),
        crate::machine::exchanged(
            old(m).log@,
            final(m).log@,
            old(host).history(),
            final(host).history(),
        ),
        forall|tape: Seq<Event>|
            crate::machine::begins(final(m).log@, tape) ==> crate::semantics::reference_run(
                mutable,
                *operand,
                span.deep_view(),
                old(env)@,
                runtime@,
                #[trigger] old(m).on(tape),
                fuel as nat,
            ) == out_model(r, final(env)@, final(m).on(tape)),
    decreases fuel, 11int, 0int,
{
    match operand {
        TypedExpr::UnaryOp(UnaryOp::Deref, inner, _, _) => {
            let v = match eval_expr(inner, env, runtime, m, host, fuel) {
                Ok(Signal::Value(v)) => v,
                other => {
                    return other;
                },
            };
            reborrow(mutable, v, span, m)
        },
        TypedExpr::Ident(name, binding, _, _) => {
            let found = match ident_rc(name.as_str(), *binding, env, runtime) {
                Some(c) => Some(make_reference(mutable, c)),
                None => None,
            };
            found_or_undefined(found, name, span)
        },
        _ => {
            if !is_lvalue_path(operand) {
                return Err(
                    if mutable {
                        internal("mutable address-of requires an addressable lvalue")
                    } else {
                        internal(
                            "address-of requires an addressable lvalue (identifier, field access, tuple access, or array index)",
                        )
                    },
                );
            }
            let (root, path) = match build_mut_path(operand, span, env, runtime, m, host, fuel) {
                Ok(p) => p,
                Err(other) => {
                    return other;
                },
            };
            let found = match env.get_rc(root.as_str()) {
                Some(c) => Some(
                    if mutable {
                        Value::MutFieldReference { root: c, path }
                    } else {
                        Value::FieldReference { root: c, path }
                    },
                ),
                None => None,
            };
            found_or_undefined(found, &root, span)
        },
    }
}

pub(crate) fn eval_unary<H: Host>(
    op: UnaryOp,
    operand: &TypedExpr,
    span: &Span,
    env: &mut Environment,
    runtime: &RuntimeRegistry,
    m: &mut Machine,
    host: &mut H,
    fuel: u64,
) -> (r: Result<Signal, Stop>)
    requires
        old(env)@.scopes.len() > 0,
    ensures
        final(env)@.scopes.len() >= old(env)@.scopes.len(),
        crate::machine::begins(old(m).log@, final(m).log@),
        crate::machine::exchanged(
            old(m).log@,
            final(m).log@,
            old(host).history(),
            final(host).history(),
        ),
        forall|tape: Seq<Event>|
            crate::machine::begins(final(m).log@, tape) ==> crate::semantics::unary_run(
                op,
                *operand,
                span.deep_view(),
                old(env)@,
                runtime@,
                #[trigger] old(m).on(tape),
                fuel as nat,
            ) == out_model(r, final(env)@, final(m).on(tape)),
    decreases fuel, 12int, 0int,
{
    match op {
        UnaryOp::Ref => {
            return eval_reference(false, operand, span, env, runtime, m, host, fuel);
        },
        UnaryOp::RefMut => {
            return eval_reference(true, operand, span, env, runtime, m, host, fuel);
        },
        _ => {},
    }
    let v = match eval_expr(operand, env, runtime, m, host, fuel) {
        Ok(Signal::Value(v)) => v,
        other => {
            return other;
        },
    };
    as_signal(apply_unary(op, &v, span, m, fuel))
}

pub(crate) fn eval_cast<H: Host>(
    e: &TypedExpr,
    target: &TypeExpr,
    span: &Span,
    env: &mut Environment,
    runtime: &RuntimeRegistry,
    m: &mut Machine,
    host: &mut H,
    fuel: u64,
) -> (r: Result<Signal, Stop>)
    requires
        old(env)@.scopes.len() > 0,
    ensures
        final(env)@.scopes.len() >= old(env)@.scopes.len(),
        crate::machine::begins(old(m).log@, final(m).log@),
        crate::machine::exchanged(
            old(m).log@,
            final(m).log@,
            old(host).history(),
            final(host).history(),
        ),
        forall|tape: Seq<Event>|
            crate::machine::begins(final(m).log@, tape) ==> crate::semantics::cast_run(
                *e,
                *target,
                span.deep_view(),
                old(env)@,
                runtime@,
                #[trigger] old(m).on(tape),
                fuel as nat,
            ) == out_model(r, final(env)@, final(m).on(tape)),
    decreases fuel, 12int, 0int,
{
    let v = match eval_expr(e, env, runtime, m, host, fuel) {
        Ok(Signal::Value(v)) => v,
        other => {
            return other;
        },
    };
    let conversion = match target {
        TypeExpr::Named(name, _) => match runtime_type_name(&v) {
            Some(source) => runtime.get_from_method(name.as_str(), source),
            None => None,
        },
        _ => None,
    };
    match conversion {
        Some(f) => {
            let mut args: Vec<Value> = Vec::new();
            args.push(v);
            proof {
                assert(args.deep_view() =~= seq![v@]);
            }
            call_function(
                Value::Callable(f.body),
                &args,
                None,
                None,
                span,
                runtime,
                m,
                host,
                fuel,
            )
        },
        None => Ok(Signal::Value(v)),
    }
}

pub(crate) fn eval_tuple_access<H: Host>(
    object: &TypedExpr,
    index: usize,
    span: &Span,
    env: &mut Environment,
    runtime: &RuntimeRegistry,
    m: &mut Machine,
    host: &mut H,
    fuel: u64,
) -> (r: Result<Signal, Stop>)
    requires
        old(env)@.scopes.len() > 0,
    ensures
        final(env)@.scopes.len() >= old(env)@.scopes.len(),
        crate::machine::begins(old(m).log@, final(m).log@),
        crate::machine::exchanged(
            old(m).log@,
            final(m).log@,
            old(host).history(),
            final(host).history(),
        ),
        forall|tape: Seq<Event>|
            crate::machine::begins(final(m).log@, tape) ==> crate::semantics::tuple_access_run(
                *object,
                index,
                span.deep_view(),
                old(env)@,
                runtime@,
                #[trigger] old(m).on(tape),
                fuel as nat,
            ) == out_model(r, final(env)@, final(m).on(tape)),
    decreases fuel, 12int, 0int,
{
    let v = match eval_expr(object, env, runtime, m, host, fuel) {
        Ok(Signal::Value(v)) => v,
        other => {
            return other;
        },
    };
    let x = match peel(&m.store, &v, span, fuel) {
        Ok(x) => x,
        Err(e) => {
            return Err(e);
        },
    };
    as_signal(take_tuple_part(&x, index, span))
}

pub(crate) fn eval_index<H: Host>(
    object: &TypedExpr,
    index: &TypedExpr,
    span: &Span,
    env: &mut Environment,
    runtime: &RuntimeRegistry,
    m: &mut Machine,
    host: &mut H,
    fuel: u64,
) -> (r: Result<Signal, Stop>)
    requires
        old(env)@.scopes.len() > 0,
    ensures
        final(env)@.scopes.len() >= old(env)@.scopes.len(),
        crate::machine::begins(old(m).log@, final(m).log@),
        crate::machine::exchanged(
            old(m).log@,
            final(m).log@,
            old(host).history(),
            final(host).history(),
        ),
        forall|tape: Seq<Event>|
            crate::machine::begins(final(m).log@, tape) ==> crate::semantics::index_run(
                *object,
                *index,
                span.deep_view(),
                old(env)@,
                runtime@,
                #[trigger] old(m).on(tape),
                fuel as nat,
            ) == out_model(r, final(env)@, final(m).on(tape)),
    decreases fuel, 12int, 0int,
{
    let v = match eval_expr(object, env, runtime, m, host, fuel) {
        Ok(Signal::Value(v)) => v,
        other => {
            return other;
        },
    };
    let x = match peel(&m.store, &v, span, fuel) {
        Ok(x) => x,
        Err(e) => {
            return Err(e);
        },
    };
    let idx = match eval_expr(index, env, runtime, m, host, fuel) {
        Ok(Signal::Value(v)) => v,
        other => {
            return other;
        },
    };
    as_signal(take_array_part(m, &x, &idx, span))
}

pub(crate) fn eval_field_access<H: Host>(
    object: &TypedExpr,
    field: &String,
    span: &Span,
    env: &mut Environment,
    runtime: &RuntimeRegistry,
    m: &mut Machine,
    host: &mut H,
    fuel: u64,
) -> (r: Result<Signal, Stop>)
    requires
        old(env)@.scopes.len() > 0,
    ensures
        final(env)@.scopes.len() >= old(env)@.scopes.len(),
        crate::machine::begins(old(m).log@, final(m).log@),
        crate::machine::exchanged(
            old(m).log@,
            final(m).log@,
            old(host).history(),
            final(host).history(),
        ),
        forall|tape: Seq<Event>|
            crate::machine::begins(final(m).log@, tape) ==> crate::semantics::field_run(
                *object,
                field@,
                span.deep_view(),
                old(env)@,
                runtime@,
                #[trigger] old(m).on(tape),
                fuel as nat,
            ) == out_model(r, final(env)@, final(m).on(tape)),
    decreases fuel, 12int, 0int,
{
    let v = match eval_expr(object, env, runtime, m, host, fuel) {
        Ok(Signal::Value(v)) => v,
        other => {
            return other;
        },
    };
    let x = match peel(&m.store, &v, span, fuel) {
        Ok(x) => x,
        Err(e) => {
            return Err(e);
        },
    };
    as_signal(take_field_part(&x, field, span))
}

pub(crate) fn eval_if<H: Host>(
    condition: &TypedExpr,
    then_branch: &TypedBlock,
    else_branch: &Option<Rc<TypedBlock>>,
    env: &mut Environment,
    runtime: &RuntimeRegistry,
    m: &mut Machine,
    host: &mut H,
    fuel: u64,
) -> (r: Result<Signal, Stop>)
    requires
        old(env)@.scopes.len() > 0,
    ensures
        final(env)@.scopes.len() >= old(env)@.scopes.len(),
        crate::machine::begins(old(m).log@, final(m).log@),
        crate::machine::exchanged(
            old(m).log@,
            final(m).log@,
            old(host).history(),
            final(host).history(),
        ),
        forall|tape: Seq<Event>|
            crate::machine::begins(final(m).log@, tape) ==> crate::semantics::if_run(
                *condition,
                *then_branch,
                *else_branch,
                old(env)@,
                runtime@,
                #[trigger] old(m).on(tape),
                fuel as nat,
            ) == out_model(r, final(env)@, final(m).on(tape)),
    decreases fuel, 12int, 0int,
{
    let v = match eval_expr(condition, env, runtime, m, host, fuel) {
        Ok(Signal::Value(v)) => v,
        other => {
            return other;
        },
    };
    match v {
        Value::Boolean(true) => eval_block(then_branch, env, runtime, m, host, fuel),
        Value::Boolean(false) => match else_branch {
            Some(b) => eval_block(b, env, runtime, m, host, fuel),
            None => Ok(Signal::Value(Value::Unit)),
        },
        _ => Err(
            internal("if: expected boolean condition (typechecker should have caught this)"),
        ),
    }
}

pub(crate) fn eval_singleton<H: Host>(
    inner: &TypedExpr,
    field: &String,
    env: &mut Environment,
    runtime: &RuntimeRegistry,
    m: &mut Machine,
    host: &mut H,
    fuel: u64,
) -> (r: Result<Signal, Stop>)
    requires
        old(env)@.scopes.len() > 0,
    ensures
        final(env)@.scopes.len() >= old(env)@.scopes.len(),
        crate::machine::begins(old(m).log@, final(m).log@),
        crate::machine::exchanged(
            old(m).log@,
            final(m).log@,
            old(host).history(),
            final(host).history(),
        ),
        forall|tape: Seq<Event>|
            crate::machine::begins(final(m).log@, tape) ==> crate::semantics::singleton_run(
                *inner,
                field@,
                old(env)@,
                runtime@,
                #[trigger] old(m).on(tape),
                fuel as nat,
            ) == out_model(r, final(env)@, final(m).on(tape)),
    decreases fuel, 12int, 0int,
{
    let v = match eval_expr(inner, env, runtime, m, host, fuel) {
        Ok(Signal::Value(v)) => v,
        other => {
            return other;
        },
    };
    as_signal(take_payload(&v, field))
}

pub(crate) fn eval_dyn<H: Host>(
    inner: &TypedExpr,
    aspect_id: SymbolId,
    aspect: &String,
    type_args: &Vec<Type>,
    env: &mut Environment,
    runtime: &RuntimeRegistry,
    m: &mut Machine,
    host: &mut H,
    fuel: u64,
) -> (r: Result<Signal, Stop>)
    requires
        old(env)@.scopes.len() > 0,
    ensures
        final(env)@.scopes.len() >= old(env)@.scopes.len(),
        crate::machine::begins(old(m).log@, final(m).log@),
        crate::machine::exchanged(
            old(m).log@,
            final(m).log@,
            old(host).history(),
            final(host).history(),
        ),
        forall|tape: Seq<Event>|
            crate::machine::begins(final(m).log@, tape) ==> crate::semantics::dyn_run(
                *inner,
                aspect_id,
                aspect@,
                type_args.deep_view(),
                old(env)@,
                runtime@,
                #[trigger] old(m).on(tape),
                fuel as nat,
            ) == out_model(r, final(env)@, final(m).on(tape)),
    decreases fuel, 12int, 0int,
{
    let v = match eval_expr(inner, env, runtime, m, host, fuel) {
        Ok(Signal::Value(v)) => v,
        other => {
            return other;
        },
    };
    see_as(v, aspect_id, aspect, type_args, runtime, m)
}

pub(crate) fn eval_return<H: Host>(
    value: &Option<Rc<TypedExpr>>,
    env: &mut Environment,
    runtime: &RuntimeRegistry,
    m: &mut Machine,
    host: &mut H,
    fuel: u64,
) -> (r: Result<Signal, Stop>)
    requires
        old(env)@.scopes.len() > 0,
    ensures
        final(env)@.scopes.len() >= old(env)@.scopes.len(),
        crate::machine::begins(old(m).log@, final(m).log@),
        crate::machine::exchanged(
            old(m).log@,
            final(m).log@,
            old(host).history(),
            final(host).history(),
        ),
        forall|tape: Seq<Event>|
            crate::machine::begins(final(m).log@, tape) ==> crate::semantics::return_run(
                *value,
                old(env)@,
                runtime@,
                #[trigger] old(m).on(tape),
                fuel as nat,
            ) == out_model(r, final(env)@, final(m).on(tape)),
    decreases fuel, 12int, 0int,
{
    match value {
        None => Ok(Signal::Return(Value::Unit)),
        Some(e) => match eval_expr(e, env, runtime, m, host, fuel) {
            Ok(Signal::Value(v)) => Ok(Signal::Return(v)),
            other => other,
        },
    }
}

pub(crate) fn eval_break<H: Host>(
    value: &Option<Rc<TypedExpr>>,
    env: &mut Environment,
    runtime: &RuntimeRegistry,
    m: &mut Machine,
    host: &mut H,
    fuel: u64,
) -> (r: Result<Signal, Stop>)
    requires
        old(env)@.scopes.len() > 0,
    ensures
        final(env)@.scopes.len() >= old(env)@.scopes.len(),
        crate::machine::begins(old(m).log@, final(m).log@),
        crate::machine::exchanged(
            old(m).log@,
            final(m).log@,
            old(host).history(),
            final(host).history(),
        ),
        forall|tape: Seq<Event>|
            crate::machine::begins(final(m).log@, tape) ==> crate::semantics::break_run(
                *value,
                old(env)@,
                runtime@,
                #[trigger] old(m).on(tape),
                fuel as nat,
            ) == out_model(r, final(env)@, final(m).on(tape)),
    decreases fuel, 12int, 0int,
{
    match value {
        None => Ok(Signal::Break(Value::Unit)),
        Some(e) => match eval_expr(e, env, runtime, m, host, fuel) {
            Ok(Signal::Value(v)) => Ok(Signal::Break(v)),
            other => other,
        },
    }
}

/// Evaluates an expression. Things may nest no deeper than `fuel`, and loops go
/// round no more often.
pub fn eval_expr<H: Host>(
    expr: &TypedExpr,
    env: &mut Environment,
    runtime: &RuntimeRegistry,
    m: &mut Machine,
    host: &mut H,
    fuel: u64,
) -> (r: Result<Signal, Stop>)
    requires
        old(env)@.scopes.len() > 0,
    ensures
        final(env)@.scopes.len() >= old(env)@.scopes.len(),
        crate::machine::begins(old(m).log@, final(m).log@),
        crate::machine::exchanged(
            old(m).log@,
            final(m).log@,
            old(host).history(),
            final(host).history(),
        ),
        forall|tape: Seq<Event>|
            crate::machine::begins(final(m).log@, tape) ==> crate::semantics::expr_run(
                *expr,
                old(env)@,
                runtime@,
                #[trigger] old(m).on(tape),
                fuel as nat,
            ) == out_model(r, final(env)@, final(m).on(tape)),
    decreases fuel, 0int, 0int,
{
    if fuel == 0 {
        return Err(Stop::Endless);
    }
    let k: u64 = fuel - 1;
    match expr {
        TypedExpr::Literal(lit, ty, _) => Ok(Signal::Value(literal_value(lit, ty))),
        TypedExpr::Ident(name, binding, _, span) => {
            let found = identify(name, binding, env, runtime, m);
            found_or_undefined(found, name, span)
        },
        TypedExpr::Path(path, _, span) => eval_path(path, span, env, runtime, m),
        TypedExpr::Tuple(es, _, _) => eval_tuple(es, env, runtime, m, host, k),
        TypedExpr::Array(es, _, _) => eval_array(es, env, runtime, m, host, k),
        TypedExpr::RecordLiteral { fields, ty: _, span: _ } => eval_record(
            fields,
            env,
            runtime,
            m,
            host,
            k,
        ),
        TypedExpr::RepeatArray(elem, count, _, _) => eval_repeat(
            elem,
            *count,
            env,
            runtime,
            m,
            host,
            k,
        ),
        TypedExpr::BinOp(lhs, op, rhs, _, span) => eval_binop_expr(
            lhs,
            *op,
            rhs,
            span,
            env,
            runtime,
            m,
            host,
            k,
        ),
        TypedExpr::RefTemp { init, mutable, ty: _, span: _ } => eval_ref_temp(
            init,
            *mutable,
            env,
            runtime,
            m,
            host,
            k,
        ),
        TypedExpr::UnaryOp(op, operand, _, span) => eval_unary(
            *op,
            operand,
            span,
            env,
            runtime,
            m,
            host,
            k,
        ),
        TypedExpr::Cast { expr: inner, target_type, ty: _, span } => eval_cast(
            inner,
            target_type,
            span,
            env,
            runtime,
            m,
            host,
            k,
        ),
        TypedExpr::TupleAccess { object, index, ty: _, span } => eval_tuple_access(
            object,
            *index,
            span,
            env,
            runtime,
            m,
            host,
            k,
        ),
        TypedExpr::Index { object, index, ty: _, span } => eval_index(
            object,
            index,
            span,
            env,
            runtime,
            m,
            host,
            k,
        ),
        TypedExpr::If { condition, then_branch, else_branch, ty: _, span: _ } => eval_if(
            condition,
            then_branch,
            else_branch,
            env,
            runtime,
            m,
            host,
            k,
        ),
        TypedExpr::Loop { body, ty: _, span: _ } => eval_loop(body, env, runtime, m, host, k),
        TypedExpr::Match(t) => eval_match(t, env, runtime, m, host, k),
        TypedExpr::SingletonCoerce { inner, field, ty: _, span: _ } => eval_singleton(
            inner,
            field,
            env,
            runtime,
            m,
            host,
            k,
        ),
        TypedExpr::DynCoerce { inner, aspect_id, aspect, type_args, span: _ } => eval_dyn(
            inner,
            *aspect_id,
            aspect,
            type_args,
            env,
            runtime,
            m,
            host,
            k,
        ),
        TypedExpr::Return(value, _) => eval_return(value, env, runtime, m, host, k),
        TypedExpr::Break(value, _) => eval_break(value, env, runtime, m, host, k),
        TypedExpr::Continue(_) => Ok(Signal::Continue),
        TypedExpr::Assign { target, op, value, span } => eval_assign_expr(
            target,
            *op,
            value,
            span,
            env,
            runtime,
            m,
            host,
            k,
        ),
        TypedExpr::StructLiteral { path, fields, type_id, variant_id, ty: _, span: _ } => {
            eval_struct_literal_expr(
                path,
                fields,
                *type_id,
                *variant_id,
                env,
                runtime,
                m,
                host,
                k,
            )
        },
        TypedExpr::FieldAccess { object, field, ty: _, span } => eval_field_access(
            object,
            field,
            span,
            env,
            runtime,
            m,
            host,
            k,
        ),
        TypedExpr::MethodCall { receiver, method, args, ty, dispatch, span } => {
            eval_method_call_expr(
                receiver,
                method,
                args,
                ty,
                *dispatch,
                span,
                env,
                runtime,
                m,
                host,
                k,
            )
        },
        TypedExpr::Call { callee, args, ty, callee_id, span } => eval_call_expr(
            callee,
            args,
            ty,
            *callee_id,
            span,
            env,
            runtime,
            m,
            host,
            k,
        ),
        TypedExpr::Closure(c) => make_closure_value(c, env, m),
    }
}

} // verus!
