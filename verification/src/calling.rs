//! Calls.

use crate::ast::{ReceiverKind, Span};
use crate::control::{build_and_set_nested_fun, eval_block};
use crate::data::Dup;
use crate::environment::Stop;
use crate::error::{MetelError, RuntimeErrorCode};
use crate::evaluator::{
    eval_expr, eval_list, ident_rc, internal, panicked, wrapped_text, Signal,
};
use crate::host::{Event, GenericCall, Host, Reply, Task};
use crate::machine::Machine;
use crate::native_keys::NativeFn;
use crate::natives::{finish_native, start_native, unexpected, NativeStep};
use crate::reach::{peel, read_path, receiver_cell_from_value};
use crate::runtime::RuntimeRegistry;
use crate::runtime_types::{runtime_type_pattern, RuntimeMethod};
use crate::semantics::{ReceiverModel, TypedBody, TypingModel};
use crate::sharing::share;
use crate::store::{ClosureCode, Environment, Store};
use crate::symbols::{SymbolId, OVERLOAD_SYM_START};
use crate::text::decimal_string;
use crate::typed_ast::{
    BindingId, ClosureBody, FunBody, GenericBody, MethodDispatch, Param, TypedBlock, TypedExpr,
};
use crate::types::{CallMutation, Type};
use crate::values::{
    field_position, CallableModel, CellId, ClosureId, LocalId, RuntimeCallable, Value, ValueTerm,
};
use std::rc::Rc;
use vstd::prelude::*;
use vstd::string::*;

verus! {

broadcast use {
    crate::machine::lemma_begins,
    crate::machine::lemma_begins_itself,
    crate::machine::lemma_exchanged,
    crate::machine::lemma_nothing_exchanged,
};

/// What a signal or a stop says.
pub open spec fn signal_model(r: Result<Signal, Stop>) -> Result<
    crate::semantics::SignalModel,
    crate::environment::StopModel,
> {
    crate::evaluator::signal_model(r)
}

/// How a receiver is handed over: as a value, or as the cell that holds it.
#[derive(Debug)]
pub enum ReceiverBinding {
    Value(Value),
    Shared(CellId),
}

impl DeepView for ReceiverBinding {
    type V = ReceiverModel;

    open spec fn deep_view(&self) -> ReceiverModel {
        match self {
            ReceiverBinding::Value(v) => ReceiverModel::Value(v@),
            ReceiverBinding::Shared(c) => ReceiverModel::Shared(*c),
        }
    }
}

fn label_of(code: &ClosureCode) -> (r: Option<String>)
    ensures
        r.deep_view() == crate::semantics::code_label(*code),
{
    match code {
        ClosureCode::Closure(c, _) => c.name.dup(),
        ClosureCode::Fun(f, _) => Some(f.name.clone()),
    }
}

fn frame_name(code: &ClosureCode) -> (s: String)
    ensures
        s@ == crate::semantics::frame_label(*code),
{
    match label_of(code) {
        Some(name) => name,
        None => "<closure>".to_owned(),
    }
}

fn params_of(code: &ClosureCode) -> (r: &Vec<Param>)
    ensures
        r@ == crate::semantics::code_params(*code),
{
    match code {
        ClosureCode::Closure(c, _) => &c.params,
        ClosureCode::Fun(f, _) => &f.params,
    }
}

fn param_ids_of(code: &ClosureCode) -> (r: &Vec<Option<LocalId>>)
    ensures
        r@ == crate::semantics::code_param_ids(*code),
{
    match code {
        ClosureCode::Closure(c, _) => &c.param_ids,
        ClosureCode::Fun(f, _) => &f.param_ids,
    }
}

fn id_in(ids: &Vec<Option<LocalId>>, i: usize) -> (r: Option<LocalId>)
    ensures
        r == crate::copying::id_at(ids@, i as int),
{
    if i < ids.len() {
        ids[i]
    } else {
        None
    }
}

fn is_mutating(code: &ClosureCode) -> (b: bool)
    ensures
        b == crate::store::mutating(*code),
{
    match code {
        ClosureCode::Closure(c, _) => match c.call_mutation {
            CallMutation::Mutating => true,
            _ => false,
        },
        ClosureCode::Fun(_, _) => false,
    }
}

/// Binds arguments to the parameters that stand `shift` places further on. The
/// answer is `false` where one contains itself.
fn bind_args(
    store: &mut Store,
    env: &mut Environment,
    code: &ClosureCode,
    args: &Vec<Value>,
    shift: usize,
) -> (b: bool)
    requires
        old(env)@.scopes.len() > 0,
        shift <= 1,
    ensures
        (b, final(store)@, final(env)@) == crate::semantics::args_bound(
            old(store)@,
            old(env)@,
            *code,
            args.deep_view(),
            shift as int,
            0,
        ),
        final(env)@.scopes.len() == old(env)@.scopes.len(),
{
    let params = params_of(code);
    let ids = param_ids_of(code);
    let ghost terms = args.deep_view();
    let ghost all = crate::semantics::args_bound(store@, env@, *code, terms, shift as int, 0);
    let mut i: usize = 0;
    assert(terms.len() == args@.len());
    while i < args.len()
        invariant
            i <= args.len(),
            shift <= 1,
            terms == args.deep_view(),
            terms.len() == args@.len(),
            params@ == crate::semantics::code_params(*code),
            ids@ == crate::semantics::code_param_ids(*code),
            env@.scopes.len() > 0,
            env@.scopes.len() == old(env)@.scopes.len(),
            all == crate::semantics::args_bound(
                old(store)@,
                old(env)@,
                *code,
                terms,
                shift as int,
                0,
            ),
            all == crate::semantics::args_bound(
                store@,
                env@,
                *code,
                terms,
                shift as int,
                i as int,
            ),
        decreases args.len() - i,
    {
        assert(terms[i as int] == args@[i as int]@);
        if params.len() > shift && i < params.len() - shift {
            let at: usize = i + shift;
            if !env.define_binding(store, id_in(ids, at), params[at].name.as_str(), args[i].dup()) {
                return false;
            }
        }
        i += 1;
    }
    true
}

/// Binds a receiver to the first parameter.
fn bind_receiver(
    store: &mut Store,
    env: &mut Environment,
    code: &ClosureCode,
    receiver: ReceiverBinding,
) -> (b: bool)
    requires
        old(env)@.scopes.len() > 0,
    ensures
        (b, final(store)@, final(env)@) == crate::semantics::receiver_bound(
            old(store)@,
            old(env)@,
            *code,
            receiver.deep_view(),
        ),
        final(env)@.scopes.len() == old(env)@.scopes.len(),
{
    let params = params_of(code);
    let ids = param_ids_of(code);
    if params.len() == 0 {
        return true;
    }
    match receiver {
        ReceiverBinding::Value(v) => env.define_binding(
            store,
            id_in(ids, 0),
            params[0].name.as_str(),
            v,
        ),
        ReceiverBinding::Shared(c) => {
            env.define_binding_rc(id_in(ids, 0), params[0].name.as_str(), c);
            true
        },
    }
}

fn receiver_value(store: &Store, receiver: &ReceiverBinding) -> (v: Value)
    ensures
        v@ == crate::semantics::receiver_term(store@, receiver.deep_view()),
{
    match receiver {
        ReceiverBinding::Value(v) => v.dup(),
        ReceiverBinding::Shared(c) => store.cell(*c),
    }
}

/// Calls a host function.
pub(crate) fn call_native<H: Host>(
    fun: NativeFn,
    args: &Vec<Value>,
    span: &Span,
    m: &mut Machine,
    host: &mut H,
    fuel: u64,
) -> (r: Result<Value, Stop>)
    ensures
        crate::machine::begins(old(m).log@, final(m).log@),
        crate::machine::exchanged(
            old(m).log@,
            final(m).log@,
            old(host).history(),
            final(host).history(),
        ),
        forall|tape: Seq<Event>|
            crate::machine::begins(final(m).log@, tape) ==> crate::semantics::native_called(
                fun,
                args.deep_view(),
                span.deep_view(),
                #[trigger] old(m).on(tape),
                fuel as nat,
            ) == (crate::reach::reach_model(r), final(m).on(tape)),
{
    let ghost before = *m;
    let step = start_native(&mut m.store, fun, args, span, fuel);
    proof {
        crate::machine::lemma_stored(before, *m);
    }
    match step {
        NativeStep::Done(r) => r,
        NativeStep::Ask(task) => {
            let reply = m.ask(host, task);
            let ghost middle = *m;
            let r = finish_native(&mut m.store, fun, args, span, reply);
            proof {
                crate::machine::lemma_stored(middle, *m);
            }
            r
        },
    }
}

/// Calls a host function, as part of a profile.
pub(crate) fn call_intrinsic<H: Host>(
    label: &String,
    fun: NativeFn,
    args: &Vec<Value>,
    span: &Span,
    m: &mut Machine,
    host: &mut H,
    fuel: u64,
) -> (r: Result<Signal, Stop>)
    ensures
        crate::machine::begins(old(m).log@, final(m).log@),
        crate::machine::exchanged(
            old(m).log@,
            final(m).log@,
            old(host).history(),
            final(host).history(),
        ),
        forall|tape: Seq<Event>|
            crate::machine::begins(final(m).log@, tape) ==> crate::semantics::intrinsic_called(
                label@,
                fun,
                args.deep_view(),
                span.deep_view(),
                #[trigger] old(m).on(tape),
                fuel as nat,
            ) == (crate::semantics::CallOut { r: signal_model(r), w: final(m).on(tape) }),
{
    m.profiler_enter(host, label.as_str());
    let r = match call_native(fun, args, span, m, host, fuel) {
        Ok(v) => Ok(Signal::Value(v)),
        Err(e) => Err(m.attach_stack(e)),
    };
    m.profiler_exit(host);
    r
}

/// The types that are known of a call.
pub struct Typing<'a> {
    pub receiver: Option<Value>,
    pub static_receiver: Option<&'a Type>,
    pub static_args: Option<&'a Vec<Type>>,
    pub expected: Option<&'a Type>,
}

/// A call of a generic function or method, as its body is typed for it.
pub open spec fn typing_model(
    t: Typing,
    args: Seq<ValueTerm>,
    span: crate::ast::SpanModel,
) -> TypingModel {
    TypingModel {
        receiver: t.receiver.deep_view(),
        args,
        static_receiver: t.static_receiver.deep_view(),
        static_args: t.static_args.deep_view(),
        expected: t.expected.deep_view(),
        span,
    }
}

/// The body of code that is called.
pub enum CalledBody {
    Block(Rc<TypedBlock>),
    /// Typing is not possible: the call fails.
    Fails(Stop),
    /// Typing has failed: the call ends at once.
    Ends(Stop),
}

/// What the body of a call is.
pub open spec fn body_model(b: CalledBody) -> TypedBody {
    match b {
        CalledBody::Block(b) => TypedBody::Block(*b),
        CalledBody::Fails(e) => TypedBody::Fails(e.deep_view()),
        CalledBody::Ends(e) => TypedBody::Ends(e.deep_view()),
    }
}

fn untypable(method: bool, name: &Option<String>, span: &Span) -> (e: Stop)
    ensures
        e.deep_view() == crate::semantics::untypable(method, name.deep_view(), span.deep_view()),
{
    let mut s = if method {
        "generic method `".to_owned()
    } else {
        "generic closure `".to_owned()
    };
    match name {
        Some(name) => {
            s.append(name.as_str());
        },
        None => {
            s.append("<anonymous>");
        },
    }
    s.append("` has no type context — construction-at-call-time unavailable");
    panicked(RuntimeErrorCode::R0002, s, span)
}

fn dup_type(t: Option<&Type>) -> (r: Option<Type>)
    ensures
        r.deep_view() == t.deep_view(),
{
    match t {
        Some(t) => Some(t.dup()),
        None => None,
    }
}

fn dup_types(t: Option<&Vec<Type>>) -> (r: Option<Vec<Type>>)
    ensures
        r.deep_view() == t.deep_view(),
{
    match t {
        Some(t) => Some(t.dup()),
        None => None,
    }
}

/// The body that an answer gives, where `missing` is said of a function that cannot
/// be typed.
pub fn body_answer(reply: Reply, missing: Stop) -> (r: CalledBody)
    ensures
        crate::semantics::body_answered(Some(reply.deep_view()), missing.deep_view())
            == body_model(r),
{
    match reply {
        Reply::Body(None) => CalledBody::Fails(missing),
        Reply::Body(Some(Ok(b))) => CalledBody::Block(b),
        Reply::Body(Some(Err(e))) => CalledBody::Ends(Stop::Error(e)),
        _ => CalledBody::Ends(unexpected()),
    }
}

/// The body that is run when code is called.
pub(crate) fn type_body<H: Host>(
    code: &ClosureCode,
    typing: &Typing,
    args: &Vec<Value>,
    span: &Span,
    m: &mut Machine,
    host: &mut H,
) -> (r: CalledBody)
    ensures
        crate::machine::begins(old(m).log@, final(m).log@),
        crate::machine::exchanged(
            old(m).log@,
            final(m).log@,
            old(host).history(),
            final(host).history(),
        ),
        forall|tape: Seq<Event>|
            crate::machine::begins(final(m).log@, tape) ==> crate::semantics::body_typed(
                *code,
                typing_model(*typing, args.deep_view(), span.deep_view()),
                #[trigger] old(m).on(tape),
            ) == (body_model(r), final(m).on(tape)),
{
    let (body, ctx): (GenericBody, Option<usize>) = match code {
        ClosureCode::Closure(c, ctx) => match &c.body {
            ClosureBody::Typed(b) => {
                return CalledBody::Block(share(b));
            },
            ClosureBody::Untyped(g) => (*g, *ctx),
        },
        ClosureCode::Fun(f, ctx) => match &f.body {
            FunBody::Typed(b) => {
                return CalledBody::Block(share(b));
            },
            FunBody::Generic(g) => (*g, *ctx),
            FunBody::Native(_) => {
                return CalledBody::Ends(Stop::Undefined);
            },
        },
    };
    let label = label_of(code);
    let missing = untypable(typing.receiver.is_some(), &label, span);
    match (label, ctx) {
        (Some(name), Some(ctx)) => {
            let task = Task::Construct(
                GenericCall {
                    body,
                    ctx,
                    name,
                    receiver: typing.receiver.dup(),
                    args: args.dup(),
                    static_receiver: dup_type(typing.static_receiver),
                    static_args: dup_types(typing.static_args),
                    expected: dup_type(typing.expected),
                    span: span.dup(),
                },
            );
            let failure = m.attach_stack(missing);
            let reply = m.ask(host, task);
            body_answer(reply, failure)
        },
        _ => CalledBody::Fails(m.attach_stack(missing)),
    }
}

/// Runs the body of a call. Where the second part says so, the call ends at once.
fn run_body<H: Host>(
    code: &ClosureCode,
    typing: &Typing,
    args: &Vec<Value>,
    span: &Span,
    env: Environment,
    runtime: &RuntimeRegistry,
    m: &mut Machine,
    host: &mut H,
    fuel: u64,
) -> (r: (Result<Signal, Stop>, bool))
    requires
        env@.scopes.len() > 0,
    ensures
        crate::machine::begins(old(m).log@, final(m).log@),
        crate::machine::exchanged(
            old(m).log@,
            final(m).log@,
            old(host).history(),
            final(host).history(),
        ),
        forall|tape: Seq<Event>|
            crate::machine::begins(final(m).log@, tape) ==> crate::semantics::body_run(
                *code,
                typing_model(*typing, args.deep_view(), span.deep_view()),
                env@,
                runtime@,
                #[trigger] old(m).on(tape),
                fuel as nat,
            ) == (
                crate::semantics::CallOut { r: signal_model(r.0), w: final(m).on(tape) },
                r.1,
            ),
    decreases fuel, 8int, 0int,
{
    let mut env = env;
    match type_body(code, typing, args, span, m, host) {
        CalledBody::Ends(e) => (Err(e), true),
        CalledBody::Fails(e) => (Err(e), false),
        CalledBody::Block(b) => (eval_block(&b, &mut env, runtime, m, host, fuel), false),
    }
}

/// A signal of a body as that of the call: a `return` ends there.
fn give_back(r: Result<Signal, Stop>, m: &Machine) -> (s: Result<Signal, Stop>)
    ensures
        forall|tape: Seq<Event>|
            signal_model(s) == crate::semantics::returned(
                signal_model(r),
                #[trigger] m.on(tape),
            ),
{
    match r {
        Ok(Signal::Return(v)) => Ok(Signal::Value(v)),
        Ok(other) => Ok(other),
        Err(e) => Err(m.attach_stack(e)),
    }
}

/// Calls a closure.
pub(crate) fn call_closure<H: Host>(
    id: ClosureId,
    args: &Vec<Value>,
    static_args: Option<&Vec<Type>>,
    expected: Option<&Type>,
    span: &Span,
    runtime: &RuntimeRegistry,
    m: &mut Machine,
    host: &mut H,
    fuel: u64,
) -> (r: Result<Signal, Stop>)
    ensures
        crate::machine::begins(old(m).log@, final(m).log@),
        crate::machine::exchanged(
            old(m).log@,
            final(m).log@,
            old(host).history(),
            final(host).history(),
        ),
        forall|tape: Seq<Event>|
            crate::machine::begins(final(m).log@, tape) ==> crate::semantics::callable_called(
                CallableModel::Closure(id),
                args.deep_view(),
                static_args.deep_view(),
                expected.deep_view(),
                span.deep_view(),
                runtime@,
                #[trigger] old(m).on(tape),
                fuel as nat,
            ) == (crate::semantics::CallOut { r: signal_model(r), w: final(m).on(tape) }),
    decreases fuel, 9int, 0int,
{
    let (code, captured, in_call) = match m.store.closure(id) {
        Some(made) => (made.code.again(), made.captured.dup(), made.in_call),
        None => {
            return Err(Stop::Undefined);
        },
    };
    let changes = is_mutating(&code);
    if changes && in_call {
        return Err(
            m.attach_stack(
                panicked(
                    RuntimeErrorCode::R0015,
                    "re-entrant call to a mutating closure".to_owned(),
                    span,
                ),
            ),
        );
    }
    let ghost start = *m;
    if changes {
        m.store.mark_call(id, true);
    }
    proof {
        crate::machine::lemma_stored(start, *m);
    }
    m.push_frame(host, frame_name(&code), span);
    let ghost entered = *m;
    let mut env = captured;
    env.push_scope();
    let fits = bind_args(&mut m.store, &mut env, &code, args, 0);
    proof {
        crate::machine::lemma_stored(entered, *m);
    }
    if !fits {
        return Err(Stop::Endless);
    }
    let typing = Typing { receiver: None, static_receiver: None, static_args, expected };
    let (r, ends) = run_body(&code, &typing, args, span, env, runtime, m, host, fuel);
    if ends {
        return r;
    }
    let s = give_back(r, m);
    m.pop_frame(host);
    let ghost left = *m;
    if changes {
        m.store.mark_call(id, false);
    }
    proof {
        crate::machine::lemma_stored(left, *m);
    }
    s
}

/// Calls something callable.
pub fn call_runtime_callable<H: Host>(
    callable: &RuntimeCallable,
    args: &Vec<Value>,
    static_args: Option<&Vec<Type>>,
    expected: Option<&Type>,
    span: &Span,
    runtime: &RuntimeRegistry,
    m: &mut Machine,
    host: &mut H,
    fuel: u64,
) -> (r: Result<Signal, Stop>)
    ensures
        crate::machine::begins(old(m).log@, final(m).log@),
        crate::machine::exchanged(
            old(m).log@,
            final(m).log@,
            old(host).history(),
            final(host).history(),
        ),
        forall|tape: Seq<Event>|
            crate::machine::begins(final(m).log@, tape) ==> crate::semantics::callable_called(
                callable.deep_view(),
                args.deep_view(),
                static_args.deep_view(),
                expected.deep_view(),
                span.deep_view(),
                runtime@,
                #[trigger] old(m).on(tape),
                fuel as nat,
            ) == (crate::semantics::CallOut { r: signal_model(r), w: final(m).on(tape) }),
    decreases fuel, 9int, 1int,
{
    match callable {
        RuntimeCallable::Intrinsic { label, fun } => call_intrinsic(
            label,
            *fun,
            args,
            span,
            m,
            host,
            fuel,
        ),
        RuntimeCallable::Closure(id) => call_closure(
            *id,
            args,
            static_args,
            expected,
            span,
            runtime,
            m,
            host,
            fuel,
        ),
    }
}

/// Calls a method.
pub fn call_method_function<H: Host>(
    func: &RuntimeCallable,
    receiver: ReceiverBinding,
    args: &Vec<Value>,
    static_args: Option<&Vec<Type>>,
    static_receiver: Option<&Type>,
    expected: Option<&Type>,
    span: &Span,
    runtime: &RuntimeRegistry,
    m: &mut Machine,
    host: &mut H,
    fuel: u64,
) -> (r: Result<Signal, Stop>)
    ensures
        crate::machine::begins(old(m).log@, final(m).log@),
        crate::machine::exchanged(
            old(m).log@,
            final(m).log@,
            old(host).history(),
            final(host).history(),
        ),
        forall|tape: Seq<Event>|
            crate::machine::begins(final(m).log@, tape) ==> crate::semantics::method_called(
                func.deep_view(),
                receiver.deep_view(),
                args.deep_view(),
                static_args.deep_view(),
                static_receiver.deep_view(),
                expected.deep_view(),
                span.deep_view(),
                runtime@,
                #[trigger] old(m).on(tape),
                fuel as nat,
            ) == (crate::semantics::CallOut { r: signal_model(r), w: final(m).on(tape) }),
    decreases fuel, 10int, 0int,
{
    let id = match func {
        RuntimeCallable::Closure(id) => *id,
        RuntimeCallable::Intrinsic { label: _, fun: _ } => {
            let mut all: Vec<Value> = Vec::new();
            all.push(receiver_value(&m.store, &receiver));
            let ghost first = all.deep_view();
            append_values(&mut all, args);
            proof {
                assert(first =~= seq![crate::semantics::receiver_term(
                    m.store@,
                    receiver.deep_view(),
                )]);
            }
            return call_runtime_callable(
                func,
                &all,
                static_args,
                expected,
                span,
                runtime,
                m,
                host,
                fuel,
            );
        },
    };
    let (code, captured) = match m.store.closure(id) {
        Some(made) => (made.code.again(), made.captured.dup()),
        None => {
            return Err(Stop::Undefined);
        },
    };
    m.push_frame(host, frame_name(&code), span);
    let ghost entered = *m;
    let value = receiver_value(&m.store, &receiver);
    let mut env = captured;
    env.push_scope();
    let bound = bind_receiver(&mut m.store, &mut env, &code, receiver);
    proof {
        crate::machine::lemma_stored(entered, *m);
    }
    if !bound {
        return Err(Stop::Endless);
    }
    let fits = bind_args(&mut m.store, &mut env, &code, args, 1);
    proof {
        crate::machine::lemma_stored(entered, *m);
    }
    if !fits {
        return Err(Stop::Endless);
    }
    let typing = Typing { receiver: Some(value), static_receiver, static_args, expected };
    let (r, ends) = run_body(&code, &typing, args, span, env, runtime, m, host, fuel);
    if ends {
        return r;
    }
    let s = give_back(r, m);
    m.pop_frame(host);
    s
}

fn append_values(out: &mut Vec<Value>, more: &Vec<Value>)
    ensures
        final(out).deep_view() == old(out).deep_view() + more.deep_view(),
{
    crate::table::append_copies(out, more);
}

fn kind_of(v: &Value) -> (n: u128)
    ensures
        n == crate::semantics::kind_number(v@.head),
{
    match v {
        Value::I64(_) => 0,
        Value::I8(_) => 1,
        Value::I16(_) => 2,
        Value::I32(_) => 3,
        Value::U8(_) => 4,
        Value::U16(_) => 5,
        Value::U32(_) => 6,
        Value::U64(_) => 7,
        Value::F64(_) => 8,
        Value::F32(_) => 9,
        Value::Char(_) => 10,
        Value::Boolean(_) => 11,
        Value::Str(_) => 12,
        Value::Unit => 13,
        Value::Tuple(_) => 14,
        Value::Array(_) => 15,
        Value::Record { fields: _ } => 16,
        Value::Struct { name: _, type_id: _, fields: _ } => 17,
        Value::Enum { name: _, type_id: _, variant: _, variant_id: _, fields: _ } => 18,
        Value::Callable(_) => 19,
        Value::Reference(_) => 20,
        Value::MutReference(_) => 21,
        Value::FieldReference { root: _, path: _ } => 22,
        Value::MutFieldReference { root: _, path: _ } => 23,
        Value::DynAspect { data: _, type_id: _, aspect_id: _, aspect_name: _, type_args: _ } => 24,
    }
}

fn target_of(v: Value, span: &Span, store: &Store, limit: u64) -> (r: Result<Value, Stop>)
    ensures
        crate::reach::reach_model(r) == crate::semantics::call_target(
            v@,
            span.deep_view(),
            store@,
            limit as nat,
        ),
{
    match v {
        Value::Reference(c) => Ok(store.cell(c)),
        Value::MutReference(c) => Ok(store.cell(c)),
        Value::FieldReference { root, path } => read_path(
            store,
            &store.cell(root),
            &path,
            span,
            limit,
        ),
        Value::MutFieldReference { root, path } => read_path(
            store,
            &store.cell(root),
            &path,
            span,
            limit,
        ),
        other => Ok(other),
    }
}

/// Calls a value. One reference to a function is followed.
pub fn call_function<H: Host>(
    func: Value,
    args: &Vec<Value>,
    static_args: Option<&Vec<Type>>,
    expected: Option<&Type>,
    span: &Span,
    runtime: &RuntimeRegistry,
    m: &mut Machine,
    host: &mut H,
    fuel: u64,
) -> (r: Result<Signal, Stop>)
    ensures
        crate::machine::begins(old(m).log@, final(m).log@),
        crate::machine::exchanged(
            old(m).log@,
            final(m).log@,
            old(host).history(),
            final(host).history(),
        ),
        forall|tape: Seq<Event>|
            crate::machine::begins(final(m).log@, tape) ==> crate::semantics::value_called(
                func@,
                args.deep_view(),
                static_args.deep_view(),
                expected.deep_view(),
                span.deep_view(),
                runtime@,
                #[trigger] old(m).on(tape),
                fuel as nat,
            ) == (crate::semantics::CallOut { r: signal_model(r), w: final(m).on(tape) }),
    decreases fuel, 11int, 0int,
{
    let target = match target_of(func, span, &m.store, fuel) {
        Ok(f) => f,
        Err(e) => {
            return Err(e);
        },
    };
    match &target {
        Value::Callable(c) => call_runtime_callable(
            c,
            args,
            static_args,
            expected,
            span,
            runtime,
            m,
            host,
            fuel,
        ),
        Value::Unit => Err(
            m.attach_stack(
                panicked(
                    RuntimeErrorCode::R0002,
                    "call: target is Unit, not a function".to_owned(),
                    span,
                ),
            ),
        ),
        _ => {
            let text = wrapped_text(
                "call: expected a closure or builtin, got Discriminant(",
                decimal_string(kind_of(&target)).as_str(),
                ")",
            );
            Err(m.attach_stack(panicked(RuntimeErrorCode::R0010, text, span)))
        },
    }
}

/// The type that an expression has.
pub fn type_of_expr(e: &TypedExpr) -> (t: Type)
    ensures
        t.deep_view() == crate::semantics::expr_type(*e),
{
    match e {
        TypedExpr::Literal(_, ty, _) => ty.dup(),
        TypedExpr::Ident(_, _, ty, _) => ty.dup(),
        TypedExpr::Path(_, ty, _) => ty.dup(),
        TypedExpr::Tuple(_, ty, _) => ty.dup(),
        TypedExpr::Array(_, ty, _) => ty.dup(),
        TypedExpr::RecordLiteral { fields: _, ty, span: _ } => ty.dup(),
        TypedExpr::RepeatArray(_, _, ty, _) => ty.dup(),
        TypedExpr::BinOp(_, _, _, ty, _) => ty.dup(),
        TypedExpr::RefTemp { init: _, mutable: _, ty, span: _ } => ty.dup(),
        TypedExpr::UnaryOp(_, _, ty, _) => ty.dup(),
        TypedExpr::Cast { expr: _, target_type: _, ty, span: _ } => ty.dup(),
        TypedExpr::TupleAccess { object: _, index: _, ty, span: _ } => ty.dup(),
        TypedExpr::Index { object: _, index: _, ty, span: _ } => ty.dup(),
        TypedExpr::If { condition: _, then_branch: _, else_branch: _, ty, span: _ } => ty.dup(),
        TypedExpr::Loop { body: _, ty, span: _ } => ty.dup(),
        TypedExpr::Match(m) => m.ty.dup(),
        TypedExpr::SingletonCoerce { inner: _, field: _, ty, span: _ } => ty.dup(),
        TypedExpr::DynCoerce { inner: _, aspect_id: _, aspect, type_args, span: _ } => {
            let args = type_args.dup();
            let t = Type::Dyn { aspect: aspect.clone(), type_args: args };
            proof {
                assert(t.deep_view().args =~= type_args.deep_view());
            }
            t
        },
        TypedExpr::Return(_, _) => Type::Never,
        TypedExpr::Break(_, _) => Type::Never,
        TypedExpr::Continue(_) => Type::Never,
        TypedExpr::Assign { target: _, op: _, value: _, span: _ } => Type::Unit,
        TypedExpr::StructLiteral {
            path: _,
            fields: _,
            type_id: _,
            variant_id: _,
            ty,
            span: _,
        } => ty.dup(),
        TypedExpr::FieldAccess { object: _, field: _, ty, span: _ } => ty.dup(),
        TypedExpr::MethodCall { receiver: _, method: _, args: _, ty, dispatch: _, span: _ } => {
            ty.dup()
        },
        TypedExpr::Call { callee: _, args: _, ty, callee_id: _, span: _ } => ty.dup(),
        TypedExpr::Closure(c) => match &c.ty {
            Some(ty) => ty.dup(),
            None => Type::Never,
        },
    }
}

fn types_of_exprs(es: &Vec<Rc<TypedExpr>>) -> (r: Vec<Type>)
    ensures
        r.deep_view() == crate::semantics::expr_types(es@),
{
    let mut out: Vec<Type> = Vec::new();
    let mut i: usize = 0;
    while i < es.len()
        invariant
            i <= es.len(),
            out@.len() == i,
            forall|j: int|
                0 <= j < i ==> (#[trigger] out@[j]).deep_view() == crate::semantics::expr_type(
                    *es@[j],
                ),
        decreases es.len() - i,
    {
        out.push(type_of_expr(&es[i]));
        i += 1;
    }
    proof {
        assert(out.deep_view() =~= crate::semantics::expr_types(es@));
    }
    out
}

/// The method that a call finds on a value.
fn find_method(dispatch: MethodDispatch, runtime: &RuntimeRegistry, v: &Value, name: &str) -> (r:
    Option<RuntimeMethod>)
    ensures
        r.deep_view() == crate::semantics::found_method(dispatch, runtime@, v@, name@),
{
    match dispatch {
        MethodDispatch::Aspect { aspect_id } => {
            match runtime.resolve_value_type_id(v) {
                Some(id) => match runtime.get_aspect_method_by_id(id, aspect_id, name) {
                    Some(m) => {
                        return Some(m);
                    },
                    None => {},
                },
                None => {},
            }
            match runtime_type_pattern(v) {
                Some(p) => match runtime.get_pattern_aspect_method_by_id(&p, aspect_id, name) {
                    Some(m) => {
                        return Some(m);
                    },
                    None => {},
                },
                None => {},
            }
        },
        _ => {},
    }
    runtime.get_method_for_value(v, name)
}

/// The cell at the end of a chain of references that starts in a cell.
fn follow_chain(store: &Store, c: CellId, limit: u64) -> (r: Option<CellId>)
    ensures
        r == crate::semantics::chain_end(store@, c, limit as nat),
{
    let mut cur = c;
    let mut left: u64 = limit;
    loop
        invariant
            left <= limit,
            crate::semantics::chain_end(store@, c, limit as nat) == crate::semantics::chain_end(
                store@,
                cur,
                left as nat,
            ),
        decreases left,
    {
        match receiver_cell_from_value(&store.cell(cur)) {
            None => {
                return Some(cur);
            },
            Some(d) => {
                if left == 0 {
                    return None;
                }
                left = left - 1;
                cur = d;
            },
        }
    }
}

/// The variable and the fields that a field expression leads through.
fn walk_path(e: &TypedExpr) -> (r: Option<(String, Vec<String>)>)
    ensures
        r.deep_view() == crate::semantics::field_chain(*e),
    decreases *e,
{
    match e {
        TypedExpr::Ident(name, _, _, _) => {
            let none: Vec<String> = Vec::new();
            assert(none.deep_view() =~= Seq::<Seq<char>>::empty());
            Some((name.clone(), none))
        },
        TypedExpr::FieldAccess { object, field, ty: _, span: _ } => match walk_path(object) {
            Some((root, path)) => {
                let mut path = path;
                let ghost prev = path.deep_view();
                assert(prev.len() == path@.len());
                path.push(field.clone());
                assert(path.deep_view() =~= prev.push(field@));
                Some((root, path))
            },
            None => None,
        },
        _ => None,
    }
}

fn is_nominal(v: &Value) -> (b: bool)
    ensures
        b == crate::semantics::nominal(v@.head),
{
    match v {
        Value::Struct { name: _, type_id: _, fields: _ } => true,
        Value::Enum { name: _, type_id: _, variant: _, variant_id: _, fields: _ } => true,
        _ => false,
    }
}

/// What fields lead to through structs and variants.
fn chain_leaf(v: Value, path: &Vec<String>) -> (r: Option<Value>)
    ensures
        r.deep_view() == crate::semantics::chain_value(v@, path.deep_view(), 0),
{
    let ghost names = path.deep_view();
    let ghost all = crate::semantics::chain_value(v@, names, 0);
    let mut cur = v;
    let mut i: usize = 0;
    assert(names.len() == path@.len());
    while i < path.len()
        invariant
            i <= path.len(),
            names == path.deep_view(),
            names.len() == path@.len(),
            all == crate::semantics::chain_value(v@, names, 0),
            all == crate::semantics::chain_value(cur@, names, i as int),
        decreases path.len() - i,
    {
        assert(names[i as int] == path@[i as int]@);
        if !is_nominal(&cur) {
            return None;
        }
        let next = match cur.field(path[i].as_str()) {
            Some(x) => x.dup(),
            None => {
                return None;
            },
        };
        cur = next;
        i += 1;
    }
    Some(cur)
}

/// A receiver that is a field: the cell of the struct that it is in, the fields
/// that lead to it, and a cell of its own.
pub type FieldWriteback = (CellId, Vec<String>, CellId);

/// For a receiver that is a field: the cell of the struct that it is in, the
/// fields that lead to it, and what is there.
fn lvalue_field_cell(e: &TypedExpr, env: &Environment, store: &Store) -> (r: Option<
    (CellId, Vec<String>, Value),
>)
    ensures
        r.deep_view() == crate::semantics::field_receiver(*e, env@, store@),
{
    let (root, path) = match walk_path(e) {
        Some(p) => p,
        None => {
            return None;
        },
    };
    let c = match env.get_rc(root.as_str()) {
        Some(c) => c,
        None => {
            return None;
        },
    };
    let owner = match store.cell(c) {
        Value::Reference(d) => d,
        Value::MutReference(d) => d,
        _ => c,
    };
    match chain_leaf(store.cell(owner), &path) {
        Some(x) => Some((owner, path, x)),
        None => None,
    }
}

/// A struct or variant with a field that has another value, or is new.
fn put_field(v: Value, f: &String, x: Value) -> (r: Value)
    requires
        crate::semantics::nominal(v@.head),
    ensures
        r@ == crate::semantics::with_field(v@, f@, x@),
{
    match v {
        Value::Struct { name, type_id, fields } => {
            let ghost before = (Value::Struct { name, type_id, fields })@;
            let ghost was = fields@;
            let mut fields = fields;
            put_in_fields(&mut fields, f, x);
            let r = Value::Struct { name, type_id, fields };
            proof {
                crate::values::lemma_label_at(crate::types::labels_of(was), f@, 0);
                assert(r@.args.len() == fields@.len());
                assert(before.args.len() == was.len());
                assert forall|j: int| 0 <= j < was.len() implies before.args[j]
                    == (#[trigger] was[j]).1@ by {}
                assert forall|j: int| 0 <= j < fields@.len() implies r@.args[j]
                    == (#[trigger] fields@[j]).1@ by {}
                assert(r@.args =~= crate::semantics::with_field(before, f@, x@).args);
            }
            r
        },
        Value::Enum { name, type_id, variant, variant_id, fields } => {
            let ghost before = (Value::Enum { name, type_id, variant, variant_id, fields })@;
            let ghost was = fields@;
            let mut fields = fields;
            put_in_fields(&mut fields, f, x);
            let r = Value::Enum { name, type_id, variant, variant_id, fields };
            proof {
                crate::values::lemma_label_at(crate::types::labels_of(was), f@, 0);
                assert(r@.args.len() == fields@.len());
                assert(before.args.len() == was.len());
                assert forall|j: int| 0 <= j < was.len() implies before.args[j]
                    == (#[trigger] was[j]).1@ by {}
                assert forall|j: int| 0 <= j < fields@.len() implies r@.args[j]
                    == (#[trigger] fields@[j]).1@ by {}
                assert(r@.args =~= crate::semantics::with_field(before, f@, x@).args);
            }
            r
        },
        other => other,
    }
}

/// Gives a field a value, in place of the one that was there.
fn put_in_fields(fields: &mut Vec<(String, Value)>, f: &String, x: Value)
    ensures
        ({
            let before = old(fields)@;
            let after = final(fields)@;
            let labels = crate::types::labels_of(before);
            let i = crate::values::label_at(labels, f@, 0);
            if i < labels.len() {
                crate::types::labels_of(after) == labels && after.len() == before.len() && after[i].1
                    == x && forall|j: int|
                    0 <= j < before.len() && j != i ==> (#[trigger] after[j]).1 == before[j].1
            } else {
                crate::types::labels_of(after) == labels.push(f@) && after.len() == before.len() + 1
                    && after.last().1 == x && forall|j: int|
                    0 <= j < before.len() ==> (#[trigger] after[j]).1 == before[j].1
            }
        }),
{
    let ghost labels = crate::types::labels_of(fields@);
    proof {
        crate::values::lemma_label_at(labels, f@, 0);
    }
    match field_position(fields, f.as_str()) {
        Some(i) => {
            fields.set(i, (f.clone(), x));
            assert(crate::types::labels_of(fields@) =~= labels);
        },
        None => {
            fields.push((f.clone(), x));
            assert(crate::types::labels_of(fields@) =~= labels.push(f@));
        },
    }
}

/// Gives the field that fields, from `i` on, lead to another value.
fn write_chain(v: Value, path: &Vec<String>, i: usize, x: Value) -> (r: Option<Value>)
    ensures
        r.deep_view() == crate::semantics::chain_written(v@, path.deep_view(), i as int, x@),
    decreases path@.len() - i,
{
    assert(path.deep_view().len() == path@.len());
    if i >= path.len() || !is_nominal(&v) {
        return Some(v);
    }
    assert(path.deep_view()[i as int] == path@[i as int]@);
    if i == path.len() - 1 {
        return Some(put_field(v, &path[i], x));
    }
    match v.fields() {
        Some(fields) => match field_position(fields, path[i].as_str()) {
            Some(at) => {
                assert(fields@[at as int].1@ == v@.args[at as int]);
                match write_chain(fields[at].1.dup(), path, i + 1, x) {
                    Some(y) => Some(crate::reach::replaced(&v, at, y)),
                    None => None,
                }
            },
            None => None,
        },
        None => None,
    }
}

/// Hands a receiver over to a method that takes a reference.
fn hand_over(
    e: &TypedExpr,
    v: &Value,
    view: &Value,
    env: &Environment,
    runtime: &RuntimeRegistry,
    store: &mut Store,
    limit: u64,
) -> (r: Option<(ReceiverBinding, Option<FieldWriteback>)>)
    ensures
        match crate::semantics::receiver_handed(
            *e,
            v@,
            view@,
            env@,
            runtime@,
            old(store)@,
            limit as nat,
        ) {
            None => r is None && final(store)@ == old(store)@,
            Some(h) => final(store)@ == h.store && (r matches Some((receiver, back))
                && receiver.deep_view() == h.receiver && back.deep_view() == h.back),
        },
{
    match e {
        TypedExpr::Ident(name, binding, _, _) => {
            return match ident_rc(name.as_str(), *binding, env, runtime) {
                Some(c) => match follow_chain(store, c, limit) {
                    Some(d) => Some((ReceiverBinding::Shared(d), None)),
                    None => None,
                },
                None => Some((ReceiverBinding::Value(view.dup()), None)),
            };
        },
        TypedExpr::FieldAccess { object: _, field: _, ty: _, span: _ } => {
            match lvalue_field_cell(e, env, store) {
                Some((owner, path, x)) => {
                    let leaf = store.make_cell(x);
                    return Some((ReceiverBinding::Shared(leaf), Some((owner, path, leaf))));
                },
                None => {},
            }
        },
        _ => {},
    }
    match receiver_cell_from_value(v) {
        Some(c) => Some((ReceiverBinding::Shared(c), None)),
        None => Some((ReceiverBinding::Value(view.dup()), None)),
    }
}

/// Writes a receiver that is a field back. The answer is `false` where a field on
/// the way is missing.
fn write_back(back: &Option<FieldWriteback>, store: &mut Store) -> (b: bool)
    ensures
        match crate::semantics::written_back(back.deep_view(), old(store)@) {
            Some(t) => b && final(store)@ == t,
            None => !b && final(store)@ == old(store)@,
        },
{
    match back {
        None => true,
        Some((owner, path, leaf)) => {
            let x = store.cell(*leaf);
            match write_chain(store.cell(*owner), path, 0, x) {
                Some(v) => {
                    store.set_cell(*owner, v);
                    true
                },
                None => false,
            }
        },
    }
}

/// Calls a method that has been found.
pub(crate) fn apply_method<H: Host>(
    entry: RuntimeMethod,
    receiver: &TypedExpr,
    recv: Value,
    view: Value,
    method: &String,
    args: &Vec<Value>,
    static_args: &Vec<Type>,
    expected: &Type,
    span: &Span,
    env: &mut Environment,
    runtime: &RuntimeRegistry,
    m: &mut Machine,
    host: &mut H,
    fuel: u64,
) -> (r: Result<Signal, Stop>)
    requires
        old(env)@.scopes.len() > 0,
    ensures
        final(env)@.scopes.len() >= old(env)@.scopes.len(),
        crate::machine::begins(old(m).log@, final(m).log@),
        crate::machine::exchanged(
            old(m).log@,
            final(m).log@,
            old(host).history(),
            final(host).history(),
        ),
        forall|tape: Seq<Event>|
            crate::machine::begins(final(m).log@, tape) ==> crate::semantics::method_applied(
                entry.deep_view(),
                *receiver,
                recv@,
                view@,
                method@,
                args.deep_view(),
                static_args.deep_view(),
                expected.deep_view(),
                span.deep_view(),
                old(env)@,
                runtime@,
                #[trigger] old(m).on(tape),
                fuel as nat,
            ) == crate::evaluator::out_model(r, final(env)@, final(m).on(tape)),
    decreases fuel, 11int, 0int,
{
    let static_receiver = type_of_expr(receiver);
    match entry.receiver {
        None => Err(
            panicked(
                RuntimeErrorCode::R0009,
                wrapped_text(
                    "runtime method `",
                    method.as_str(),
                    "` is not callable with a receiver",
                ),
                span,
            ),
        ),
        Some(ReceiverKind::Value) => call_method_function(
            &entry.body,
            ReceiverBinding::Value(view),
            args,
            Some(static_args),
            Some(&static_receiver),
            Some(expected),
            span,
            runtime,
            m,
            host,
            fuel,
        ),
        Some(_) => {
            let ghost before = *m;
            let handed = hand_over(receiver, &recv, &view, env, runtime, &mut m.store, fuel);
            proof {
                crate::machine::lemma_stored(before, *m);
            }
            let (binding, back) = match handed {
                Some(h) => h,
                None => {
                    return Err(Stop::Endless);
                },
            };
            let r = call_method_function(
                &entry.body,
                binding,
                args,
                Some(static_args),
                Some(&static_receiver),
                Some(expected),
                span,
                runtime,
                m,
                host,
                fuel,
            );
            let signal = match r {
                Ok(s) => s,
                Err(e) => {
                    return Err(e);
                },
            };
            let ghost called = *m;
            let written = write_back(&back, &mut m.store);
            proof {
                crate::machine::lemma_stored(called, *m);
            }
            if written {
                Ok(signal)
            } else {
                Err(Stop::Undefined)
            }
        },
    }
}

/// Evaluates a call of a method.
pub(crate) fn eval_method_call_expr<H: Host>(
    receiver: &TypedExpr,
    method: &String,
    args: &Vec<Rc<TypedExpr>>,
    expected: &Type,
    dispatch: MethodDispatch,
    span: &Span,
    env: &mut Environment,
    runtime: &RuntimeRegistry,
    m: &mut Machine,
    host: &mut H,
    fuel: u64,
) -> (r: Result<Signal, Stop>)
    requires
        old(env)@.scopes.len() > 0,
    ensures
        final(env)@.scopes.len() >= old(env)@.scopes.len(),
        crate::machine::begins(old(m).log@, final(m).log@),
        crate::machine::exchanged(
            old(m).log@,
            final(m).log@,
            old(host).history(),
            final(host).history(),
        ),
        forall|tape: Seq<Event>|
            crate::machine::begins(final(m).log@, tape) ==> crate::semantics::method_run(
                *receiver,
                method@,
                args@,
                expected.deep_view(),
                dispatch,
                span.deep_view(),
                old(env)@,
                runtime@,
                #[trigger] old(m).on(tape),
                fuel as nat,
            ) == crate::evaluator::out_model(r, final(env)@, final(m).on(tape)),
    decreases fuel, 12int, 0int,
{
    let recv = match eval_expr(receiver, env, runtime, m, host, fuel) {
        Ok(Signal::Value(v)) => v,
        other => {
            return other;
        },
    };
    let vs = match eval_list(args, env, runtime, m, host, fuel) {
        Ok(vs) => vs,
        Err(other) => {
            return other;
        },
    };
    let view = match peel(&m.store, &recv, span, fuel) {
        Ok(x) => x,
        Err(e) => {
            return Err(e);
        },
    };
    let entry = match find_method(dispatch, runtime, &view, method.as_str()) {
        Some(entry) => entry,
        None => {
            return Err(
                panicked(
                    RuntimeErrorCode::R0009,
                    wrapped_text("method `", method.as_str(), "` not found on this value"),
                    span,
                ),
            );
        },
    };
    let static_args = types_of_exprs(args);
    apply_method(
        entry,
        receiver,
        recv,
        view,
        method,
        &vs,
        &static_args,
        expected,
        span,
        env,
        runtime,
        m,
        host,
        fuel,
    )
}

fn unregistered(before: &str, id: SymbolId) -> (e: Stop)
    ensures
        e.deep_view() == crate::semantics::internal(before@ + crate::semantics::id_text(id)),
{
    let mut s = before.to_owned();
    let text = wrapped_text("SymbolId(", decimal_string(id.0 as u128).as_str(), ")");
    s.append(text.as_str());
    Stop::Error(MetelError::internal(s))
}

/// The function that a call calls.
pub(crate) fn eval_callee<H: Host>(
    callee: &TypedExpr,
    callee_id: Option<SymbolId>,
    env: &mut Environment,
    runtime: &RuntimeRegistry,
    m: &mut Machine,
    host: &mut H,
    fuel: u64,
) -> (r: Result<Signal, Stop>)
    requires
        old(env)@.scopes.len() > 0,
    ensures
        final(env)@.scopes.len() >= old(env)@.scopes.len(),
        crate::machine::begins(old(m).log@, final(m).log@),
        crate::machine::exchanged(
            old(m).log@,
            final(m).log@,
            old(host).history(),
            final(host).history(),
        ),
        forall|tape: Seq<Event>|
            crate::machine::begins(final(m).log@, tape) ==> crate::semantics::callee_run(
                *callee,
                callee_id,
                old(env)@,
                runtime@,
                #[trigger] old(m).on(tape),
                fuel as nat,
            ) == crate::evaluator::out_model(r, final(env)@, final(m).on(tape)),
    decreases fuel, 9int, 0int,
{
    let id = match callee_id {
        None => {
            return eval_expr(callee, env, runtime, m, host, fuel);
        },
        Some(id) => id,
    };
    match runtime.get_symbol_value(id) {
        Some(v) => Ok(Signal::Value(v.dup())),
        None => if id.0 >= OVERLOAD_SYM_START {
            Err(unregistered("no runtime value registered for overload symbol ", id))
        } else if runtime.is_let_mut_def_id(id) {
            eval_expr(callee, env, runtime, m, host, fuel)
        } else {
            Err(unregistered("no runtime value registered for callable symbol ", id))
        },
    }
}

/// Makes a function that is called before its declaration has run.
fn make_callee(callee: &TypedExpr, v: Value, env: &mut Environment, m: &mut Machine) -> (r: Result<
    Signal,
    Stop,
>)
    requires
        old(env)@.scopes.len() > 0,
    ensures
        final(env)@.scopes.len() == old(env)@.scopes.len(),
        final(m).log == old(m).log,
        forall|tape: Seq<Event>|
            crate::semantics::callee_made(
                *callee,
                v@,
                old(env)@,
                #[trigger] old(m).on(tape),
            ) == crate::evaluator::out_model(r, final(env)@, final(m).on(tape)),
{
    let (name, id) = match (&v, callee) {
        (Value::Unit, TypedExpr::Ident(name, Some(BindingId::Local(id)), _, _)) => (name, *id),
        _ => {
            return Ok(Signal::Value(v));
        },
    };
    proof {
        crate::environment::lemma_none_waiting(env@.pending, id);
    }
    let f = match env.take_pending_fun(id) {
        Some(f) => f,
        None => {
            return Ok(Signal::Value(v));
        },
    };
    let ghost before = *m;
    let made = build_and_set_nested_fun(&f, env, &mut m.store);
    proof {
        crate::machine::lemma_stored(before, *m);
    }
    match made {
        Err(e) => Err(e),
        Ok(_) => {
            let found = match env.get_local(&m.store, id) {
                Some(x) => x,
                None => match env.get(&m.store, name.as_str()) {
                    Some(x) => x,
                    None => Value::Unit,
                },
            };
            Ok(Signal::Value(found))
        },
    }
}

/// Evaluates a call.
pub(crate) fn eval_call_expr<H: Host>(
    callee: &TypedExpr,
    args: &Vec<Rc<TypedExpr>>,
    expected: &Type,
    callee_id: Option<SymbolId>,
    span: &Span,
    env: &mut Environment,
    runtime: &RuntimeRegistry,
    m: &mut Machine,
    host: &mut H,
    fuel: u64,
) -> (r: Result<Signal, Stop>)
    requires
        old(env)@.scopes.len() > 0,
    ensures
        final(env)@.scopes.len() >= old(env)@.scopes.len(),
        crate::machine::begins(old(m).log@, final(m).log@),
        crate::machine::exchanged(
            old(m).log@,
            final(m).log@,
            old(host).history(),
            final(host).history(),
        ),
        forall|tape: Seq<Event>|
            crate::machine::begins(final(m).log@, tape) ==> crate::semantics::call_run(
                *callee,
                args@,
                expected.deep_view(),
                callee_id,
                span.deep_view(),
                old(env)@,
                runtime@,
                #[trigger] old(m).on(tape),
                fuel as nat,
            ) == crate::evaluator::out_model(r, final(env)@, final(m).on(tape)),
    decreases fuel, 12int, 0int,
{
    let first = match eval_callee(callee, callee_id, env, runtime, m, host, fuel) {
        Ok(Signal::Value(v)) => v,
        other => {
            return other;
        },
    };
    let f = match make_callee(callee, first, env, m) {
        Ok(Signal::Value(v)) => v,
        other => {
            return other;
        },
    };
    let vs = match eval_list(args, env, runtime, m, host, fuel) {
        Ok(vs) => vs,
        Err(other) => {
            return other;
        },
    };
    let static_args = types_of_exprs(args);
    call_function(f, &vs, Some(&static_args), Some(expected), span, runtime, m, host, fuel)
}

} // verus!
