//! Blocks, declarations, statements, loops and matches.

use crate::ast::Span;
use crate::calling::{call_method_function, ReceiverBinding};
use crate::copying::deep_clone_value;
use crate::data::Dup;
use crate::environment::{Stop, StopModel};
use crate::error::{MetelError, RuntimeErrorCode};
use crate::evaluator::{eval_expr, internal, panicked, wrapped_text, Signal};
use crate::host::{Event, Host};
use crate::machine::Machine;
use crate::pattern::{match_pattern, PatternBinding};
use crate::reach::peel;
use crate::resolve::is_text;
use crate::runtime::RuntimeRegistry;
use crate::semantics::SignalModel;
use crate::sharing::share;
use crate::store::{ClosureCode, ClosureValue, Environment, Store};
use crate::typed_ast::{
    FunBody, TypedBinding, TypedBlock, TypedDecl, TypedExpr, TypedFor, TypedForIn, TypedForInit,
    TypedFunDecl, TypedMatch, TypedMatchArm, TypedStmt, TypedWhile,
};
use crate::values::{CellId, RuntimeCallable, Value, ValueTerm};
use std::rc::Rc;
use vstd::prelude::*;
use vstd::string::*;

verus! {

broadcast use {
    crate::machine::lemma_begins,
    crate::machine::lemma_begins_itself,
    crate::machine::lemma_exchanged,
    crate::machine::lemma_nothing_exchanged,
};

/// Whether something can be done, or why not.
pub open spec fn done_model(r: Result<(), Stop>) -> Result<(), StopModel> {
    match r {
        Ok(_) => Ok(()),
        Err(e) => Err(e.deep_view()),
    }
}

/// Makes the closure of a function, with the environment as it stands, and puts it
/// where its name is.
pub fn build_and_set_nested_fun(f: &Rc<TypedFunDecl>, env: &Environment, store: &mut Store) -> (r:
    Result<(), Stop>)
    ensures
        match crate::semantics::function_made(**f, env@, old(store)@) {
            Ok(t) => r is Ok && final(store)@ == t,
            Err(e) => done_model(r) == Err::<(), StopModel>(e) && final(store)@ == old(store)@,
        },
{
    let ctx = match &f.body {
        FunBody::Typed(_) => None,
        FunBody::Generic(_) => env.type_ctx,
        FunBody::Native(_) => {
            return Err(internal("native function in nested declaration position"));
        },
    };
    let id = store.make_closure(
        ClosureValue {
            code: ClosureCode::Fun(share(f), ctx),
            captured: env.dup(),
            in_call: false,
        },
    );
    match env.get_rc(f.name.as_str()) {
        Some(c) => {
            store.set_cell(c, Value::Callable(RuntimeCallable::Closure(id)));
        },
        None => {},
    }
    Ok(())
}

fn make_places(ds: &Vec<TypedDecl>, env: &mut Environment, store: &mut Store)
    requires
        old(env)@.scopes.len() > 0,
    ensures
        (final(store)@, final(env)@) == crate::semantics::places_made(
            ds@,
            0,
            old(env)@,
            old(store)@,
        ),
        final(env)@.scopes.len() == old(env)@.scopes.len(),
        final(env)@.pending == old(env)@.pending,
{
    let mut i: usize = 0;
    while i < ds.len()
        invariant
            i <= ds.len(),
            env@.scopes.len() > 0,
            env@.scopes.len() == old(env)@.scopes.len(),
            env@.pending == old(env)@.pending,
            crate::semantics::places_made(ds@, 0, old(env)@, old(store)@)
                == crate::semantics::places_made(ds@, i as int, env@, store@),
        decreases ds.len() - i,
    {
        match &ds[i] {
            TypedDecl::Fun(f) => {
                let c = store.make_cell(Value::Unit);
                env.define_binding_rc(f.local_id, f.name.as_str(), c);
            },
            _ => {},
        }
        i += 1;
    }
}

fn make_functions(ds: &Vec<TypedDecl>, env: &Environment, store: &mut Store) -> (r: Result<
    (),
    Stop,
>)
    ensures
        (done_model(r), final(store)@) == crate::semantics::functions_made(
            ds@,
            0,
            env@,
            old(store)@,
        ),
{
    let mut i: usize = 0;
    while i < ds.len()
        invariant
            i <= ds.len(),
            crate::semantics::functions_made(ds@, 0, env@, old(store)@)
                == crate::semantics::functions_made(ds@, i as int, env@, store@),
        decreases ds.len() - i,
    {
        match &ds[i] {
            TypedDecl::Fun(f) => match build_and_set_nested_fun(f, env, store) {
                Ok(_) => {},
                Err(e) => {
                    return Err(e);
                },
            },
            _ => {},
        }
        i += 1;
    }
    Ok(())
}

fn let_functions_wait(ds: &Vec<TypedDecl>, env: &mut Environment)
    requires
        old(env)@.pending.len() > 0,
    ensures
        final(env)@ == crate::semantics::functions_waiting(ds@, 0, old(env)@),
        final(env)@.scopes == old(env)@.scopes,
{
    let mut i: usize = 0;
    while i < ds.len()
        invariant
            i <= ds.len(),
            env@.pending.len() > 0,
            env@.scopes == old(env)@.scopes,
            crate::semantics::functions_waiting(ds@, 0, old(env)@)
                == crate::semantics::functions_waiting(ds@, i as int, env@),
        decreases ds.len() - i,
    {
        match &ds[i] {
            TypedDecl::Fun(f) => match f.local_id {
                Some(id) => {
                    env.register_pending_fun(id, share(f));
                },
                None => {},
            },
            _ => {},
        }
        i += 1;
    }
}

fn has_variable(ds: &Vec<TypedDecl>) -> (b: bool)
    ensures
        b == crate::semantics::declares_variable(ds@),
{
    let mut i: usize = 0;
    while i < ds.len()
        invariant
            i <= ds.len(),
            forall|j: int| 0 <= j < i ==> !((#[trigger] ds@[j]) is Let) && !(ds@[j] is Mut),
        decreases ds.len() - i,
    {
        match &ds[i] {
            TypedDecl::Let(_) | TypedDecl::Mut(_) => {
                assert(ds@[i as int] is Let || ds@[i as int] is Mut);
                return true;
            },
            _ => {},
        }
        i += 1;
    }
    false
}

/// Gives each function of a block a place before its declarations run, and makes
/// it at once where no variable is declared beside it.
fn hoist_nested_funs(ds: &Vec<TypedDecl>, env: &mut Environment, store: &mut Store) -> (r: Result<
    (),
    Stop,
>)
    requires
        old(env)@.scopes.len() > 0,
        old(env)@.pending.len() > 0,
    ensures
        (done_model(r), final(env)@, final(store)@) == crate::semantics::hoisted(
            ds@,
            old(env)@,
            old(store)@,
        ),
        final(env)@.scopes.len() == old(env)@.scopes.len(),
{
    make_places(ds, env, store);
    if has_variable(ds) {
        let_functions_wait(ds, env);
        Ok(())
    } else {
        make_functions(ds, env, store)
    }
}

/// Evaluates a block: opens a scope, runs its declarations and gives its tail.
/// Jumps leave it.
pub fn eval_block<H: Host>(
    block: &TypedBlock,
    env: &mut Environment,
    runtime: &RuntimeRegistry,
    m: &mut Machine,
    host: &mut H,
    fuel: u64,
) -> (r: Result<Signal, Stop>)
    requires
        old(env)@.scopes.len() > 0,
    ensures
        final(env)@.scopes.len() >= old(env)@.scopes.len(),
        crate::machine::begins(old(m).log@, final(m).log@),
        crate::machine::exchanged(
            old(m).log@,
            final(m).log@,
            old(host).history(),
            final(host).history(),
        ),
        forall|tape: Seq<Event>|
            crate::machine::begins(final(m).log@, tape) ==> crate::semantics::block_run(
                *block,
                old(env)@,
                runtime@,
                #[trigger] old(m).on(tape),
                fuel as nat,
            ) == crate::evaluator::out_model(r, final(env)@, final(m).on(tape)),
    decreases fuel, 7int, 0int,
{
    env.push_scope();
    let ghost before = *m;
    let made = hoist_nested_funs(&block.stmts, env, &mut m.store);
    proof {
        crate::machine::lemma_stored(before, *m);
    }
    match made {
        Ok(_) => {},
        Err(e) => {
            return Err(e);
        },
    }
    match eval_decls(&block.stmts, env, runtime, m, host, fuel) {
        Err(e) => Err(e),
        Ok(Signal::Value(_)) => {
            let r = match &block.tail {
                Some(tail) => eval_expr(tail, env, runtime, m, host, fuel),
                None => Ok(Signal::Value(Value::Unit)),
            };
            env.pop_scope();
            r
        },
        Ok(jump) => {
            env.pop_scope();
            Ok(jump)
        },
    }
}

/// Evaluates declarations, up to the first that jumps or stops.
pub(crate) fn eval_decls<H: Host>(
    ds: &Vec<TypedDecl>,
    env: &mut Environment,
    runtime: &RuntimeRegistry,
    m: &mut Machine,
    host: &mut H,
    fuel: u64,
) -> (r: Result<Signal, Stop>)
    requires
        old(env)@.scopes.len() > 0,
    ensures
        final(env)@.scopes.len() >= old(env)@.scopes.len(),
        crate::machine::begins(old(m).log@, final(m).log@),
        crate::machine::exchanged(
            old(m).log@,
            final(m).log@,
            old(host).history(),
            final(host).history(),
        ),
        forall|tape: Seq<Event>|
            crate::machine::begins(final(m).log@, tape) ==> crate::semantics::decls_run(
                ds@,
                0,
                old(env)@,
                runtime@,
                #[trigger] old(m).on(tape),
                fuel as nat,
            ) == crate::evaluator::out_model(r, final(env)@, final(m).on(tape)),
    decreases fuel, 6int, 0int,
{
    let ghost begin = env@;
    let ghost start = *m;
    let mut i: usize = 0;
    while i < ds.len()
        invariant
            i <= ds.len(),
            begin.scopes.len() > 0,
            env@.scopes.len() >= begin.scopes.len(),
            begin == old(env)@,
            start == *old(m),
            crate::machine::begins(start.log@, m.log@),
            crate::machine::exchanged(start.log@, m.log@, old(host).history(), host.history()),
            forall|tape: Seq<Event>|
                crate::machine::begins(m.log@, tape) ==> crate::semantics::decls_run(
                    ds@,
                    0,
                    begin,
                    runtime@,
                    #[trigger] start.on(tape),
                    fuel as nat,
                ) == crate::semantics::decls_run(
                    ds@,
                    i as int,
                    env@,
                    runtime@,
                    m.on(tape),
                    fuel as nat,
                ),
        decreases ds.len() - i,
    {
        match eval_decl(&ds[i], env, runtime, m, host, fuel) {
            Ok(Signal::Value(_)) => {},
            other => {
                return other;
            },
        }
        i += 1;
    }
    Ok(Signal::Value(Value::Unit))
}

/// Declares a variable.
pub(crate) fn eval_binding<H: Host>(
    d: &TypedBinding,
    env: &mut Environment,
    runtime: &RuntimeRegistry,
    m: &mut Machine,
    host: &mut H,
    fuel: u64,
) -> (r: Result<Signal, Stop>)
    requires
        old(env)@.scopes.len() > 0,
    ensures
        final(env)@.scopes.len() >= old(env)@.scopes.len(),
        crate::machine::begins(old(m).log@, final(m).log@),
        crate::machine::exchanged(
            old(m).log@,
            final(m).log@,
            old(host).history(),
            final(host).history(),
        ),
        forall|tape: Seq<Event>|
            crate::machine::begins(final(m).log@, tape) ==> crate::semantics::binding_run(
                *d,
                old(env)@,
                runtime@,
                #[trigger] old(m).on(tape),
                fuel as nat,
            ) == crate::evaluator::out_model(r, final(env)@, final(m).on(tape)),
    decreases fuel, 1int, 0int,
{
    let v = match eval_expr(&d.value, env, runtime, m, host, fuel) {
        Ok(Signal::Value(v)) => v,
        other => {
            return other;
        },
    };
    let ghost before = *m;
    let fits = env.define_binding(&mut m.store, d.local_id, d.name.as_str(), v);
    proof {
        crate::machine::lemma_stored(before, *m);
    }
    if fits {
        Ok(Signal::Value(Value::Unit))
    } else {
        Err(Stop::Endless)
    }
}

/// Evaluates a declaration in a block or at the top level.
pub(crate) fn eval_decl<H: Host>(
    decl: &TypedDecl,
    env: &mut Environment,
    runtime: &RuntimeRegistry,
    m: &mut Machine,
    host: &mut H,
    fuel: u64,
) -> (r: Result<Signal, Stop>)
    requires
        old(env)@.scopes.len() > 0,
    ensures
        final(env)@.scopes.len() >= old(env)@.scopes.len(),
        crate::machine::begins(old(m).log@, final(m).log@),
        crate::machine::exchanged(
            old(m).log@,
            final(m).log@,
            old(host).history(),
            final(host).history(),
        ),
        forall|tape: Seq<Event>|
            crate::machine::begins(final(m).log@, tape) ==> crate::semantics::decl_run(
                *decl,
                old(env)@,
                runtime@,
                #[trigger] old(m).on(tape),
                fuel as nat,
            ) == crate::evaluator::out_model(r, final(env)@, final(m).on(tape)),
    decreases fuel, 5int, 0int,
{
    match decl {
        TypedDecl::Let(d) => eval_binding(d, env, runtime, m, host, fuel),
        TypedDecl::Mut(d) => eval_binding(d, env, runtime, m, host, fuel),
        TypedDecl::Fun(f) => {
            let ghost before = *m;
            let made = build_and_set_nested_fun(f, env, &mut m.store);
            proof {
                crate::machine::lemma_stored(before, *m);
            }
            match made {
                Ok(_) => Ok(Signal::Value(Value::Unit)),
                Err(e) => Err(e),
            }
        },
        TypedDecl::Stmt(s) => eval_stmt(s, env, runtime, m, host, fuel),
        _ => Ok(Signal::Value(Value::Unit)),
    }
}

/// Evaluates a statement.
pub fn eval_stmt<H: Host>(
    stmt: &TypedStmt,
    env: &mut Environment,
    runtime: &RuntimeRegistry,
    m: &mut Machine,
    host: &mut H,
    fuel: u64,
) -> (r: Result<Signal, Stop>)
    requires
        old(env)@.scopes.len() > 0,
    ensures
        final(env)@.scopes.len() >= old(env)@.scopes.len(),
        crate::machine::begins(old(m).log@, final(m).log@),
        crate::machine::exchanged(
            old(m).log@,
            final(m).log@,
            old(host).history(),
            final(host).history(),
        ),
        forall|tape: Seq<Event>|
            crate::machine::begins(final(m).log@, tape) ==> crate::semantics::stmt_run(
                *stmt,
                old(env)@,
                runtime@,
                #[trigger] old(m).on(tape),
                fuel as nat,
            ) == crate::evaluator::out_model(r, final(env)@, final(m).on(tape)),
    decreases fuel, 4int, 0int,
{
    match stmt {
        TypedStmt::Expr(e) => match eval_expr(e, env, runtime, m, host, fuel) {
            Ok(Signal::Value(_)) => Ok(Signal::Value(Value::Unit)),
            other => other,
        },
        TypedStmt::While(w) => eval_while(w, env, runtime, m, host, fuel),
        TypedStmt::For(f) => eval_for(f, env, runtime, m, host, fuel),
        TypedStmt::ForIn(f) => {
            let v = match eval_expr(&f.iterable, env, runtime, m, host, fuel) {
                Ok(Signal::Value(v)) => v,
                other => {
                    return other;
                },
            };
            eval_for_in(f, v, env, runtime, m, host, fuel)
        },
    }
}

/// Evaluates a `while` loop.
pub(crate) fn eval_while<H: Host>(
    w: &TypedWhile,
    env: &mut Environment,
    runtime: &RuntimeRegistry,
    m: &mut Machine,
    host: &mut H,
    fuel: u64,
) -> (r: Result<Signal, Stop>)
    requires
        old(env)@.scopes.len() > 0,
    ensures
        final(env)@.scopes.len() >= old(env)@.scopes.len(),
        crate::machine::begins(old(m).log@, final(m).log@),
        crate::machine::exchanged(
            old(m).log@,
            final(m).log@,
            old(host).history(),
            final(host).history(),
        ),
        forall|tape: Seq<Event>|
            crate::machine::begins(final(m).log@, tape) ==> crate::semantics::while_run(
                *w,
                old(env)@,
                runtime@,
                #[trigger] old(m).on(tape),
                fuel as nat,
            ) == crate::evaluator::out_model(r, final(env)@, final(m).on(tape)),
    decreases fuel, 3int, 0int,
{
    let ghost begin = env@;
    let ghost start = *m;
    let mut left: u64 = fuel;
    while left > 0
        invariant
            left <= fuel,
            begin.scopes.len() > 0,
            env@.scopes.len() >= begin.scopes.len(),
            begin == old(env)@,
            start == *old(m),
            crate::machine::begins(start.log@, m.log@),
            crate::machine::exchanged(start.log@, m.log@, old(host).history(), host.history()),
            forall|tape: Seq<Event>|
                crate::machine::begins(m.log@, tape) ==> crate::semantics::while_run(
                    *w,
                    begin,
                    runtime@,
                    #[trigger] start.on(tape),
                    fuel as nat,
                ) == crate::semantics::while_run(
                    *w,
                    env@,
                    runtime@,
                    m.on(tape),
                    left as nat,
                ),
        decreases left,
    {
        left = left - 1;
        let v = match eval_expr(&w.condition, env, runtime, m, host, left) {
            Ok(Signal::Value(v)) => v,
            other => {
                return other;
            },
        };
        match v {
            Value::Boolean(false) => {
                return Ok(Signal::Value(Value::Unit));
            },
            Value::Boolean(true) => {},
            _ => {
                return Err(
                    internal(
                        "while: expected boolean condition (typechecker should have caught this)",
                    ),
                );
            },
        }
        match eval_block(&w.body, env, runtime, m, host, left) {
            Ok(Signal::Value(_)) => {},
            Ok(Signal::Continue) => {},
            Ok(Signal::Break(_)) => {
                return Ok(Signal::Value(Value::Unit));
            },
            other => {
                return other;
            },
        }
    }
    Err(Stop::Endless)
}

/// Evaluates the beginning of a `for` loop.
pub(crate) fn eval_for_init<H: Host>(
    init: &Option<TypedForInit>,
    env: &mut Environment,
    runtime: &RuntimeRegistry,
    m: &mut Machine,
    host: &mut H,
    fuel: u64,
) -> (r: Result<Signal, Stop>)
    requires
        old(env)@.scopes.len() > 0,
    ensures
        final(env)@.scopes.len() >= old(env)@.scopes.len(),
        crate::machine::begins(old(m).log@, final(m).log@),
        crate::machine::exchanged(
            old(m).log@,
            final(m).log@,
            old(host).history(),
            final(host).history(),
        ),
        forall|tape: Seq<Event>|
            crate::machine::begins(final(m).log@, tape) ==> crate::semantics::for_init_run(
                *init,
                old(env)@,
                runtime@,
                #[trigger] old(m).on(tape),
                fuel as nat,
            ) == crate::evaluator::out_model(r, final(env)@, final(m).on(tape)),
    decreases fuel, 2int, 0int,
{
    match init {
        None => Ok(Signal::Value(Value::Unit)),
        Some(TypedForInit::Let(d)) => eval_binding(d, env, runtime, m, host, fuel),
        Some(TypedForInit::Mut(d)) => eval_binding(d, env, runtime, m, host, fuel),
        Some(TypedForInit::Expr(e)) => match eval_expr(e, env, runtime, m, host, fuel) {
            Ok(_) => Ok(Signal::Value(Value::Unit)),
            Err(e) => Err(e),
        },
    }
}

/// Evaluates a `for` loop. What it declares has a scope of its own.
pub(crate) fn eval_for<H: Host>(
    f: &TypedFor,
    env: &mut Environment,
    runtime: &RuntimeRegistry,
    m: &mut Machine,
    host: &mut H,
    fuel: u64,
) -> (r: Result<Signal, Stop>)
    requires
        old(env)@.scopes.len() > 0,
    ensures
        final(env)@.scopes.len() >= old(env)@.scopes.len(),
        crate::machine::begins(old(m).log@, final(m).log@),
        crate::machine::exchanged(
            old(m).log@,
            final(m).log@,
            old(host).history(),
            final(host).history(),
        ),
        forall|tape: Seq<Event>|
            crate::machine::begins(final(m).log@, tape) ==> crate::semantics::for_run(
                *f,
                old(env)@,
                runtime@,
                #[trigger] old(m).on(tape),
                fuel as nat,
            ) == crate::evaluator::out_model(r, final(env)@, final(m).on(tape)),
    decreases fuel, 3int, 1int,
{
    env.push_scope();
    match eval_for_init(&f.init, env, runtime, m, host, fuel) {
        Ok(Signal::Value(_)) => {},
        other => {
            return other;
        },
    }
    let (in_order, r) = eval_for_rounds(f, env, runtime, m, host, fuel);
    if in_order {
        env.pop_scope();
    }
    r
}

/// Evaluates the rounds of a `for` loop. The first part of the answer says whether
/// the loop has been left in order.
pub(crate) fn eval_for_rounds<H: Host>(
    f: &TypedFor,
    env: &mut Environment,
    runtime: &RuntimeRegistry,
    m: &mut Machine,
    host: &mut H,
    fuel: u64,
) -> (r: (bool, Result<Signal, Stop>))
    requires
        old(env)@.scopes.len() > 0,
    ensures
        final(env)@.scopes.len() >= old(env)@.scopes.len(),
        crate::machine::begins(old(m).log@, final(m).log@),
        crate::machine::exchanged(
            old(m).log@,
            final(m).log@,
            old(host).history(),
            final(host).history(),
        ),
        forall|tape: Seq<Event>|
            crate::machine::begins(final(m).log@, tape) ==> crate::semantics::for_rounds(
                *f,
                old(env)@,
                runtime@,
                #[trigger] old(m).on(tape),
                fuel as nat,
            ) == (r.0, crate::evaluator::out_model(r.1, final(env)@, final(m).on(tape))),
    decreases fuel, 3int, 0int,
{
    let ghost begin = env@;
    let ghost start = *m;
    let mut left: u64 = fuel;
    while left > 0
        invariant
            left <= fuel,
            begin.scopes.len() > 0,
            env@.scopes.len() >= begin.scopes.len(),
            begin == old(env)@,
            start == *old(m),
            crate::machine::begins(start.log@, m.log@),
            crate::machine::exchanged(start.log@, m.log@, old(host).history(), host.history()),
            forall|tape: Seq<Event>|
                crate::machine::begins(m.log@, tape) ==> crate::semantics::for_rounds(
                    *f,
                    begin,
                    runtime@,
                    #[trigger] start.on(tape),
                    fuel as nat,
                ) == crate::semantics::for_rounds(
                    *f,
                    env@,
                    runtime@,
                    m.on(tape),
                    left as nat,
                ),
        decreases left,
    {
        left = left - 1;
        let condition = match &f.condition {
            Some(e) => eval_expr(e, env, runtime, m, host, left),
            None => Ok(Signal::Value(Value::Boolean(true))),
        };
        let v = match condition {
            Err(e) => {
                return (false, Err(e));
            },
            Ok(Signal::Value(v)) => v,
            Ok(jump) => {
                return (true, Ok(jump));
            },
        };
        match v {
            Value::Boolean(false) => {
                return (true, Ok(Signal::Value(Value::Unit)));
            },
            Value::Boolean(true) => {},
            _ => {
                return (
                    true,
                    Err(
                        internal(
                            "for: expected boolean condition (typechecker should have caught this)",
                        ),
                    ),
                );
            },
        }
        match eval_block(&f.body, env, runtime, m, host, left) {
            Err(e) => {
                return (false, Err(e));
            },
            Ok(Signal::Break(_)) => {
                return (true, Ok(Signal::Value(Value::Unit)));
            },
            Ok(Signal::Return(v)) => {
                return (true, Ok(Signal::Return(v)));
            },
            Ok(_) => {},
        }
        match &f.step {
            None => {},
            Some(e) => match eval_expr(e, env, runtime, m, host, left) {
                Ok(_) => {},
                Err(e) => {
                    return (false, Err(e));
                },
            },
        }
    }
    (false, Err(Stop::Endless))
}

/// Runs one round of a `for`-`in` loop. The first part of the answer says whether
/// the loop goes on.
pub(crate) fn run_for_in_iteration<H: Host>(
    f: &TypedForIn,
    item: Value,
    env: &mut Environment,
    runtime: &RuntimeRegistry,
    m: &mut Machine,
    host: &mut H,
    fuel: u64,
) -> (r: (bool, Result<Signal, Stop>))
    requires
        old(env)@.scopes.len() > 0,
    ensures
        final(env)@.scopes.len() >= old(env)@.scopes.len(),
        crate::machine::begins(old(m).log@, final(m).log@),
        crate::machine::exchanged(
            old(m).log@,
            final(m).log@,
            old(host).history(),
            final(host).history(),
        ),
        forall|tape: Seq<Event>|
            crate::machine::begins(final(m).log@, tape) ==> crate::semantics::round_run(
                *f,
                item@,
                old(env)@,
                runtime@,
                #[trigger] old(m).on(tape),
                fuel as nat,
            ) == (r.0, crate::evaluator::out_model(r.1, final(env)@, final(m).on(tape))),
    decreases fuel, 8int, 0int,
{
    env.push_scope();
    let ghost before = *m;
    let fits = env.define_binding(&mut m.store, f.binding_id, f.binding.as_str(), item);
    proof {
        crate::machine::lemma_stored(before, *m);
    }
    if !fits {
        return (false, Err(Stop::Endless));
    }
    let signal = match eval_block(&f.body, env, runtime, m, host, fuel) {
        Ok(signal) => signal,
        Err(e) => {
            return (false, Err(e));
        },
    };
    env.pop_scope();
    match signal {
        Signal::Break(_) => (false, Ok(Signal::Value(Value::Unit))),
        Signal::Return(v) => (false, Ok(Signal::Return(v))),
        _ => (true, Ok(Signal::Value(Value::Unit))),
    }
}

/// Evaluates a `for`-`in` loop over values.
pub(crate) fn eval_items<H: Host>(
    f: &TypedForIn,
    items: &Vec<Value>,
    env: &mut Environment,
    runtime: &RuntimeRegistry,
    m: &mut Machine,
    host: &mut H,
    fuel: u64,
) -> (r: Result<Signal, Stop>)
    requires
        old(env)@.scopes.len() > 0,
    ensures
        final(env)@.scopes.len() >= old(env)@.scopes.len(),
        crate::machine::begins(old(m).log@, final(m).log@),
        crate::machine::exchanged(
            old(m).log@,
            final(m).log@,
            old(host).history(),
            final(host).history(),
        ),
        forall|tape: Seq<Event>|
            crate::machine::begins(final(m).log@, tape) ==> crate::semantics::items_run(
                *f,
                items.deep_view(),
                0,
                old(env)@,
                runtime@,
                #[trigger] old(m).on(tape),
                fuel as nat,
            ) == crate::evaluator::out_model(r, final(env)@, final(m).on(tape)),
    decreases fuel, 9int, 0int,
{
    let ghost begin = env@;
    let ghost start = *m;
    let ghost terms = items.deep_view();
    assert(terms.len() == items@.len());
    let mut i: usize = 0;
    while i < items.len()
        invariant
            i <= items.len(),
            terms == items.deep_view(),
            terms.len() == items@.len(),
            begin.scopes.len() > 0,
            env@.scopes.len() >= begin.scopes.len(),
            begin == old(env)@,
            start == *old(m),
            crate::machine::begins(start.log@, m.log@),
            crate::machine::exchanged(start.log@, m.log@, old(host).history(), host.history()),
            forall|tape: Seq<Event>|
                crate::machine::begins(m.log@, tape) ==> crate::semantics::items_run(
                    *f,
                    terms,
                    0,
                    begin,
                    runtime@,
                    #[trigger] start.on(tape),
                    fuel as nat,
                ) == crate::semantics::items_run(
                    *f,
                    terms,
                    i as int,
                    env@,
                    runtime@,
                    m.on(tape),
                    fuel as nat,
                ),
        decreases items.len() - i,
    {
        assert(terms[i as int] == items@[i as int]@);
        let (goes_on, r) = run_for_in_iteration(
            f,
            items[i].dup(),
            env,
            runtime,
            m,
            host,
            fuel,
        );
        if !goes_on {
            return r;
        }
        i += 1;
    }
    Ok(Signal::Value(Value::Unit))
}

/// Evaluates a `for`-`in` loop over the numbers from one up to another, which is
/// left out.
pub(crate) fn eval_range<H: Host>(
    f: &TypedForIn,
    from: i64,
    to: i128,
    env: &mut Environment,
    runtime: &RuntimeRegistry,
    m: &mut Machine,
    host: &mut H,
    fuel: u64,
) -> (r: Result<Signal, Stop>)
    requires
        old(env)@.scopes.len() > 0,
        to <= i64::MAX + 1,
    ensures
        final(env)@.scopes.len() >= old(env)@.scopes.len(),
        crate::machine::begins(old(m).log@, final(m).log@),
        crate::machine::exchanged(
            old(m).log@,
            final(m).log@,
            old(host).history(),
            final(host).history(),
        ),
        forall|tape: Seq<Event>|
            crate::machine::begins(final(m).log@, tape) ==> crate::semantics::range_run(
                *f,
                from as int,
                to as int,
                old(env)@,
                runtime@,
                #[trigger] old(m).on(tape),
                fuel as nat,
            ) == crate::evaluator::out_model(r, final(env)@, final(m).on(tape)),
    decreases fuel, 9int, 0int,
{
    let ghost begin = env@;
    let ghost start = *m;
    let mut cur: i128 = from as i128;
    while cur < to
        invariant
            from <= cur,
            from <= to ==> cur <= to,
            to <= i64::MAX + 1,
            begin.scopes.len() > 0,
            env@.scopes.len() >= begin.scopes.len(),
            begin == old(env)@,
            start == *old(m),
            crate::machine::begins(start.log@, m.log@),
            crate::machine::exchanged(start.log@, m.log@, old(host).history(), host.history()),
            forall|tape: Seq<Event>|
                crate::machine::begins(m.log@, tape) ==> crate::semantics::range_run(
                    *f,
                    from as int,
                    to as int,
                    begin,
                    runtime@,
                    #[trigger] start.on(tape),
                    fuel as nat,
                ) == crate::semantics::range_run(
                    *f,
                    cur as int,
                    to as int,
                    env@,
                    runtime@,
                    m.on(tape),
                    fuel as nat,
                ),
        decreases to - cur,
    {
        let (goes_on, r) = run_for_in_iteration(
            f,
            Value::I64(cur as i64),
            env,
            runtime,
            m,
            host,
            fuel,
        );
        if !goes_on {
            return r;
        }
        cur += 1;
    }
    Ok(Signal::Value(Value::Unit))
}

fn range_field(v: &Value, name: &str) -> (r: Result<i64, Stop>)
    ensures
        match r {
            Ok(n) => crate::semantics::range_bound(v@, name@) == Ok::<int, StopModel>(n as int),
            Err(e) => crate::semantics::range_bound(v@, name@) == Err::<int, StopModel>(
                e.deep_view(),
            ),
        },
{
    match v.field(name) {
        Some(Value::I64(n)) => Ok(*n),
        _ => Err(
            Stop::Error(
                MetelError::internal(
                    wrapped_text("range: missing or non-Int field `", name, "`"),
                ),
            ),
        ),
    }
}

/// What the next value of an iteration is, if there is one.
fn item_of(v: &Value) -> (r: Result<Option<Value>, Stop>)
    ensures
        match r {
            Ok(x) => crate::semantics::next_item(v@) == Ok::<Option<ValueTerm>, StopModel>(
                x.deep_view(),
            ),
            Err(e) => crate::semantics::next_item(v@) == Err::<Option<ValueTerm>, StopModel>(
                e.deep_view(),
            ),
        },
{
    match v {
        Value::Enum { name, type_id: _, variant, variant_id: _, fields: _ } => {
            if !is_text(name, "Perhaps") {
                return Err(internal("Iterable::next: expected Perhaps value"));
            }
            if is_text(variant, "None") {
                return Ok(None);
            }
            match v.field("value") {
                Some(x) => Ok(Some(x.dup())),
                None => Ok(Some(Value::Unit)),
            }
        },
        _ => Err(internal("Iterable::next: expected Perhaps value")),
    }
}

/// Evaluates a `for`-`in` loop over what a method gives, as long as it gives
/// something.
pub(crate) fn eval_iteration<H: Host>(
    f: &TypedForIn,
    next: &RuntimeCallable,
    cell: CellId,
    env: &mut Environment,
    runtime: &RuntimeRegistry,
    m: &mut Machine,
    host: &mut H,
    fuel: u64,
) -> (r: Result<Signal, Stop>)
    requires
        old(env)@.scopes.len() > 0,
    ensures
        final(env)@.scopes.len() >= old(env)@.scopes.len(),
        crate::machine::begins(old(m).log@, final(m).log@),
        crate::machine::exchanged(
            old(m).log@,
            final(m).log@,
            old(host).history(),
            final(host).history(),
        ),
        forall|tape: Seq<Event>|
            crate::machine::begins(final(m).log@, tape) ==> crate::semantics::iteration_run(
                *f,
                next.deep_view(),
                cell,
                old(env)@,
                runtime@,
                #[trigger] old(m).on(tape),
                fuel as nat,
            ) == crate::evaluator::out_model(r, final(env)@, final(m).on(tape)),
    decreases fuel, 3int, 0int,
{
    let ghost begin = env@;
    let ghost start = *m;
    let none: Vec<Value> = Vec::new();
    assert(none.deep_view() =~= Seq::<ValueTerm>::empty());
    let mut left: u64 = fuel;
    while left > 0
        invariant
            left <= fuel,
            none.deep_view() == Seq::<ValueTerm>::empty(),
            begin.scopes.len() > 0,
            env@.scopes.len() >= begin.scopes.len(),
            begin == old(env)@,
            start == *old(m),
            crate::machine::begins(start.log@, m.log@),
            crate::machine::exchanged(start.log@, m.log@, old(host).history(), host.history()),
            forall|tape: Seq<Event>|
                crate::machine::begins(m.log@, tape) ==> crate::semantics::iteration_run(
                    *f,
                    next.deep_view(),
                    cell,
                    begin,
                    runtime@,
                    #[trigger] start.on(tape),
                    fuel as nat,
                ) == crate::semantics::iteration_run(
                    *f,
                    next.deep_view(),
                    cell,
                    env@,
                    runtime@,
                    m.on(tape),
                    left as nat,
                ),
        decreases left,
    {
        left = left - 1;
        let v = match call_method_function(
            next,
            ReceiverBinding::Shared(cell),
            &none,
            None,
            None,
            None,
            &f.span,
            runtime,
            m,
            host,
            left,
        ) {
            Err(e) => {
                return Err(e);
            },
            Ok(Signal::Value(v)) => v,
            Ok(_) => {
                return Err(Stop::Undefined);
            },
        };
        let item = match item_of(&v) {
            Err(e) => {
                return Err(e);
            },
            Ok(None) => {
                return Ok(Signal::Value(Value::Unit));
            },
            Ok(Some(item)) => item,
        };
        let (goes_on, r) = run_for_in_iteration(f, item, env, runtime, m, host, left);
        if !goes_on {
            return r;
        }
    }
    Err(Stop::Endless)
}

/// Evaluates a `for`-`in` loop over a value.
pub(crate) fn eval_for_in<H: Host>(
    f: &TypedForIn,
    iterable: Value,
    env: &mut Environment,
    runtime: &RuntimeRegistry,
    m: &mut Machine,
    host: &mut H,
    fuel: u64,
) -> (r: Result<Signal, Stop>)
    requires
        old(env)@.scopes.len() > 0,
    ensures
        final(env)@.scopes.len() >= old(env)@.scopes.len(),
        crate::machine::begins(old(m).log@, final(m).log@),
        crate::machine::exchanged(
            old(m).log@,
            final(m).log@,
            old(host).history(),
            final(host).history(),
        ),
        forall|tape: Seq<Event>|
            crate::machine::begins(final(m).log@, tape) ==> crate::semantics::for_in_run(
                *f,
                iterable@,
                old(env)@,
                runtime@,
                #[trigger] old(m).on(tape),
                fuel as nat,
            ) == crate::evaluator::out_model(r, final(env)@, final(m).on(tape)),
    decreases fuel, 3int, 1int,
{
    if fuel == 0 {
        return Err(Stop::Endless);
    }
    let k: u64 = fuel - 1;
    let v = match peel(&m.store, &iterable, &f.span, k) {
        Ok(v) => v,
        Err(e) => {
            return Err(e);
        },
    };
    match &v {
        Value::Array(a) => {
            let items = m.store.array(*a);
            eval_items(f, &items, env, runtime, m, host, k)
        },
        Value::Struct { name, type_id: _, fields: _ } => {
            let half_open = is_text(name, "Range");
            if half_open || is_text(name, "RangeInclusive") {
                let from: i64 = match range_field(&v, "start") {
                    Ok(n) => n,
                    Err(e) => {
                        return Err(e);
                    },
                };
                let to: i64 = match range_field(&v, "end") {
                    Ok(n) => n,
                    Err(e) => {
                        return Err(e);
                    },
                };
                let end: i128 = if half_open {
                    to as i128
                } else {
                    to as i128 + 1
                };
                return eval_range(f, from, end, env, runtime, m, host, k);
            }
            let next = match runtime.resolve_value_type_id(&v) {
                Some(id) => runtime.get_regular_method(id, "next"),
                None => None,
            };
            let method = match next {
                Some(method) => method,
                None => {
                    return Err(
                        panicked(
                            RuntimeErrorCode::R0011,
                            wrapped_text(
                                "for-in: `",
                                name.as_str(),
                                "` does not implement Iterable (no `next` method)",
                            ),
                            &f.span,
                        ),
                    );
                },
            };
            let ghost before = *m;
            let copy = deep_clone_value(&mut m.store, &v);
            let cell = match copy {
                Some(x) => m.store.make_cell(x),
                None => {
                    proof {
                        crate::machine::lemma_stored(before, *m);
                    }
                    return Err(Stop::Endless);
                },
            };
            proof {
                crate::machine::lemma_stored(before, *m);
            }
            eval_iteration(f, &method.body, cell, env, runtime, m, host, k)
        },
        _ => Err(
            panicked(
                RuntimeErrorCode::R0011,
                "for-in: expected Array, Range, or Iterable value".to_owned(),
                &f.span,
            ),
        ),
    }
}

/// Evaluates a loop that goes round until it is left.
pub(crate) fn eval_loop<H: Host>(
    body: &TypedBlock,
    env: &mut Environment,
    runtime: &RuntimeRegistry,
    m: &mut Machine,
    host: &mut H,
    fuel: u64,
) -> (r: Result<Signal, Stop>)
    requires
        old(env)@.scopes.len() > 0,
    ensures
        final(env)@.scopes.len() >= old(env)@.scopes.len(),
        crate::machine::begins(old(m).log@, final(m).log@),
        crate::machine::exchanged(
            old(m).log@,
            final(m).log@,
            old(host).history(),
            final(host).history(),
        ),
        forall|tape: Seq<Event>|
            crate::machine::begins(final(m).log@, tape) ==> crate::semantics::loop_run(
                *body,
                old(env)@,
                runtime@,
                #[trigger] old(m).on(tape),
                fuel as nat,
            ) == crate::evaluator::out_model(r, final(env)@, final(m).on(tape)),
    decreases fuel, 12int, 0int,
{
    let ghost begin = env@;
    let ghost start = *m;
    let mut left: u64 = fuel;
    while left > 0
        invariant
            left <= fuel,
            begin.scopes.len() > 0,
            env@.scopes.len() >= begin.scopes.len(),
            begin == old(env)@,
            start == *old(m),
            crate::machine::begins(start.log@, m.log@),
            crate::machine::exchanged(start.log@, m.log@, old(host).history(), host.history()),
            forall|tape: Seq<Event>|
                crate::machine::begins(m.log@, tape) ==> crate::semantics::loop_run(
                    *body,
                    begin,
                    runtime@,
                    #[trigger] start.on(tape),
                    fuel as nat,
                ) == crate::semantics::loop_run(
                    *body,
                    env@,
                    runtime@,
                    m.on(tape),
                    left as nat,
                ),
        decreases left,
    {
        left = left - 1;
        match eval_block(body, env, runtime, m, host, left) {
            Ok(Signal::Value(_)) => {},
            Ok(Signal::Continue) => {},
            Ok(Signal::Break(v)) => {
                return Ok(Signal::Value(v));
            },
            other => {
                return other;
            },
        }
    }
    Err(Stop::Endless)
}

/// Binds the variables of a match. The answer is `false` where a value contains
/// itself.
fn bind_all(bs: &Vec<PatternBinding>, env: &mut Environment, store: &mut Store) -> (b: bool)
    requires
        old(env)@.scopes.len() > 0,
    ensures
        (b, final(store)@, final(env)@) == crate::semantics::bindings_bound(
            old(store)@,
            old(env)@,
            bs.deep_view(),
            0,
        ),
        final(env)@.scopes.len() == old(env)@.scopes.len(),
{
    let ghost all = bs.deep_view();
    assert(all.len() == bs@.len());
    let mut i: usize = 0;
    while i < bs.len()
        invariant
            i <= bs.len(),
            all == bs.deep_view(),
            all.len() == bs@.len(),
            env@.scopes.len() > 0,
            env@.scopes.len() == old(env)@.scopes.len(),
            crate::semantics::bindings_bound(old(store)@, old(env)@, all, 0)
                == crate::semantics::bindings_bound(store@, env@, all, i as int),
        decreases bs.len() - i,
    {
        assert(all[i as int] == bs@[i as int].deep_view());
        if !env.define_binding(store, bs[i].1, bs[i].0.as_str(), bs[i].2.dup()) {
            return false;
        }
        i += 1;
    }
    true
}

/// What a guard says.
pub open spec fn guard_model(r: Result<bool, Result<Signal, Stop>>) -> Result<
    bool,
    Result<SignalModel, StopModel>,
> {
    match r {
        Ok(b) => Ok(b),
        Err(other) => Err(crate::evaluator::signal_model(other)),
    }
}

/// Whether the guard of an arm lets it be taken.
pub(crate) fn eval_guard<H: Host>(
    guard: &Option<Rc<TypedExpr>>,
    bs: &Vec<PatternBinding>,
    env: &mut Environment,
    runtime: &RuntimeRegistry,
    m: &mut Machine,
    host: &mut H,
    fuel: u64,
) -> (r: Result<bool, Result<Signal, Stop>>)
    requires
        old(env)@.scopes.len() > 0,
    ensures
        final(env)@.scopes.len() >= old(env)@.scopes.len(),
        crate::machine::begins(old(m).log@, final(m).log@),
        crate::machine::exchanged(
            old(m).log@,
            final(m).log@,
            old(host).history(),
            final(host).history(),
        ),
        forall|tape: Seq<Event>|
            crate::machine::begins(final(m).log@, tape) ==> crate::semantics::guard_run(
                *guard,
                bs.deep_view(),
                old(env)@,
                runtime@,
                #[trigger] old(m).on(tape),
                fuel as nat,
            ) == (guard_model(r), final(env)@, final(m).on(tape)),
    decreases fuel, 8int, 0int,
{
    let g = match guard {
        None => {
            return Ok(true);
        },
        Some(g) => g,
    };
    env.push_scope();
    let ghost before = *m;
    let fits = bind_all(bs, env, &mut m.store);
    proof {
        crate::machine::lemma_stored(before, *m);
    }
    if !fits {
        return Err(Err(Stop::Endless));
    }
    let signal = match eval_expr(g, env, runtime, m, host, fuel) {
        Ok(signal) => signal,
        Err(e) => {
            return Err(Err(e));
        },
    };
    env.pop_scope();
    match signal {
        Signal::Value(Value::Boolean(b)) => Ok(b),
        Signal::Value(_) => Err(
            Err(
                internal("match guard: expected boolean (typechecker should have caught this)"),
            ),
        ),
        jump => Err(Ok(jump)),
    }
}

/// Evaluates the body of an arm that is taken.
pub(crate) fn eval_arm<H: Host>(
    body: &TypedBlock,
    bs: &Vec<PatternBinding>,
    env: &mut Environment,
    runtime: &RuntimeRegistry,
    m: &mut Machine,
    host: &mut H,
    fuel: u64,
) -> (r: Result<Signal, Stop>)
    requires
        old(env)@.scopes.len() > 0,
    ensures
        final(env)@.scopes.len() >= old(env)@.scopes.len(),
        crate::machine::begins(old(m).log@, final(m).log@),
        crate::machine::exchanged(
            old(m).log@,
            final(m).log@,
            old(host).history(),
            final(host).history(),
        ),
        forall|tape: Seq<Event>|
            crate::machine::begins(final(m).log@, tape) ==> crate::semantics::arm_run(
                *body,
                bs.deep_view(),
                old(env)@,
                runtime@,
                #[trigger] old(m).on(tape),
                fuel as nat,
            ) == crate::evaluator::out_model(r, final(env)@, final(m).on(tape)),
    decreases fuel, 8int, 0int,
{
    env.push_scope();
    let ghost before = *m;
    let fits = bind_all(bs, env, &mut m.store);
    proof {
        crate::machine::lemma_stored(before, *m);
    }
    if !fits {
        return Err(Stop::Endless);
    }
    let r = eval_block(body, env, runtime, m, host, fuel);
    env.pop_scope();
    r
}

/// Evaluates the first arm that fits.
pub(crate) fn eval_arms<H: Host>(
    arms: &Vec<TypedMatchArm>,
    v: &Value,
    span: &Span,
    env: &mut Environment,
    runtime: &RuntimeRegistry,
    m: &mut Machine,
    host: &mut H,
    fuel: u64,
) -> (r: Result<Signal, Stop>)
    requires
        old(env)@.scopes.len() > 0,
    ensures
        final(env)@.scopes.len() >= old(env)@.scopes.len(),
        crate::machine::begins(old(m).log@, final(m).log@),
        crate::machine::exchanged(
            old(m).log@,
            final(m).log@,
            old(host).history(),
            final(host).history(),
        ),
        forall|tape: Seq<Event>|
            crate::machine::begins(final(m).log@, tape) ==> crate::semantics::arms_run(
                arms@,
                0,
                v@,
                span.deep_view(),
                old(env)@,
                runtime@,
                #[trigger] old(m).on(tape),
                fuel as nat,
            ) == crate::evaluator::out_model(r, final(env)@, final(m).on(tape)),
    decreases fuel, 9int, 0int,
{
    let ghost begin = env@;
    let ghost start = *m;
    let mut i: usize = 0;
    while i < arms.len()
        invariant
            i <= arms.len(),
            begin.scopes.len() > 0,
            env@.scopes.len() >= begin.scopes.len(),
            begin == old(env)@,
            start == *old(m),
            crate::machine::begins(start.log@, m.log@),
            crate::machine::exchanged(start.log@, m.log@, old(host).history(), host.history()),
            forall|tape: Seq<Event>|
                crate::machine::begins(m.log@, tape) ==> crate::semantics::arms_run(
                    arms@,
                    0,
                    v@,
                    span.deep_view(),
                    begin,
                    runtime@,
                    #[trigger] start.on(tape),
                    fuel as nat,
                ) == crate::semantics::arms_run(
                    arms@,
                    i as int,
                    v@,
                    span.deep_view(),
                    env@,
                    runtime@,
                    m.on(tape),
                    fuel as nat,
                ),
        decreases arms.len() - i,
    {
        let mut bs: Vec<PatternBinding> = Vec::new();
        assert(bs.deep_view() =~= Seq::empty());
        let ghost before = *m;
        let fits = match_pattern(&mut m.store, &arms[i].pattern, v, &mut bs);
        proof {
            crate::machine::lemma_stored(before, *m);
        }
        if fits {
            match eval_guard(&arms[i].guard, &bs, env, runtime, m, host, fuel) {
                Err(other) => {
                    return other;
                },
                Ok(true) => {
                    return eval_arm(&arms[i].body, &bs, env, runtime, m, host, fuel);
                },
                Ok(false) => {},
            }
        }
        i += 1;
    }
    Err(
        panicked(
            RuntimeErrorCode::R0006,
            "match: no arm matched scrutinee".to_owned(),
            span,
        ),
    )
}

/// Evaluates a match.
pub(crate) fn eval_match<H: Host>(
    t: &TypedMatch,
    env: &mut Environment,
    runtime: &RuntimeRegistry,
    m: &mut Machine,
    host: &mut H,
    fuel: u64,
) -> (r: Result<Signal, Stop>)
    requires
        old(env)@.scopes.len() > 0,
    ensures
        final(env)@.scopes.len() >= old(env)@.scopes.len(),
        crate::machine::begins(old(m).log@, final(m).log@),
        crate::machine::exchanged(
            old(m).log@,
            final(m).log@,
            old(host).history(),
            final(host).history(),
        ),
        forall|tape: Seq<Event>|
            crate::machine::begins(final(m).log@, tape) ==> crate::semantics::match_run(
                *t,
                old(env)@,
                runtime@,
                #[trigger] old(m).on(tape),
                fuel as nat,
            ) == crate::evaluator::out_model(r, final(env)@, final(m).on(tape)),
    decreases fuel, 12int, 0int,
{
    let v = match eval_expr(&t.scrutinee, env, runtime, m, host, fuel) {
        Ok(Signal::Value(v)) => v,
        other => {
            return other;
        },
    };
    match peel(&m.store, &v, &t.span, fuel) {
        Err(e) => Err(e),
        Ok(x) => eval_arms(&t.arms, &x, &t.span, env, runtime, m, host, fuel),
    }
}

} // verus!
