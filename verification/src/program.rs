//! Whole programs: modules are initialised one after the other, each in an
//! environment of its own, and then `main` is run.

use crate::assoc::{find, set_entry};
use crate::ast::{Span, SpanModel};
use crate::builtins::{
    builtin_type_id, label_method, register_method, runtime_registry,
};
use crate::control::{eval_block, eval_decl};
use crate::data::Dup;
use crate::environment::{Stop, StopModel};
use crate::error::RuntimeErrorCode;
use crate::evaluator::{internal, panicked, wrapped_text, Signal};
use crate::host::{Event, GenericCall, GenericCallModel, Host, Reply, ReplyModel, Task, TaskModel};
use crate::inspect::inspect;
use crate::machine::{Machine, World};
use crate::natives::{native_host_impl, unexpected};
use crate::profiler::{EvaluatorProfile, ProfilerModel};
use crate::runtime::{std_core_lookup, RuntimeModel, RuntimeRegistry};
use crate::runtime_types::{
    runtime_method_from_decl, runtime_type_keys, PatternModel, RuntimeTypePattern,
};
use crate::semantics::{BodyModel, SignalModel};
use crate::sharing::share;
use crate::store::{ClosureCode, ClosureModel, ClosureValue, EnvModel, Environment, Store, StoreModel};
use crate::symbols::SymbolId;
use crate::type_expr::TypeExpr;
use crate::typed_ast::{
    ClosureBody, FunBody, GenericBody, TypedBinding, TypedBlock, TypedDecl, TypedFunDecl,
    TypedImplBlock,
};
use crate::values::{CallableModel, RuntimeCallable, Value, ValueHead, ValueTerm};
use std::rc::Rc;
use vstd::prelude::*;
use vstd::string::*;

verus! {

broadcast use {
    crate::machine::lemma_begins,
    crate::machine::lemma_begins_itself,
    crate::machine::lemma_exchanged,
    crate::machine::lemma_nothing_exchanged,
};

/// Where an imported name comes from.
#[derive(Debug)]
pub struct ResolvedImportRef {
    pub source_module: Vec<String>,
    pub canonical_name: String,
}

/// Where an imported name comes from.
pub struct ImportModel {
    pub source: Seq<Seq<char>>,
    pub name: Seq<char>,
}

impl DeepView for ResolvedImportRef {
    type V = ImportModel;

    open spec fn deep_view(&self) -> ImportModel {
        ImportModel { source: self.source_module.deep_view(), name: self.canonical_name@ }
    }
}

/// A module whose types have been checked. Names are imported and aliased in the
/// order in which they are listed.
#[derive(Debug)]
pub struct TypedModule {
    pub path: Vec<String>,
    pub decls: Vec<TypedDecl>,
    pub import_aliases: Vec<(String, String)>,
    pub imported_names: Vec<(String, ResolvedImportRef)>,
}

/// How a program is run.
#[derive(Debug, Clone, Copy, PartialEq, Eq, Structural)]
pub struct EvaluationOptions {
    pub collect_profile: bool,
}

impl Default for EvaluationOptions {
    fn default() -> (r: Self)
        ensures
            !r.collect_profile,
    {
        EvaluationOptions { collect_profile: false }
    }
}

/// What is known of a program that has run.
#[derive(Debug)]
pub struct EvaluationReport {
    pub profile: Option<EvaluatorProfile>,
}

impl Default for EvaluationReport {
    fn default() -> (r: Self)
        ensures
            r.profile is None,
    {
        EvaluationReport { profile: None }
    }
}

/// The identity of a module-level variable that is declared.
pub open spec fn declared_variable(d: TypedDecl) -> Option<SymbolId> {
    match d {
        TypedDecl::Let(b) => b.def_id,
        TypedDecl::Mut(b) => b.def_id,
        _ => None,
    }
}

/// What is known after the identities of the variables declared among `ds`, from
/// `i` on, have been marked.
pub open spec fn variables_marked(ds: Seq<TypedDecl>, i: int, rt: RuntimeModel) -> RuntimeModel
    decreases ds.len() - i,
{
    if i < 0 || i >= ds.len() {
        rt
    } else {
        match declared_variable(ds[i]) {
            Some(id) => variables_marked(
                ds,
                i + 1,
                RuntimeModel { variables: rt.variables.insert(id), ..rt },
            ),
            None => variables_marked(ds, i + 1, rt),
        }
    }
}

fn mark_variables(ds: &Vec<TypedDecl>, runtime: &mut RuntimeRegistry)
    ensures
        final(runtime)@ == variables_marked(ds@, 0, old(runtime)@),
{
    let mut i: usize = 0;
    while i < ds.len()
        invariant
            i <= ds.len(),
            variables_marked(ds@, 0, old(runtime)@) == variables_marked(ds@, i as int, runtime@),
        decreases ds.len() - i,
    {
        let id = match &ds[i] {
            TypedDecl::Let(d) => d.def_id,
            TypedDecl::Mut(d) => d.def_id,
            _ => None,
        };
        match id {
            Some(id) => {
                runtime.mark_let_mut_def_id(id);
            },
            None => {},
        }
        i += 1;
    }
}

/// The store and the environment after each function among `ds`, from `i` on, has
/// been given a place under its name. Overloaded ones have no name.
pub open spec fn names_placed(ds: Seq<TypedDecl>, i: int, env: EnvModel, s: StoreModel) -> (
    StoreModel,
    EnvModel,
)
    decreases ds.len() - i,
{
    if i < 0 || i >= ds.len() {
        (s, env)
    } else {
        match ds[i] {
            TypedDecl::Fun(f) => if f.symbol_id is None {
                let (t, c) = crate::store::cell_made(s, crate::values::unit_term());
                names_placed(ds, i + 1, crate::environment::name_bound(env, f.name@, c), t)
            } else {
                names_placed(ds, i + 1, env, s)
            },
            _ => names_placed(ds, i + 1, env, s),
        }
    }
}

fn place_names(ds: &Vec<TypedDecl>, env: &mut Environment, store: &mut Store)
    requires
        old(env)@.scopes.len() > 0,
    ensures
        (final(store)@, final(env)@) == names_placed(ds@, 0, old(env)@, old(store)@),
        final(env)@.scopes.len() == old(env)@.scopes.len(),
{
    let mut i: usize = 0;
    while i < ds.len()
        invariant
            i <= ds.len(),
            env@.scopes.len() > 0,
            env@.scopes.len() == old(env)@.scopes.len(),
            names_placed(ds@, 0, old(env)@, old(store)@) == names_placed(
                ds@,
                i as int,
                env@,
                store@,
            ),
        decreases ds.len() - i,
    {
        match &ds[i] {
            TypedDecl::Fun(f) => if f.symbol_id.is_none() {
                let c = store.make_cell(Value::Unit);
                env.define_rc(f.name.as_str(), c);
            },
            _ => {},
        }
        i += 1;
    }
}

/// What a function is made into: a host function, or a closure that captures the
/// environment of its module.
pub open spec fn body_made(f: TypedFunDecl, env: EnvModel, s: StoreModel) -> (
    StoreModel,
    CallableModel,
) {
    match f.body {
        FunBody::Native(key) => (s, crate::builtins::native_callable(key)),
        _ => {
            let ctx = if f.body is Generic {
                env.type_ctx
            } else {
                None
            };
            let (t, id) = crate::store::closure_made(
                s,
                ClosureModel {
                    code: ClosureCode::Fun(Rc::new(f), ctx),
                    captured: env,
                    in_call: false,
                },
            );
            (t, CallableModel::Closure(id))
        },
    }
}

fn make_body(f: &Rc<TypedFunDecl>, env: &Environment, store: &mut Store) -> (c: RuntimeCallable)
    ensures
        (final(store)@, c.deep_view()) == body_made(**f, env@, old(store)@),
{
    let ctx = match &f.body {
        FunBody::Native(key) => {
            return native_host_impl(*key);
        },
        FunBody::Typed(_) => None,
        FunBody::Generic(_) => env.type_ctx,
    };
    let id = store.make_closure(
        ClosureValue {
            code: ClosureCode::Fun(share(f), ctx),
            captured: env.dup(),
            in_call: false,
        },
    );
    RuntimeCallable::Closure(id)
}

/// The store and what is known after a function of a module has been made. An
/// overloaded one is known by its identity; any other is known by its name, and by
/// its identity where it has one.
pub open spec fn function_bound(
    f: TypedFunDecl,
    env: EnvModel,
    rt: RuntimeModel,
    s: StoreModel,
) -> (StoreModel, RuntimeModel) {
    let (t, c) = body_made(f, env, s);
    let v = crate::values::plain(ValueHead::Callable(c));
    match f.symbol_id {
        Some(id) => (
            t,
            RuntimeModel { symbol_values: rt.symbol_values.insert(id, v), ..rt },
        ),
        None => (
            match crate::copying::name_cell(env.scopes, f.name@) {
                Some(cell) => crate::store::cell_set(t, cell, v),
                None => t,
            },
            match f.def_id {
                Some(id) => RuntimeModel { symbol_values: rt.symbol_values.insert(id, v), ..rt },
                None => rt,
            },
        ),
    }
}

fn bind_function(
    f: &Rc<TypedFunDecl>,
    env: &Environment,
    runtime: &mut RuntimeRegistry,
    store: &mut Store,
)
    ensures
        (final(store)@, final(runtime)@) == function_bound(**f, env@, old(runtime)@, old(store)@),
{
    let c = make_body(f, env, store);
    let v = Value::Callable(c);
    match f.symbol_id {
        Some(id) => {
            runtime.register_symbol_value(id, v);
        },
        None => {
            match f.def_id {
                Some(id) => {
                    runtime.register_symbol_value(id, v.dup());
                },
                None => {},
            }
            match env.get_rc(f.name.as_str()) {
                Some(cell) => {
                    store.set_cell(cell, v);
                },
                None => {},
            }
        },
    }
}

/// The type that methods are registered with.
pub open spec fn impl_target(b: TypedImplBlock, named: Seq<char>) -> Option<SymbolId> {
    match b.target_type_id {
        Some(id) => Some(id),
        None => crate::builtins::core_type(named),
    }
}

/// The store and what is known after the methods of a named type, from `i` on,
/// have been registered.
pub open spec fn methods_registered(
    b: TypedImplBlock,
    named: Seq<char>,
    id: SymbolId,
    i: int,
    env: EnvModel,
    rt: RuntimeModel,
    s: StoreModel,
) -> (StoreModel, RuntimeModel)
    decreases b.methods@.len() - i,
{
    if i < 0 || i >= b.methods@.len() {
        (s, rt)
    } else {
        let f = *b.methods@[i];
        let (t, c) = body_made(f, env, s);
        methods_registered(
            b,
            named,
            id,
            i + 1,
            env,
            crate::builtins::method_registered(
                rt,
                id,
                named,
                b.aspect_name.deep_view(),
                b.aspect_id,
                crate::runtime_types::key_texts(b.aspect_type_args.deep_view()),
                f.name@,
                crate::runtime_types::declared_method(
                    crate::builtins::method_label(named, f.name@),
                    f,
                    c,
                ),
            ),
            t,
        )
    }
}

fn register_methods(
    b: &TypedImplBlock,
    named: &String,
    id: SymbolId,
    env: &Environment,
    runtime: &mut RuntimeRegistry,
    store: &mut Store,
)
    ensures
        (final(store)@, final(runtime)@) == methods_registered(
            *b,
            named@,
            id,
            0,
            env@,
            old(runtime)@,
            old(store)@,
        ),
{
    let mut i: usize = 0;
    while i < b.methods.len()
        invariant
            i <= b.methods.len(),
            methods_registered(*b, named@, id, 0, env@, old(runtime)@, old(store)@)
                == methods_registered(*b, named@, id, i as int, env@, runtime@, store@),
        decreases b.methods.len() - i,
    {
        let f = &b.methods[i];
        let c = make_body(f, env, store);
        let m = runtime_method_from_decl(label_method(named.as_str(), &f.name), f, c);
        register_method(
            runtime,
            id,
            named,
            &b.aspect_name,
            b.aspect_id,
            runtime_type_keys(&b.aspect_type_args),
            &f.name,
            m,
        );
        i += 1;
    }
}

/// What is known after a method of arrays has been registered: by the aspect that
/// provides it as well as by its name. What takes no receiver is no method.
pub open spec fn array_method_registered(
    rt: RuntimeModel,
    aspect: Option<Seq<char>>,
    aspect_id: Option<SymbolId>,
    name: Seq<char>,
    m: crate::runtime_types::MethodModel,
) -> RuntimeModel {
    if m.receiver is None {
        rt
    } else {
        let tagged = match aspect {
            Some(a) => RuntimeModel {
                pattern_impls: rt.pattern_impls.insert(
                    PatternModel::Array,
                    crate::runtime::impl_extended(
                        crate::table::list_at(rt.pattern_impls, PatternModel::Array),
                        a,
                        aspect_id,
                        None,
                        name,
                        m,
                    ),
                ),
                ..rt
            },
            None => rt,
        };
        crate::builtins::array_method_entered(tagged, name, m)
    }
}

/// The store and what is known after the methods of arrays, from `i` on, have been
/// registered.
pub open spec fn array_methods_registered(
    b: TypedImplBlock,
    i: int,
    env: EnvModel,
    rt: RuntimeModel,
    s: StoreModel,
) -> (StoreModel, RuntimeModel)
    decreases b.methods@.len() - i,
{
    if i < 0 || i >= b.methods@.len() {
        (s, rt)
    } else {
        let f = *b.methods@[i];
        let (t, c) = body_made(f, env, s);
        array_methods_registered(
            b,
            i + 1,
            env,
            array_method_registered(
                rt,
                b.aspect_name.deep_view(),
                b.aspect_id,
                f.name@,
                crate::runtime_types::declared_method(
                    crate::builtins::method_label("Array"@, f.name@),
                    f,
                    c,
                ),
            ),
            t,
        )
    }
}

fn register_array_methods(
    b: &TypedImplBlock,
    env: &Environment,
    runtime: &mut RuntimeRegistry,
    store: &mut Store,
)
    ensures
        (final(store)@, final(runtime)@) == array_methods_registered(
            *b,
            0,
            env@,
            old(runtime)@,
            old(store)@,
        ),
{
    let mut i: usize = 0;
    while i < b.methods.len()
        invariant
            i <= b.methods.len(),
            array_methods_registered(*b, 0, env@, old(runtime)@, old(store)@)
                == array_methods_registered(*b, i as int, env@, runtime@, store@),
        decreases b.methods.len() - i,
    {
        let f = &b.methods[i];
        let c = make_body(f, env, store);
        let m = runtime_method_from_decl(label_method("Array", &f.name), f, c);
        if m.receiver.is_some() {
            match &b.aspect_name {
                Some(a) => {
                    runtime.register_pattern_aspect_method(
                        RuntimeTypePattern::Array,
                        a.as_str(),
                        b.aspect_id,
                        f.name.as_str(),
                        m.dup(),
                    );
                },
                None => {},
            }
            runtime.register_pattern_method(RuntimeTypePattern::Array, f.name.as_str(), m);
        }
        i += 1;
    }
}

/// The store and what is known after a declaration has been made known, as far as
/// it is one of functions.
pub open spec fn declaration_bound(
    d: TypedDecl,
    env: EnvModel,
    rt: RuntimeModel,
    s: StoreModel,
) -> (StoreModel, RuntimeModel) {
    match d {
        TypedDecl::Fun(f) => function_bound(*f, env, rt, s),
        TypedDecl::Impl(b) => match b.target_type {
            TypeExpr::Named(named, _) => match impl_target(*b, named@) {
                Some(id) => methods_registered(*b, named@, id, 0, env, rt, s),
                None => (s, rt),
            },
            TypeExpr::Array(_) => array_methods_registered(*b, 0, env, rt, s),
            _ => (s, rt),
        },
        _ => (s, rt),
    }
}

/// The store and what is known after the functions declared among `ds`, from `i`
/// on, have been made known.
pub open spec fn declarations_bound(
    ds: Seq<TypedDecl>,
    i: int,
    env: EnvModel,
    rt: RuntimeModel,
    s: StoreModel,
) -> (StoreModel, RuntimeModel)
    decreases ds.len() - i,
{
    if i < 0 || i >= ds.len() {
        (s, rt)
    } else {
        let (t, known) = declaration_bound(ds[i], env, rt, s);
        declarations_bound(ds, i + 1, env, known, t)
    }
}

fn bind_declarations(
    ds: &Vec<TypedDecl>,
    env: &Environment,
    runtime: &mut RuntimeRegistry,
    store: &mut Store,
)
    ensures
        (final(store)@, final(runtime)@) == declarations_bound(
            ds@,
            0,
            env@,
            old(runtime)@,
            old(store)@,
        ),
{
    let mut i: usize = 0;
    while i < ds.len()
        invariant
            i <= ds.len(),
            declarations_bound(ds@, 0, env@, old(runtime)@, old(store)@) == declarations_bound(
                ds@,
                i as int,
                env@,
                runtime@,
                store@,
            ),
        decreases ds.len() - i,
    {
        match &ds[i] {
            TypedDecl::Fun(f) => {
                bind_function(f, env, runtime, store);
            },
            TypedDecl::Impl(b) => match &b.target_type {
                TypeExpr::Named(named, _) => {
                    let target = match b.target_type_id {
                        Some(id) => Some(id),
                        None => builtin_type_id(named),
                    };
                    match target {
                        Some(id) => {
                            register_methods(b, named, id, env, runtime, store);
                        },
                        None => {},
                    }
                },
                TypeExpr::Array(_) => {
                    register_array_methods(b, env, runtime, store);
                },
                _ => {},
            },
            _ => {},
        }
        i += 1;
    }
}

/// The store and the environment after aliases, from `i` on, have been bound to
/// what they stand for, up to the first whose value contains itself. A name that
/// has a meaning already keeps it. The first part says whether all could be bound.
pub open spec fn aliases_bound(
    aliases: Seq<(Seq<char>, Seq<char>)>,
    i: int,
    env: EnvModel,
    rt: RuntimeModel,
    s: StoreModel,
) -> (bool, StoreModel, EnvModel)
    decreases aliases.len() - i,
{
    if i < 0 || i >= aliases.len() {
        (true, s, env)
    } else {
        let (alias, canonical) = aliases[i];
        match crate::semantics::named(canonical, env, rt, s) {
            Some(v) => if crate::copying::name_cell(env.scopes, alias) is None {
                match crate::environment::variable_defined(s, env, None, alias, v) {
                    Some((t, e)) => aliases_bound(aliases, i + 1, e, rt, t),
                    None => (false, s, env),
                }
            } else {
                aliases_bound(aliases, i + 1, env, rt, s)
            },
            None => aliases_bound(aliases, i + 1, env, rt, s),
        }
    }
}

fn bind_aliases(
    aliases: &Vec<(String, String)>,
    env: &mut Environment,
    runtime: &RuntimeRegistry,
    store: &mut Store,
) -> (b: bool)
    requires
        old(env)@.scopes.len() > 0,
    ensures
        (b, final(store)@, final(env)@) == aliases_bound(
            aliases.deep_view(),
            0,
            old(env)@,
            runtime@,
            old(store)@,
        ),
        final(env)@.scopes.len() == old(env)@.scopes.len(),
{
    let ghost all = aliases.deep_view();
    assert(all.len() == aliases@.len());
    let mut i: usize = 0;
    while i < aliases.len()
        invariant
            i <= aliases.len(),
            all == aliases.deep_view(),
            all.len() == aliases@.len(),
            env@.scopes.len() > 0,
            env@.scopes.len() == old(env)@.scopes.len(),
            aliases_bound(all, 0, old(env)@, runtime@, old(store)@) == aliases_bound(
                all,
                i as int,
                env@,
                runtime@,
                store@,
            ),
        decreases aliases.len() - i,
    {
        assert(all[i as int] == aliases@[i as int].deep_view());
        let alias = &aliases[i].0;
        let canonical = &aliases[i].1;
        let found = match env.get(store, canonical.as_str()) {
            Some(v) => Some(v),
            None => std_core_lookup(canonical.as_str(), runtime),
        };
        match found {
            Some(v) => if env.get_rc(alias.as_str()).is_none() {
                if !env.define(store, alias.as_str(), v) {
                    return false;
                }
            },
            None => {},
        }
        i += 1;
    }
    true
}

/// What is known after a variable has been declared: the value of one that never
/// changes, and the cell of either kind, under its identity.
pub open spec fn variable_published(
    d: TypedDecl,
    env: EnvModel,
    rt: RuntimeModel,
    s: StoreModel,
) -> RuntimeModel {
    match d {
        TypedDecl::Let(b) => binding_published(b, true, env, rt, s),
        TypedDecl::Mut(b) => binding_published(b, false, env, rt, s),
        _ => rt,
    }
}

pub open spec fn binding_published(
    b: TypedBinding,
    fixed: bool,
    env: EnvModel,
    rt: RuntimeModel,
    s: StoreModel,
) -> RuntimeModel {
    match (b.def_id, crate::copying::name_cell(env.scopes, b.name@)) {
        (Some(id), Some(c)) => RuntimeModel {
            symbol_values: if fixed {
                rt.symbol_values.insert(id, crate::store::cell_at(s, c))
            } else {
                rt.symbol_values
            },
            globals: rt.globals.insert(id, c),
            ..rt
        },
        _ => rt,
    }
}

fn publish(
    b: &TypedBinding,
    fixed: bool,
    env: &Environment,
    runtime: &mut RuntimeRegistry,
    store: &Store,
)
    ensures
        final(runtime)@ == binding_published(*b, fixed, env@, old(runtime)@, store@),
{
    match (b.def_id, env.get_rc(b.name.as_str())) {
        (Some(id), Some(c)) => {
            if fixed {
                runtime.register_symbol_value(id, store.cell(c));
            }
            runtime.register_global_slot(id, c);
        },
        _ => {},
    }
}

/// What running the declarations of a module, from `i` on, comes to. Functions
/// have been made known before; jumps lead nowhere.
pub open spec fn declarations_run(
    ds: Seq<TypedDecl>,
    i: int,
    env: EnvModel,
    rt: RuntimeModel,
    w: World,
    n: nat,
) -> (Result<(), StopModel>, EnvModel, RuntimeModel, World)
    decreases ds.len() - i,
{
    if i < 0 || i >= ds.len() {
        (Ok(()), env, rt, w)
    } else if ds[i] is Fun || ds[i] is Impl {
        declarations_run(ds, i + 1, env, rt, w, n)
    } else {
        let o = crate::semantics::decl_run(ds[i], env, rt, w, n);
        match o.r {
            Err(e) => (Err(e), o.env, rt, o.w),
            Ok(_) => declarations_run(
                ds,
                i + 1,
                o.env,
                variable_published(ds[i], o.env, rt, o.w.store),
                o.w,
                n,
            ),
        }
    }
}

fn run_declarations<H: Host>(
    ds: &Vec<TypedDecl>,
    env: &mut Environment,
    runtime: &mut RuntimeRegistry,
    m: &mut Machine,
    host: &mut H,
    fuel: u64,
) -> (r: Result<(), Stop>)
    requires
        old(env)@.scopes.len() > 0,
    ensures
        final(env)@.scopes.len() >= old(env)@.scopes.len(),
        crate::machine::begins(old(m).log@, final(m).log@),
        crate::machine::exchanged(
            old(m).log@,
            final(m).log@,
            old(host).history(),
            final(host).history(),
        ),
        forall|tape: Seq<Event>|
            crate::machine::begins(final(m).log@, tape) ==> declarations_run(
                ds@,
                0,
                old(env)@,
                old(runtime)@,
                #[trigger] old(m).on(tape),
                fuel as nat,
            ) == (
                crate::control::done_model(r),
                final(env)@,
                final(runtime)@,
                final(m).on(tape),
            ),
{
    let ghost begin = env@;
    let ghost known = runtime@;
    let ghost start = *m;
    let mut i: usize = 0;
    while i < ds.len()
        invariant
            i <= ds.len(),
            begin.scopes.len() > 0,
            env@.scopes.len() >= begin.scopes.len(),
            begin == old(env)@,
            known == old(runtime)@,
            start == *old(m),
            crate::machine::begins(start.log@, m.log@),
            crate::machine::exchanged(start.log@, m.log@, old(host).history(), host.history()),
            forall|tape: Seq<Event>|
                crate::machine::begins(m.log@, tape) ==> declarations_run(
                    ds@,
                    0,
                    begin,
                    known,
                    #[trigger] start.on(tape),
                    fuel as nat,
                ) == declarations_run(
                    ds@,
                    i as int,
                    env@,
                    runtime@,
                    m.on(tape),
                    fuel as nat,
                ),
        decreases ds.len() - i,
    {
        let d = &ds[i];
        let is_function = match d {
            TypedDecl::Fun(_) => true,
            TypedDecl::Impl(_) => true,
            _ => false,
        };
        if !is_function {
            match eval_decl(d, env, runtime, m, host, fuel) {
                Ok(_) => {},
                Err(e) => {
                    return Err(e);
                },
            }
            match d {
                TypedDecl::Let(b) => {
                    publish(b, true, env, runtime, &m.store);
                },
                TypedDecl::Mut(b) => {
                    publish(b, false, env, runtime, &m.store);
                },
                _ => {},
            }
        }
        i += 1;
    }
    Ok(())
}

/// What initialising a module comes to.
pub open spec fn passes_run(
    ds: Seq<TypedDecl>,
    aliases: Seq<(Seq<char>, Seq<char>)>,
    ctx: Option<usize>,
    env: EnvModel,
    rt: RuntimeModel,
    w: World,
    n: nat,
) -> (Result<(), StopModel>, EnvModel, RuntimeModel, World) {
    let typed = EnvModel { type_ctx: ctx, ..env };
    let marked = variables_marked(ds, 0, rt);
    let (s, placed) = names_placed(ds, 0, typed, w.store);
    let (t, known) = declarations_bound(ds, 0, placed, marked, s);
    match aliases_bound(aliases, 0, placed, known, t) {
        (false, u, e) => (Err(StopModel::Endless), e, known, crate::machine::stored(w, u)),
        (true, u, e) => declarations_run(ds, 0, e, known, crate::machine::stored(w, u), n),
    }
}

/// Initialises a module. Its functions have places before any is made, so that
/// they see each other; aliases come next, and then the variables and statements,
/// in order.
pub fn run_passes<H: Host>(
    decls: &Vec<TypedDecl>,
    aliases: &Vec<(String, String)>,
    type_ctx: Option<usize>,
    env: &mut Environment,
    runtime: &mut RuntimeRegistry,
    m: &mut Machine,
    host: &mut H,
    fuel: u64,
) -> (r: Result<(), Stop>)
    requires
        old(env)@.scopes.len() > 0,
    ensures
        final(env)@.scopes.len() >= old(env)@.scopes.len(),
        crate::machine::begins(old(m).log@, final(m).log@),
        crate::machine::exchanged(
            old(m).log@,
            final(m).log@,
            old(host).history(),
            final(host).history(),
        ),
        forall|tape: Seq<Event>|
            crate::machine::begins(final(m).log@, tape) ==> passes_run(
                decls@,
                aliases.deep_view(),
                type_ctx,
                old(env)@,
                old(runtime)@,
                #[trigger] old(m).on(tape),
                fuel as nat,
            ) == (
                crate::control::done_model(r),
                final(env)@,
                final(runtime)@,
                final(m).on(tape),
            ),
{
    env.type_ctx = type_ctx;
    mark_variables(decls, runtime);
    let ghost before = *m;
    place_names(decls, env, &mut m.store);
    bind_declarations(decls, env, runtime, &mut m.store);
    let bound = bind_aliases(aliases, env, runtime, &mut m.store);
    proof {
        crate::machine::lemma_stored(before, *m);
    }
    if !bound {
        return Err(Stop::Endless);
    }
    run_declarations(decls, env, runtime, m, host, fuel)
}

/// The place of what belongs to no place in a source.
pub open spec fn program_span() -> SpanModel {
    SpanModel { start: 0, end: 0, filename: "<program>"@, line: 0, col: 0 }
}

fn whole_program() -> (s: Span)
    ensures
        s.deep_view() == program_span(),
{
    Span { start: 0, end: 0, filename: "<program>".to_owned(), line: 0, col: 0 }
}

/// What is said of a `main` whose body cannot be typed.
pub open spec fn main_untyped() -> StopModel {
    crate::semantics::panicked(
        RuntimeErrorCode::R0002,
        "main() body could not be typed"@,
        program_span(),
    )
}

/// The closure that `main` is.
pub open spec fn main_closure(env: EnvModel, s: StoreModel) -> Result<ClosureModel, StopModel> {
    match crate::copying::name_cell(env.scopes, "main"@) {
        None => Err(
            crate::semantics::panicked(
                RuntimeErrorCode::R0001,
                "no main() function defined"@,
                program_span(),
            ),
        ),
        Some(c) => match crate::store::cell_at(s, c).head {
            ValueHead::Callable(CallableModel::Closure(id)) => match crate::store::closure_at(
                s,
                id,
            ) {
                Some(made) => Ok(made),
                None => Err(StopModel::Undefined),
            },
            ValueHead::Unit => Err(
                crate::semantics::panicked(
                    RuntimeErrorCode::R0002,
                    "main() is generic — not supported"@,
                    program_span(),
                ),
            ),
            _ => Err(
                crate::semantics::panicked(
                    RuntimeErrorCode::R0002,
                    "`main` is not a function"@,
                    program_span(),
                ),
            ),
        },
    }
}

fn find_main(env: &Environment, store: &Store) -> (r: Result<ClosureCode, Stop>)
    ensures
        match r {
            Ok(code) => main_closure(env@, store@) matches Ok(made) && made.code == code,
            Err(e) => main_closure(env@, store@) == Err::<ClosureModel, StopModel>(e.deep_view()),
        },
{
    match env.get(store, "main") {
        None => Err(
            panicked(
                RuntimeErrorCode::R0001,
                "no main() function defined".to_owned(),
                &whole_program(),
            ),
        ),
        Some(Value::Callable(RuntimeCallable::Closure(id))) => match store.closure(id) {
            Some(made) => Ok(made.code.again()),
            None => Err(Stop::Undefined),
        },
        Some(Value::Unit) => Err(
            panicked(
                RuntimeErrorCode::R0002,
                "main() is generic — not supported".to_owned(),
                &whole_program(),
            ),
        ),
        Some(_) => Err(
            panicked(
                RuntimeErrorCode::R0002,
                "`main` is not a function".to_owned(),
                &whole_program(),
            ),
        ),
    }
}

/// The body of `main` that an answer gives.
pub open spec fn main_answered(reply: Option<ReplyModel>) -> Result<TypedBlock, StopModel> {
    match reply {
        Some(ReplyModel::Body(None)) => Err(main_untyped()),
        Some(ReplyModel::Body(Some(Ok(b)))) => Ok(b),
        Some(ReplyModel::Body(Some(Err(e)))) => Err(StopModel::Error(e)),
        _ => Err(crate::natives::unexpected_reply()),
    }
}

/// The typed body of `main`.
pub open spec fn main_body(code: ClosureCode, w: World) -> (Result<TypedBlock, StopModel>, World) {
    match crate::semantics::code_body(code) {
        BodyModel::Typed(b) => (Ok(b), w),
        BodyModel::Native => (Err(StopModel::Undefined), w),
        BodyModel::Generic(g) => match crate::semantics::code_ctx(code) {
            None => (Err(main_untyped()), w),
            Some(ctx) => {
                let (u, reply) = crate::machine::asked(
                    w,
                    TaskModel::Construct(
                        GenericCallModel {
                            body: g,
                            ctx,
                            name: "main"@,
                            receiver: None,
                            args: Seq::empty(),
                            static_receiver: None,
                            static_args: None,
                            expected: None,
                            span: program_span(),
                        },
                    ),
                );
                (main_answered(reply), u)
            },
        },
    }
}

/// What a body is, or why there is none.
pub open spec fn typed_model(r: Result<Rc<TypedBlock>, Stop>) -> Result<TypedBlock, StopModel> {
    match r {
        Ok(b) => Ok(*b),
        Err(e) => Err(e.deep_view()),
    }
}

fn untyped() -> (r: Stop)
    ensures
        r.deep_view() == main_untyped(),
{
    panicked(
        RuntimeErrorCode::R0002,
        "main() body could not be typed".to_owned(),
        &whole_program(),
    )
}

/// The body of `main` that an answer gives.
pub fn main_answer(reply: Reply) -> (r: Result<Rc<TypedBlock>, Stop>)
    ensures
        main_answered(Some(reply.deep_view())) == typed_model(r),
{
    match reply {
        Reply::Body(None) => Err(untyped()),
        Reply::Body(Some(Ok(b))) => Ok(b),
        Reply::Body(Some(Err(e))) => Err(Stop::Error(e)),
        _ => Err(unexpected()),
    }
}

fn type_main<H: Host>(code: &ClosureCode, m: &mut Machine, host: &mut H) -> (r: Result<
    Rc<TypedBlock>,
    Stop,
>)
    ensures
        crate::machine::begins(old(m).log@, final(m).log@),
        crate::machine::exchanged(
            old(m).log@,
            final(m).log@,
            old(host).history(),
            final(host).history(),
        ),
        forall|tape: Seq<Event>|
            crate::machine::begins(final(m).log@, tape) ==> main_body(
                *code,
                #[trigger] old(m).on(tape),
            ) == (typed_model(r), final(m).on(tape)),
{
    let (body, ctx): (GenericBody, Option<usize>) = match code {
        ClosureCode::Closure(c, ctx) => match &c.body {
            ClosureBody::Typed(b) => {
                return Ok(share(b));
            },
            ClosureBody::Untyped(g) => (*g, *ctx),
        },
        ClosureCode::Fun(f, ctx) => match &f.body {
            FunBody::Typed(b) => {
                return Ok(share(b));
            },
            FunBody::Generic(g) => (*g, *ctx),
            FunBody::Native(_) => {
                return Err(Stop::Undefined);
            },
        },
    };
    let ctx: usize = match ctx {
        Some(ctx) => ctx,
        None => {
            return Err(untyped());
        },
    };
    let args: Vec<Value> = Vec::new();
    assert(args.deep_view() =~= Seq::<ValueTerm>::empty());
    let task = Task::Construct(
        GenericCall {
            body,
            ctx,
            name: "main".to_owned(),
            receiver: None,
            args,
            static_receiver: None,
            static_args: None,
            expected: None,
            span: whole_program(),
        },
    );
    main_answer(m.ask(host, task))
}

/// What the end of `main` says of the program.
pub open spec fn main_ended(r: Result<SignalModel, StopModel>) -> Result<(), StopModel> {
    match r {
        Err(e) => Err(e),
        Ok(SignalModel::Value(_)) => Ok(()),
        Ok(SignalModel::Return(_)) => Ok(()),
        Ok(SignalModel::Break(v)) => Err(
            crate::semantics::internal(
                "unexpected signal from main(): Break("@ + crate::inspect::inspected(v) + ")"@,
            ),
        ),
        Ok(SignalModel::Continue) => Err(
            crate::semantics::internal("unexpected signal from main(): Continue"@),
        ),
    }
}

fn end_main(r: Result<Signal, Stop>) -> (e: Result<(), Stop>)
    ensures
        crate::control::done_model(e) == main_ended(crate::evaluator::signal_model(r)),
{
    match r {
        Err(e) => Err(e),
        Ok(Signal::Value(_)) => Ok(()),
        Ok(Signal::Return(_)) => Ok(()),
        Ok(Signal::Break(v)) => {
            let text = wrapped_text(
                "unexpected signal from main(): Break(",
                inspect(&v).as_str(),
                ")",
            );
            Err(internal(text.as_str()))
        },
        Ok(Signal::Continue) => Err(internal("unexpected signal from main(): Continue")),
    }
}

/// What running `main` comes to.
pub open spec fn main_run(env: EnvModel, rt: RuntimeModel, w: World, n: nat) -> (
    Result<(), StopModel>,
    EnvModel,
    World,
) {
    match main_closure(env, w.store) {
        Err(e) => (Err(e), env, w),
        Ok(made) => {
            let (body, u) = main_body(
                made.code,
                crate::machine::profile_entered(w, "main"@),
            );
            match body {
                Err(e) => (Err(e), env, crate::machine::profile_left(u)),
                Ok(b) => {
                    let o = crate::semantics::block_run(b, env, rt, u, n);
                    (main_ended(o.r), o.env, crate::machine::profile_left(o.w))
                },
            }
        },
    }
}

/// Runs `main`, in the environment of its module.
pub fn run_main<H: Host>(
    env: &mut Environment,
    runtime: &RuntimeRegistry,
    m: &mut Machine,
    host: &mut H,
    fuel: u64,
) -> (r: Result<(), Stop>)
    requires
        old(env)@.scopes.len() > 0,
    ensures
        crate::machine::begins(old(m).log@, final(m).log@),
        crate::machine::exchanged(
            old(m).log@,
            final(m).log@,
            old(host).history(),
            final(host).history(),
        ),
        forall|tape: Seq<Event>|
            crate::machine::begins(final(m).log@, tape) ==> main_run(
                old(env)@,
                runtime@,
                #[trigger] old(m).on(tape),
                fuel as nat,
            ) == (crate::control::done_model(r), final(env)@, final(m).on(tape)),
{
    let code = match find_main(env, &m.store) {
        Ok(code) => code,
        Err(e) => {
            return Err(e);
        },
    };
    m.profiler_enter(host, "main");
    let r = match type_main(&code, m, host) {
        Ok(b) => eval_block(&b, env, runtime, m, host, fuel),
        Err(e) => Err(e),
    };
    m.profiler_exit(host);
    end_main(r)
}

/// The store and the environment after imported names, from `i` on, have been
/// bound to what they mean where they come from, up to the first whose value
/// contains itself. The first part says whether all could be bound.
pub open spec fn imports_seeded(
    imports: Seq<(Seq<char>, ImportModel)>,
    i: int,
    envs: Seq<(Seq<Seq<char>>, EnvModel)>,
    rt: RuntimeModel,
    env: EnvModel,
    s: StoreModel,
) -> (bool, StoreModel, EnvModel)
    decreases imports.len() - i,
{
    if i < 0 || i >= imports.len() {
        (true, s, env)
    } else {
        let (local, from) = imports[i];
        let found = match crate::assoc::entry(envs, from.source) {
            Some(e) => crate::semantics::held(
                s,
                crate::copying::name_cell(e.scopes, from.name),
            ),
            None => crate::table::map_at(rt.modules, from.source).get(from.name),
        };
        match found {
            Some(v) => match crate::environment::variable_defined(s, env, None, local, v) {
                Some((t, e)) => imports_seeded(imports, i + 1, envs, rt, e, t),
                None => (false, s, env),
            },
            None => imports_seeded(imports, i + 1, envs, rt, env, s),
        }
    }
}

fn seed_imports(
    imports: &Vec<(String, ResolvedImportRef)>,
    envs: &Vec<(Vec<String>, Environment)>,
    runtime: &RuntimeRegistry,
    env: &mut Environment,
    store: &mut Store,
) -> (b: bool)
    requires
        old(env)@.scopes.len() > 0,
    ensures
        (b, final(store)@, final(env)@) == imports_seeded(
            imports.deep_view(),
            0,
            envs.deep_view(),
            runtime@,
            old(env)@,
            old(store)@,
        ),
        final(env)@.scopes.len() == old(env)@.scopes.len(),
{
    let ghost all = imports.deep_view();
    assert(all.len() == imports@.len());
    let mut i: usize = 0;
    while i < imports.len()
        invariant
            i <= imports.len(),
            all == imports.deep_view(),
            all.len() == imports@.len(),
            env@.scopes.len() > 0,
            env@.scopes.len() == old(env)@.scopes.len(),
            imports_seeded(all, 0, envs.deep_view(), runtime@, old(env)@, old(store)@)
                == imports_seeded(all, i as int, envs.deep_view(), runtime@, env@, store@),
        decreases imports.len() - i,
    {
        assert(all[i as int] == imports@[i as int].deep_view());
        let local = &imports[i].0;
        let from = &imports[i].1;
        let found = match find(envs, &from.source_module) {
            Some(e) => e.get(store, from.canonical_name.as_str()),
            None => runtime.get_module_value(
                &from.source_module,
                from.canonical_name.as_str(),
            ),
        };
        match found {
            Some(v) => if !env.define(store, local.as_str(), v) {
                return false;
            },
            None => {},
        }
        i += 1;
    }
    true
}

/// What a module says: its path, its declarations, its aliases and its imports.
pub struct ModuleModel {
    pub path: Seq<Seq<char>>,
    pub decls: Seq<TypedDecl>,
    pub aliases: Seq<(Seq<char>, Seq<char>)>,
    pub imports: Seq<(Seq<char>, ImportModel)>,
}

impl DeepView for TypedModule {
    type V = ModuleModel;

    open spec fn deep_view(&self) -> ModuleModel {
        ModuleModel {
            path: self.path.deep_view(),
            decls: self.decls@,
            aliases: self.import_aliases.deep_view(),
            imports: self.imported_names.deep_view(),
        }
    }
}

/// What initialising modules, from `i` on, comes to: the environments of all
/// modules, by their paths, and what is known. Generic bodies of a module are
/// typed with its own types.
pub open spec fn modules_run(
    ms: Seq<ModuleModel>,
    i: int,
    envs: Seq<(Seq<Seq<char>>, EnvModel)>,
    rt: RuntimeModel,
    w: World,
    n: nat,
) -> (Result<(), StopModel>, Seq<(Seq<Seq<char>>, EnvModel)>, RuntimeModel, World)
    decreases ms.len() - i,
{
    if i < 0 || i >= ms.len() {
        (Ok(()), envs, rt, w)
    } else {
        match imports_seeded(
            ms[i].imports,
            0,
            envs,
            rt,
            crate::environment::empty_env(),
            w.store,
        ) {
            (false, s, e) => (Err(StopModel::Endless), envs, rt, crate::machine::stored(w, s)),
            (true, s, e) => {
                let (r, done, known, u) = passes_run(
                    ms[i].decls,
                    ms[i].aliases,
                    Some(i as usize),
                    e,
                    rt,
                    crate::machine::stored(w, s),
                    n,
                );
                match r {
                    Err(e) => (Err(e), envs, known, u),
                    Ok(_) => modules_run(
                        ms,
                        i + 1,
                        crate::assoc::put(envs, ms[i].path, done),
                        known,
                        u,
                        n,
                    ),
                }
            },
        }
    }
}

/// Environments of modules, by their paths.
pub type ModuleEnvs = Vec<(Vec<String>, Environment)>;

/// Whether every environment has a scope.
pub open spec fn all_open(envs: Seq<(Seq<Seq<char>>, EnvModel)>) -> bool {
    forall|k: Seq<Seq<char>>|
        (#[trigger] crate::assoc::entry(envs, k)) matches Some(e) ==> e.scopes.len() > 0
}

fn run_modules<H: Host>(
    modules: &Vec<TypedModule>,
    envs: &mut ModuleEnvs,
    runtime: &mut RuntimeRegistry,
    m: &mut Machine,
    host: &mut H,
    fuel: u64,
) -> (r: Result<(), Stop>)
    requires
        all_open(old(envs).deep_view()),
    ensures
        all_open(final(envs).deep_view()),
        crate::machine::begins(old(m).log@, final(m).log@),
        crate::machine::exchanged(
            old(m).log@,
            final(m).log@,
            old(host).history(),
            final(host).history(),
        ),
        forall|tape: Seq<Event>|
            crate::machine::begins(final(m).log@, tape) ==> modules_run(
                modules.deep_view(),
                0,
                old(envs).deep_view(),
                old(runtime)@,
                #[trigger] old(m).on(tape),
                fuel as nat,
            ) == (
                crate::control::done_model(r),
                final(envs).deep_view(),
                final(runtime)@,
                final(m).on(tape),
            ),
{
    let ghost all = modules.deep_view();
    let ghost before = envs.deep_view();
    let ghost known = runtime@;
    let ghost start = *m;
    assert(all.len() == modules@.len());
    let mut i: usize = 0;
    while i < modules.len()
        invariant
            i <= modules.len(),
            all == modules.deep_view(),
            all.len() == modules@.len(),
            all_open(envs.deep_view()),
            before == old(envs).deep_view(),
            known == old(runtime)@,
            start == *old(m),
            crate::machine::begins(start.log@, m.log@),
            crate::machine::exchanged(start.log@, m.log@, old(host).history(), host.history()),
            forall|tape: Seq<Event>|
                crate::machine::begins(m.log@, tape) ==> modules_run(
                    all,
                    0,
                    before,
                    known,
                    #[trigger] start.on(tape),
                    fuel as nat,
                ) == modules_run(
                    all,
                    i as int,
                    envs.deep_view(),
                    runtime@,
                    m.on(tape),
                    fuel as nat,
                ),
        decreases modules.len() - i,
    {
        assert(all[i as int] == modules@[i as int].deep_view());
        let module = &modules[i];
        let mut env = Environment::new();
        let ghost middle = *m;
        let seeded = seed_imports(
            &module.imported_names,
            envs,
            runtime,
            &mut env,
            &mut m.store,
        );
        proof {
            crate::machine::lemma_stored(middle, *m);
        }
        if !seeded {
            return Err(Stop::Endless);
        }
        match run_passes(
            &module.decls,
            &module.import_aliases,
            Some(i),
            &mut env,
            runtime,
            m,
            host,
            fuel,
        ) {
            Ok(_) => {},
            Err(e) => {
                return Err(e);
            },
        }
        proof {
            let list = envs.deep_view();
            assert forall|k: Seq<Seq<char>>|
                (#[trigger] crate::assoc::entry(
                    crate::assoc::put(list, module.path.deep_view(), env@),
                    k,
                )) matches Some(e) ==> e.scopes.len() > 0 by {
                crate::assoc::lemma_put_entry(list, module.path.deep_view(), env@, k, 0);
                assert(crate::assoc::entry(list, k) matches Some(e) ==> e.scopes.len() > 0);
            }
        }
        set_entry(envs, module.path.dup(), env);
        i += 1;
    }
    Ok(())
}

/// What running a program comes to: the end of `main`, which is that of the last
/// module.
pub open spec fn graph_run(
    ms: Seq<ModuleModel>,
    core: Seq<TypedDecl>,
    w: World,
    n: nat,
) -> (Result<(), StopModel>, World) {
    let (r, envs, rt, u) = modules_run(
        ms,
        0,
        Seq::empty(),
        crate::builtins::builtin_runtime(core),
        w,
        n,
    );
    match r {
        Err(e) => (Err(e), u),
        Ok(_) => {
            match crate::assoc::entry(envs, root_path(ms)) {
                None => (
                    Err(
                        crate::semantics::panicked(
                            RuntimeErrorCode::R0001,
                            "root module not found"@,
                            program_span(),
                        ),
                    ),
                    u,
                ),
                Some(env) => {
                    let (end, _, v) = main_run(env, rt, u, n);
                    (end, v)
                },
            }
        },
    }
}

/// Whether a report says what was recorded.
pub open spec fn reports(report: EvaluationReport, recorded: Option<ProfilerModel>) -> bool {
    match (report.profile, recorded) {
        (Some(p), Some(q)) => crate::profiler::lists_functions(
            p.functions.deep_view(),
            q.functions,
        ) && crate::profiler::lists_edges(p.edges.deep_view(), q.edges),
        (None, None) => true,
        _ => false,
    }
}

/// The path of the last module.
pub open spec fn root_path(ms: Seq<ModuleModel>) -> Seq<Seq<char>> {
    if ms.len() > 0 {
        ms.last().path
    } else {
        Seq::empty()
    }
}

fn last_path(modules: &Vec<TypedModule>) -> (r: Vec<String>)
    ensures
        r.deep_view() == root_path(modules.deep_view()),
{
    let n: usize = modules.len();
    assert(modules.deep_view().len() == modules@.len());
    if n > 0 {
        assert(modules.deep_view().last() == modules@[n - 1].deep_view());
        modules[n - 1].path.dup()
    } else {
        let none: Vec<String> = Vec::new();
        assert(none.deep_view() =~= Seq::<Seq<char>>::empty());
        none
    }
}

/// Runs a program.
fn run_graph<H: Host>(
    modules: &Vec<TypedModule>,
    core: &Vec<TypedDecl>,
    m: &mut Machine,
    host: &mut H,
    fuel: u64,
) -> (r: Result<(), Stop>)
    ensures
        crate::machine::begins(old(m).log@, final(m).log@),
        crate::machine::exchanged(
            old(m).log@,
            final(m).log@,
            old(host).history(),
            final(host).history(),
        ),
        forall|tape: Seq<Event>|
            crate::machine::begins(final(m).log@, tape) ==> graph_run(
                modules.deep_view(),
                core@,
                #[trigger] old(m).on(tape),
                fuel as nat,
            ) == (crate::control::done_model(r), final(m).on(tape)),
{
    let mut runtime = runtime_registry(core);
    let mut envs: ModuleEnvs = Vec::new();
    assert(envs.deep_view() =~= Seq::<(Seq<Seq<char>>, EnvModel)>::empty());
    match run_modules(modules, &mut envs, &mut runtime, m, host, fuel) {
        Ok(_) => {},
        Err(e) => {
            return Err(e);
        },
    }
    let root = last_path(modules);
    match find(&envs, &root) {
        Some(env) => {
            let mut env = env.dup();
            run_main(&mut env, &runtime, m, host, fuel)
        },
        None => Err(
            panicked(
                RuntimeErrorCode::R0001,
                "root module not found".to_owned(),
                &whole_program(),
            ),
        ),
    }
}

/// What running a program on a fresh machine comes to: what was recorded, where a
/// profile is made.
pub open spec fn evaluation_run(
    ms: Seq<ModuleModel>,
    core: Seq<TypedDecl>,
    collect_profile: bool,
    w: World,
    n: nat,
) -> (Result<Option<ProfilerModel>, StopModel>, World) {
    let (end, u) = graph_run(ms, core, crate::machine::fresh(collect_profile, w), n);
    (
        match end {
            Ok(_) => Ok(u.profiler),
            Err(e) => Err(e),
        },
        World { profiler: None, ..u },
    )
}

/// Whether a result of running a program says what the program has come to.
pub open spec fn evaluation_told(
    r: Result<EvaluationReport, Stop>,
    end: Result<Option<ProfilerModel>, StopModel>,
) -> bool {
    match r {
        Ok(report) => end matches Ok(recorded) && reports(report, recorded),
        Err(e) => end == Err::<Option<ProfilerModel>, StopModel>(e.deep_view()),
    }
}

/// Runs a program on a machine from which all else has been taken away, and
/// reports on it.
pub fn evaluate_graph_with_options<H: Host>(
    modules: &Vec<TypedModule>,
    core: &Vec<TypedDecl>,
    options: EvaluationOptions,
    m: &mut Machine,
    host: &mut H,
    fuel: u64,
) -> (r: Result<EvaluationReport, Stop>)
    ensures
        crate::machine::begins(old(m).log@, final(m).log@),
        crate::machine::exchanged(
            old(m).log@,
            final(m).log@,
            old(host).history(),
            final(host).history(),
        ),
        forall|tape: Seq<Event>|
            crate::machine::begins(final(m).log@, tape) ==> ({
                let (end, w) = evaluation_run(
                    modules.deep_view(),
                    core@,
                    options.collect_profile,
                    #[trigger] old(m).on(tape),
                    fuel as nat,
                );
                w == final(m).on(tape) && evaluation_told(r, end)
            }),
{
    m.reset(options.collect_profile);
    let ghost start = *m;
    let end = run_graph(modules, core, m, host, fuel);
    let ghost ran = *m;
    let mut profiler = None;
    std::mem::swap(&mut profiler, &mut m.profiler);
    proof {
        assert forall|tape: Seq<Event>| crate::machine::begins(m.log@, tape) implies ({
            let (end_model, w) = evaluation_run(
                modules.deep_view(),
                core@,
                options.collect_profile,
                #[trigger] old(m).on(tape),
                fuel as nat,
            );
            w == m.on(tape) && end_model == match crate::control::done_model(end) {
                Ok(_) => Ok(profiler.deep_view()),
                Err(e) => Err(e),
            }
        }) by {
            assert(crate::machine::fresh(options.collect_profile, old(m).on(tape)) == start.on(
                tape,
            ));
            assert(ran.on(tape).profiler == profiler.deep_view());
        }
    }
    match end {
        Err(e) => Err(e),
        Ok(_) => Ok(
            EvaluationReport {
                profile: match profiler {
                    Some(p) => Some(p.into_profile()),
                    None => None,
                },
            },
        ),
    }
}

/// Runs a program on a machine from which all else has been taken away.
pub fn evaluate_graph<H: Host>(
    modules: &Vec<TypedModule>,
    core: &Vec<TypedDecl>,
    m: &mut Machine,
    host: &mut H,
    fuel: u64,
) -> (r: Result<(), Stop>)
    ensures
        crate::machine::begins(old(m).log@, final(m).log@),
        crate::machine::exchanged(
            old(m).log@,
            final(m).log@,
            old(host).history(),
            final(host).history(),
        ),
        forall|tape: Seq<Event>|
            crate::machine::begins(final(m).log@, tape) ==> ({
                let (end, w) = evaluation_run(
                    modules.deep_view(),
                    core@,
                    false,
                    #[trigger] old(m).on(tape),
                    fuel as nat,
                );
                w == final(m).on(tape) && crate::control::done_model(r) == match end {
                    Ok(_) => Ok(()),
                    Err(e) => Err(e),
                }
            }),
{
    match evaluate_graph_with_options(
        modules,
        core,
        EvaluationOptions { collect_profile: false },
        m,
        host,
        fuel,
    ) {
        Ok(_) => Ok(()),
        Err(e) => Err(e),
    }
}

} // verus!
