//! What holds of every program that runs.

use crate::host::PhaseModel;
use crate::machine::World;
use crate::pipeline::RunOptions;
use crate::program::ModuleModel;
use crate::runtime::RuntimeModel;
use crate::store::EnvModel;
use crate::typed_ast::{TypedDecl, TypedExpr};
use vstd::prelude::*;

verus! {

/// An expression that comes to an end comes to the same end, and leaves the same
/// behind, however much deeper it may nest.
pub proof fn depth_decides_nothing(
    e: TypedExpr,
    env: EnvModel,
    rt: RuntimeModel,
    w: World,
    n: nat,
    more: nat,
)
    requires
        n <= more,
        crate::depth::ended(crate::semantics::expr_run(e, env, rt, w, n).r),
    ensures
        crate::semantics::expr_run(e, env, rt, w, more) == crate::semantics::expr_run(
            e,
            env,
            rt,
            w,
            n,
        ),
{
    crate::settling::lemma_expr_run(e, env, rt, w, n, more);
}

/// Where an expression has a value or jumps, all calls that began in it have
/// returned: those that are on the stack, and those that a profile takes to be
/// running, are the ones from before.
pub proof fn calls_return(e: TypedExpr, env: EnvModel, rt: RuntimeModel, w: World, n: nat)
    requires
        crate::semantics::expr_run(e, env, rt, w, n).r is Ok,
    ensures
        crate::semantics::expr_run(e, env, rt, w, n).w.stack == w.stack,
        crate::depth::running_functions(crate::semantics::expr_run(e, env, rt, w, n).w.profiler)
            == crate::depth::running_functions(w.profiler),
{
    crate::settling::lemma_expr_run(e, env, rt, w, n, n);
}

/// Whatever an expression comes to, no cell, array or closure goes away, and no
/// answer of the host is taken back.
pub proof fn nothing_goes_away(e: TypedExpr, env: EnvModel, rt: RuntimeModel, w: World, n: nat)
    ensures
        crate::depth::grown(w.store, crate::semantics::expr_run(e, env, rt, w, n).w.store),
        crate::semantics::expr_run(e, env, rt, w, n).w.tape == w.tape,
        crate::semantics::expr_run(e, env, rt, w, n).w.at >= w.at,
{
    crate::settling::lemma_expr_run(e, env, rt, w, n, n);
}

proof fn lemma_declarations_run(
    ds: Seq<TypedDecl>,
    i: int,
    env: EnvModel,
    rt: RuntimeModel,
    w: World,
    n: nat,
    more: nat,
)
    requires
        n <= more,
    ensures
        ({
            let o = crate::program::declarations_run(ds, i, env, rt, w, n);
            &&& crate::depth::ended(o.0) ==> crate::program::declarations_run(
                ds,
                i,
                env,
                rt,
                w,
                more,
            ) == o
            &&& crate::depth::kept(w, o.0 is Ok, o.3)
        }),
    decreases ds.len() - i,
{
    if 0 <= i < ds.len() {
        if ds[i] is Fun || ds[i] is Impl {
            lemma_declarations_run(ds, i + 1, env, rt, w, n, more);
        } else {
            crate::settling::lemma_decl_run(ds[i], env, rt, w, n, more);
            let o = crate::semantics::decl_run(ds[i], env, rt, w, n);
            let known = crate::program::variable_published(ds[i], o.env, rt, o.w.store);
            lemma_declarations_run(ds, i + 1, o.env, known, o.w, n, more);
        }
    }
}

/// Whether no call is running in one state but not in another, as far as a profile
/// tells.
spec fn as_many_run(w: World, v: World) -> bool {
    &&& v.profiler is Some == w.profiler is Some
    &&& crate::depth::running_functions(v.profiler) == crate::depth::running_functions(w.profiler)
}

proof fn lemma_passes_run(
    ds: Seq<TypedDecl>,
    aliases: Seq<(Seq<char>, Seq<char>)>,
    ctx: Option<usize>,
    env: EnvModel,
    rt: RuntimeModel,
    w: World,
    n: nat,
    more: nat,
)
    requires
        n <= more,
    ensures
        ({
            let o = crate::program::passes_run(ds, aliases, ctx, env, rt, w, n);
            &&& crate::depth::ended(o.0) ==> crate::program::passes_run(
                ds,
                aliases,
                ctx,
                env,
                rt,
                w,
                more,
            ) == o
            &&& o.0 is Ok ==> as_many_run(w, o.3)
        }),
{
    let typed = EnvModel { type_ctx: ctx, ..env };
    let marked = crate::program::variables_marked(ds, 0, rt);
    let (s, placed) = crate::program::names_placed(ds, 0, typed, w.store);
    let (t, known) = crate::program::declarations_bound(ds, 0, placed, marked, s);
    let (bound, u, e) = crate::program::aliases_bound(aliases, 0, placed, known, t);
    lemma_declarations_run(ds, 0, e, known, crate::machine::stored(w, u), n, more);
}

proof fn lemma_modules_run(
    ms: Seq<ModuleModel>,
    i: int,
    envs: Seq<(Seq<Seq<char>>, EnvModel)>,
    rt: RuntimeModel,
    w: World,
    n: nat,
    more: nat,
)
    requires
        n <= more,
    ensures
        ({
            let o = crate::program::modules_run(ms, i, envs, rt, w, n);
            &&& crate::depth::ended(o.0) ==> crate::program::modules_run(ms, i, envs, rt, w, more)
                == o
            &&& o.0 is Ok ==> as_many_run(w, o.3)
        }),
    decreases ms.len() - i,
{
    if 0 <= i < ms.len() {
        let (seeded, s, e) = crate::program::imports_seeded(
            ms[i].imports,
            0,
            envs,
            rt,
            crate::environment::empty_env(),
            w.store,
        );
        let v = crate::machine::stored(w, s);
        lemma_passes_run(ms[i].decls, ms[i].aliases, Some(i as usize), e, rt, v, n, more);
        let (r, done, known, u) = crate::program::passes_run(
            ms[i].decls,
            ms[i].aliases,
            Some(i as usize),
            e,
            rt,
            v,
            n,
        );
        lemma_modules_run(
            ms,
            i + 1,
            crate::assoc::put(envs, ms[i].path, done),
            known,
            u,
            n,
            more,
        );
    }
}

proof fn lemma_main_run(env: EnvModel, rt: RuntimeModel, w: World, n: nat, more: nat)
    requires
        n <= more,
    ensures
        ({
            let o = crate::program::main_run(env, rt, w, n);
            &&& crate::depth::ended(o.0) ==> crate::program::main_run(env, rt, w, more) == o
            &&& o.0 is Ok ==> as_many_run(w, o.2)
        }),
{
    match crate::program::main_closure(env, w.store) {
        Ok(made) => {
            let entered = crate::machine::profile_entered(w, "main"@);
            let (body, u) = crate::program::main_body(made.code, entered);
            match body {
                Ok(b) => {
                    crate::settling::lemma_block_run(b, env, rt, u, n, more);
                    let o = crate::semantics::block_run(b, env, rt, u, n);
                    if o.r is Ok {
                        crate::depth::lemma_profile(w, "main"@, o.w);
                    }
                },
                Err(_) => {},
            }
        },
        Err(_) => {},
    }
}

proof fn lemma_evaluation_run(
    ms: Seq<ModuleModel>,
    core: Seq<TypedDecl>,
    collect_profile: bool,
    w: World,
    n: nat,
    more: nat,
)
    requires
        n <= more,
    ensures
        ({
            let o = crate::program::evaluation_run(ms, core, collect_profile, w, n);
            &&& crate::depth::ended(o.0) ==> crate::program::evaluation_run(
                ms,
                core,
                collect_profile,
                w,
                more,
            ) == o
            &&& o.0 matches Ok(p) ==> p is Some == collect_profile
                && crate::depth::running_functions(p) =~= Seq::empty()
        }),
{
    let fresh = crate::machine::fresh(collect_profile, w);
    let known = crate::builtins::builtin_runtime(core);
    lemma_modules_run(ms, 0, Seq::empty(), known, fresh, n, more);
    let (r, envs, rt, u) = crate::program::modules_run(ms, 0, Seq::empty(), known, fresh, n);
    match crate::assoc::entry(envs, crate::program::root_path(ms)) {
        Some(env) => lemma_main_run(env, rt, u, n, more),
        None => {},
    }
    assert(crate::depth::running_functions(fresh.profiler) =~= Seq::empty());
}

/// A program that comes to an end comes to the same end, and leaves the same
/// behind, however much deeper it may nest.
pub proof fn programs_end_alike(
    ms: Seq<ModuleModel>,
    core: Seq<TypedDecl>,
    collect_profile: bool,
    w: World,
    n: nat,
    more: nat,
)
    requires
        n <= more,
        crate::depth::ended(crate::program::evaluation_run(ms, core, collect_profile, w, n).0),
    ensures
        crate::program::evaluation_run(ms, core, collect_profile, w, more)
            == crate::program::evaluation_run(ms, core, collect_profile, w, n),
{
    lemma_evaluation_run(ms, core, collect_profile, w, n, more);
}

/// A program that has run to its end has a profile just where one is collected,
/// and no call is left open in it.
pub proof fn profiles_are_complete(
    ms: Seq<ModuleModel>,
    core: Seq<TypedDecl>,
    collect_profile: bool,
    w: World,
    n: nat,
)
    requires
        crate::program::evaluation_run(ms, core, collect_profile, w, n).0 is Ok,
    ensures
        match crate::program::evaluation_run(ms, core, collect_profile, w, n).0->Ok_0 {
            Some(p) => collect_profile && p.active.len() == 0,
            None => !collect_profile,
        },
{
    lemma_evaluation_run(ms, core, collect_profile, w, n, n);
    let recorded = crate::program::evaluation_run(ms, core, collect_profile, w, n).0->Ok_0;
    assert(crate::depth::running_functions(recorded).len() == 0);
}

/// What running a source comes to does not depend on how deep it may nest, once it
/// comes to an end.
pub proof fn runs_end_alike(load: PhaseModel, options: RunOptions, w: World, n: nat, more: nat)
    requires
        n <= more,
        crate::depth::ended(crate::pipeline::pipeline_run(load, options, w, n).0),
    ensures
        crate::pipeline::pipeline_run(load, options, w, more) == crate::pipeline::pipeline_run(
            load,
            options,
            w,
            n,
        ),
{
    let (_, w0) = crate::pipeline::clock(w);
    let (_, a) = crate::pipeline::front_run(load, w0);
    let (checked, b) = crate::pipeline::timed_phase(PhaseModel::Typecheck, a);
    match checked {
        Ok((answer, _)) => {
            let (_, c) = crate::pipeline::check_answer(answer, options.move_check, b);
            let (program, d) = crate::pipeline::timed_phase(PhaseModel::Elaborate, c);
            match program {
                Ok((crate::host::AnswerModel::Program { modules, core }, _)) => {
                    let (_, f) = crate::pipeline::clock(d);
                    lemma_evaluation_run(
                        modules,
                        core,
                        options.collect_evaluator_profile,
                        f,
                        n,
                        more,
                    );
                },
                _ => {},
            }
        },
        Err(_) => {},
    }
}

} // verus!
