//! How a program runs from its modules to its end.

use crate::environment::StopModel;
use crate::error::{ErrorModel, RuntimeErrorCode};
use crate::host::{AnswerModel, PhaseModel, ReplyModel, TaskModel, TypecheckPhaseTimings};
use crate::machine::World;
use crate::native_keys::{NativeFn, NativeKey};
use crate::pipeline::RunOptions;
use crate::program::ModuleModel;
use crate::runtime::RuntimeModel;
use crate::runtime_types::MethodModel;
use crate::semantics::SignalModel;
use crate::store::{EnvModel, StoreModel};
use crate::symbols::SymbolId;
use crate::typed_ast::{TypedBinding, TypedDecl, TypedFunDecl};
use crate::values::{CallableModel, CellId, ClosureId, ValueHead, ValueTerm};
use vstd::prelude::*;
use vstd::string::*;

verus! {

/// A program ends well where `main` has a value or returns, and with the error that it fails
/// with. No jump leads out of it.
pub proof fn programs_end_as_main_does(r: Result<SignalModel, StopModel>)
    ensures
        ({
            let end = crate::program::main_ended(r);
            &&& end is Ok <==> r is Ok && (r->Ok_0 is Value || r->Ok_0 is Return)
            &&& r matches Err(e) ==> end == Err::<(), StopModel>(e)
        }),
{
}

/// A program needs a function `main`: without one, or with something else of that name, it ends
/// before it begins.
pub proof fn programs_need_a_main_function(env: EnvModel, s: StoreModel, c: CellId, id: ClosureId)
    requires
        c.0 < s.cells.len(),
    ensures
        ({
            let found = crate::program::main_closure(env, s);
            let named = crate::copying::name_cell(env.scopes, "main"@);
            let v = s.cells[c.0 as int];
            let code = found->Err_0->Error_0->Runtime_0;
            &&& named is None ==> found is Err && code == RuntimeErrorCode::R0001
            &&& named == Some(c) && v.head == ValueHead::Callable(CallableModel::Closure(id)) && id.0
                < s.closures.len() ==> found == Ok::<_, StopModel>(s.closures[id.0 as int])
            &&& named == Some(c) && (v.head is Int || v.head is Str || v.head is Unit
                || v.head is Struct || v.head is Tuple) ==> found is Err && code
                == RuntimeErrorCode::R0002
        }),
{
}

/// A module runs its declarations in order, functions left out, which are known before. The first
/// that fails ends the program.
pub proof fn declarations_run_in_order(
    ds: Seq<TypedDecl>,
    i: int,
    env: EnvModel,
    rt: RuntimeModel,
    w: World,
    n: nat,
)
    requires
        0 <= i <= ds.len(),
    ensures
        ({
            let r = crate::program::declarations_run(ds, i, env, rt, w, n);
            let o = crate::semantics::decl_run(ds[i], env, rt, w, n);
            let function = ds[i] is Fun || ds[i] is Impl;
            &&& i == ds.len() ==> r == (Ok::<(), StopModel>(()), env, rt, w)
            &&& i < ds.len() && function ==> r == crate::program::declarations_run(
                ds,
                i + 1,
                env,
                rt,
                w,
                n,
            )
            &&& i < ds.len() && !function && o.r is Err ==> r.0 == Err::<(), StopModel>(o.r->Err_0)
                && r.3 == o.w
            &&& i < ds.len() && !function && o.r is Ok && !(ds[i] is Let) && !(ds[i] is Mut) ==> r
                == crate::program::declarations_run(ds, i + 1, o.env, rt, o.w, n)
            &&& i < ds.len() && !function && o.r is Ok ==> r == crate::program::declarations_run(
                ds,
                i + 1,
                o.env,
                crate::program::variable_published(ds[i], o.env, rt, o.w.store),
                o.w,
                n,
            )
        }),
{
}

/// A variable of a module is known to the program by the cell of its name. Of one that never
/// changes, the value is known as well; of one that may, only the cell.
pub proof fn variables_are_published(
    b: TypedBinding,
    id: SymbolId,
    c: CellId,
    env: EnvModel,
    rt: RuntimeModel,
    s: StoreModel,
)
    requires
        b.def_id == Some(id),
        crate::copying::name_cell(env.scopes, b.name@) == Some(c),
        c.0 < s.cells.len(),
    ensures
        ({
            let fixed = crate::program::variable_published(TypedDecl::Let(b), env, rt, s);
            let free = crate::program::variable_published(TypedDecl::Mut(b), env, rt, s);
            &&& fixed.globals == rt.globals.insert(id, c) && free.globals == rt.globals.insert(
                id,
                c,
            )
            &&& fixed.symbol_values == rt.symbol_values.insert(id, s.cells[c.0 as int])
            &&& free.symbol_values == rt.symbol_values
            &&& fixed.types == rt.types && free.types == rt.types
        }),
{
}

/// A function of a module is known by its name, and by its identity where it has one; an
/// overloaded one only by its identity. A host function is the one that its key names.
pub proof fn functions_are_known_by_name_or_identity(
    f: TypedFunDecl,
    key: NativeKey,
    c: CellId,
    env: EnvModel,
    rt: RuntimeModel,
    s: StoreModel,
)
    requires
        f.body == crate::typed_ast::FunBody::Native(key),
        crate::copying::name_cell(env.scopes, f.name@) == Some(c),
        c.0 < s.cells.len(),
    ensures
        ({
            let (t, known) = crate::program::function_bound(f, env, rt, s);
            let v = ValueTerm {
                head: ValueHead::Callable(
                    CallableModel::Intrinsic(
                        crate::native_keys::native_label(key),
                        NativeFn::Key(key),
                    ),
                ),
                args: Seq::empty(),
            };
            &&& f.symbol_id matches Some(id) ==> t == s && known.symbol_values
                == rt.symbol_values.insert(id, v)
            &&& f.symbol_id is None ==> t == (StoreModel {
                cells: s.cells.update(c.0 as int, v),
                ..s
            })
            &&& f.symbol_id is None && f.def_id is None ==> known == rt
            &&& f.symbol_id is None && f.def_id is Some ==> known.symbol_values
                == rt.symbol_values.insert(f.def_id->Some_0, v)
        }),
{
}

/// An alias means what the name behind it means, unless it has a meaning already.
pub proof fn aliases_keep_their_meaning(
    aliases: Seq<(Seq<char>, Seq<char>)>,
    i: int,
    env: EnvModel,
    rt: RuntimeModel,
    s: StoreModel,
)
    requires
        0 <= i < aliases.len(),
    ensures
        ({
            let r = crate::program::aliases_bound(aliases, i, env, rt, s);
            let rest = crate::program::aliases_bound(aliases, i + 1, env, rt, s);
            let meant = crate::semantics::named(aliases[i].1, env, rt, s);
            let taken = crate::copying::name_cell(env.scopes, aliases[i].0) is Some;
            &&& meant is None || taken ==> r == rest
            &&& meant is Some && !taken ==> match crate::environment::variable_defined(
                s,
                env,
                None,
                aliases[i].0,
                meant->Some_0,
            ) {
                Some((t, e)) => r == crate::program::aliases_bound(aliases, i + 1, e, rt, t),
                None => !r.0,
            }
        }),
{
}

/// Modules are initialised in order, and the first that fails ends the program. The program is
/// the last one.
pub proof fn modules_run_in_order(
    ms: Seq<ModuleModel>,
    i: int,
    envs: Seq<(Seq<Seq<char>>, EnvModel)>,
    rt: RuntimeModel,
    w: World,
    n: nat,
)
    requires
        0 <= i <= ms.len(),
    ensures
        ({
            let r = crate::program::modules_run(ms, i, envs, rt, w, n);
            let seeded = crate::program::imports_seeded(
                ms[i].imports,
                0,
                envs,
                rt,
                crate::environment::empty_env(),
                w.store,
            );
            let one = crate::program::passes_run(
                ms[i].decls,
                ms[i].aliases,
                Some(i as usize),
                seeded.2,
                rt,
                World { store: seeded.1, ..w },
                n,
            );
            &&& i == ms.len() ==> r == (Ok::<(), StopModel>(()), envs, rt, w)
            &&& i < ms.len() && seeded.0 && one.0 is Err ==> r.0 == one.0 && r.3 == one.3
            &&& i < ms.len() && seeded.0 && one.0 is Ok ==> r == crate::program::modules_run(
                ms,
                i + 1,
                crate::assoc::put(envs, ms[i].path, one.1),
                one.2,
                one.3,
                n,
            )
            &&& ms.len() > 0 ==> crate::program::root_path(ms) == ms[ms.len() - 1].path
        }),
{
}

/// An imported name means what it means where it comes from: in the module of that path, if it
/// has been initialised, and otherwise among what the program can use.
pub proof fn imports_mean_what_they_meant(
    local: Seq<char>,
    from: crate::program::ImportModel,
    envs: Seq<(Seq<Seq<char>>, EnvModel)>,
    rt: RuntimeModel,
    env: EnvModel,
    s: StoreModel,
    source: EnvModel,
    c: CellId,
)
    requires
        crate::assoc::entry(envs, from.source) == Some(source),
        crate::copying::name_cell(source.scopes, from.name) == Some(c),
        c.0 < s.cells.len(),
    ensures
        ({
            let r = crate::program::imports_seeded(seq![(local, from)], 0, envs, rt, env, s);
            match crate::environment::variable_defined(
                s,
                env,
                None,
                local,
                s.cells[c.0 as int],
            ) {
                Some((t, e)) => r == (true, t, e),
                None => !r.0,
            }
        }),
{
    let imports = seq![(local, from)];
    assert(imports[0] == (local, from));
    reveal_with_fuel(crate::program::imports_seeded, 2);
}

/// A method that has been registered is found: one of an aspect among the impls of its type, one
/// of the type itself among its methods, or among its functions where it takes no receiver.
pub proof fn registered_methods_are_found(
    rt: RuntimeModel,
    id: SymbolId,
    named: Seq<char>,
    name: Seq<char>,
    m: MethodModel,
)
    ensures
        ({
            let r = crate::builtins::method_registered(
                rt,
                id,
                named,
                None,
                None,
                Seq::empty(),
                name,
                m,
            );
            &&& r.type_ids.dom().contains(named) && r.type_ids[named] == id
            &&& r.types.dom().contains(id)
            &&& m.receiver is Some ==> crate::runtime_laws::has_own(r, id, name, m)
            &&& m.receiver is None ==> r.types[id].values.dom().contains(name)
                && r.types[id].values[name] == m
            &&& m.receiver is None && rt.types.dom().contains(id) ==> r.types[id].methods
                == rt.types[id].methods
            &&& m.receiver is Some && rt.types.dom().contains(id) ==> r.types[id].values
                == rt.types[id].values
        }),
{
}

/// Arrays have a length from the start, and a method of theirs that is registered later is found
/// by its name.
pub proof fn arrays_have_their_methods(
    rt: RuntimeModel,
    core: Seq<TypedDecl>,
    name: Seq<char>,
    m: MethodModel,
    v: ValueTerm,
)
    requires
        v.head is Array,
    ensures
        ({
            let r = crate::program::array_method_registered(rt, None, None, name, m);
            &&& m.receiver is Some ==> crate::runtime::method_by_pattern(r, v, name) == Some(m)
            &&& m.receiver is None ==> r == rt
        }),
        ({
            let len = crate::runtime::method_by_pattern(
                crate::builtins::builtin_runtime(core),
                v,
                "len"@,
            );
            &&& len is Some
            &&& len->Some_0.body == CallableModel::Intrinsic("Array::len"@, NativeFn::ArrayLen)
        }),
{
}

/// A phase that fails ends the run with its error; an answer of another kind is refused.
pub proof fn failed_phases_end_the_run(
    p: PhaseModel,
    w: World,
    e: ErrorModel,
    n: nat,
    options: RunOptions,
)
    ensures
        ({
            let (u, reply) = crate::machine::asked(w, TaskModel::Phase(p));
            let r = crate::pipeline::phase_run(p, w);
            &&& r.1 == u
            &&& reply == Some(ReplyModel::Phase(AnswerModel::Failed(e))) ==> r.0 == Err::<
                AnswerModel,
                StopModel,
            >(StopModel::Error(e))
            &&& reply is None ==> r.0 is Err
        }),
        ({
            let clocked = crate::pipeline::clock(w).1;
            let front = crate::pipeline::front_run(p, clocked);
            front.0 is Err ==> crate::pipeline::pipeline_run(p, options, w, n).0 == Err::<
                crate::pipeline::RunModel,
                StopModel,
            >(front.0->Err_0)
        }),
{
}

/// The phases before checking run one after the other: loading, resolving, normalising, and the
/// check that impls do not clash.
pub proof fn phases_run_in_order(load: PhaseModel, w: World)
    ensures
        ({
            let a = crate::pipeline::timed_phase(load, w);
            let b = crate::pipeline::timed_phase(PhaseModel::Resolve, a.1);
            let c = crate::pipeline::timed_phase(PhaseModel::Normalize, b.1);
            let d = crate::pipeline::timed_phase(PhaseModel::Coherence, c.1);
            let r = crate::pipeline::front_run(load, w);
            &&& a.0 is Ok && b.0 is Ok && c.0 is Ok && d.0 is Ok ==> r == (
                Ok::<_, StopModel>(
                    (a.0->Ok_0.1, b.0->Ok_0.1, c.0->Ok_0.1, d.0->Ok_0.1),
                ),
                d.1,
            )
            &&& a.0 is Err ==> r.0 is Err && r.1 == a.1
            &&& a.0 is Ok && b.0 is Err ==> r.0 is Err && r.1 == b.1
            &&& a.0 is Ok && b.0 is Ok && c.0 is Err ==> r.0 is Err && r.1 == c.1
            &&& a.0 is Ok && b.0 is Ok && c.0 is Ok && d.0 is Err ==> r.0 is Err && r.1 == d.1
        }),
{
}

/// The warnings of a run are those of the type checker, and behind them those of the move
/// checker, which is asked only where the run is to check moves.
pub proof fn warnings_of_moves_come_last(
    warnings: Seq<Seq<char>>,
    timings: TypecheckPhaseTimings,
    more: Seq<Seq<char>>,
    w: World,
)
    ensures
        ({
            let checked = AnswerModel::Checked { warnings, timings };
            let (moves, u) = crate::pipeline::phase_run(PhaseModel::MoveCheck, w);
            let with = crate::pipeline::check_answer(checked, true, w);
            &&& crate::pipeline::check_answer(checked, false, w) == (
                Ok::<_, StopModel>((warnings, timings)),
                w,
            )
            &&& moves == Ok::<_, StopModel>(AnswerModel::Warned(more)) ==> with == (
                Ok::<_, StopModel>((warnings + more, timings)),
                u,
            )
            &&& moves is Err ==> with.0 is Err
        }),
{
}

/// The time of a phase is what the clock shows after it less what it showed before.
pub proof fn phases_are_timed(p: PhaseModel, w: World)
    ensures
        ({
            let (before, a) = crate::pipeline::clock(w);
            let (r, b) = crate::pipeline::phase_run(p, a);
            let (after, c) = crate::pipeline::clock(b);
            let timed = crate::pipeline::timed_phase(p, w);
            &&& r is Ok && before <= after ==> timed == (
                Ok::<_, StopModel>((r->Ok_0, (after - before) as u64)),
                c,
            )
            &&& r is Err ==> timed.0 == Err::<(AnswerModel, u64), StopModel>(r->Err_0)
        }),
{
}

/// The variables that a module declares are marked as such, each by its identity.
pub proof fn declared_variables_are_marked(
    ds: Seq<TypedDecl>,
    i: int,
    rt: RuntimeModel,
    id: SymbolId,
)
    requires
        0 <= i <= ds.len(),
    ensures
        crate::program::variables_marked(ds, i, rt).variables.contains(id)
            <==> rt.variables.contains(id) || exists|k: int|
            i <= k < ds.len() && declares(#[trigger] ds[k], id),
        crate::program::variables_marked(ds, i, rt).types == rt.types,
        crate::program::variables_marked(ds, i, rt).globals == rt.globals,
    decreases ds.len() - i,
{
    if i < ds.len() {
        let next = match crate::program::declared_variable(ds[i]) {
            Some(d) => RuntimeModel { variables: rt.variables.insert(d), ..rt },
            None => rt,
        };
        declared_variables_are_marked(ds, i + 1, next, id);
        assert(declares(ds[i], id) <==> crate::program::declared_variable(ds[i]) == Some(id));
        if exists|k: int| i <= k < ds.len() && declares(#[trigger] ds[k], id) {
            let k = choose|k: int| i <= k < ds.len() && declares(#[trigger] ds[k], id);
            if k > i {
                assert(i + 1 <= k < ds.len() && declares(ds[k], id));
            }
        }
    }
}

/// Whether a declaration declares the variable of an identity.
pub open spec fn declares(d: TypedDecl, id: SymbolId) -> bool {
    match d {
        TypedDecl::Let(b) => b.def_id == Some(id),
        TypedDecl::Mut(b) => b.def_id == Some(id),
        _ => false,
    }
}

/// The functions of a module are made known one after the other: those that stand by themselves, and
/// those of impls for named types and for arrays.
pub proof fn functions_are_made_known_in_order(
    ds: Seq<TypedDecl>,
    i: int,
    env: EnvModel,
    rt: RuntimeModel,
    s: StoreModel,
)
    requires
        0 <= i <= ds.len(),
    ensures
        ({
            let r = crate::program::declarations_bound(ds, i, env, rt, s);
            let (t, known) = crate::program::declaration_bound(ds[i], env, rt, s);
            &&& i == ds.len() ==> r == (s, rt)
            &&& i < ds.len() ==> r == crate::program::declarations_bound(ds, i + 1, env, known, t)
            &&& i < ds.len() && ds[i] is Fun ==> (t, known) == crate::program::function_bound(
                *ds[i]->Fun_0,
                env,
                rt,
                s,
            )
            &&& i < ds.len() && (ds[i] is Let || ds[i] is Mut || ds[i] is Stmt) ==> (t, known) == (
                s,
                rt,
            )
        }),
{
}

/// Functions without an identity of their own get a place under their name; overloaded ones do not.
pub proof fn named_functions_get_places(
    ds: Seq<TypedDecl>,
    i: int,
    env: EnvModel,
    s: StoreModel,
)
    requires
        0 <= i <= ds.len(),
    ensures
        ({
            let r = crate::program::names_placed(ds, i, env, s);
            let own = CellId(s.cells.len() as usize);
            let unit = ValueTerm { head: ValueHead::Unit, args: Seq::empty() };
            &&& i == ds.len() ==> r == (s, env)
            &&& i < ds.len() && !(ds[i] is Fun) ==> r == crate::program::names_placed(
                ds,
                i + 1,
                env,
                s,
            )
            &&& i < ds.len() && ds[i] is Fun && ds[i]->Fun_0.symbol_id is Some ==> r
                == crate::program::names_placed(ds, i + 1, env, s)
            &&& i < ds.len() && ds[i] is Fun && ds[i]->Fun_0.symbol_id is None ==> r
                == crate::program::names_placed(
                ds,
                i + 1,
                crate::environment::name_bound(env, ds[i]->Fun_0.name@, own),
                StoreModel { cells: s.cells.push(unit), ..s },
            )
        }),
{
}

/// A module is initialised in passes: its variables are marked, its functions get places and are
/// made known, its aliases are bound, and then its declarations run.
pub proof fn modules_are_initialised_in_passes(
    ds: Seq<TypedDecl>,
    aliases: Seq<(Seq<char>, Seq<char>)>,
    ctx: Option<usize>,
    env: EnvModel,
    rt: RuntimeModel,
    w: World,
    n: nat,
)
    ensures
        ({
            let marked = crate::program::variables_marked(ds, 0, rt);
            let (s, placed) = crate::program::names_placed(
                ds,
                0,
                EnvModel { type_ctx: ctx, ..env },
                w.store,
            );
            let (t, known) = crate::program::declarations_bound(ds, 0, placed, marked, s);
            let (bound, u, e) = crate::program::aliases_bound(aliases, 0, placed, known, t);
            let r = crate::program::passes_run(ds, aliases, ctx, env, rt, w, n);
            &&& bound ==> r == crate::program::declarations_run(
                ds,
                0,
                e,
                known,
                World { store: u, ..w },
                n,
            )
            &&& !bound ==> r.0 is Err
        }),
{
}

/// A program is its modules and then `main` of the last one; what fails in a module ends it.
pub proof fn programs_run_main_last(
    ms: Seq<ModuleModel>,
    core: Seq<TypedDecl>,
    w: World,
    n: nat,
)
    ensures
        ({
            let (r, envs, rt, u) = crate::program::modules_run(
                ms,
                0,
                Seq::empty(),
                crate::builtins::builtin_runtime(core),
                w,
                n,
            );
            let root = crate::assoc::entry(envs, crate::program::root_path(ms));
            let end = crate::program::graph_run(ms, core, w, n);
            &&& r matches Err(e) ==> end == (Err::<(), StopModel>(e), u)
            &&& r is Ok && root is None ==> end.0 is Err
            &&& r is Ok && root is Some ==> {
                let m = crate::program::main_run(root->Some_0, rt, u, n);
                end == (m.0, m.2)
            }
        }),
{
}

} // verus!
