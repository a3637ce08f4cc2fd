//! The pipeline: a program is loaded, resolved, normalised, checked, elaborated and
//! evaluated, and the time that each phase takes is measured.

use crate::data::Dup;
use crate::environment::{Stop, StopModel};
use crate::host::{
    AnswerModel, Event, Host, Phase, PhaseAnswer, PhaseModel, Reply, ReplyModel, Task, TaskModel,
    TypecheckPhaseTimings,
};
use crate::machine::{Machine, World};
use crate::natives::unexpected;
use crate::profiler::{elapsed_ns, ProfilerModel};
use crate::program::{evaluate_graph_with_options, EvaluationOptions, EvaluationReport};
use crate::table::append_copies;
use vstd::prelude::*;
use vstd::string::*;

verus! {

broadcast use {
    crate::machine::lemma_begins,
    crate::machine::lemma_begins_itself,
    crate::machine::lemma_exchanged,
    crate::machine::lemma_nothing_exchanged,
};

/// How the pipeline is run.
#[derive(Debug, Clone, Copy, PartialEq, Eq, Structural)]
pub struct RunOptions {
    pub collect_evaluator_profile: bool,
    pub move_check: bool,
}

impl Default for RunOptions {
    fn default() -> (r: Self)
        ensures
            !r.collect_evaluator_profile && !r.move_check,
    {
        RunOptions { collect_evaluator_profile: false, move_check: false }
    }
}

/// How long each phase took, in nanoseconds.
#[derive(Debug, Clone, Copy, PartialEq, Eq, Structural)]
pub struct PhaseTimings {
    pub load_root_ns: u64,
    pub resolve_ns: u64,
    pub normalize_ns: u64,
    pub coherence_ns: u64,
    pub typecheck_ns: u64,
    pub elaborate_ns: u64,
    pub evaluate_ns: u64,
    pub total_ns: u64,
}

/// What is known of a run.
#[derive(Debug)]
pub struct RunReport {
    pub phase_timings: PhaseTimings,
    pub evaluation: EvaluationReport,
    pub warnings: Vec<String>,
}

/// How long the phases of a fixture took, in nanoseconds. Parsing takes in all that
/// comes before the type checker, and checking takes in elaboration.
#[derive(Debug, Clone, Copy, PartialEq, Eq, Structural)]
pub struct EvaluatorFixturePhaseTimings {
    pub parse_ns: u64,
    pub typecheck_ns: u64,
    pub typecheck_detail: TypecheckPhaseTimings,
    pub evaluate_ns: u64,
    pub total_ns: u64,
}

impl Default for EvaluatorFixturePhaseTimings {
    fn default() -> (r: Self)
        ensures
            r.parse_ns == 0 && r.typecheck_ns == 0 && r.evaluate_ns == 0 && r.total_ns == 0,
            r.typecheck_detail == (TypecheckPhaseTimings {
                registry_ns: 0,
                inference_ns: 0,
                solve_ns: 0,
                scheme_env_ns: 0,
                construction_ns: 0,
                finalize_ns: 0,
                solve_calls: 0,
                constraints_processed: 0,
            }),
    {
        EvaluatorFixturePhaseTimings {
            parse_ns: 0,
            typecheck_ns: 0,
            typecheck_detail: TypecheckPhaseTimings::default(),
            evaluate_ns: 0,
            total_ns: 0,
        }
    }
}

/// What is known of a run of a fixture.
#[derive(Debug)]
pub struct EvaluatorFixtureRunReport {
    pub phase_timings: EvaluatorFixturePhaseTimings,
    pub evaluation: EvaluationReport,
    pub warnings: Vec<String>,
}

/// What the clock shows.
pub open spec fn clock(w: World) -> (u64, World) {
    let (u, reply) = crate::machine::asked(w, TaskModel::Nanos);
    (crate::machine::nanos(reply), u)
}

/// What the answer to a phase says: what the phase gives, or why it gives nothing.
pub open spec fn phase_answered(reply: Option<ReplyModel>) -> Result<AnswerModel, StopModel> {
    match reply {
        Some(ReplyModel::Phase(AnswerModel::Failed(e))) => Err(StopModel::Error(e)),
        Some(ReplyModel::Phase(a)) => Ok(a),
        _ => Err(crate::natives::unexpected_reply()),
    }
}

/// What a phase gives, and the state after it.
pub open spec fn phase_run(p: PhaseModel, w: World) -> (Result<AnswerModel, StopModel>, World) {
    let (u, reply) = crate::machine::asked(w, TaskModel::Phase(p));
    (phase_answered(reply), u)
}

/// What a phase gives, or why it gives nothing.
pub open spec fn answer_model(r: Result<PhaseAnswer, Stop>) -> Result<AnswerModel, StopModel> {
    match r {
        Ok(a) => Ok(a.deep_view()),
        Err(e) => Err(e.deep_view()),
    }
}

/// What the answer to a phase says: what the phase gives, or why it gives nothing.
pub fn phase_answer(reply: Reply) -> (r: Result<PhaseAnswer, Stop>)
    ensures
        answer_model(r) == phase_answered(Some(reply.deep_view())),
{
    match reply {
        Reply::Phase(PhaseAnswer::Failed(e)) => Err(Stop::Error(e)),
        Reply::Phase(a) => Ok(a),
        _ => Err(unexpected()),
    }
}

fn run_phase<H: Host>(p: Phase, m: &mut Machine, host: &mut H) -> (r: Result<PhaseAnswer, Stop>)
    ensures
        crate::machine::begins(old(m).log@, final(m).log@),
        crate::machine::exchanged(
            old(m).log@,
            final(m).log@,
            old(host).history(),
            final(host).history(),
        ),
        forall|tape: Seq<Event>|
            crate::machine::begins(final(m).log@, tape) ==> phase_run(
                p.deep_view(),
                #[trigger] old(m).on(tape),
            ) == (answer_model(r), final(m).on(tape)),
{
    phase_answer(m.ask(host, Task::Phase(p)))
}

/// A phase, with the time that it takes where it does not fail.
pub open spec fn timed_phase(p: PhaseModel, w: World) -> (
    Result<(AnswerModel, u64), StopModel>,
    World,
) {
    let (t, a) = clock(w);
    let (r, b) = phase_run(p, a);
    match r {
        Err(e) => (Err(e), b),
        Ok(answer) => {
            let (u, c) = clock(b);
            (Ok((answer, crate::profiler::floored(u, t))), c)
        },
    }
}

/// What a phase gives and how long it takes, or why it gives nothing.
pub open spec fn timed_model(r: Result<(PhaseAnswer, u64), Stop>) -> Result<
    (AnswerModel, u64),
    StopModel,
> {
    match r {
        Ok((a, t)) => Ok((a.deep_view(), t)),
        Err(e) => Err(e.deep_view()),
    }
}

fn time_phase<H: Host>(p: Phase, m: &mut Machine, host: &mut H) -> (r: Result<
    (PhaseAnswer, u64),
    Stop,
>)
    ensures
        crate::machine::begins(old(m).log@, final(m).log@),
        crate::machine::exchanged(
            old(m).log@,
            final(m).log@,
            old(host).history(),
            final(host).history(),
        ),
        forall|tape: Seq<Event>|
            crate::machine::begins(final(m).log@, tape) ==> timed_phase(
                p.deep_view(),
                #[trigger] old(m).on(tape),
            ) == (timed_model(r), final(m).on(tape)),
{
    let started: u64 = m.now(host);
    match run_phase(p, m, host) {
        Err(e) => Err(e),
        Ok(answer) => {
            let now: u64 = m.now(host);
            Ok((answer, elapsed_ns(now, started)))
        },
    }
}

/// What the type checker's answer says: its warnings, and where the time was spent.
pub open spec fn checked_answered(a: AnswerModel) -> Result<
    (Seq<Seq<char>>, TypecheckPhaseTimings),
    StopModel,
> {
    match a {
        AnswerModel::Checked { warnings, timings } => Ok((warnings, timings)),
        _ => Err(crate::natives::unexpected_reply()),
    }
}

/// The warnings so far, with those of the move checker's answer after them.
pub open spec fn moves_answered(warnings: Seq<Seq<char>>, a: AnswerModel) -> Result<
    Seq<Seq<char>>,
    StopModel,
> {
    match a {
        AnswerModel::Warned(more) => Ok(warnings + more),
        _ => Err(crate::natives::unexpected_reply()),
    }
}

/// What checking a program gives: its warnings, those of the move checker last
/// where it is asked for, and where the time was spent.
pub open spec fn check_answer(a: AnswerModel, move_check: bool, w: World) -> (
    Result<(Seq<Seq<char>>, TypecheckPhaseTimings), StopModel>,
    World,
) {
    match checked_answered(a) {
        Err(e) => (Err(e), w),
        Ok((warnings, timings)) => if move_check {
            let (r, u) = phase_run(PhaseModel::MoveCheck, w);
            match r {
                Err(e) => (Err(e), u),
                Ok(moves) => match moves_answered(warnings, moves) {
                    Err(e) => (Err(e), u),
                    Ok(all) => (Ok((all, timings)), u),
                },
            }
        } else {
            (Ok((warnings, timings)), w)
        },
    }
}

/// What checking a program gives.
pub open spec fn check_model(r: Result<(Vec<String>, TypecheckPhaseTimings), Stop>) -> Result<
    (Seq<Seq<char>>, TypecheckPhaseTimings),
    StopModel,
> {
    match r {
        Ok((ws, t)) => Ok((ws.deep_view(), t)),
        Err(e) => Err(e.deep_view()),
    }
}

/// What the type checker's answer says: its warnings, and where the time was spent.
pub fn checked_answer(a: PhaseAnswer) -> (r: Result<(Vec<String>, TypecheckPhaseTimings), Stop>)
    ensures
        check_model(r) == checked_answered(a.deep_view()),
{
    match a {
        PhaseAnswer::Checked { warnings, timings } => Ok((warnings, timings)),
        _ => Err(unexpected()),
    }
}

/// The warnings so far, with those of the move checker's answer after them.
pub fn moves_answer(warnings: Vec<String>, a: PhaseAnswer) -> (r: Result<Vec<String>, Stop>)
    ensures
        match r {
            Ok(all) => moves_answered(warnings.deep_view(), a.deep_view()) == Ok::<
                Seq<Seq<char>>,
                StopModel,
            >(all.deep_view()),
            Err(e) => moves_answered(warnings.deep_view(), a.deep_view()) == Err::<
                Seq<Seq<char>>,
                StopModel,
            >(e.deep_view()),
        },
{
    match a {
        PhaseAnswer::Warned(more) => {
            let mut all = warnings;
            append_copies(&mut all, &more);
            Ok(all)
        },
        _ => Err(unexpected()),
    }
}

fn take_check<H: Host>(a: PhaseAnswer, move_check: bool, m: &mut Machine, host: &mut H) -> (r:
    Result<(Vec<String>, TypecheckPhaseTimings), Stop>)
    ensures
        crate::machine::begins(old(m).log@, final(m).log@),
        crate::machine::exchanged(
            old(m).log@,
            final(m).log@,
            old(host).history(),
            final(host).history(),
        ),
        forall|tape: Seq<Event>|
            crate::machine::begins(final(m).log@, tape) ==> check_answer(
                a.deep_view(),
                move_check,
                #[trigger] old(m).on(tape),
            ) == (check_model(r), final(m).on(tape)),
{
    let (warnings, timings) = match checked_answer(a) {
        Ok(x) => x,
        Err(e) => {
            return Err(e);
        },
    };
    if !move_check {
        return Ok((warnings, timings));
    }
    match run_phase(Phase::MoveCheck, m, host) {
        Err(e) => Err(e),
        Ok(moves) => match moves_answer(warnings, moves) {
            Err(e) => Err(e),
            Ok(all) => Ok((all, timings)),
        },
    }
}

/// How long evaluation takes and what it records, or why it comes to no end.
pub open spec fn timed_evaluation(
    program: AnswerModel,
    collect_profile: bool,
    w: World,
    n: nat,
) -> (Result<(Option<ProfilerModel>, u64), StopModel>, World) {
    match program {
        AnswerModel::Program { modules, core } => {
            let (t, a) = clock(w);
            let (end, b) = crate::program::evaluation_run(modules, core, collect_profile, a, n);
            match end {
                Err(e) => (Err(e), b),
                Ok(recorded) => {
                    let (u, c) = clock(b);
                    (Ok((recorded, crate::profiler::floored(u, t))), c)
                },
            }
        },
        _ => (Err(crate::natives::unexpected_reply()), w),
    }
}

/// Whether the result of an evaluation says what it has come to.
pub open spec fn evaluation_timed(
    r: Result<(EvaluationReport, u64), Stop>,
    end: Result<(Option<ProfilerModel>, u64), StopModel>,
) -> bool {
    match r {
        Ok((report, t)) => end matches Ok((recorded, u)) && t == u && crate::program::reports(
            report,
            recorded,
        ),
        Err(e) => end == Err::<(Option<ProfilerModel>, u64), StopModel>(e.deep_view()),
    }
}

fn time_evaluation<H: Host>(
    program: PhaseAnswer,
    collect_profile: bool,
    m: &mut Machine,
    host: &mut H,
    fuel: u64,
) -> (r: Result<(EvaluationReport, u64), Stop>)
    ensures
        crate::machine::begins(old(m).log@, final(m).log@),
        crate::machine::exchanged(
            old(m).log@,
            final(m).log@,
            old(host).history(),
            final(host).history(),
        ),
        forall|tape: Seq<Event>|
            crate::machine::begins(final(m).log@, tape) ==> ({
                let (end, w) = timed_evaluation(
                    program.deep_view(),
                    collect_profile,
                    #[trigger] old(m).on(tape),
                    fuel as nat,
                );
                w == final(m).on(tape) && evaluation_timed(r, end)
            }),
{
    match program {
        PhaseAnswer::Program { modules, core } => {
            let started: u64 = m.now(host);
            match evaluate_graph_with_options(
                &modules,
                &core,
                EvaluationOptions { collect_profile },
                m,
                host,
                fuel,
            ) {
                Err(e) => Err(e),
                Ok(report) => {
                    let now: u64 = m.now(host);
                    Ok((report, elapsed_ns(now, started)))
                },
            }
        },
        _ => Err(unexpected()),
    }
}

/// What is known of a run: how long its phases took, its warnings, and what its
/// evaluation recorded.
pub struct RunModel {
    pub timings: PhaseTimings,
    pub warnings: Seq<Seq<char>>,
    pub recorded: Option<ProfilerModel>,
}

/// Whether a result of a run says what the run has come to.
pub open spec fn run_told(r: Result<RunReport, Stop>, end: Result<RunModel, StopModel>) -> bool {
    match r {
        Ok(report) => end matches Ok(run) && report.phase_timings == run.timings
            && report.warnings.deep_view() == run.warnings && crate::program::reports(
            report.evaluation,
            run.recorded,
        ),
        Err(e) => end == Err::<RunModel, StopModel>(e.deep_view()),
    }
}

/// The phases of a program before it is checked, each timed.
pub open spec fn front_run(load: PhaseModel, w: World) -> (
    Result<(u64, u64, u64, u64), StopModel>,
    World,
) {
    match timed_phase(load, w) {
        (Err(e), a) => (Err(e), a),
        (Ok((_, t0)), a) => match timed_phase(PhaseModel::Resolve, a) {
            (Err(e), b) => (Err(e), b),
            (Ok((_, t1)), b) => match timed_phase(PhaseModel::Normalize, b) {
                (Err(e), c) => (Err(e), c),
                (Ok((_, t2)), c) => match timed_phase(PhaseModel::Coherence, c) {
                    (Err(e), d) => (Err(e), d),
                    (Ok((_, t3)), d) => (Ok((t0, t1, t2, t3)), d),
                },
            },
        },
    }
}

/// The times of the first phases, or why they come to no end.
pub open spec fn front_model(r: Result<(u64, u64, u64, u64), Stop>) -> Result<
    (u64, u64, u64, u64),
    StopModel,
> {
    match r {
        Ok(t) => Ok(t),
        Err(e) => Err(e.deep_view()),
    }
}

fn run_front<H: Host>(load: Phase, m: &mut Machine, host: &mut H) -> (r: Result<
    (u64, u64, u64, u64),
    Stop,
>)
    ensures
        crate::machine::begins(old(m).log@, final(m).log@),
        crate::machine::exchanged(
            old(m).log@,
            final(m).log@,
            old(host).history(),
            final(host).history(),
        ),
        forall|tape: Seq<Event>|
            crate::machine::begins(final(m).log@, tape) ==> front_run(
                load.deep_view(),
                #[trigger] old(m).on(tape),
            ) == (front_model(r), final(m).on(tape)),
{
    let t0: u64 = match time_phase(load, m, host) {
        Ok((_, t)) => t,
        Err(e) => {
            return Err(e);
        },
    };
    let t1: u64 = match time_phase(Phase::Resolve, m, host) {
        Ok((_, t)) => t,
        Err(e) => {
            return Err(e);
        },
    };
    let t2: u64 = match time_phase(Phase::Normalize, m, host) {
        Ok((_, t)) => t,
        Err(e) => {
            return Err(e);
        },
    };
    let t3: u64 = match time_phase(Phase::Coherence, m, host) {
        Ok((_, t)) => t,
        Err(e) => {
            return Err(e);
        },
    };
    Ok((t0, t1, t2, t3))
}

/// What running the pipeline comes to. The first phase that fails ends it.
pub open spec fn pipeline_run(load: PhaseModel, options: RunOptions, w: World, n: nat) -> (
    Result<RunModel, StopModel>,
    World,
) {
    let (started, w0) = clock(w);
    match front_run(load, w0) {
        (Err(e), a) => (Err(e), a),
        (Ok((load_root_ns, resolve_ns, normalize_ns, coherence_ns)), a) => match timed_phase(
            PhaseModel::Typecheck,
            a,
        ) {
            (Err(e), b) => (Err(e), b),
            (Ok((checked, typecheck_ns)), b) => match check_answer(checked, options.move_check, b) {
                (Err(e), c) => (Err(e), c),
                (Ok((warnings, _)), c) => match timed_phase(PhaseModel::Elaborate, c) {
                    (Err(e), d) => (Err(e), d),
                    (Ok((program, elaborate_ns)), d) => match timed_evaluation(
                        program,
                        options.collect_evaluator_profile,
                        d,
                        n,
                    ) {
                        (Err(e), f) => (Err(e), f),
                        (Ok((recorded, evaluate_ns)), f) => {
                            let (now, g) = clock(f);
                            (
                                Ok(
                                    RunModel {
                                        timings: PhaseTimings {
                                            load_root_ns,
                                            resolve_ns,
                                            normalize_ns,
                                            coherence_ns,
                                            typecheck_ns,
                                            elaborate_ns,
                                            evaluate_ns,
                                            total_ns: crate::profiler::floored(now, started),
                                        },
                                        warnings,
                                        recorded,
                                    },
                                ),
                                g,
                            )
                        },
                    },
                },
            },
        },
    }
}

fn run_pipeline<H: Host>(
    load: Phase,
    options: &RunOptions,
    m: &mut Machine,
    host: &mut H,
    fuel: u64,
) -> (r: Result<RunReport, Stop>)
    ensures
        crate::machine::begins(old(m).log@, final(m).log@),
        crate::machine::exchanged(
            old(m).log@,
            final(m).log@,
            old(host).history(),
            final(host).history(),
        ),
        forall|tape: Seq<Event>|
            crate::machine::begins(final(m).log@, tape) ==> ({
                let (end, w) = pipeline_run(
                    load.deep_view(),
                    *options,
                    #[trigger] old(m).on(tape),
                    fuel as nat,
                );
                w == final(m).on(tape) && run_told(r, end)
            }),
{
    let started: u64 = m.now(host);
    let (load_root_ns, resolve_ns, normalize_ns, coherence_ns): (u64, u64, u64, u64) =
        match run_front(load, m, host) {
            Ok(t) => t,
            Err(e) => {
                return Err(e);
            },
        };
    let (checked, typecheck_ns): (PhaseAnswer, u64) = match time_phase(
        Phase::Typecheck,
        m,
        host,
    ) {
        Ok(x) => x,
        Err(e) => {
            return Err(e);
        },
    };
    let warnings = match take_check(checked, options.move_check, m, host) {
        Ok((warnings, _)) => warnings,
        Err(e) => {
            return Err(e);
        },
    };
    let (program, elaborate_ns): (PhaseAnswer, u64) = match time_phase(
        Phase::Elaborate,
        m,
        host,
    ) {
        Ok(x) => x,
        Err(e) => {
            return Err(e);
        },
    };
    let (evaluation, evaluate_ns): (EvaluationReport, u64) = match time_evaluation(
        program,
        options.collect_evaluator_profile,
        m,
        host,
        fuel,
    ) {
        Ok(x) => x,
        Err(e) => {
            return Err(e);
        },
    };
    let now: u64 = m.now(host);
    Ok(
        RunReport {
            phase_timings: PhaseTimings {
                load_root_ns,
                resolve_ns,
                normalize_ns,
                coherence_ns,
                typecheck_ns,
                elaborate_ns,
                evaluate_ns,
                total_ns: elapsed_ns(now, started),
            },
            evaluation,
            warnings,
        },
    )
}

/// Runs the program whose root is a file.
pub fn run_file<H: Host>(
    filename: &str,
    options: &RunOptions,
    m: &mut Machine,
    host: &mut H,
    fuel: u64,
) -> (r: Result<RunReport, Stop>)
    ensures
        crate::machine::begins(old(m).log@, final(m).log@),
        crate::machine::exchanged(
            old(m).log@,
            final(m).log@,
            old(host).history(),
            final(host).history(),
        ),
        forall|tape: Seq<Event>|
            crate::machine::begins(final(m).log@, tape) ==> ({
                let (end, w) = pipeline_run(
                    PhaseModel::LoadRoot(filename@),
                    *options,
                    #[trigger] old(m).on(tape),
                    fuel as nat,
                );
                w == final(m).on(tape) && run_told(r, end)
            }),
{
    run_pipeline(Phase::LoadRoot(filename.to_owned()), options, m, host, fuel)
}

/// Runs a program whose source is in memory. Its root has a path of its own, and no
/// file of the user's is read.
pub fn run_source<H: Host>(
    source: &str,
    options: &RunOptions,
    m: &mut Machine,
    host: &mut H,
    fuel: u64,
) -> (r: Result<RunReport, Stop>)
    ensures
        crate::machine::begins(old(m).log@, final(m).log@),
        crate::machine::exchanged(
            old(m).log@,
            final(m).log@,
            old(host).history(),
            final(host).history(),
        ),
        forall|tape: Seq<Event>|
            crate::machine::begins(final(m).log@, tape) ==> ({
                let (end, w) = pipeline_run(
                    PhaseModel::LoadVirtualRoot { root: "playground.mtl"@, source: source@ },
                    *options,
                    #[trigger] old(m).on(tape),
                    fuel as nat,
                );
                w == final(m).on(tape) && run_told(r, end)
            }),
{
    run_pipeline(
        Phase::LoadVirtualRoot {
            root: "playground.mtl".to_owned(),
            source: source.to_owned(),
        },
        options,
        m,
        host,
        fuel,
    )
}

/// The phases of a fixture before it is checked.
pub open spec fn fixture_front_run(
    filename: Seq<char>,
    w: World,
) -> (Result<(), StopModel>, World) {
    match phase_run(PhaseModel::LoadRoot(filename), w) {
        (Err(e), a) => (Err(e), a),
        (Ok(_), a) => match phase_run(PhaseModel::Resolve, a) {
            (Err(e), b) => (Err(e), b),
            (Ok(_), b) => match phase_run(PhaseModel::Normalize, b) {
                (Err(e), c) => (Err(e), c),
                (Ok(_), c) => match phase_run(PhaseModel::Coherence, c) {
                    (Err(e), d) => (Err(e), d),
                    (Ok(_), d) => (Ok(()), d),
                },
            },
        },
    }
}

fn run_fixture_front<H: Host>(filename: &str, m: &mut Machine, host: &mut H) -> (r: Result<
    (),
    Stop,
>)
    ensures
        crate::machine::begins(old(m).log@, final(m).log@),
        crate::machine::exchanged(
            old(m).log@,
            final(m).log@,
            old(host).history(),
            final(host).history(),
        ),
        forall|tape: Seq<Event>|
            crate::machine::begins(final(m).log@, tape) ==> fixture_front_run(
                filename@,
                #[trigger] old(m).on(tape),
            ) == (crate::control::done_model(r), final(m).on(tape)),
{
    match run_phase(Phase::LoadRoot(filename.to_owned()), m, host) {
        Ok(_) => {},
        Err(e) => {
            return Err(e);
        },
    }
    match run_phase(Phase::Resolve, m, host) {
        Ok(_) => {},
        Err(e) => {
            return Err(e);
        },
    }
    match run_phase(Phase::Normalize, m, host) {
        Ok(_) => {},
        Err(e) => {
            return Err(e);
        },
    }
    match run_phase(Phase::Coherence, m, host) {
        Ok(_) => Ok(()),
        Err(e) => Err(e),
    }
}

/// What checking and elaborating a fixture gives: its warnings, where the type
/// checker spent its time, and the program.
pub open spec fn fixture_check_run(move_check: bool, w: World) -> (
    Result<(Seq<Seq<char>>, TypecheckPhaseTimings, AnswerModel), StopModel>,
    World,
) {
    match phase_run(PhaseModel::Typecheck, w) {
        (Err(e), a) => (Err(e), a),
        (Ok(checked), a) => match check_answer(checked, move_check, a) {
            (Err(e), b) => (Err(e), b),
            (Ok((warnings, timings)), b) => match phase_run(PhaseModel::Elaborate, b) {
                (Err(e), c) => (Err(e), c),
                (Ok(program), c) => (Ok((warnings, timings, program)), c),
            },
        },
    }
}

/// What checking and elaborating a fixture gives.
pub open spec fn fixture_check_model(
    r: Result<(Vec<String>, TypecheckPhaseTimings, PhaseAnswer), Stop>,
) -> Result<(Seq<Seq<char>>, TypecheckPhaseTimings, AnswerModel), StopModel> {
    match r {
        Ok((ws, t, p)) => Ok((ws.deep_view(), t, p.deep_view())),
        Err(e) => Err(e.deep_view()),
    }
}

fn run_fixture_check<H: Host>(move_check: bool, m: &mut Machine, host: &mut H) -> (r: Result<
    (Vec<String>, TypecheckPhaseTimings, PhaseAnswer),
    Stop,
>)
    ensures
        crate::machine::begins(old(m).log@, final(m).log@),
        crate::machine::exchanged(
            old(m).log@,
            final(m).log@,
            old(host).history(),
            final(host).history(),
        ),
        forall|tape: Seq<Event>|
            crate::machine::begins(final(m).log@, tape) ==> fixture_check_run(
                move_check,
                #[trigger] old(m).on(tape),
            ) == (fixture_check_model(r), final(m).on(tape)),
{
    let checked = match run_phase(Phase::Typecheck, m, host) {
        Ok(a) => a,
        Err(e) => {
            return Err(e);
        },
    };
    let (warnings, timings) = match take_check(checked, move_check, m, host) {
        Ok(x) => x,
        Err(e) => {
            return Err(e);
        },
    };
    match run_phase(Phase::Elaborate, m, host) {
        Ok(program) => Ok((warnings, timings, program)),
        Err(e) => Err(e),
    }
}

/// What is known of a run of a fixture.
pub struct FixtureRunModel {
    pub timings: EvaluatorFixturePhaseTimings,
    pub warnings: Seq<Seq<char>>,
    pub recorded: Option<ProfilerModel>,
}

/// Whether a result of a run of a fixture says what the run has come to.
pub open spec fn fixture_told(
    r: Result<EvaluatorFixtureRunReport, Stop>,
    end: Result<FixtureRunModel, StopModel>,
) -> bool {
    match r {
        Ok(report) => end matches Ok(run) && report.phase_timings == run.timings
            && report.warnings.deep_view() == run.warnings && crate::program::reports(
            report.evaluation,
            run.recorded,
        ),
        Err(e) => end == Err::<FixtureRunModel, StopModel>(e.deep_view()),
    }
}

/// What running a fixture comes to. The first phase that fails ends it.
pub open spec fn fixture_run(filename: Seq<char>, options: RunOptions, w: World, n: nat) -> (
    Result<FixtureRunModel, StopModel>,
    World,
) {
    let (total_started, w0) = clock(w);
    let (t0, w1) = clock(w0);
    match fixture_front_run(filename, w1) {
        (Err(e), a) => (Err(e), a),
        (Ok(_), a) => {
            let (t1, b) = clock(a);
            let (t2, c) = clock(b);
            match fixture_check_run(options.move_check, c) {
                (Err(e), d) => (Err(e), d),
                (Ok((warnings, typecheck_detail, program)), d) => {
                    let (t3, f) = clock(d);
                    match timed_evaluation(program, options.collect_evaluator_profile, f, n) {
                        (Err(e), g) => (Err(e), g),
                        (Ok((recorded, evaluate_ns)), g) => {
                            let (now, h) = clock(g);
                            (
                                Ok(
                                    FixtureRunModel {
                                        timings: EvaluatorFixturePhaseTimings {
                                            parse_ns: crate::profiler::floored(t1, t0),
                                            typecheck_ns: crate::profiler::floored(t3, t2),
                                            typecheck_detail,
                                            evaluate_ns,
                                            total_ns: crate::profiler::floored(
                                                now,
                                                total_started,
                                            ),
                                        },
                                        warnings,
                                        recorded,
                                    },
                                ),
                                h,
                            )
                        },
                    }
                },
            }
        },
    }
}

/// Runs a fixture through the pipeline, and measures what matters to the evaluator.
pub fn run_evaluator_fixture<H: Host>(
    filename: &str,
    options: &RunOptions,
    m: &mut Machine,
    host: &mut H,
    fuel: u64,
) -> (r: Result<EvaluatorFixtureRunReport, Stop>)
    ensures
        crate::machine::begins(old(m).log@, final(m).log@),
        crate::machine::exchanged(
            old(m).log@,
            final(m).log@,
            old(host).history(),
            final(host).history(),
        ),
        forall|tape: Seq<Event>|
            crate::machine::begins(final(m).log@, tape) ==> ({
                let (end, w) = fixture_run(
                    filename@,
                    *options,
                    #[trigger] old(m).on(tape),
                    fuel as nat,
                );
                w == final(m).on(tape) && fixture_told(r, end)
            }),
{
    let total_started: u64 = m.now(host);
    let t0: u64 = m.now(host);
    match run_fixture_front(filename, m, host) {
        Ok(_) => {},
        Err(e) => {
            return Err(e);
        },
    }
    let t1: u64 = m.now(host);
    let t2: u64 = m.now(host);
    let (warnings, typecheck_detail, program) = match run_fixture_check(
        options.move_check,
        m,
        host,
    ) {
        Ok(x) => x,
        Err(e) => {
            return Err(e);
        },
    };
    let t3: u64 = m.now(host);
    let (evaluation, evaluate_ns): (EvaluationReport, u64) = match time_evaluation(
        program,
        options.collect_evaluator_profile,
        m,
        host,
        fuel,
    ) {
        Ok(x) => x,
        Err(e) => {
            return Err(e);
        },
    };
    let now: u64 = m.now(host);
    Ok(
        EvaluatorFixtureRunReport {
            phase_timings: EvaluatorFixturePhaseTimings {
                parse_ns: elapsed_ns(t1, t0),
                typecheck_ns: elapsed_ns(t3, t2),
                typecheck_detail,
                evaluate_ns,
                total_ns: elapsed_ns(now, total_started),
            },
            evaluation,
            warnings,
        },
    )
}

} // verus!
