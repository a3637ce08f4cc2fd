use metel::ast::Span;
use metel::environment::Stop;
use metel::error::{MetelError, TypeErrorCode};
use metel::host::{
    History, Host, Phase, PhaseAnswer, Reply, Script, Task, TypecheckPhaseTimings,
};
use metel::machine::Machine;
use metel::pipeline::{
    checked_answer, moves_answer, phase_answer, run_evaluator_fixture, run_file, run_source,
    RunOptions, RunReport,
};
use metel::program::TypedModule;
use metel::store::Store;
use metel::typed_ast::{FunBody, TypedBlock, TypedDecl, TypedFunDecl};
use std::rc::Rc;

const FUEL: u64 = 10_000;

/// A front end that knows programs whose only declaration is an empty `main`.
struct FrontEnd {
    source: Option<String>,
    phases: Vec<String>,
    failing: Option<&'static str>,
    nanos: u64,
}

fn front_end() -> FrontEnd {
    FrontEnd {
        source: None,
        phases: vec![],
        failing: None,
        nanos: 0,
    }
}

fn empty_main() -> TypedModule {
    TypedModule {
        path: vec!["playground".to_string()],
        decls: vec![TypedDecl::Fun(Rc::new(TypedFunDecl {
            name: "main".to_string(),
            params: vec![],
            param_ids: vec![],
            return_type: None,
            body: FunBody::Typed(Rc::new(TypedBlock {
                stmts: vec![],
                tail: None,
            })),
            symbol_id: None,
            def_id: None,
            local_id: None,
        }))],
        import_aliases: vec![],
        imported_names: vec![],
    }
}

impl Host for FrontEnd {
    // Only contracts speak of this.
    fn history(&self) -> History {
        unreachable!()
    }

    fn perform(&mut self, _store: &Store, task: Task) -> Reply {
        match task {
            Task::Nanos => {
                self.nanos += 5;
                Reply::Bits(self.nanos)
            }
            Task::Phase(phase) => {
                let name = match &phase {
                    Phase::LoadRoot(f) => format!("load {f}"),
                    Phase::LoadVirtualRoot { root, source } => {
                        self.source = Some(source.clone());
                        format!("load {root}")
                    }
                    other => format!("{other:?}"),
                };
                let fails = self.failing == Some(name.as_str());
                self.phases.push(name);
                if fails {
                    return Reply::Phase(PhaseAnswer::Failed(MetelError::type_error(
                        TypeErrorCode::T0001,
                        "wrong".to_string(),
                        &Span::new(0, 0, "t"),
                    )));
                }
                Reply::Phase(match phase {
                    Phase::Typecheck => PhaseAnswer::Checked {
                        warnings: vec!["unused".to_string()],
                        timings: TypecheckPhaseTimings {
                            solve_calls: 3,
                            ..TypecheckPhaseTimings::default()
                        },
                    },
                    Phase::MoveCheck => PhaseAnswer::Warned(vec!["moved".to_string()]),
                    Phase::Elaborate => PhaseAnswer::Program {
                        modules: if self.source.as_deref() == Some("fun main() {}")
                            || self.source.is_none()
                        {
                            vec![empty_main()]
                        } else {
                            vec![]
                        },
                        core: vec![],
                    },
                    _ => PhaseAnswer::Done,
                })
            }
            _ => Reply::Done,
        }
    }
}

/// A front end without warnings.
struct Quiet(FrontEnd);

impl Host for Quiet {
    // Only contracts speak of this.
    fn history(&self) -> History {
        unreachable!()
    }

    fn perform(&mut self, store: &Store, task: Task) -> Reply {
        match task {
            Task::Phase(Phase::Typecheck) => Reply::Phase(PhaseAnswer::Checked {
                warnings: vec![],
                timings: TypecheckPhaseTimings::default(),
            }),
            other => self.0.perform(store, other),
        }
    }
}

fn source_report() -> RunReport {
    let mut m = Machine::new(false);
    run_source(
        "fun main() {}",
        &RunOptions::default(),
        &mut m,
        &mut Quiet(front_end()),
        FUEL,
    )
    .expect("an in-memory program should run through the full pipeline")
}

#[test]
fn pipeline_run_source_evaluates_a_virtual_single_file_program() {
    let report = source_report();

    assert!(report.warnings.is_empty());
}

#[test]
fn tests_run_source_evaluates_a_virtual_single_file_program() {
    let report = source_report();

    assert!(report.warnings.is_empty());
}

#[test]
fn phases_run_in_order_and_are_timed() {
    let mut host = front_end();
    let mut m = Machine::new(false);
    let report = run_file("main.mtl", &RunOptions::default(), &mut m, &mut host, FUEL).unwrap();
    assert_eq!(
        host.phases,
        ["load main.mtl", "Resolve", "Normalize", "Coherence", "Typecheck", "Elaborate"]
    );
    assert_eq!(report.warnings, ["unused"]);
    assert_eq!(report.phase_timings.load_root_ns, 5);
    assert_eq!(report.phase_timings.evaluate_ns, 5);
    assert_eq!(report.phase_timings.total_ns, 75);
    assert!(report.evaluation.profile.is_none());
}

#[test]
fn the_move_checker_warns_last() {
    let mut host = front_end();
    let mut m = Machine::new(false);
    let options = RunOptions {
        move_check: true,
        collect_evaluator_profile: true,
    };
    let report = run_file("main.mtl", &options, &mut m, &mut host, FUEL).unwrap();
    assert_eq!(report.warnings, ["unused", "moved"]);
    assert_eq!(host.phases[5], "MoveCheck");
    assert_eq!(report.evaluation.profile.unwrap().functions[0].function, "main");
}

#[test]
fn the_first_phase_that_fails_ends_the_run() {
    let mut host = front_end();
    host.failing = Some("Normalize");
    let mut m = Machine::new(false);
    match run_file("main.mtl", &RunOptions::default(), &mut m, &mut host, FUEL) {
        Err(Stop::Error(MetelError::TypeError { message, .. })) => assert_eq!(message, "wrong"),
        other => panic!("{other:?}"),
    }
    assert_eq!(host.phases, ["load main.mtl", "Resolve", "Normalize"]);
}

#[test]
fn fixtures_are_timed_by_their_parts() {
    let mut host = front_end();
    let mut m = Machine::new(false);
    let report =
        run_evaluator_fixture("f.mtl", &RunOptions::default(), &mut m, &mut host, FUEL).unwrap();
    assert_eq!(report.phase_timings.parse_ns, 5);
    assert_eq!(report.phase_timings.typecheck_ns, 5);
    assert_eq!(report.phase_timings.typecheck_detail.solve_calls, 3);
    assert_eq!(report.phase_timings.total_ns, 35);
    assert_eq!(report.warnings, ["unused"]);
}

#[test]
fn a_source_that_gives_no_module_has_no_root() {
    let mut m = Machine::new(false);
    let r = run_source("", &RunOptions::default(), &mut m, &mut front_end(), FUEL);
    let text = format!("{:?}", r.err());
    assert!(text.contains("root module not found"), "{text}");
}

#[test]
fn a_run_goes_by_the_answers_of_its_host() {
    let done = || Reply::Phase(PhaseAnswer::Done);
    let checked = Reply::Phase(PhaseAnswer::Checked {
        warnings: vec!["odd".to_string()],
        timings: TypecheckPhaseTimings::default(),
    });
    let program = Reply::Phase(PhaseAnswer::Program {
        modules: vec![empty_main()],
        core: vec![],
    });
    let mut replies = vec![Reply::Bits(100)];
    let phases = vec![done(), done(), done(), done(), checked, program];
    for (i, phase) in phases.into_iter().enumerate() {
        replies.push(Reply::Bits(100));
        replies.push(phase);
        replies.push(Reply::Bits(101 + i as u64));
    }
    replies.push(Reply::Bits(200));
    replies.push(Reply::Bits(207));
    replies.push(Reply::Bits(300));
    replies.push(Reply::Text("nobody asks for this".to_string()));
    let mut host = Script::new(replies);
    let mut m = Machine::new(false);
    let report = run_file("main.mtl", &RunOptions::default(), &mut m, &mut host, FUEL).unwrap();
    assert_eq!(report.warnings, ["odd"]);
    assert_eq!(report.phase_timings.load_root_ns, 1);
    assert_eq!(report.phase_timings.elaborate_ns, 6);
    assert_eq!(report.phase_timings.evaluate_ns, 7);
    assert_eq!(report.phase_timings.total_ns, 200);
    assert_eq!(host.replies.len(), 1);
}

#[test]
fn a_host_with_nothing_to_say_ends_the_run() {
    let mut m = Machine::new(false);
    let mut host = Script::new(vec![]);
    match run_source("fun main() {}", &RunOptions::default(), &mut m, &mut host, FUEL) {
        Err(Stop::Error(e)) => assert!(format!("{e:?}").contains("host: unexpected reply")),
        other => panic!("{other:?}"),
    }
}

#[test]
fn answers_to_phases_are_read() {
    assert!(matches!(phase_answer(Reply::Phase(PhaseAnswer::Done)), Ok(PhaseAnswer::Done)));
    let wrong = MetelError::internal("wrong".to_string());
    assert!(matches!(
        phase_answer(Reply::Phase(PhaseAnswer::Failed(wrong))),
        Err(Stop::Error(_))
    ));
    assert!(phase_answer(Reply::Int(1)).is_err());
    let checked = PhaseAnswer::Checked {
        warnings: vec!["a".to_string()],
        timings: TypecheckPhaseTimings::default(),
    };
    assert_eq!(checked_answer(checked).unwrap().0, ["a"]);
    assert!(checked_answer(PhaseAnswer::Done).is_err());
    let more = PhaseAnswer::Warned(vec!["b".to_string()]);
    assert_eq!(moves_answer(vec!["a".to_string()], more).unwrap(), ["a", "b"]);
    assert!(moves_answer(vec![], PhaseAnswer::Done).is_err());
}
