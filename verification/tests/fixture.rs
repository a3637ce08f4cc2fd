use metel::fixture::{
    parse_sidecar, resolve_fixture_config, CorePreludeMode, ExpectStatus, FixtureConfig, Problem,
    RunnerKind,
};

fn settings(suite: &str, sidecar: &str) -> FixtureConfig {
    resolve_fixture_config(suite, Some(sidecar), "program", None).unwrap()
}

fn problem(sidecar: &str) -> (Problem, String) {
    let e = parse_sidecar(sidecar).err().unwrap();
    (e.problem, e.text)
}

fn option(key: &str, value: &str) -> Result<(), (Problem, String)> {
    match parse_sidecar(&format!("[options]\n{key} = {value}\n")) {
        Ok(_) => Ok(()),
        Err(e) => Err((e.problem, e.text)),
    }
}

/// The name of a program's file without its ending.
fn stem(path: &str) -> &str {
    path.rsplit('/').next().unwrap().trim_end_matches(".mtl")
}

#[test]
fn spec_title_sidecar_key_is_accepted_and_parsed() {
    let path = "evaluator/closures/v0_13_0_move_capture_by_value.mtl";
    let sidecar = "[options]\n\
        spec_title = \"a non-`Copy` capture is moved into the closure at creation\"\n";
    let cfg = resolve_fixture_config("evaluator", Some(sidecar), stem(path), None).unwrap();
    assert_eq!(
        cfg.options.spec_title.as_deref(),
        Some("a non-`Copy` capture is moved into the closure at creation"),
    );
}

#[test]
fn spec_title_absent_is_none() {
    let path = "evaluator/closures/33_closure.mtl";
    let source = "fun main() {}\n";
    let cfg = resolve_fixture_config("evaluator", None, stem(path), Some(source)).unwrap();
    assert_eq!(cfg.options.spec_title, None);
}

#[test]
fn a_blank_label_is_none() {
    let cfg = settings("evaluator", "[options]\nspec_title = \"a\"\nspec_title = \"  \"\n");
    assert_eq!(cfg.options.spec_title, None);
}

#[test]
fn suites_have_their_own_ways() {
    for (suite, runner, prelude) in [
        ("parsing", RunnerKind::Parse, CorePreludeMode::Empty),
        ("typechecking", RunnerKind::Typecheck, CorePreludeMode::Default),
        ("evaluator", RunnerKind::Evaluate, CorePreludeMode::Default),
        ("module_loading", RunnerKind::FullPipeline, CorePreludeMode::Empty),
        ("module_semantics", RunnerKind::FullPipeline, CorePreludeMode::Empty),
    ] {
        let cfg = settings(suite, "");
        assert_eq!((cfg.runner, cfg.prelude), (runner, prelude));
        assert_eq!(cfg.expect.status, ExpectStatus::Success);
        assert!(!cfg.options.move_check && cfg.options.rfc.is_empty());
    }
    let e = resolve_fixture_config("other", None, "a", None).err().unwrap();
    assert_eq!((e.problem, e.text.as_str()), (Problem::UnknownSuite, "other"));
}

#[test]
fn written_settings_are_read_section_by_section() {
    let cfg = settings(
        "module_loading",
        "# a remark\r\n\
         runner = \"load_graph\"\r\n\
         prelude = default\n\
         \n\
         [ options ]\n\
         move_check = true\n\
         rfc = [\"rfc-0061§7.2\", rfc-0067a]\n\
         spec = [\"spec.types.structs.legality-1a\"]\n\
         arch_verifies = [\"arch.evaluation.requirement-3\"]\n\
         error = [\"T0003\"]\n\
         skip = \"not yet = never\"\n\
         [expect]\n\
         contains = 'a'\n",
    );
    assert_eq!((cfg.runner, cfg.prelude), (RunnerKind::LoadGraph, CorePreludeMode::Default));
    assert!(cfg.options.move_check);
    assert_eq!(cfg.options.rfc, vec!["rfc-0061§7.2", "rfc-0067a"]);
    assert_eq!(cfg.options.spec, vec!["spec.types.structs.legality-1a"]);
    assert_eq!(cfg.options.arch_verifies, vec!["arch.evaluation.requirement-3"]);
    assert_eq!(cfg.options.error, vec!["T0003"]);
    assert_eq!(cfg.options.skip.as_deref(), Some("not yet = never"));
    assert_eq!(cfg.expect.contains.as_deref(), Some("'a'"));
}

#[test]
fn numbers_and_lists_are_read() {
    let cfg = settings(
        "module_loading",
        "[expect]\nstatus = \"load_error\"\ncode = T0001\nline = +12\ncol = 3\n\
         warnings = [ \"unused\" , moved ]\n\
         [program]\nimports = 0\ndecls = 007\n\
         [graph]\nmodule_count = 2\nhas_module_paths = [\"a::b\", c]\n",
    );
    assert_eq!(cfg.expect.status, ExpectStatus::LoadError);
    assert_eq!(cfg.expect.code.as_deref(), Some("T0001"));
    assert_eq!((cfg.expect.line, cfg.expect.col), (Some(12), Some(3)));
    assert_eq!(cfg.expect.warnings, Some(vec!["unused".to_string(), "moved".to_string()]));
    assert_eq!((cfg.program.imports, cfg.program.decls), (Some(0), Some(7)));
    assert_eq!(cfg.graph.module_count, Some(2));
    let path = |parts: &[&str]| parts.iter().map(|p| p.to_string()).collect::<Vec<String>>();
    assert_eq!(cfg.graph.has_module_paths, vec![path(&["a", "b"]), path(&["c"])]);
    assert_eq!(settings("parsing", "[expect]\nwarnings = [ ]\n").expect.warnings, Some(vec![]));
}

#[test]
fn what_is_unknown_or_malformed_is_refused() {
    let told = |p: Problem, t: &str| (p, t.to_string());
    assert_eq!(problem("speed = fast"), told(Problem::UnknownKey, "speed"));
    assert_eq!(problem("[tests]\na = b"), told(Problem::UnknownSection, "tests"));
    assert_eq!(problem("runner = walk"), told(Problem::UnknownWord, "walk"));
    assert_eq!(problem("  runner "), told(Problem::NoValue, "runner"));
    assert_eq!(problem("[expect]\nline = -1"), told(Problem::NotANumber, "-1"));
    assert_eq!(problem("[expect]\nline = +"), told(Problem::NotANumber, "+"));
    let large = "99999999999999999999";
    assert_eq!(problem(&format!("[expect]\ncol = {large}")), told(Problem::NotANumber, large));
    assert_eq!(problem("[expect]\nwarnings = a, b"), told(Problem::NotAList, "a, b"));
}

#[test]
fn citations_are_written_as_their_kinds_are() {
    for good in ["rfc-0071", "RFC-0067a", "rfc-0082§3a", "rfc-0110§9c.2"] {
        assert_eq!(option("rfc", &format!("[{good}]")), Ok(()));
    }
    for bad in ["rfc-71", "rfc-00711", "rfc-0067ab", "rfc-0082§", "rfc-0082§a", "rfc-0082§3..1"] {
        let told = Err((Problem::BadCitation, bad.to_string()));
        assert_eq!(option("rfc", &format!("[rfc-0001, {bad}]")), told);
    }
    for good in ["spec.a.b.legality-1", "spec.a-1.b.c.dynamics-12ab"] {
        assert_eq!(option("spec", &format!("[{good}]")), Ok(()));
    }
    for bad in ["spec.a.legality-1", "spec.a.B.legality-1", "spec.a.b.rule-1", "spec.a.b.legality-a"] {
        assert!(option("spec", &format!("[{bad}]")).is_err(), "{bad}");
    }
    for good in ["arch.a.requirement-3", "arch.a.b-c.requirement-12"] {
        assert_eq!(option("arch_verifies", &format!("[{good}]")), Ok(()));
    }
    for bad in ["arch.requirement-3", "arch.a.requirement-", "arch.a.requirement-3a", "a.requirement-3"] {
        assert!(option("arch_verifies", &format!("[{bad}]")).is_err(), "{bad}");
    }
    assert_eq!(option("error", "[T0003, R0015]"), Ok(()));
    for bad in ["t0003", "T003", "T00031", "T000a"] {
        assert!(option("error", &format!("[{bad}]")).is_err(), "{bad}");
    }
}

#[test]
fn remarks_tell_what_is_expected() {
    let read = |suite: &str, stem: &str, source: &str| {
        resolve_fixture_config(suite, None, stem, Some(source)).unwrap().expect
    };
    assert_eq!(read("parsing", "neg_01", "").status, ExpectStatus::ParseError);
    assert_eq!(read("parsing", "pos_01", "// ERROR[T0001]").status, ExpectStatus::Success);
    let e = read("typechecking", "a", "let x = 1;\nlet y = x + s; // ERROR[T0005] here\n// ERROR[T1]");
    assert_eq!(e.status, ExpectStatus::TypecheckError);
    assert_eq!((e.code.as_deref(), e.line), (Some("T0005"), Some(2)));
    let e = read("evaluator", "a", "f();\n// RUNTIME_ERROR[by zero]\n// PARSE_ERROR[x]");
    assert_eq!((e.status, e.contains.as_deref()), (ExpectStatus::RuntimeError, Some("by zero")));
    assert_eq!(read("evaluator", "a", "// PARSE_ERROR[open").status, ExpectStatus::Success);
}
