use metel::bench::{
    discover_fixtures, duration_stats, escape_dot, mean_phase_timings, render_callgraph_dot,
    top_edges, top_functions, DurationStats, ReportPiece,
};
use metel::bench_report::{render_markdown, BenchmarkSuiteSummary, FixtureBenchmarkSummary};
use metel::pipeline::{EvaluatorFixturePhaseTimings, EvaluatorFixtureRunReport};
use metel::profiler::{CallEdgeProfile, EvaluatorProfile, FunctionProfile};

fn written(pieces: &[ReportPiece]) -> String {
    pieces
        .iter()
        .map(|p| match p {
            ReportPiece::Text(s) => s.clone(),
            ReportPiece::Millis(ns) => format!("{:.3}", *ns as f64 / 1_000_000.0),
            ReportPiece::MillisOf(bits) => format!("{:.3}", f64::from_bits(*bits) / 1_000_000.0),
        })
        .collect()
}

fn stddev(samples: &[u64]) -> f64 {
    let count = samples.len() as f64;
    let mean = samples.iter().sum::<u64>() as f64 / count;
    let variance = samples
        .iter()
        .map(|sample| {
            let delta = *sample as f64 - mean;
            delta * delta
        })
        .sum::<f64>()
        / count;
    variance.sqrt()
}

#[test]
fn duration_stats_computes_mean_min_max() {
    let samples = vec![10, 20, 30];
    let stats = duration_stats(&samples, stddev(&samples).to_bits());
    assert_eq!(stats.mean_ns, 20);
    assert_eq!(stats.min_ns, 10);
    assert_eq!(stats.max_ns, 30);
    assert!(f64::from_bits(stats.stddev_bits) > 0.0);
}

#[test]
fn means_are_rounded_from_the_middle_up() {
    assert_eq!(duration_stats(&vec![1, 2], 0).mean_ns, 2);
    assert_eq!(duration_stats(&vec![1, 1, 2], 0).mean_ns, 1);
    assert_eq!(duration_stats(&vec![5], 7).mean_ns, 5);
    let none = duration_stats(&vec![], 0);
    assert_eq!((none.mean_ns, none.min_ns, none.max_ns), (0, 0, 0));
}

fn function(name: &str, calls: u64, inclusive_ns: u64, self_ns: u64) -> FunctionProfile {
    FunctionProfile {
        function: name.to_string(),
        calls,
        inclusive_ns,
        self_ns,
    }
}

fn edge(caller: Option<&str>, callee: &str, calls: u64, inclusive_ns: u64) -> CallEdgeProfile {
    CallEdgeProfile {
        caller: caller.map(|c| c.to_string()),
        callee: callee.to_string(),
        calls,
        inclusive_ns,
    }
}

#[test]
fn render_callgraph_dot_includes_edges() {
    let profile = EvaluatorProfile {
        functions: vec![function("main", 1, 1_000_000, 500_000)],
        edges: vec![edge(None, "main", 1, 1_000_000)],
    };

    let dot = written(&render_callgraph_dot(&profile));
    assert!(dot.contains("\"<entry>\" -> \"main\""));
    assert!(dot.contains("calls=1"));
}

#[test]
fn a_graph_of_calls_is_written_out() {
    let profile = EvaluatorProfile {
        functions: vec![function("a\"b", 2, 1_500_000, 250_000)],
        edges: vec![edge(Some("a\"b"), "c\\d", 3, 2_000_000)],
    };
    assert_eq!(
        written(&render_callgraph_dot(&profile)),
        "digraph metel_callgraph {\n  rankdir=LR;\n  \"a\\\"b\" [label=\"a\\\"b\\ncalls=2\\ninclusive=1.500ms\\nself=0.250ms\"];\n  \"a\\\"b\" -> \"c\\\\d\" [label=\"calls=3\\ninclusive=2.000ms\"];\n}\n"
    );
    assert_eq!(escape_dot(&"a\\\"".to_string()), "a\\\\\\\"");
}

fn report(parse_ns: u64, typecheck_ns: u64, evaluate_ns: u64, total_ns: u64) -> EvaluatorFixtureRunReport {
    EvaluatorFixtureRunReport {
        phase_timings: EvaluatorFixturePhaseTimings {
            parse_ns,
            typecheck_ns,
            typecheck_detail: Default::default(),
            evaluate_ns,
            total_ns,
        },
        evaluation: Default::default(),
        warnings: Vec::new(),
    }
}

#[test]
fn mean_phase_timings_averages_after_summing() {
    let reports = vec![report(1, 7, 11, 13), report(2, 8, 12, 14)];

    let mean = mean_phase_timings(&reports);
    assert_eq!(mean.parse_ns, 1);
    assert_eq!(mean.typecheck_ns, 7);
    assert_eq!(mean.evaluate_ns, 11);
    assert_eq!(mean.total_ns, 13);
}

#[test]
fn the_hottest_come_first() {
    let profile = EvaluatorProfile {
        functions: vec![
            function("a", 1, 5, 0),
            function("c", 1, 9, 0),
            function("b", 1, 9, 0),
        ],
        edges: vec![
            edge(Some("x"), "q", 1, 4),
            edge(None, "p", 1, 4),
            edge(None, "r", 1, 8),
        ],
    };
    let names: Vec<String> = top_functions(&profile, 2).into_iter().map(|f| f.function).collect();
    assert_eq!(names, ["b", "c"]);
    let names: Vec<String> = top_functions(&profile, 10).into_iter().map(|f| f.function).collect();
    assert_eq!(names, ["b", "c", "a"]);
    let callees: Vec<String> = top_edges(&profile, 10).into_iter().map(|e| e.callee).collect();
    assert_eq!(callees, ["r", "p", "q"]);
}

fn names(list: &[&str]) -> Vec<String> {
    list.iter().map(|s| s.to_string()).collect()
}

#[test]
fn fixtures_are_sorted_and_selected() {
    let dir = names(&["b.mtl", "a.mtl", "notes.md", ".mtl", "B.mtl", "c.mtl.toml"]);
    assert_eq!(discover_fixtures(&dir, &vec![]), ["B.mtl", "a.mtl", "b.mtl"]);
    assert_eq!(discover_fixtures(&dir, &names(&["b.mtl", "x.mtl"])), ["b.mtl"]);
}

#[test]
fn the_summary_is_a_table_and_a_section_for_each_fixture() {
    let summary = BenchmarkSuiteSummary {
        fixtures: vec![FixtureBenchmarkSummary {
            fixture: "f.mtl".to_string(),
            benchmark: DurationStats {
                mean_ns: 2_000_000,
                min_ns: 1_000_000,
                max_ns: 3_000_000,
                stddev_bits: 500_000.0f64.to_bits(),
            },
            phase_mean_ns: report(1_000, 2_000, 3_000_000, 4_000_000).phase_timings,
            profile_json: "f.mtl.profile.json".to_string(),
            callgraph_dot: "f.mtl.callgraph.dot".to_string(),
            top_functions: vec![function("main", 1, 1_000_000, 500_000)],
            top_edges: vec![edge(None, "main", 1, 1_000_000)],
        }],
    };
    let text = written(&render_markdown(&summary));
    assert!(text.starts_with("# Evaluator Integration Benchmark Summary\n\n| Fixture |"));
    assert!(text.contains("| f.mtl | 2.000 | 1.000 | 3.000 | 0.500 | 3.000 |\n"));
    assert!(text.contains("\n## f.mtl\n\n### Phase Mean Timings\n\n"));
    assert!(text.contains("| parse | 0.001 |\n| typecheck | 0.002 |\n| evaluate | 3.000 |\n| total | 4.000 |\n"));
    assert!(text.contains("\nTypechecker counters: `solve_calls=0`, `constraints_processed=0`\n"));
    assert!(text.contains("| main | 1 | 1.000 | 0.500 |\n"));
    assert!(text.contains("| <entry> | main | 1 | 1.000 |\n"));
    assert!(text.ends_with("\nArtifacts: `f.mtl.profile.json`, `f.mtl.callgraph.dot`\n"));
}
