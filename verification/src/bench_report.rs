//! The written summary of a benchmark.

use crate::bench::{
    name_caller, put, put_millis, put_number, put_text, DurationStats, ReportModel, ReportPiece,
};
use crate::data::Dup;
use crate::pipeline::EvaluatorFixturePhaseTimings;
use crate::profiler::{CallEdgeProfile, EdgeModel, FunctionModel, FunctionProfile};
use vstd::prelude::*;
use vstd::string::*;

verus! {

/// What was measured of a fixture.
#[derive(Debug)]
pub struct FixtureBenchmarkSummary {
    pub fixture: String,
    pub benchmark: DurationStats,
    pub phase_mean_ns: EvaluatorFixturePhaseTimings,
    pub profile_json: String,
    pub callgraph_dot: String,
    pub top_functions: Vec<FunctionProfile>,
    pub top_edges: Vec<CallEdgeProfile>,
}

/// What was measured of a fixture.
pub struct FixtureModel {
    pub fixture: Seq<char>,
    pub benchmark: DurationStats,
    pub mean: EvaluatorFixturePhaseTimings,
    pub profile_json: Seq<char>,
    pub callgraph_dot: Seq<char>,
    pub functions: Seq<FunctionModel>,
    pub edges: Seq<EdgeModel>,
}

impl DeepView for FixtureBenchmarkSummary {
    type V = FixtureModel;

    open spec fn deep_view(&self) -> FixtureModel {
        FixtureModel {
            fixture: self.fixture@,
            benchmark: self.benchmark,
            mean: self.phase_mean_ns,
            profile_json: self.profile_json@,
            callgraph_dot: self.callgraph_dot@,
            functions: self.top_functions.deep_view(),
            edges: self.top_edges.deep_view(),
        }
    }
}

/// What was measured of all fixtures.
#[derive(Debug)]
pub struct BenchmarkSuiteSummary {
    pub fixtures: Vec<FixtureBenchmarkSummary>,
}

/// The row of a fixture in the table of all fixtures.
pub open spec fn overview_row(f: FixtureModel) -> Seq<ReportModel> {
    seq![
        ReportModel::Text("| "@),
        ReportModel::Text(f.fixture),
        ReportModel::Text(" | "@),
        ReportModel::Millis(f.benchmark.mean_ns),
        ReportModel::Text(" | "@),
        ReportModel::Millis(f.benchmark.min_ns),
        ReportModel::Text(" | "@),
        ReportModel::Millis(f.benchmark.max_ns),
        ReportModel::Text(" | "@),
        ReportModel::MillisOf(f.benchmark.stddev_bits),
        ReportModel::Text(" | "@),
        ReportModel::Millis(f.mean.evaluate_ns),
        ReportModel::Text(" |\n"@),
    ]
}

fn put_overview_row(out: &mut Vec<ReportPiece>, f: &FixtureBenchmarkSummary)
    ensures
        final(out).deep_view() == old(out).deep_view() + overview_row(f.deep_view()),
{
    let ghost before = out.deep_view();
    put_text(out, "| ");
    put_text(out, f.fixture.as_str());
    put_text(out, " | ");
    put_millis(out, f.benchmark.mean_ns);
    put_text(out, " | ");
    put_millis(out, f.benchmark.min_ns);
    put_text(out, " | ");
    put_millis(out, f.benchmark.max_ns);
    put_text(out, " | ");
    put(out, ReportPiece::MillisOf(f.benchmark.stddev_bits));
    put_text(out, " | ");
    put_millis(out, f.phase_mean_ns.evaluate_ns);
    put_text(out, " |\n");
    assert(out.deep_view() =~= before + overview_row(f.deep_view()));
}

/// The row of a phase.
pub open spec fn phase_row(start: Seq<char>, ns: u64) -> Seq<ReportModel> {
    seq![ReportModel::Text(start), ReportModel::Millis(ns), ReportModel::Text(" |\n"@)]
}

fn put_phase_row(out: &mut Vec<ReportPiece>, start: &str, ns: u64)
    ensures
        final(out).deep_view() == old(out).deep_view() + phase_row(start@, ns),
{
    let ghost before = out.deep_view();
    put_text(out, start);
    put_millis(out, ns);
    put_text(out, " |\n");
    assert(out.deep_view() =~= before + phase_row(start@, ns));
}

/// The mean times of the phases of a fixture.
pub open spec fn phase_table(name: Seq<char>, t: EvaluatorFixturePhaseTimings) -> Seq<ReportModel> {
    seq![
        ReportModel::Text("\n## "@),
        ReportModel::Text(name),
        ReportModel::Text("\n\n"@),
        ReportModel::Text("### Phase Mean Timings\n\n"@),
        ReportModel::Text("| Phase | Mean (ms) |\n|---|---:|\n"@),
    ] + phase_row("| parse | "@, t.parse_ns) + phase_row("| typecheck | "@, t.typecheck_ns)
        + phase_row("| evaluate | "@, t.evaluate_ns) + phase_row("| total | "@, t.total_ns)
}

fn put_phase_table(out: &mut Vec<ReportPiece>, name: &String, t: &EvaluatorFixturePhaseTimings)
    ensures
        final(out).deep_view() == old(out).deep_view() + phase_table(name@, *t),
{
    let ghost before = out.deep_view();
    put_text(out, "\n## ");
    put_text(out, name.as_str());
    put_text(out, "\n\n");
    put_text(out, "### Phase Mean Timings\n\n");
    put_text(out, "| Phase | Mean (ms) |\n|---|---:|\n");
    put_phase_row(out, "| parse | ", t.parse_ns);
    put_phase_row(out, "| typecheck | ", t.typecheck_ns);
    put_phase_row(out, "| evaluate | ", t.evaluate_ns);
    put_phase_row(out, "| total | ", t.total_ns);
    assert(out.deep_view() =~= before + phase_table(name@, *t));
}

/// Where the type checker spends its time.
pub open spec fn checker_table(t: EvaluatorFixturePhaseTimings) -> Seq<ReportModel> {
    let d = t.typecheck_detail;
    seq![
        ReportModel::Text("\n### Typechecker Sub-Phases\n\n"@),
        ReportModel::Text("| Sub-phase | Mean (ms) |\n|---|---:|\n"@),
    ] + phase_row("| registry | "@, d.registry_ns) + phase_row("| inference | "@, d.inference_ns)
        + phase_row("| solve | "@, d.solve_ns) + phase_row("| scheme_env | "@, d.scheme_env_ns)
        + phase_row("| construction | "@, d.construction_ns) + phase_row(
        "| finalize | "@,
        d.finalize_ns,
    ) + seq![
        ReportModel::Text("\nTypechecker counters: `solve_calls="@),
        ReportModel::Text(crate::text::decimal(d.solve_calls as nat)),
        ReportModel::Text("`, `constraints_processed="@),
        ReportModel::Text(crate::text::decimal(d.constraints_processed as nat)),
        ReportModel::Text("`\n"@),
    ]
}

fn put_checker_table(out: &mut Vec<ReportPiece>, t: &EvaluatorFixturePhaseTimings)
    ensures
        final(out).deep_view() == old(out).deep_view() + checker_table(*t),
{
    let ghost before = out.deep_view();
    let d = t.typecheck_detail;
    put_text(out, "\n### Typechecker Sub-Phases\n\n");
    put_text(out, "| Sub-phase | Mean (ms) |\n|---|---:|\n");
    put_phase_row(out, "| registry | ", d.registry_ns);
    put_phase_row(out, "| inference | ", d.inference_ns);
    put_phase_row(out, "| solve | ", d.solve_ns);
    put_phase_row(out, "| scheme_env | ", d.scheme_env_ns);
    put_phase_row(out, "| construction | ", d.construction_ns);
    put_phase_row(out, "| finalize | ", d.finalize_ns);
    put_text(out, "\nTypechecker counters: `solve_calls=");
    put_number(out, d.solve_calls);
    put_text(out, "`, `constraints_processed=");
    put_number(out, d.constraints_processed);
    put_text(out, "`\n");
    assert(out.deep_view() =~= before + checker_table(*t));
}

/// The row of a function.
pub open spec fn function_row(f: FunctionModel) -> Seq<ReportModel> {
    seq![
        ReportModel::Text("| "@),
        ReportModel::Text(f.function),
        ReportModel::Text(" | "@),
        ReportModel::Text(crate::text::decimal(f.acc.calls as nat)),
        ReportModel::Text(" | "@),
        ReportModel::Millis(f.acc.inclusive_ns),
        ReportModel::Text(" | "@),
        ReportModel::Millis(f.acc.self_ns),
        ReportModel::Text(" |\n"@),
    ]
}

/// The rows of the first `k` functions.
pub open spec fn function_rows(fs: Seq<FunctionModel>, k: int) -> Seq<ReportModel>
    decreases k,
{
    if k <= 0 {
        Seq::empty()
    } else {
        function_rows(fs, k - 1) + function_row(fs[k - 1])
    }
}

/// The table of the hottest functions.
pub open spec fn function_table(fs: Seq<FunctionModel>) -> Seq<ReportModel> {
    seq![
        ReportModel::Text("\n### Hottest Functions\n\n"@),
        ReportModel::Text(
            "| Function | Calls | Inclusive (ms) | Self (ms) |\n|---|---:|---:|---:|\n"@,
        ),
    ] + function_rows(fs, fs.len() as int)
}

fn put_function_row(out: &mut Vec<ReportPiece>, f: &FunctionProfile)
    ensures
        final(out).deep_view() == old(out).deep_view() + function_row(f.deep_view()),
{
    let ghost before = out.deep_view();
    put_text(out, "| ");
    put_text(out, f.function.as_str());
    put_text(out, " | ");
    put_number(out, f.calls);
    put_text(out, " | ");
    put_millis(out, f.inclusive_ns);
    put_text(out, " | ");
    put_millis(out, f.self_ns);
    put_text(out, " |\n");
    assert(out.deep_view() =~= before + function_row(f.deep_view()));
}

fn put_function_table(out: &mut Vec<ReportPiece>, functions: &Vec<FunctionProfile>)
    ensures
        final(out).deep_view() == old(out).deep_view() + function_table(functions.deep_view()),
{
    let ghost before = out.deep_view();
    let ghost fs = functions.deep_view();
    assert(fs.len() == functions@.len());
    put_text(out, "\n### Hottest Functions\n\n");
    put_text(out, "| Function | Calls | Inclusive (ms) | Self (ms) |\n|---|---:|---:|---:|\n");
    let ghost head = out.deep_view();
    assert(head + function_rows(fs, 0) =~= head);
    let mut i: usize = 0;
    while i < functions.len()
        invariant
            i <= functions.len(),
            fs == functions.deep_view(),
            fs.len() == functions@.len(),
            out.deep_view() == head + function_rows(fs, i as int),
        decreases functions.len() - i,
    {
        assert(fs[i as int] == functions@[i as int].deep_view());
        put_function_row(out, &functions[i]);
        assert(out.deep_view() =~= head + function_rows(fs, i + 1));
        i += 1;
    }
    assert(out.deep_view() =~= before + function_table(fs));
}

/// The row of calls.
pub open spec fn edge_row(e: EdgeModel) -> Seq<ReportModel> {
    seq![
        ReportModel::Text("| "@),
        ReportModel::Text(crate::bench::caller_text(e.edge.0)),
        ReportModel::Text(" | "@),
        ReportModel::Text(e.edge.1),
        ReportModel::Text(" | "@),
        ReportModel::Text(crate::text::decimal(e.acc.calls as nat)),
        ReportModel::Text(" | "@),
        ReportModel::Millis(e.acc.inclusive_ns),
        ReportModel::Text(" |\n"@),
    ]
}

/// The rows of the first `k` calls.
pub open spec fn edge_rows(es: Seq<EdgeModel>, k: int) -> Seq<ReportModel>
    decreases k,
{
    if k <= 0 {
        Seq::empty()
    } else {
        edge_rows(es, k - 1) + edge_row(es[k - 1])
    }
}

/// The table of the hottest calls.
pub open spec fn edge_table(es: Seq<EdgeModel>) -> Seq<ReportModel> {
    seq![
        ReportModel::Text("\n### Hottest Edges\n\n"@),
        ReportModel::Text(
            "| Caller | Callee | Calls | Inclusive (ms) |\n|---|---|---:|---:|\n"@,
        ),
    ] + edge_rows(es, es.len() as int)
}

fn put_edge_row(out: &mut Vec<ReportPiece>, e: &CallEdgeProfile)
    ensures
        final(out).deep_view() == old(out).deep_view() + edge_row(e.deep_view()),
{
    let ghost before = out.deep_view();
    let caller = name_caller(&e.caller);
    put_text(out, "| ");
    put_text(out, caller.as_str());
    put_text(out, " | ");
    put_text(out, e.callee.as_str());
    put_text(out, " | ");
    put_number(out, e.calls);
    put_text(out, " | ");
    put_millis(out, e.inclusive_ns);
    put_text(out, " |\n");
    assert(out.deep_view() =~= before + edge_row(e.deep_view()));
}

fn put_edge_table(out: &mut Vec<ReportPiece>, edges: &Vec<CallEdgeProfile>)
    ensures
        final(out).deep_view() == old(out).deep_view() + edge_table(edges.deep_view()),
{
    let ghost before = out.deep_view();
    let ghost es = edges.deep_view();
    assert(es.len() == edges@.len());
    put_text(out, "\n### Hottest Edges\n\n");
    put_text(out, "| Caller | Callee | Calls | Inclusive (ms) |\n|---|---|---:|---:|\n");
    let ghost head = out.deep_view();
    assert(head + edge_rows(es, 0) =~= head);
    let mut i: usize = 0;
    while i < edges.len()
        invariant
            i <= edges.len(),
            es == edges.deep_view(),
            es.len() == edges@.len(),
            out.deep_view() == head + edge_rows(es, i as int),
        decreases edges.len() - i,
    {
        assert(es[i as int] == edges@[i as int].deep_view());
        put_edge_row(out, &edges[i]);
        assert(out.deep_view() =~= head + edge_rows(es, i + 1));
        i += 1;
    }
    assert(out.deep_view() =~= before + edge_table(es));
}

/// What is written of a fixture.
pub open spec fn fixture_section(f: FixtureModel) -> Seq<ReportModel> {
    phase_table(f.fixture, f.mean) + checker_table(f.mean) + function_table(f.functions)
        + edge_table(f.edges) + seq![
        ReportModel::Text("\nArtifacts: `"@),
        ReportModel::Text(f.profile_json),
        ReportModel::Text("`, `"@),
        ReportModel::Text(f.callgraph_dot),
        ReportModel::Text("`\n"@),
    ]
}

fn put_fixture_section(out: &mut Vec<ReportPiece>, f: &FixtureBenchmarkSummary)
    ensures
        final(out).deep_view() == old(out).deep_view() + fixture_section(f.deep_view()),
{
    let ghost before = out.deep_view();
    put_phase_table(out, &f.fixture, &f.phase_mean_ns);
    put_checker_table(out, &f.phase_mean_ns);
    put_function_table(out, &f.top_functions);
    put_edge_table(out, &f.top_edges);
    put_text(out, "\nArtifacts: `");
    put_text(out, f.profile_json.as_str());
    put_text(out, "`, `");
    put_text(out, f.callgraph_dot.as_str());
    put_text(out, "`\n");
    assert(out.deep_view() =~= before + fixture_section(f.deep_view()));
}

/// The rows of the first `k` fixtures.
pub open spec fn overview_rows(fs: Seq<FixtureModel>, k: int) -> Seq<ReportModel>
    decreases k,
{
    if k <= 0 {
        Seq::empty()
    } else {
        overview_rows(fs, k - 1) + overview_row(fs[k - 1])
    }
}

/// What is written of the first `k` fixtures.
pub open spec fn fixture_sections(fs: Seq<FixtureModel>, k: int) -> Seq<ReportModel>
    decreases k,
{
    if k <= 0 {
        Seq::empty()
    } else {
        fixture_sections(fs, k - 1) + fixture_section(fs[k - 1])
    }
}

/// The summary of a benchmark: a table of all fixtures, and then each by itself.
pub open spec fn summary_text(fs: Seq<FixtureModel>) -> Seq<ReportModel> {
    seq![
        ReportModel::Text("# Evaluator Integration Benchmark Summary\n\n"@),
        ReportModel::Text(
            "| Fixture | Mean (ms) | Min (ms) | Max (ms) | Stddev (ms) | Evaluate Phase (ms) |\n"@,
        ),
        ReportModel::Text("|---|---:|---:|---:|---:|---:|\n"@),
    ] + overview_rows(fs, fs.len() as int) + fixture_sections(fs, fs.len() as int)
}

/// Writes the summary of a benchmark.
pub fn render_markdown(summary: &BenchmarkSuiteSummary) -> (r: Vec<ReportPiece>)
    ensures
        r.deep_view() == summary_text(summary.fixtures.deep_view()),
{
    let ghost fs = summary.fixtures.deep_view();
    assert(fs.len() == summary.fixtures@.len());
    let mut out: Vec<ReportPiece> = Vec::new();
    assert(out.deep_view() =~= Seq::<ReportModel>::empty());
    put_text(&mut out, "# Evaluator Integration Benchmark Summary\n\n");
    put_text(
        &mut out,
        "| Fixture | Mean (ms) | Min (ms) | Max (ms) | Stddev (ms) | Evaluate Phase (ms) |\n",
    );
    put_text(&mut out, "|---|---:|---:|---:|---:|---:|\n");
    let ghost head = out.deep_view();
    assert(head + overview_rows(fs, 0) =~= head);
    let mut i: usize = 0;
    while i < summary.fixtures.len()
        invariant
            i <= summary.fixtures.len(),
            fs == summary.fixtures.deep_view(),
            fs.len() == summary.fixtures@.len(),
            out.deep_view() == head + overview_rows(fs, i as int),
        decreases summary.fixtures.len() - i,
    {
        assert(fs[i as int] == summary.fixtures@[i as int].deep_view());
        put_overview_row(&mut out, &summary.fixtures[i]);
        assert(out.deep_view() =~= head + overview_rows(fs, i + 1));
        i += 1;
    }
    let ghost rows = out.deep_view();
    assert(rows + fixture_sections(fs, 0) =~= rows);
    let mut j: usize = 0;
    while j < summary.fixtures.len()
        invariant
            j <= summary.fixtures.len(),
            fs == summary.fixtures.deep_view(),
            fs.len() == summary.fixtures@.len(),
            out.deep_view() == rows + fixture_sections(fs, j as int),
        decreases summary.fixtures.len() - j,
    {
        assert(fs[j as int] == summary.fixtures@[j as int].deep_view());
        put_fixture_section(&mut out, &summary.fixtures[j]);
        assert(out.deep_view() =~= rows + fixture_sections(fs, j + 1));
        j += 1;
    }
    assert(out.deep_view() =~= summary_text(fs));
    out
}

} // verus!
