//! What benchmarks and profiles report.

use crate::bench::ReportModel;
use crate::bench_report::FixtureModel;
use crate::pipeline::{EvaluatorFixturePhaseTimings, EvaluatorFixtureRunReport};
use crate::profiler::{ActiveModel, EdgeModel, FunctionModel, ProfileModel, ProfilerModel};
use vstd::prelude::*;
use vstd::string::*;

verus! {

/// The hottest functions come first: those with more time in them and in what they call. Of those
/// with the same time, the names decide. A list that is cut keeps its beginning.
pub proof fn functions_are_listed_by_time(fs: Seq<FunctionModel>, i: int, j: int, n: nat)
    requires
        0 <= i < j < fs.len(),
    ensures
        ({
            let all = crate::bench::functions_by_heat(fs, fs.len() as int);
            let cut = crate::bench::first_of(all, n);
            &&& all.len() == fs.len()
            &&& all.to_multiset() == fs.to_multiset()
            &&& all[i].acc.inclusive_ns >= all[j].acc.inclusive_ns
            &&& all[i].acc.inclusive_ns == all[j].acc.inclusive_ns ==> crate::display_laws::up_to(
                all[i].function,
                all[j].function,
            )
            &&& cut.len() == if fs.len() < n {
                fs.len()
            } else {
                n
            }
            &&& cut == all.take(cut.len() as int)
        }),
{
    let all = crate::bench::functions_by_heat(fs, fs.len() as int);
    crate::report_laws::hottest_functions_come_first(fs, fs.len() as int);
    assert(fs.take(fs.len() as int) =~= fs);
    assert(all.len() == fs.len()) by {
        all.to_multiset_ensures();
        fs.to_multiset_ensures();
    }
    assert(!crate::bench::hotter(all[j], all[i]));
    crate::display_laws::texts_are_ordered(
        Seq::empty(),
        'a',
        'b',
        all[i].function,
        all[j].function,
    );
    assert(all.take(all.len() as int) =~= all);
}

/// The hottest calls come first in the same way.
pub proof fn calls_are_listed_by_time(es: Seq<EdgeModel>, i: int, j: int)
    requires
        0 <= i < j < es.len(),
    ensures
        ({
            let all = crate::bench::edges_by_heat(es, es.len() as int);
            &&& all.len() == es.len()
            &&& all.to_multiset() == es.to_multiset()
            &&& all[i].acc.inclusive_ns >= all[j].acc.inclusive_ns
            &&& all[i].acc.inclusive_ns == all[j].acc.inclusive_ns ==> crate::display_laws::up_to(
                all[i].edge.1,
                all[j].edge.1,
            )
        }),
{
    let all = crate::bench::edges_by_heat(es, es.len() as int);
    crate::report_laws::hottest_calls_come_first(es, es.len() as int);
    assert(es.take(es.len() as int) =~= es);
    assert(all.len() == es.len()) by {
        all.to_multiset_ensures();
        es.to_multiset_ensures();
    }
    assert(!crate::bench::edge_hotter(all[j], all[i]));
    crate::display_laws::texts_are_ordered(
        Seq::empty(),
        'a',
        'b',
        all[i].edge.1,
        all[j].edge.1,
    );
}

/// A file is a fixture exactly if its name ends in `.mtl` and something stands before that. All
/// fixtures run where none is asked for, and otherwise those that are.
pub proof fn fixtures_are_named_by_their_ending(
    stem: Seq<char>,
    name: Seq<char>,
    selected: Seq<Seq<char>>,
)
    ensures
        crate::bench::is_fixture(stem + ".mtl"@) <==> stem.len() > 0,
        crate::bench::is_fixture(name) ==> name == name.take(name.len() - 4) + ".mtl"@,
        crate::bench::is_selected(name, Seq::empty()),
        selected.len() > 0 ==> (crate::bench::is_selected(name, selected) <==> exists|i: int|
            0 <= i < selected.len() && #[trigger] selected[i] == name),
{
    reveal_strlit(".mtl");
    let whole = stem + ".mtl"@;
    assert(whole.len() == stem.len() + 4);
    assert(whole.subrange(whole.len() - 4, whole.len() as int) =~= ".mtl"@);
    if crate::bench::is_fixture(name) {
        let i = name.len() - 4;
        assert(name =~= name.take(i) + name.subrange(i, name.len() as int));
    }
}

/// The mean of samples is the whole number that is nearest to their sum divided by their number;
/// a half is rounded up.
pub proof fn means_are_rounded_to_the_nearest(sum: nat, n: nat)
    requires
        n > 0,
    ensures
        ({
            let mean = crate::bench::rounded_mean(sum, n);
            &&& 2 * (n * mean) <= 2 * sum + n
            &&& 2 * sum < 2 * (n * mean) + n
        }),
{
    let d = 2 * n as int;
    let x = 2 * sum + n as int;
    let q = x / d;
    vstd::arithmetic::div_mod::lemma_fundamental_div_mod(x, d);
    vstd::arithmetic::div_mod::lemma_mod_bound(x, d);
    assert(d * q == 2 * (n * q)) by (nonlinear_arith)
        requires
            d == 2 * n,
    ;
}

/// A sum of samples, and of times in one place, grows by each further one.
pub proof fn sums_grow_by_each_number(
    samples: Seq<u64>,
    x: u64,
    reports: Seq<EvaluatorFixtureRunReport>,
    k: int,
    n: int,
)
    requires
        0 <= n < reports.len(),
    ensures
        crate::bench::sample_sum(samples.push(x), (samples.len() + 1) as int) == crate::bench::sample_sum(
            samples,
            samples.len() as int,
        ) + x,
        crate::bench::sample_sum(samples, 0) == 0,
        crate::bench::timing_sum(reports, k, n + 1) == crate::bench::timing_sum(reports, k, n)
            + crate::bench::timing(reports[n].phase_timings, k),
        crate::bench::timing_sum(reports, k, 0) == 0,
{
    lemma_sample_front(samples, x, samples.len() as int);
}

proof fn lemma_sample_front(samples: Seq<u64>, x: u64, n: int)
    requires
        0 <= n <= samples.len(),
    ensures
        crate::bench::sample_sum(samples.push(x), n) == crate::bench::sample_sum(samples, n),
    decreases n,
{
    if n > 0 {
        lemma_sample_front(samples, x, n - 1);
    }
}

/// The twelve numbers of the times of a run are all there are: times with the same numbers are the
/// same.
pub proof fn timings_are_told_by_their_numbers(
    a: EvaluatorFixturePhaseTimings,
    b: EvaluatorFixturePhaseTimings,
)
    requires
        forall|k: int|
            0 <= k < 12 ==> #[trigger] crate::bench::timing(a, k) == crate::bench::timing(b, k),
    ensures
        a == b,
{
    assert(crate::bench::timing(a, 0) == crate::bench::timing(b, 0));
    assert(crate::bench::timing(a, 1) == crate::bench::timing(b, 1));
    assert(crate::bench::timing(a, 2) == crate::bench::timing(b, 2));
    assert(crate::bench::timing(a, 3) == crate::bench::timing(b, 3));
    assert(crate::bench::timing(a, 4) == crate::bench::timing(b, 4));
    assert(crate::bench::timing(a, 5) == crate::bench::timing(b, 5));
    assert(crate::bench::timing(a, 6) == crate::bench::timing(b, 6));
    assert(crate::bench::timing(a, 7) == crate::bench::timing(b, 7));
    assert(crate::bench::timing(a, 8) == crate::bench::timing(b, 8));
    assert(crate::bench::timing(a, 9) == crate::bench::timing(b, 9));
    assert(crate::bench::timing(a, 10) == crate::bench::timing(b, 10));
    assert(crate::bench::timing(a, 11) == crate::bench::timing(b, 11));
}

/// A function that calls another one is charged for the whole time, but for itself only for what
/// the other one did not take. The other one is charged for its own time, as a call from the first.
pub proof fn callers_are_not_charged_for_their_calls(
    p: ProfilerModel,
    f: Seq<char>,
    g: Seq<char>,
    a: u64,
    b: u64,
    c: u64,
    d: u64,
)
    requires
        f != g,
        a <= b <= c <= d,
        !p.functions.dom().contains(f),
        !p.functions.dom().contains(g),
        !p.edges.dom().contains((Some(f), g)),
        p.active.len() == 0,
    ensures
        ({
            let in_f = crate::profiler::call_entered(p, f, a);
            let in_g = crate::profiler::call_entered(in_f, g, b);
            let back = crate::profiler::call_left(in_g, c);
            let out = crate::profiler::call_left(back, d);
            &&& out.functions[f].calls == 1
            &&& out.functions[f].inclusive_ns == d - a
            &&& out.functions[f].self_ns == (d - a) - (c - b)
            &&& out.functions[g].calls == 1
            &&& out.functions[g].inclusive_ns == c - b
            &&& out.functions[g].self_ns == c - b
            &&& out.edges[(Some(f), g)].calls == 1
            &&& out.edges[(Some(f), g)].inclusive_ns == c - b
            &&& out.active.len() == 0
        }),
{
    let in_f = crate::profiler::call_entered(p, f, a);
    assert(in_f.active.last() == (ActiveModel { function: f, started_ns: a, child_ns: 0 }));
    let in_g = crate::profiler::call_entered(in_f, g, b);
    assert(in_g.active.last() == (ActiveModel { function: g, started_ns: b, child_ns: 0 }));
    assert(in_g.active.drop_last() =~= in_f.active);
    let back = crate::profiler::call_left(in_g, c);
    assert(back.active =~= seq![
        ActiveModel { function: f, started_ns: a, child_ns: (c - b) as u64 },
    ]);
    assert(back.active.drop_last() =~= Seq::<ActiveModel>::empty());
}

/// Counts and times do not run over: a sum that is too large stays at the greatest number, and a
/// clock that goes back counts as no time.
pub proof fn times_do_not_run_over(a: u64, b: u64)
    ensures
        a + b <= 0xffff_ffff_ffff_ffff ==> crate::profiler::capped(a, b) == a + b,
        a + b > 0xffff_ffff_ffff_ffff ==> crate::profiler::capped(a, b) == 0xffff_ffff_ffff_ffff,
        a >= b ==> crate::profiler::floored(a, b) == a - b,
        a < b ==> crate::profiler::floored(a, b) == 0,
{
}

proof fn lemma_nowhere(s: Seq<char>, part: Seq<char>, i: int)
    requires
        0 <= i,
        part.len() == 1,
        !s.contains(part[0]),
    ensures
        crate::strings::first_at(s, part, i) < 0,
    decreases s.len() - i + 1,
{
    if i <= s.len() {
        if crate::strings::stands_at(s, part, i) {
            assert(s.subrange(i, i + 1)[0] == s[i]);
            assert(s.contains(s[i]));
        }
        lemma_nowhere(s, part, i + 1);
    }
}

/// A name without quotation marks and backslashes stands in a graph as it is.
pub proof fn plain_names_are_not_escaped(s: Seq<char>)
    requires
        !s.contains('"'),
        !s.contains('\\'),
    ensures
        crate::bench::dot_escaped(s) == s,
        crate::bench::caller_text(Some(s)) == s,
{
    reveal_strlit("\\");
    reveal_strlit("\"");
    lemma_nowhere(s, "\\"@, 0);
    lemma_nowhere(s, "\""@, 0);
    assert(s.skip(0) =~= s);
    assert(seq![s][0] == s);
    assert(crate::strings::split_from(s, "\\"@, 0) == seq![s]);
    assert(crate::strings::split_from(s, "\""@, 0) == seq![s]);
}

/// The graph of calls has one node for each function, with its calls, its time and its own time, and
/// one edge for each pair of functions, from the caller, with the calls and the time.
pub proof fn graphs_have_nodes_and_edges(f: FunctionModel, e: EdgeModel)
    ensures
        ({
            let node = crate::bench::dot_node(f);
            &&& node.len() == 11
            &&& node[1] == ReportModel::Text(crate::bench::dot_escaped(f.function))
            &&& node[3] == ReportModel::Text(crate::bench::dot_escaped(f.function))
            &&& node[5] == ReportModel::Text(crate::text::decimal(f.acc.calls as nat))
            &&& node[7] == ReportModel::Millis(f.acc.inclusive_ns)
            &&& node[9] == ReportModel::Millis(f.acc.self_ns)
        }),
        ({
            let edge = crate::bench::dot_edge(e);
            let caller = match e.edge.0 {
                Some(name) => name,
                None => "<entry>"@,
            };
            &&& edge.len() == 9
            &&& edge[1] == ReportModel::Text(crate::bench::dot_escaped(caller))
            &&& edge[2] == ReportModel::Text("\" -> \""@)
            &&& edge[3] == ReportModel::Text(crate::bench::dot_escaped(e.edge.1))
            &&& edge[5] == ReportModel::Text(crate::text::decimal(e.acc.calls as nat))
            &&& edge[7] == ReportModel::Millis(e.acc.inclusive_ns)
        }),
{
}

/// A graph holds the nodes of all functions in order and then all edges in order.
pub proof fn graphs_list_functions_then_calls(p: ProfileModel)
    ensures
        ({
            let g = crate::bench::dot_graph(p);
            let n = p.functions.len();
            let m = p.edges.len();
            &&& g.len() == 2 + 11 * n + 9 * m
            &&& g[0] == ReportModel::Text("digraph metel_callgraph {\n  rankdir=LR;\n"@)
            &&& g[g.len() - 1] == ReportModel::Text("}\n"@)
            &&& forall|i: int|
                #![trigger p.functions[i]]
                0 <= i < n ==> g.subrange(1 + 11 * i, 12 + 11 * i) == crate::bench::dot_node(
                    p.functions[i],
                )
            &&& forall|i: int|
                #![trigger p.edges[i]]
                0 <= i < m ==> g.subrange(1 + 11 * n + 9 * i, 10 + 11 * n + 9 * i)
                    == crate::bench::dot_edge(p.edges[i])
        }),
{
    let g = crate::bench::dot_graph(p);
    let n = p.functions.len() as int;
    let m = p.edges.len() as int;
    let nodes = crate::bench::dot_nodes(p.functions, n);
    let edges = crate::bench::dot_edges(p.edges, m);
    lemma_nodes(p.functions, n);
    lemma_edges(p.edges, m);
    assert forall|i: int|
        #![trigger p.functions[i]]
        0 <= i < n implies g.subrange(1 + 11 * i, 12 + 11 * i) == crate::bench::dot_node(
        p.functions[i],
    ) by {
        assert(nodes.subrange(11 * i, 11 * i + 11) == crate::bench::dot_node(p.functions[i]));
        assert(g.subrange(1 + 11 * i, 12 + 11 * i) =~= nodes.subrange(11 * i, 11 * i + 11));
    }
    assert forall|i: int|
        #![trigger p.edges[i]]
        0 <= i < m implies g.subrange(1 + 11 * n + 9 * i, 10 + 11 * n + 9 * i)
        == crate::bench::dot_edge(p.edges[i]) by {
        assert(edges.subrange(9 * i, 9 * i + 9) == crate::bench::dot_edge(p.edges[i]));
        assert(g.subrange(1 + 11 * n + 9 * i, 10 + 11 * n + 9 * i) =~= edges.subrange(
            9 * i,
            9 * i + 9,
        ));
    }
}

proof fn lemma_nodes(fs: Seq<FunctionModel>, k: int)
    requires
        0 <= k <= fs.len(),
    ensures
        crate::bench::dot_nodes(fs, k).len() == 11 * k,
        forall|i: int|
            #![trigger fs[i]]
            0 <= i < k ==> crate::bench::dot_nodes(fs, k).subrange(11 * i, 11 * i + 11)
                == crate::bench::dot_node(fs[i]),
    decreases k,
{
    if k > 0 {
        lemma_nodes(fs, k - 1);
        let before = crate::bench::dot_nodes(fs, k - 1);
        let last = crate::bench::dot_node(fs[k - 1]);
        let all = crate::bench::dot_nodes(fs, k);
        assert(all == before + last);
        assert forall|i: int|
            #![trigger fs[i]]
            0 <= i < k implies all.subrange(11 * i, 11 * i + 11) == crate::bench::dot_node(fs[i]) by {
            if i < k - 1 {
                assert(all.subrange(11 * i, 11 * i + 11) =~= before.subrange(11 * i, 11 * i + 11));
            } else {
                assert(all.subrange(11 * i, 11 * i + 11) =~= last);
            }
        }
    }
}

proof fn lemma_edges(es: Seq<EdgeModel>, k: int)
    requires
        0 <= k <= es.len(),
    ensures
        crate::bench::dot_edges(es, k).len() == 9 * k,
        forall|i: int|
            #![trigger es[i]]
            0 <= i < k ==> crate::bench::dot_edges(es, k).subrange(9 * i, 9 * i + 9)
                == crate::bench::dot_edge(es[i]),
    decreases k,
{
    if k > 0 {
        lemma_edges(es, k - 1);
        let before = crate::bench::dot_edges(es, k - 1);
        let last = crate::bench::dot_edge(es[k - 1]);
        let all = crate::bench::dot_edges(es, k);
        assert(all == before + last);
        assert forall|i: int|
            #![trigger es[i]]
            0 <= i < k implies all.subrange(9 * i, 9 * i + 9) == crate::bench::dot_edge(es[i]) by {
            if i < k - 1 {
                assert(all.subrange(9 * i, 9 * i + 9) =~= before.subrange(9 * i, 9 * i + 9));
            } else {
                assert(all.subrange(9 * i, 9 * i + 9) =~= last);
            }
        }
    }
}

/// The rows of a report name what they are of and give its numbers in the order of the columns.
pub proof fn rows_give_their_numbers_in_order(f: FixtureModel, g: FunctionModel, e: EdgeModel)
    ensures
        ({
            let r = crate::bench_report::overview_row(f);
            &&& r.len() == 13
            &&& r[1] == ReportModel::Text(f.fixture)
            &&& r[3] == ReportModel::Millis(f.benchmark.mean_ns)
            &&& r[5] == ReportModel::Millis(f.benchmark.min_ns)
            &&& r[7] == ReportModel::Millis(f.benchmark.max_ns)
            &&& r[9] == ReportModel::MillisOf(f.benchmark.stddev_bits)
            &&& r[11] == ReportModel::Millis(f.mean.evaluate_ns)
        }),
        ({
            let r = crate::bench_report::function_row(g);
            &&& r.len() == 9
            &&& r[1] == ReportModel::Text(g.function)
            &&& r[3] == ReportModel::Text(crate::text::decimal(g.acc.calls as nat))
            &&& r[5] == ReportModel::Millis(g.acc.inclusive_ns)
            &&& r[7] == ReportModel::Millis(g.acc.self_ns)
        }),
        ({
            let r = crate::bench_report::edge_row(e);
            &&& r.len() == 9
            &&& e.edge.0 is None ==> r[1] == ReportModel::Text("<entry>"@)
            &&& e.edge.0 matches Some(caller) ==> r[1] == ReportModel::Text(caller)
            &&& r[3] == ReportModel::Text(e.edge.1)
            &&& r[5] == ReportModel::Text(crate::text::decimal(e.acc.calls as nat))
            &&& r[7] == ReportModel::Millis(e.acc.inclusive_ns)
        }),
{
}

/// The tables of a report give the time of each phase beside its name: parsing, checking, evaluation
/// and all, and of the type checker each of its own phases and its counts.
pub proof fn tables_give_the_time_of_each_phase(name: Seq<char>, t: EvaluatorFixturePhaseTimings)
    ensures
        ({
            let r = crate::bench_report::phase_table(name, t);
            &&& r.len() == 17
            &&& r[1] == ReportModel::Text(name)
            &&& r[5] == ReportModel::Text("| parse | "@) && r[6] == ReportModel::Millis(t.parse_ns)
            &&& r[8] == ReportModel::Text("| typecheck | "@) && r[9] == ReportModel::Millis(
                t.typecheck_ns,
            )
            &&& r[11] == ReportModel::Text("| evaluate | "@) && r[12] == ReportModel::Millis(
                t.evaluate_ns,
            )
            &&& r[14] == ReportModel::Text("| total | "@) && r[15] == ReportModel::Millis(
                t.total_ns,
            )
        }),
        ({
            let d = t.typecheck_detail;
            let r = crate::bench_report::checker_table(t);
            &&& r.len() == 25
            &&& r[2] == ReportModel::Text("| registry | "@) && r[3] == ReportModel::Millis(
                d.registry_ns,
            )
            &&& r[5] == ReportModel::Text("| inference | "@) && r[6] == ReportModel::Millis(
                d.inference_ns,
            )
            &&& r[8] == ReportModel::Text("| solve | "@) && r[9] == ReportModel::Millis(d.solve_ns)
            &&& r[11] == ReportModel::Text("| scheme_env | "@) && r[12] == ReportModel::Millis(
                d.scheme_env_ns,
            )
            &&& r[14] == ReportModel::Text("| construction | "@) && r[15] == ReportModel::Millis(
                d.construction_ns,
            )
            &&& r[17] == ReportModel::Text("| finalize | "@) && r[18] == ReportModel::Millis(
                d.finalize_ns,
            )
            &&& r[21] == ReportModel::Text(crate::text::decimal(d.solve_calls as nat))
            &&& r[23] == ReportModel::Text(crate::text::decimal(d.constraints_processed as nat))
        }),
{
}

/// A summary has a row for each fixture, in order, before what it says of each by itself.
pub proof fn summaries_list_all_fixtures(fs: Seq<FixtureModel>, i: int)
    requires
        0 <= i < fs.len(),
    ensures
        ({
            let r = crate::bench_report::summary_text(fs);
            &&& r.len() >= 3 + 13 * fs.len()
            &&& r.subrange(3 + 13 * i, 16 + 13 * i) == crate::bench_report::overview_row(fs[i])
            &&& r.skip((3 + 13 * fs.len()) as int) == crate::bench_report::fixture_sections(
                fs,
                fs.len() as int,
            )
        }),
{
    let r = crate::bench_report::summary_text(fs);
    let rows = crate::bench_report::overview_rows(fs, fs.len() as int);
    lemma_overview(fs, fs.len() as int, i);
    assert(r.subrange(3 + 13 * i, 16 + 13 * i) =~= rows.subrange(13 * i, 13 * i + 13));
    assert(r.skip((3 + 13 * fs.len()) as int) =~= crate::bench_report::fixture_sections(
        fs,
        fs.len() as int,
    ));
}

proof fn lemma_overview(fs: Seq<FixtureModel>, k: int, i: int)
    requires
        0 <= k <= fs.len(),
    ensures
        crate::bench_report::overview_rows(fs, k).len() == 13 * k,
        0 <= i < k ==> crate::bench_report::overview_rows(fs, k).subrange(13 * i, 13 * i + 13)
            == crate::bench_report::overview_row(fs[i]),
    decreases k,
{
    if k > 0 {
        lemma_overview(fs, k - 1, i);
        let before = crate::bench_report::overview_rows(fs, k - 1);
        let last = crate::bench_report::overview_row(fs[k - 1]);
        let all = crate::bench_report::overview_rows(fs, k);
        assert(all == before + last);
        if 0 <= i < k - 1 {
            assert(all.subrange(13 * i, 13 * i + 13) =~= before.subrange(13 * i, 13 * i + 13));
        } else if i == k - 1 {
            assert(all.subrange(13 * i, 13 * i + 13) =~= last);
        }
    }
}

/// What a fixture is reported with: its phases, the type checker's, its hottest functions and calls,
/// and where its profile and its graph are.
pub proof fn fixtures_are_reported_in_full(f: FixtureModel)
    ensures
        ({
            let r = crate::bench_report::fixture_section(f);
            let n = r.len();
            &&& n == 17 + 25 + (2 + 9 * f.functions.len()) + (2 + 9 * f.edges.len()) + 5
            &&& r.take(17) == crate::bench_report::phase_table(f.fixture, f.mean)
            &&& r.subrange(17, 42) == crate::bench_report::checker_table(f.mean)
            &&& r[n - 4] == ReportModel::Text(f.profile_json)
            &&& r[n - 2] == ReportModel::Text(f.callgraph_dot)
        }),
{
    let r = crate::bench_report::fixture_section(f);
    lemma_rows(f.functions, f.edges, f.functions.len() as int, f.edges.len() as int);
    assert(r.take(17) =~= crate::bench_report::phase_table(f.fixture, f.mean));
    assert(r.subrange(17, 42) =~= crate::bench_report::checker_table(f.mean));
}

proof fn lemma_rows(fs: Seq<FunctionModel>, es: Seq<EdgeModel>, n: int, m: int)
    requires
        0 <= n <= fs.len(),
        0 <= m <= es.len(),
    ensures
        crate::bench_report::function_rows(fs, n).len() == 9 * n,
        crate::bench_report::edge_rows(es, m).len() == 9 * m,
    decreases n + m,
{
    if n > 0 {
        lemma_rows(fs, es, n - 1, m);
    } else if m > 0 {
        lemma_rows(fs, es, n, m - 1);
    }
}

/// A profile lists each function that was called once, with what was recorded of it, in the order of
/// the names, and each pair of functions in the order of the callers, the entry first.
pub proof fn profiles_list_what_was_recorded(
    list: Seq<FunctionModel>,
    m: Map<Seq<char>, crate::profiler::FunctionAccumulator>,
    f: Seq<char>,
    i: int,
    j: int,
)
    requires
        crate::profiler::lists_functions(list, m),
        0 <= i < j < list.len(),
    ensures
        m.dom().contains(f) <==> exists|k: int| 0 <= k < list.len() && (#[trigger] list[k]).function
            == f,
        list[i].acc == m[list[i].function],
        list[i].function != list[j].function,
        crate::display_laws::up_to(list[i].function, list[j].function),
        ({
            let before = |a: (Option<Seq<char>>, Seq<char>), b: (Option<Seq<char>>, Seq<char>)|
                crate::profiler::edge_not_after(a, b);
            let x = list[i].function;
            let y = list[j].function;
            &&& before((None, x), (Some(y), f)) && !before((Some(y), f), (None, x))
            &&& before((Some(f), x), (Some(f), y)) && before((None, x), (None, y))
            &&& before((Some(x), f), (Some(y), f))
        }),
{
    if m.dom().contains(f) {
        assert(m.contains_key(f));
    }
}

/// A name is escaped character by character: a quotation mark and a backslash get a backslash before
/// them, and everything else stays.
pub proof fn names_are_escaped_one_by_one(x: char, a: Seq<char>)
    ensures
        crate::bench::dot_escaped(Seq::empty()) == Seq::<char>::empty(),
        crate::bench::dot_escaped(seq![x] + a) == (if x == '"' || x == '\\' {
            seq!['\\', x]
        } else {
            seq![x]
        }) + crate::bench::dot_escaped(a),
{
    reveal_strlit("\\");
    reveal_strlit("\"");
    reveal_strlit("\\\\");
    reveal_strlit("\\\"");
    let back = seq!['\\'];
    let quote = seq!['"'];
    assert("\\"@ =~= back);
    assert("\""@ =~= quote);
    assert("\\\\"@ =~= seq!['\\', '\\']);
    assert("\\\""@ =~= seq!['\\', '"']);
    let backs = seq!['\\', '\\'];
    let quotes = seq!['\\', '"'];
    crate::text_laws::characters_are_replaced_one_by_one(x, a, '\\', backs);
    let first = crate::strings::replaced_text(a, back, backs);
    crate::text_laws::characters_are_replaced_one_by_one(x, first, '"', quotes);
    crate::text_laws::characters_are_replaced_one_by_one('\\', first, '"', quotes);
    let second = crate::strings::replaced_text(first, quote, quotes);
    if x == '\\' {
        let one = back + first;
        crate::text_laws::characters_are_replaced_one_by_one('\\', one, '"', quotes);
        assert(backs + first =~= back + one);
        assert(back + (back + second) =~= backs + second);
    }
}

/// A run of a fixture is timed from outside: parsing is all that comes before checking, and checking
/// is all that comes before evaluation.
pub proof fn fixtures_are_timed_by_the_clock(
    filename: Seq<char>,
    options: crate::pipeline::RunOptions,
    w: crate::machine::World,
    n: nat,
)
    ensures
        ({
            let (started, a) = crate::pipeline::clock(w);
            let (t0, b) = crate::pipeline::clock(a);
            let front = crate::pipeline::fixture_front_run(filename, b);
            let (t1, c) = crate::pipeline::clock(front.1);
            let (t2, d) = crate::pipeline::clock(c);
            let checked = crate::pipeline::fixture_check_run(options.move_check, d);
            let (t3, e) = crate::pipeline::clock(checked.1);
            let done = crate::pipeline::timed_evaluation(
                checked.0->Ok_0.2,
                options.collect_evaluator_profile,
                e,
                n,
            );
            let (now, last) = crate::pipeline::clock(done.1);
            let r = crate::pipeline::fixture_run(filename, options, w, n);
            &&& front.0 is Err ==> r.0 is Err && r.0->Err_0 == front.0->Err_0
            &&& front.0 is Ok && checked.0 is Err ==> r.0 is Err && r.0->Err_0 == checked.0->Err_0
            &&& front.0 is Ok && checked.0 is Ok && done.0 is Err ==> r.0 is Err && r.0->Err_0
                == done.0->Err_0
            &&& front.0 is Ok && checked.0 is Ok && done.0 is Ok && t0 <= t1 && t2 <= t3 && started
                <= now ==> {
                let run = r.0->Ok_0;
                &&& r.0 is Ok
                &&& run.timings.parse_ns == t1 - t0
                &&& run.timings.typecheck_ns == t3 - t2
                &&& run.timings.evaluate_ns == done.0->Ok_0.1
                &&& run.timings.total_ns == now - started
                &&& run.timings.typecheck_detail == checked.0->Ok_0.1
                &&& run.warnings == checked.0->Ok_0.0
                &&& run.recorded == done.0->Ok_0.0
            }
        }),
{
}

/// A run that succeeds gives the time of each phase, the warnings, and what was recorded.
pub proof fn runs_give_the_time_of_each_phase(
    load: crate::host::PhaseModel,
    options: crate::pipeline::RunOptions,
    w: crate::machine::World,
    n: nat,
)
    ensures
        ({
            let (started, a) = crate::pipeline::clock(w);
            let front = crate::pipeline::front_run(load, a);
            let typed = crate::pipeline::timed_phase(
                crate::host::PhaseModel::Typecheck,
                front.1,
            );
            let checked = crate::pipeline::check_answer(
                typed.0->Ok_0.0,
                options.move_check,
                typed.1,
            );
            let made = crate::pipeline::timed_phase(
                crate::host::PhaseModel::Elaborate,
                checked.1,
            );
            let done = crate::pipeline::timed_evaluation(
                made.0->Ok_0.0,
                options.collect_evaluator_profile,
                made.1,
                n,
            );
            let (now, last) = crate::pipeline::clock(done.1);
            let r = crate::pipeline::pipeline_run(load, options, w, n);
            front.0 is Ok && typed.0 is Ok && checked.0 is Ok && made.0 is Ok && done.0 is Ok
                && started <= now ==> {
                let run = r.0->Ok_0;
                &&& r.0 is Ok
                &&& run.timings.load_root_ns == front.0->Ok_0.0
                &&& run.timings.resolve_ns == front.0->Ok_0.1
                &&& run.timings.normalize_ns == front.0->Ok_0.2
                &&& run.timings.coherence_ns == front.0->Ok_0.3
                &&& run.timings.typecheck_ns == typed.0->Ok_0.1
                &&& run.timings.elaborate_ns == made.0->Ok_0.1
                &&& run.timings.evaluate_ns == done.0->Ok_0.1
                &&& run.timings.total_ns == now - started
                &&& run.warnings == checked.0->Ok_0.0
                &&& run.recorded == done.0->Ok_0.0
            }
        }),
{
}

/// The least and the greatest of samples are among them, and all are between the two.
pub proof fn samples_are_between_least_and_greatest(
    samples: Seq<u64>,
    low: u64,
    other: u64,
    high: u64,
    i: int,
)
    requires
        crate::bench::least(samples, low),
        crate::bench::least(samples, other),
        crate::bench::greatest(samples, high),
        0 <= i < samples.len(),
    ensures
        low == other,
        low <= samples[i] <= high,
        exists|k: int| 0 <= k < samples.len() && #[trigger] samples[k] == low,
        exists|k: int| 0 <= k < samples.len() && #[trigger] samples[k] == high,
{
    let a = choose|k: int| 0 <= k < samples.len() && samples[k] == low;
    let b = choose|k: int| 0 <= k < samples.len() && samples[k] == other;
    let c = choose|k: int| 0 <= k < samples.len() && samples[k] == high;
    assert(samples[a] == low && samples[b] == other && samples[c] == high);
}

/// A profile lists each pair of functions that called each other once, with what was recorded of the
/// calls.
pub proof fn profiles_list_calls_once(
    list: Seq<EdgeModel>,
    m: Map<(Option<Seq<char>>, Seq<char>), crate::profiler::EdgeAccumulator>,
    e: (Option<Seq<char>>, Seq<char>),
    i: int,
    j: int,
)
    requires
        crate::profiler::lists_edges(list, m),
        0 <= i < j < list.len(),
    ensures
        m.dom().contains(e) <==> exists|k: int| 0 <= k < list.len() && (#[trigger] list[k]).edge == e,
        list[i].acc == m[list[i].edge],
        list[i].edge != list[j].edge,
        list[i].edge.0 is Some ==> list[j].edge.0 is Some,
        list[i].edge.0 == list[j].edge.0 ==> crate::display_laws::up_to(
            list[i].edge.1,
            list[j].edge.1,
        ),
        list[i].edge.0 is Some && list[i].edge.0 != list[j].edge.0 ==> crate::display_laws::up_to(
            list[i].edge.0->Some_0,
            list[j].edge.0->Some_0,
        ),
{
    if m.dom().contains(e) {
        assert(m.contains_key(e));
    }
    assert(list[i].edge != list[j].edge && crate::profiler::edge_not_after(
        list[i].edge,
        list[j].edge,
    ));
}

} // verus!
