//! Benchmarks of the evaluator: which fixtures are run, and how what was measured
//! is summed up and written down.

use crate::data::Dup;
use crate::host::TypecheckPhaseTimings;
use crate::pipeline::{EvaluatorFixturePhaseTimings, EvaluatorFixtureRunReport};
use crate::profiler::{
    CallEdgeProfile, EdgeModel, EvaluatorProfile, FunctionModel, FunctionProfile, ProfileModel,
};
use crate::strings::{chars_of, is_at, is_not_after, replace};
use crate::text::decimal_string;
use vstd::prelude::*;
use vstd::string::*;

verus! {

/// A part of a written report: a text, or a time in nanoseconds that is written in
/// milliseconds with three decimals. A spread is given by the bits of the
/// floating-point number that it is.
#[derive(Debug)]
pub enum ReportPiece {
    Text(String),
    Millis(u64),
    MillisOf(u64),
}

pub enum ReportModel {
    Text(Seq<char>),
    Millis(u64),
    MillisOf(u64),
}

impl DeepView for ReportPiece {
    type V = ReportModel;

    open spec fn deep_view(&self) -> ReportModel {
        match self {
            ReportPiece::Text(s) => ReportModel::Text(s@),
            ReportPiece::Millis(ns) => ReportModel::Millis(*ns),
            ReportPiece::MillisOf(bits) => ReportModel::MillisOf(*bits),
        }
    }
}

pub(crate) fn put(out: &mut Vec<ReportPiece>, p: ReportPiece)
    ensures
        final(out).deep_view() == old(out).deep_view().push(p.deep_view()),
{
    let ghost prev = out.deep_view();
    assert(prev.len() == out@.len());
    out.push(p);
    assert(out.deep_view() =~= prev.push(p.deep_view()));
}

pub(crate) fn put_text(out: &mut Vec<ReportPiece>, s: &str)
    ensures
        final(out).deep_view() == old(out).deep_view().push(ReportModel::Text(s@)),
{
    put(out, ReportPiece::Text(s.to_owned()));
}

pub(crate) fn put_millis(out: &mut Vec<ReportPiece>, ns: u64)
    ensures
        final(out).deep_view() == old(out).deep_view().push(ReportModel::Millis(ns)),
{
    put(out, ReportPiece::Millis(ns));
}

pub(crate) fn put_number(out: &mut Vec<ReportPiece>, n: u64)
    ensures
        final(out).deep_view() == old(out).deep_view().push(
            ReportModel::Text(crate::text::decimal(n as nat)),
        ),
{
    put(out, ReportPiece::Text(decimal_string(n as u128)));
}

/// Whether a file in the directory of the fixtures is one.
pub open spec fn is_fixture(name: Seq<char>) -> bool {
    name.len() > 4 && crate::strings::stands_at(name, ".mtl"@, name.len() - 4)
}

/// Whether a fixture has been asked for. Where none has been, all are.
pub open spec fn is_selected(name: Seq<char>, selected: Seq<Seq<char>>) -> bool {
    selected.len() == 0 || selected.contains(name)
}

/// A text put in front of the first that comes after it.
pub open spec fn text_inserted(sorted: Seq<Seq<char>>, x: Seq<char>, i: int) -> Seq<Seq<char>>
    decreases sorted.len() - i,
{
    if i < 0 || i >= sorted.len() {
        sorted.push(x)
    } else if crate::strings::not_after(sorted[i], x, 0) {
        text_inserted(sorted, x, i + 1)
    } else {
        sorted.insert(i, x)
    }
}

/// The fixtures among the first `k` names that are run, in the order of their
/// names.
pub open spec fn fixtures_among(names: Seq<Seq<char>>, selected: Seq<Seq<char>>, k: int) -> Seq<
    Seq<char>,
>
    decreases k,
{
    if k <= 0 {
        Seq::empty()
    } else {
        let before = fixtures_among(names, selected, k - 1);
        let name = names[k - 1];
        if is_fixture(name) && is_selected(name, selected) {
            text_inserted(before, name, 0)
        } else {
            before
        }
    }
}

fn names_fixture(name: &String) -> (b: bool)
    ensures
        b == is_fixture(name@),
{
    let cs = chars_of(name.as_str());
    let ending = chars_of(".mtl");
    proof {
        reveal_strlit(".mtl");
    }
    let n: usize = cs.len();
    n > 4 && is_at(&cs, &ending, n - 4)
}

fn asked_for(name: &String, selected: &Vec<String>) -> (b: bool)
    ensures
        b == is_selected(name@, selected.deep_view()),
{
    let ghost all = selected.deep_view();
    assert(all.len() == selected@.len());
    if selected.len() == 0 {
        return true;
    }
    let mut i: usize = 0;
    while i < selected.len()
        invariant
            i <= selected.len(),
            all == selected.deep_view(),
            all.len() == selected@.len(),
            forall|j: int| 0 <= j < i ==> (#[trigger] all[j]) != name@,
        decreases selected.len() - i,
    {
        assert(all[i as int] == selected@[i as int]@);
        if selected[i] == *name {
            assert(all.contains(name@));
            return true;
        }
        i += 1;
    }
    assert(!all.contains(name@));
    false
}

fn insert_text(sorted: &mut Vec<String>, x: &String)
    ensures
        final(sorted).deep_view() == text_inserted(old(sorted).deep_view(), x@, 0),
{
    let ghost before = sorted.deep_view();
    assert(before.len() == sorted@.len());
    let mut i: usize = 0;
    while i < sorted.len()
        invariant
            i <= sorted.len(),
            *sorted == *old(sorted),
            before == sorted.deep_view(),
            before.len() == sorted@.len(),
            text_inserted(before, x@, 0) == text_inserted(before, x@, i as int),
        decreases sorted.len() - i,
    {
        assert(before[i as int] == sorted@[i as int]@);
        if !is_not_after(sorted[i].as_str(), x.as_str()) {
            sorted.insert(i, x.clone());
            assert(sorted.deep_view() =~= before.insert(i as int, x@));
            return;
        }
        i += 1;
    }
    sorted.push(x.clone());
    assert(sorted.deep_view() =~= before.push(x@));
}

/// The fixtures among the names in a directory that are run, in the order of their
/// names.
pub fn discover_fixtures(names: &Vec<String>, selected: &Vec<String>) -> (r: Vec<String>)
    ensures
        r.deep_view() == fixtures_among(
            names.deep_view(),
            selected.deep_view(),
            names@.len() as int,
        ),
{
    let ghost all = names.deep_view();
    assert(all.len() == names@.len());
    let mut out: Vec<String> = Vec::new();
    assert(out.deep_view() =~= Seq::<Seq<char>>::empty());
    let mut i: usize = 0;
    while i < names.len()
        invariant
            i <= names.len(),
            all == names.deep_view(),
            all.len() == names@.len(),
            out.deep_view() == fixtures_among(all, selected.deep_view(), i as int),
        decreases names.len() - i,
    {
        assert(all[i as int] == names@[i as int]@);
        if names_fixture(&names[i]) && asked_for(&names[i], selected) {
            insert_text(&mut out, &names[i]);
        }
        i += 1;
    }
    out
}

/// The numbers that phase timings hold.
pub open spec fn timing(t: EvaluatorFixturePhaseTimings, k: int) -> u64 {
    if k == 0 {
        t.parse_ns
    } else if k == 1 {
        t.typecheck_ns
    } else if k == 2 {
        t.typecheck_detail.registry_ns
    } else if k == 3 {
        t.typecheck_detail.inference_ns
    } else if k == 4 {
        t.typecheck_detail.solve_ns
    } else if k == 5 {
        t.typecheck_detail.scheme_env_ns
    } else if k == 6 {
        t.typecheck_detail.construction_ns
    } else if k == 7 {
        t.typecheck_detail.finalize_ns
    } else if k == 8 {
        t.typecheck_detail.solve_calls
    } else if k == 9 {
        t.typecheck_detail.constraints_processed
    } else if k == 10 {
        t.evaluate_ns
    } else {
        t.total_ns
    }
}

/// The sum of the numbers in a place over the first `n` reports.
pub open spec fn timing_sum(reports: Seq<EvaluatorFixtureRunReport>, k: int, n: int) -> nat
    decreases n,
{
    if n <= 0 {
        0
    } else {
        timing_sum(reports, k, n - 1) + timing(reports[n - 1].phase_timings, k) as nat
    }
}

proof fn lemma_sums_grow(reports: Seq<EvaluatorFixtureRunReport>, k: int, n: int, m: int)
    requires
        n <= m,
    ensures
        timing_sum(reports, k, n) <= timing_sum(reports, k, m),
    decreases m - n,
{
    if n < m {
        lemma_sums_grow(reports, k, n, m - 1);
    }
}

fn added(a: EvaluatorFixturePhaseTimings, b: EvaluatorFixturePhaseTimings) -> (r:
    EvaluatorFixturePhaseTimings)
    requires
        forall|k: int| 0 <= k < 12 ==> (#[trigger] timing(a, k)) + timing(b, k) <= u64::MAX,
    ensures
        forall|k: int| 0 <= k < 12 ==> (#[trigger] timing(r, k)) == timing(a, k) + timing(b, k),
{
    assert(timing(a, 0) + timing(b, 0) <= u64::MAX);
    assert(timing(a, 1) + timing(b, 1) <= u64::MAX);
    assert(timing(a, 2) + timing(b, 2) <= u64::MAX);
    assert(timing(a, 3) + timing(b, 3) <= u64::MAX);
    assert(timing(a, 4) + timing(b, 4) <= u64::MAX);
    assert(timing(a, 5) + timing(b, 5) <= u64::MAX);
    assert(timing(a, 6) + timing(b, 6) <= u64::MAX);
    assert(timing(a, 7) + timing(b, 7) <= u64::MAX);
    assert(timing(a, 8) + timing(b, 8) <= u64::MAX);
    assert(timing(a, 9) + timing(b, 9) <= u64::MAX);
    assert(timing(a, 10) + timing(b, 10) <= u64::MAX);
    assert(timing(a, 11) + timing(b, 11) <= u64::MAX);
    let x = a.typecheck_detail;
    let y = b.typecheck_detail;
    EvaluatorFixturePhaseTimings {
        parse_ns: a.parse_ns + b.parse_ns,
        typecheck_ns: a.typecheck_ns + b.typecheck_ns,
        typecheck_detail: TypecheckPhaseTimings {
            registry_ns: x.registry_ns + y.registry_ns,
            inference_ns: x.inference_ns + y.inference_ns,
            solve_ns: x.solve_ns + y.solve_ns,
            scheme_env_ns: x.scheme_env_ns + y.scheme_env_ns,
            construction_ns: x.construction_ns + y.construction_ns,
            finalize_ns: x.finalize_ns + y.finalize_ns,
            solve_calls: x.solve_calls + y.solve_calls,
            constraints_processed: x.constraints_processed + y.constraints_processed,
        },
        evaluate_ns: a.evaluate_ns + b.evaluate_ns,
        total_ns: a.total_ns + b.total_ns,
    }
}

/// The mean of each number over all reports, rounded down.
pub fn mean_phase_timings(reports: &Vec<EvaluatorFixtureRunReport>) -> (r:
    EvaluatorFixturePhaseTimings)
    requires
        reports@.len() > 0,
        forall|k: int|
            0 <= k < 12 ==> #[trigger] timing_sum(reports@, k, reports@.len() as int) <= u64::MAX,
    ensures
        forall|k: int|
            0 <= k < 12 ==> (#[trigger] timing(r, k)) == timing_sum(
                reports@,
                k,
                reports@.len() as int,
            ) / reports@.len(),
{
    let mut sum = EvaluatorFixturePhaseTimings::default();
    let mut i: usize = 0;
    while i < reports.len()
        invariant
            i <= reports.len(),
            forall|k: int|
                0 <= k < 12 ==> #[trigger] timing_sum(reports@, k, reports@.len() as int)
                    <= u64::MAX,
            forall|k: int|
                0 <= k < 12 ==> (#[trigger] timing(sum, k)) == timing_sum(reports@, k, i as int),
        decreases reports.len() - i,
    {
        proof {
            assert forall|k: int| 0 <= k < 12 implies (#[trigger] timing(sum, k)) + timing(
                reports@[i as int].phase_timings,
                k,
            ) <= u64::MAX by {
                lemma_sums_grow(reports@, k, i + 1, reports@.len() as int);
                assert(timing_sum(reports@, k, reports@.len() as int) <= u64::MAX);
            }
        }
        let ghost before = sum;
        sum = added(sum, reports[i].phase_timings);
        proof {
            assert forall|k: int| 0 <= k < 12 implies (#[trigger] timing(sum, k)) == timing_sum(
                reports@,
                k,
                i + 1,
            ) by {
                assert(timing(before, k) == timing_sum(reports@, k, i as int));
            }
        }
        i += 1;
    }
    let count: u64 = reports.len() as u64;
    let x = sum.typecheck_detail;
    let r = EvaluatorFixturePhaseTimings {
        parse_ns: sum.parse_ns / count,
        typecheck_ns: sum.typecheck_ns / count,
        typecheck_detail: TypecheckPhaseTimings {
            registry_ns: x.registry_ns / count,
            inference_ns: x.inference_ns / count,
            solve_ns: x.solve_ns / count,
            scheme_env_ns: x.scheme_env_ns / count,
            construction_ns: x.construction_ns / count,
            finalize_ns: x.finalize_ns / count,
            solve_calls: x.solve_calls / count,
            constraints_processed: x.constraints_processed / count,
        },
        evaluate_ns: sum.evaluate_ns / count,
        total_ns: sum.total_ns / count,
    };
    proof {
        assert forall|k: int| 0 <= k < 12 implies (#[trigger] timing(r, k)) == timing_sum(
            reports@,
            k,
            reports@.len() as int,
        ) / reports@.len() by {
            assert(timing(sum, k) == timing_sum(reports@, k, reports@.len() as int));
            assert(timing(r, k) == timing(sum, k) / count);
        }
    }
    r
}

/// What samples say. The spread is that of the floating-point number with those
/// bits.
#[derive(Debug, Clone, Copy, PartialEq, Eq, Structural)]
pub struct DurationStats {
    pub mean_ns: u64,
    pub min_ns: u64,
    pub max_ns: u64,
    pub stddev_bits: u64,
}

/// The sum of the first `n` samples.
pub open spec fn sample_sum(samples: Seq<u64>, n: int) -> nat
    decreases n,
{
    if n <= 0 {
        0
    } else {
        sample_sum(samples, n - 1) + samples[n - 1] as nat
    }
}

/// Whether a number is the least, or the greatest, of all samples.
pub open spec fn least(samples: Seq<u64>, x: u64) -> bool {
    samples.contains(x) && forall|i: int| 0 <= i < samples.len() ==> x <= #[trigger] samples[i]
}

pub open spec fn greatest(samples: Seq<u64>, x: u64) -> bool {
    samples.contains(x) && forall|i: int| 0 <= i < samples.len() ==> #[trigger] samples[i] <= x
}

/// The mean of `n` numbers with a sum, to the nearest whole number.
pub open spec fn rounded_mean(sum: nat, n: nat) -> nat {
    (2 * sum + n) / (2 * n)
}

/// The mean of the samples, rounded to the nearest number and up from the middle,
/// the least and the greatest. Without samples all are nothing. The spread is taken
/// as it is given.
pub fn duration_stats(samples: &Vec<u64>, stddev_bits: u64) -> (r: DurationStats)
    requires
        sample_sum(samples@, samples@.len() as int) <= u64::MAX,
    ensures
        r.stddev_bits == stddev_bits,
        samples@.len() == 0 ==> r.mean_ns == 0 && r.min_ns == 0 && r.max_ns == 0,
        samples@.len() > 0 ==> least(samples@, r.min_ns) && greatest(samples@, r.max_ns)
            && r.mean_ns == (2 * sample_sum(samples@, samples@.len() as int) + samples@.len()) / (2
            * samples@.len()),
        samples@.len() > 0 ==> r.mean_ns == rounded_mean(
            sample_sum(samples@, samples@.len() as int),
            samples@.len(),
        ),
{
    let n: usize = samples.len();
    if n == 0 {
        return DurationStats { mean_ns: 0, min_ns: 0, max_ns: 0, stddev_bits };
    }
    let mut sum: u128 = samples[0] as u128;
    let mut min_ns: u64 = samples[0];
    let mut max_ns: u64 = samples[0];
    let mut i: usize = 1;
    proof {
        assert(sample_sum(samples@, 1) == samples@[0]) by {
            reveal_with_fuel(sample_sum, 2);
        }
    }
    while i < n
        invariant
            1 <= i <= n,
            n == samples@.len(),
            sum == sample_sum(samples@, i as int),
            sum <= i * u64::MAX,
            samples@.contains(min_ns),
            samples@.contains(max_ns),
            forall|j: int| 0 <= j < i ==> min_ns <= #[trigger] samples@[j],
            forall|j: int| 0 <= j < i ==> #[trigger] samples@[j] <= max_ns,
        decreases n - i,
    {
        let x: u64 = samples[i];
        proof {
            assert(i * u64::MAX + u64::MAX == (i + 1) * u64::MAX) by (nonlinear_arith);
            assert((i + 1) * u64::MAX <= u64::MAX * u64::MAX) by (nonlinear_arith)
                requires
                    i + 1 <= u64::MAX,
            ;
        }
        sum = sum + x as u128;
        if x < min_ns {
            min_ns = x;
        }
        if x > max_ns {
            max_ns = x;
        }
        i += 1;
    }
    let count: u128 = n as u128;
    let mean: u128 = (2 * sum + count) / (2 * count);
    proof {
        assert(mean <= sum + 1) by (nonlinear_arith)
            requires
                mean == (2 * sum + count) / (2 * count),
                count >= 1,
        ;
        if count == 1 {
            assert(mean == sum) by (nonlinear_arith)
                requires
                    mean == (2 * sum + count) / (2 * count),
                    count == 1,
            ;
        } else {
            assert(mean <= sum || sum <= 1) by (nonlinear_arith)
                requires
                    mean == (2 * sum + count) / (2 * count),
                    count >= 2,
            ;
        }
    }
    DurationStats { mean_ns: mean as u64, min_ns, max_ns, stddev_bits }
}

/// Whether a function comes before another among the hottest.
pub open spec fn hotter(a: FunctionModel, b: FunctionModel) -> bool {
    a.acc.inclusive_ns > b.acc.inclusive_ns || (a.acc.inclusive_ns == b.acc.inclusive_ns
        && a.function != b.function && crate::strings::not_after(a.function, b.function, 0))
}

/// A function put in front of the first that it comes before.
pub open spec fn function_inserted(sorted: Seq<FunctionModel>, x: FunctionModel, i: int) -> Seq<
    FunctionModel,
>
    decreases sorted.len() - i,
{
    if i < 0 || i >= sorted.len() {
        sorted.push(x)
    } else if hotter(x, sorted[i]) {
        sorted.insert(i, x)
    } else {
        function_inserted(sorted, x, i + 1)
    }
}

/// The first `k` functions, the hottest first.
pub open spec fn functions_by_heat(fs: Seq<FunctionModel>, k: int) -> Seq<FunctionModel>
    decreases k,
{
    if k <= 0 {
        Seq::empty()
    } else {
        function_inserted(functions_by_heat(fs, k - 1), fs[k - 1], 0)
    }
}

fn is_hotter(a: &FunctionProfile, b: &FunctionProfile) -> (r: bool)
    ensures
        r == hotter(a.deep_view(), b.deep_view()),
{
    a.inclusive_ns > b.inclusive_ns || (a.inclusive_ns == b.inclusive_ns && a.function
        != b.function && is_not_after(a.function.as_str(), b.function.as_str()))
}

fn insert_function(sorted: &mut Vec<FunctionProfile>, x: &FunctionProfile)
    ensures
        final(sorted).deep_view() == function_inserted(
            old(sorted).deep_view(),
            x.deep_view(),
            0,
        ),
{
    let ghost before = sorted.deep_view();
    assert(before.len() == sorted@.len());
    let mut i: usize = 0;
    while i < sorted.len()
        invariant
            i <= sorted.len(),
            *sorted == *old(sorted),
            before == sorted.deep_view(),
            before.len() == sorted@.len(),
            function_inserted(before, x.deep_view(), 0) == function_inserted(
                before,
                x.deep_view(),
                i as int,
            ),
        decreases sorted.len() - i,
    {
        assert(before[i as int] == sorted@[i as int].deep_view());
        if is_hotter(x, &sorted[i]) {
            sorted.insert(i, x.dup());
            assert(sorted.deep_view() =~= before.insert(i as int, x.deep_view()));
            return;
        }
        i += 1;
    }
    sorted.push(x.dup());
    assert(sorted.deep_view() =~= before.push(x.deep_view()));
}

/// The first `n` of a list, or all where there are fewer.
pub open spec fn first_of<A>(s: Seq<A>, n: nat) -> Seq<A> {
    if s.len() <= n {
        s
    } else {
        s.take(n as int)
    }
}

/// The hottest functions of a profile: those in which the most time was spent, and
/// among equals those whose names come first.
pub fn top_functions(profile: &EvaluatorProfile, limit: usize) -> (r: Vec<FunctionProfile>)
    ensures
        r.deep_view() == first_of(
            functions_by_heat(
                profile.deep_view().functions,
                profile.deep_view().functions.len() as int,
            ),
            limit as nat,
        ),
{
    let ghost all = profile.functions.deep_view();
    assert(all.len() == profile.functions@.len());
    let mut out: Vec<FunctionProfile> = Vec::new();
    assert(out.deep_view() =~= Seq::<FunctionModel>::empty());
    let mut i: usize = 0;
    while i < profile.functions.len()
        invariant
            i <= profile.functions.len(),
            all == profile.functions.deep_view(),
            all.len() == profile.functions@.len(),
            out.deep_view() == functions_by_heat(all, i as int),
        decreases profile.functions.len() - i,
    {
        assert(all[i as int] == profile.functions@[i as int].deep_view());
        insert_function(&mut out, &profile.functions[i]);
        i += 1;
    }
    let ghost sorted = out.deep_view();
    assert(sorted.len() == out@.len());
    if out.len() > limit {
        out.truncate(limit);
        assert(out.deep_view() =~= sorted.take(limit as int));
    }
    out
}

/// Whether calls come before others among the hottest.
pub open spec fn edge_hotter(a: EdgeModel, b: EdgeModel) -> bool {
    a.acc.inclusive_ns > b.acc.inclusive_ns || (a.acc.inclusive_ns == b.acc.inclusive_ns
        && a.edge.1 != b.edge.1 && crate::strings::not_after(a.edge.1, b.edge.1, 0))
}

/// Calls put in front of the first that they come before.
pub open spec fn edge_inserted(sorted: Seq<EdgeModel>, x: EdgeModel, i: int) -> Seq<EdgeModel>
    decreases sorted.len() - i,
{
    if i < 0 || i >= sorted.len() {
        sorted.push(x)
    } else if edge_hotter(x, sorted[i]) {
        sorted.insert(i, x)
    } else {
        edge_inserted(sorted, x, i + 1)
    }
}

/// The first `k` calls, the hottest first.
pub open spec fn edges_by_heat(es: Seq<EdgeModel>, k: int) -> Seq<EdgeModel>
    decreases k,
{
    if k <= 0 {
        Seq::empty()
    } else {
        edge_inserted(edges_by_heat(es, k - 1), es[k - 1], 0)
    }
}

fn is_edge_hotter(a: &CallEdgeProfile, b: &CallEdgeProfile) -> (r: bool)
    ensures
        r == edge_hotter(a.deep_view(), b.deep_view()),
{
    a.inclusive_ns > b.inclusive_ns || (a.inclusive_ns == b.inclusive_ns && a.callee != b.callee
        && is_not_after(a.callee.as_str(), b.callee.as_str()))
}

fn insert_edge(sorted: &mut Vec<CallEdgeProfile>, x: &CallEdgeProfile)
    ensures
        final(sorted).deep_view() == edge_inserted(old(sorted).deep_view(), x.deep_view(), 0),
{
    let ghost before = sorted.deep_view();
    assert(before.len() == sorted@.len());
    let mut i: usize = 0;
    while i < sorted.len()
        invariant
            i <= sorted.len(),
            *sorted == *old(sorted),
            before == sorted.deep_view(),
            before.len() == sorted@.len(),
            edge_inserted(before, x.deep_view(), 0) == edge_inserted(
                before,
                x.deep_view(),
                i as int,
            ),
        decreases sorted.len() - i,
    {
        assert(before[i as int] == sorted@[i as int].deep_view());
        if is_edge_hotter(x, &sorted[i]) {
            sorted.insert(i, x.dup());
            assert(sorted.deep_view() =~= before.insert(i as int, x.deep_view()));
            return;
        }
        i += 1;
    }
    sorted.push(x.dup());
    assert(sorted.deep_view() =~= before.push(x.deep_view()));
}

/// The hottest calls of a profile: those in which the most time was spent, and among
/// equals those whose callees come first.
pub fn top_edges(profile: &EvaluatorProfile, limit: usize) -> (r: Vec<CallEdgeProfile>)
    ensures
        r.deep_view() == first_of(
            edges_by_heat(
                profile.deep_view().edges,
                profile.deep_view().edges.len() as int,
            ),
            limit as nat,
        ),
{
    let ghost all = profile.edges.deep_view();
    assert(all.len() == profile.edges@.len());
    let mut out: Vec<CallEdgeProfile> = Vec::new();
    assert(out.deep_view() =~= Seq::<EdgeModel>::empty());
    let mut i: usize = 0;
    while i < profile.edges.len()
        invariant
            i <= profile.edges.len(),
            all == profile.edges.deep_view(),
            all.len() == profile.edges@.len(),
            out.deep_view() == edges_by_heat(all, i as int),
        decreases profile.edges.len() - i,
    {
        assert(all[i as int] == profile.edges@[i as int].deep_view());
        insert_edge(&mut out, &profile.edges[i]);
        i += 1;
    }
    let ghost sorted = out.deep_view();
    assert(sorted.len() == out@.len());
    if out.len() > limit {
        out.truncate(limit);
        assert(out.deep_view() =~= sorted.take(limit as int));
    }
    out
}

/// A text as it is written between quotes in a graph.
pub open spec fn dot_escaped(s: Seq<char>) -> Seq<char> {
    crate::strings::replaced_text(
        crate::strings::replaced_text(s, "\\"@, "\\\\"@),
        "\""@,
        "\\\""@,
    )
}

/// A text as it is written between quotes in a graph.
pub fn escape_dot(input: &String) -> (s: String)
    ensures
        s@ == dot_escaped(input@),
{
    let once = replace(input, &"\\".to_owned(), &"\\\\".to_owned());
    replace(&once, &"\"".to_owned(), &"\\\"".to_owned())
}

/// Who calls.
pub open spec fn caller_text(caller: Option<Seq<char>>) -> Seq<char> {
    match caller {
        Some(name) => name,
        None => "<entry>"@,
    }
}

pub(crate) fn name_caller(caller: &Option<String>) -> (s: String)
    ensures
        s@ == caller_text(caller.deep_view()),
{
    match caller {
        Some(name) => name.clone(),
        None => "<entry>".to_owned(),
    }
}

/// A function in a graph of calls.
pub open spec fn dot_node(f: FunctionModel) -> Seq<ReportModel> {
    seq![
        ReportModel::Text("  \""@),
        ReportModel::Text(dot_escaped(f.function)),
        ReportModel::Text("\" [label=\""@),
        ReportModel::Text(dot_escaped(f.function)),
        ReportModel::Text("\\ncalls="@),
        ReportModel::Text(crate::text::decimal(f.acc.calls as nat)),
        ReportModel::Text("\\ninclusive="@),
        ReportModel::Millis(f.acc.inclusive_ns),
        ReportModel::Text("ms\\nself="@),
        ReportModel::Millis(f.acc.self_ns),
        ReportModel::Text("ms\"];\n"@),
    ]
}

/// Calls in a graph of calls.
pub open spec fn dot_edge(e: EdgeModel) -> Seq<ReportModel> {
    seq![
        ReportModel::Text("  \""@),
        ReportModel::Text(dot_escaped(caller_text(e.edge.0))),
        ReportModel::Text("\" -> \""@),
        ReportModel::Text(dot_escaped(e.edge.1)),
        ReportModel::Text("\" [label=\"calls="@),
        ReportModel::Text(crate::text::decimal(e.acc.calls as nat)),
        ReportModel::Text("\\ninclusive="@),
        ReportModel::Millis(e.acc.inclusive_ns),
        ReportModel::Text("ms\"];\n"@),
    ]
}

/// The first `k` functions in a graph of calls.
pub open spec fn dot_nodes(fs: Seq<FunctionModel>, k: int) -> Seq<ReportModel>
    decreases k,
{
    if k <= 0 {
        Seq::empty()
    } else {
        dot_nodes(fs, k - 1) + dot_node(fs[k - 1])
    }
}

/// The first `k` calls in a graph of calls.
pub open spec fn dot_edges(es: Seq<EdgeModel>, k: int) -> Seq<ReportModel>
    decreases k,
{
    if k <= 0 {
        Seq::empty()
    } else {
        dot_edges(es, k - 1) + dot_edge(es[k - 1])
    }
}

/// A profile as a graph of calls.
pub open spec fn dot_graph(p: ProfileModel) -> Seq<ReportModel> {
    seq![ReportModel::Text("digraph metel_callgraph {\n  rankdir=LR;\n"@)] + dot_nodes(
        p.functions,
        p.functions.len() as int,
    ) + dot_edges(p.edges, p.edges.len() as int) + seq![ReportModel::Text("}\n"@)]
}

fn put_dot_node(out: &mut Vec<ReportPiece>, f: &FunctionProfile)
    ensures
        final(out).deep_view() == old(out).deep_view() + dot_node(f.deep_view()),
{
    let ghost before = out.deep_view();
    put_text(out, "  \"");
    put(out, ReportPiece::Text(escape_dot(&f.function)));
    put_text(out, "\" [label=\"");
    put(out, ReportPiece::Text(escape_dot(&f.function)));
    put_text(out, "\\ncalls=");
    put_number(out, f.calls);
    put_text(out, "\\ninclusive=");
    put_millis(out, f.inclusive_ns);
    put_text(out, "ms\\nself=");
    put_millis(out, f.self_ns);
    put_text(out, "ms\"];\n");
    assert(out.deep_view() =~= before + dot_node(f.deep_view()));
}

fn put_dot_edge(out: &mut Vec<ReportPiece>, e: &CallEdgeProfile)
    ensures
        final(out).deep_view() == old(out).deep_view() + dot_edge(e.deep_view()),
{
    let ghost before = out.deep_view();
    let caller = name_caller(&e.caller);
    put_text(out, "  \"");
    put(out, ReportPiece::Text(escape_dot(&caller)));
    put_text(out, "\" -> \"");
    put(out, ReportPiece::Text(escape_dot(&e.callee)));
    put_text(out, "\" [label=\"calls=");
    put_number(out, e.calls);
    put_text(out, "\\ninclusive=");
    put_millis(out, e.inclusive_ns);
    put_text(out, "ms\"];\n");
    assert(out.deep_view() =~= before + dot_edge(e.deep_view()));
}

/// Writes a profile as a graph of calls.
pub fn render_callgraph_dot(profile: &EvaluatorProfile) -> (r: Vec<ReportPiece>)
    ensures
        r.deep_view() == dot_graph(profile.deep_view()),
{
    let ghost fs = profile.functions.deep_view();
    let ghost es = profile.edges.deep_view();
    assert(fs.len() == profile.functions@.len());
    assert(es.len() == profile.edges@.len());
    let mut out: Vec<ReportPiece> = Vec::new();
    assert(out.deep_view() =~= Seq::<ReportModel>::empty());
    put_text(&mut out, "digraph metel_callgraph {\n  rankdir=LR;\n");
    let ghost head = out.deep_view();
    proof {
        assert(head =~= seq![ReportModel::Text("digraph metel_callgraph {\n  rankdir=LR;\n"@)]);
        assert(head + dot_nodes(fs, 0) =~= head);
    }
    let mut i: usize = 0;
    while i < profile.functions.len()
        invariant
            i <= profile.functions.len(),
            fs == profile.functions.deep_view(),
            fs.len() == profile.functions@.len(),
            out.deep_view() == head + dot_nodes(fs, i as int),
        decreases profile.functions.len() - i,
    {
        assert(fs[i as int] == profile.functions@[i as int].deep_view());
        put_dot_node(&mut out, &profile.functions[i]);
        assert(out.deep_view() =~= head + dot_nodes(fs, i + 1));
        i += 1;
    }
    let ghost nodes = out.deep_view();
    assert(nodes + dot_edges(es, 0) =~= nodes);
    let mut j: usize = 0;
    while j < profile.edges.len()
        invariant
            j <= profile.edges.len(),
            es == profile.edges.deep_view(),
            es.len() == profile.edges@.len(),
            out.deep_view() == nodes + dot_edges(es, j as int),
        decreases profile.edges.len() - j,
    {
        assert(es[j as int] == profile.edges@[j as int].deep_view());
        put_dot_edge(&mut out, &profile.edges[j]);
        assert(out.deep_view() =~= nodes + dot_edges(es, j + 1));
        j += 1;
    }
    put_text(&mut out, "}\n");
    assert(out.deep_view() =~= dot_graph(profile.deep_view()));
    out
}

} // verus!
