//! How often functions are called, by whom, and how long they take.

use crate::data::{Dup, Same};
use crate::strings::is_not_after;
use crate::table::Table;
use vstd::prelude::*;
use vstd::string::*;

verus! {

/// What is recorded of a function. Numbers that would grow too large stay at the
/// greatest.
#[derive(Debug, Clone, Copy, PartialEq, Eq, Structural)]
pub struct FunctionAccumulator {
    pub calls: u64,
    pub inclusive_ns: u64,
    pub self_ns: u64,
}

impl DeepView for FunctionAccumulator {
    type V = FunctionAccumulator;

    open spec fn deep_view(&self) -> FunctionAccumulator {
        *self
    }
}

impl Dup for FunctionAccumulator {
    fn dup(&self) -> (r: Self) {
        *self
    }
}

/// What is recorded of the calls of a function by another one.
#[derive(Debug, Clone, Copy, PartialEq, Eq, Structural)]
pub struct EdgeAccumulator {
    pub calls: u64,
    pub inclusive_ns: u64,
}

impl DeepView for EdgeAccumulator {
    type V = EdgeAccumulator;

    open spec fn deep_view(&self) -> EdgeAccumulator {
        *self
    }
}

impl Dup for EdgeAccumulator {
    fn dup(&self) -> (r: Self) {
        *self
    }
}

/// A call that has not returned: when it began, and the time that calls within
/// it took.
#[derive(Debug)]
pub struct ActiveProfilerFrame {
    pub function: String,
    pub started_ns: u64,
    pub child_ns: u64,
}

pub struct ActiveModel {
    pub function: Seq<char>,
    pub started_ns: u64,
    pub child_ns: u64,
}

impl DeepView for ActiveProfilerFrame {
    type V = ActiveModel;

    open spec fn deep_view(&self) -> ActiveModel {
        ActiveModel {
            function: self.function@,
            started_ns: self.started_ns,
            child_ns: self.child_ns,
        }
    }
}

/// The calls so far.
pub struct ProfilerState {
    pub functions: Table<String, FunctionAccumulator>,
    pub edges: Table<(Option<String>, String), EdgeAccumulator>,
    pub active_frames: Vec<ActiveProfilerFrame>,
}

pub struct ProfilerModel {
    pub functions: Map<Seq<char>, FunctionAccumulator>,
    pub edges: Map<(Option<Seq<char>>, Seq<char>), EdgeAccumulator>,
    pub active: Seq<ActiveModel>,
}

impl DeepView for ProfilerState {
    type V = ProfilerModel;

    open spec fn deep_view(&self) -> ProfilerModel {
        ProfilerModel {
            functions: self.functions@,
            edges: self.edges@,
            active: self.active_frames.deep_view(),
        }
    }
}

impl View for ProfilerState {
    type V = ProfilerModel;

    open spec fn view(&self) -> ProfilerModel {
        self.deep_view()
    }
}

/// A sum, or the greatest number.
pub open spec fn capped(a: u64, b: u64) -> u64 {
    if a + b > u64::MAX {
        u64::MAX
    } else {
        (a + b) as u64
    }
}

/// A difference, or zero.
pub open spec fn floored(a: u64, b: u64) -> u64 {
    if a > b {
        (a - b) as u64
    } else {
        0
    }
}

fn plus(a: u64, b: u64) -> (r: u64)
    ensures
        r == capped(a, b),
{
    if a > u64::MAX - b {
        u64::MAX
    } else {
        a + b
    }
}

/// The difference of two times, which is never less than nothing.
pub fn elapsed_ns(a: u64, b: u64) -> (r: u64)
    ensures
        r == floored(a, b),
{
    if a > b {
        a - b
    } else {
        0
    }
}

/// The function of the innermost call that has not returned.
pub open spec fn running(p: ProfilerModel) -> Option<Seq<char>> {
    if p.active.len() == 0 {
        None
    } else {
        Some(p.active.last().function)
    }
}

/// What is recorded of a function so far.
pub open spec fn recorded(p: ProfilerModel, f: Seq<char>) -> FunctionAccumulator {
    if p.functions.contains_key(f) {
        p.functions[f]
    } else {
        FunctionAccumulator { calls: 0, inclusive_ns: 0, self_ns: 0 }
    }
}

/// What is recorded of the calls of a function by another one so far.
pub open spec fn recorded_edge(
    p: ProfilerModel,
    e: (Option<Seq<char>>, Seq<char>),
) -> EdgeAccumulator {
    if p.edges.contains_key(e) {
        p.edges[e]
    } else {
        EdgeAccumulator { calls: 0, inclusive_ns: 0 }
    }
}

/// The records after a call has begun.
pub open spec fn call_entered(p: ProfilerModel, f: Seq<char>, now: u64) -> ProfilerModel {
    let edge = (running(p), f);
    ProfilerModel {
        functions: p.functions.insert(
            f,
            FunctionAccumulator { calls: capped(recorded(p, f).calls, 1), ..recorded(p, f) },
        ),
        edges: p.edges.insert(
            edge,
            EdgeAccumulator {
                calls: capped(recorded_edge(p, edge).calls, 1),
                ..recorded_edge(p, edge)
            },
        ),
        active: p.active.push(ActiveModel { function: f, started_ns: now, child_ns: 0 }),
    }
}

/// The records after the innermost call has returned.
pub open spec fn call_left(p: ProfilerModel, now: u64) -> ProfilerModel {
    if p.active.len() == 0 {
        p
    } else {
        let frame = p.active.last();
        let rest = ProfilerModel { active: p.active.drop_last(), ..p };
        let elapsed = floored(now, frame.started_ns);
        let own = floored(elapsed, frame.child_ns);
        let edge = (running(rest), frame.function);
        ProfilerModel {
            functions: if p.functions.contains_key(frame.function) {
                let acc = p.functions[frame.function];
                p.functions.insert(
                    frame.function,
                    FunctionAccumulator {
                        inclusive_ns: capped(acc.inclusive_ns, elapsed),
                        self_ns: capped(acc.self_ns, own),
                        ..acc
                    },
                )
            } else {
                p.functions
            },
            edges: if p.edges.contains_key(edge) {
                let acc = p.edges[edge];
                p.edges.insert(
                    edge,
                    EdgeAccumulator { inclusive_ns: capped(acc.inclusive_ns, elapsed), ..acc },
                )
            } else {
                p.edges
            },
            active: if rest.active.len() == 0 {
                rest.active
            } else {
                let parent = rest.active.last();
                rest.active.drop_last().push(
                    ActiveModel { child_ns: capped(parent.child_ns, elapsed), ..parent },
                )
            },
        }
    }
}

/// A function in a profile.
#[derive(Debug)]
pub struct FunctionProfile {
    pub function: String,
    pub calls: u64,
    pub inclusive_ns: u64,
    pub self_ns: u64,
}

pub struct FunctionModel {
    pub function: Seq<char>,
    pub acc: FunctionAccumulator,
}

impl DeepView for FunctionProfile {
    type V = FunctionModel;

    open spec fn deep_view(&self) -> FunctionModel {
        FunctionModel {
            function: self.function@,
            acc: FunctionAccumulator {
                calls: self.calls,
                inclusive_ns: self.inclusive_ns,
                self_ns: self.self_ns,
            },
        }
    }
}

impl Dup for FunctionProfile {
    fn dup(&self) -> (r: Self) {
        FunctionProfile {
            function: self.function.clone(),
            calls: self.calls,
            inclusive_ns: self.inclusive_ns,
            self_ns: self.self_ns,
        }
    }
}

/// The calls of a function by another one in a profile.
#[derive(Debug)]
pub struct CallEdgeProfile {
    pub caller: Option<String>,
    pub callee: String,
    pub calls: u64,
    pub inclusive_ns: u64,
}

pub struct EdgeModel {
    pub edge: (Option<Seq<char>>, Seq<char>),
    pub acc: EdgeAccumulator,
}

impl DeepView for CallEdgeProfile {
    type V = EdgeModel;

    open spec fn deep_view(&self) -> EdgeModel {
        EdgeModel {
            edge: (self.caller.deep_view(), self.callee@),
            acc: EdgeAccumulator { calls: self.calls, inclusive_ns: self.inclusive_ns },
        }
    }
}

impl Dup for CallEdgeProfile {
    fn dup(&self) -> (r: Self) {
        CallEdgeProfile {
            caller: self.caller.dup(),
            callee: self.callee.clone(),
            calls: self.calls,
            inclusive_ns: self.inclusive_ns,
        }
    }
}

/// A profile: functions in the order of their names, and calls in the order of
/// the caller, those without one first, and then of the callee.
#[derive(Debug)]
pub struct EvaluatorProfile {
    pub functions: Vec<FunctionProfile>,
    pub edges: Vec<CallEdgeProfile>,
}

pub struct ProfileModel {
    pub functions: Seq<FunctionModel>,
    pub edges: Seq<EdgeModel>,
}

impl DeepView for EvaluatorProfile {
    type V = ProfileModel;

    open spec fn deep_view(&self) -> ProfileModel {
        ProfileModel { functions: self.functions.deep_view(), edges: self.edges.deep_view() }
    }
}

impl Dup for EvaluatorProfile {
    fn dup(&self) -> (r: Self) {
        EvaluatorProfile { functions: self.functions.dup(), edges: self.edges.dup() }
    }
}

/// Whether calls come before others, or are the same, in a profile.
pub open spec fn edge_not_after(
    a: (Option<Seq<char>>, Seq<char>),
    b: (Option<Seq<char>>, Seq<char>),
) -> bool {
    match (a.0, b.0) {
        (None, None) => crate::strings::not_after(a.1, b.1, 0),
        (None, Some(_)) => true,
        (Some(_), None) => false,
        (Some(x), Some(y)) => if x == y {
            crate::strings::not_after(a.1, b.1, 0)
        } else {
            crate::strings::not_after(x, y, 0)
        },
    }
}

proof fn lemma_edges_total(a: (Option<Seq<char>>, Seq<char>), b: (Option<Seq<char>>, Seq<char>))
    ensures
        edge_not_after(a, b) || edge_not_after(b, a),
{
    crate::strings::lemma_order_total(a.1, b.1, 0);
    if a.0 is Some && b.0 is Some {
        crate::strings::lemma_order_total(a.0->0, b.0->0, 0);
    }
}

proof fn lemma_edges_transitive(
    a: (Option<Seq<char>>, Seq<char>),
    b: (Option<Seq<char>>, Seq<char>),
    c: (Option<Seq<char>>, Seq<char>),
)
    requires
        edge_not_after(a, b),
        edge_not_after(b, c),
    ensures
        edge_not_after(a, c),
{
    if crate::strings::not_after(a.1, b.1, 0) && crate::strings::not_after(b.1, c.1, 0) {
        crate::strings::lemma_order_transitive(a.1, b.1, c.1, 0);
    }
    if a.0 is Some && b.0 is Some && c.0 is Some {
        let x = a.0->0;
        let y = b.0->0;
        let z = c.0->0;
        if x != y && y != z {
            crate::strings::lemma_order_transitive(x, y, z, 0);
            if x == z {
                crate::strings::lemma_order_antisymmetric(x, y, 0);
            }
        }
    }
}

/// Whether a list holds what is recorded, each function once, in order.
pub open spec fn lists_functions(
    list: Seq<FunctionModel>,
    m: Map<Seq<char>, FunctionAccumulator>,
) -> bool {
    &&& forall|i: int|
        0 <= i < list.len() ==> m.contains_key((#[trigger] list[i]).function)
            && m[list[i].function] == list[i].acc
    &&& forall|f: Seq<char>| #[trigger]
        m.contains_key(f) ==> exists|i: int| 0 <= i < list.len() && (#[trigger] list[i]).function == f
    &&& forall|i: int, j: int|
        0 <= i < j < list.len() ==> (#[trigger] list[i]).function != (#[trigger] list[j]).function
            && crate::strings::not_after(list[i].function, list[j].function, 0)
}

/// Whether a list holds what is recorded, each pair of functions once, in order.
pub open spec fn lists_edges(
    list: Seq<EdgeModel>,
    m: Map<(Option<Seq<char>>, Seq<char>), EdgeAccumulator>,
) -> bool {
    &&& forall|i: int|
        0 <= i < list.len() ==> m.contains_key((#[trigger] list[i]).edge) && m[list[i].edge]
            == list[i].acc
    &&& forall|e: (Option<Seq<char>>, Seq<char>)| #[trigger]
        m.contains_key(e) ==> exists|i: int| 0 <= i < list.len() && (#[trigger] list[i]).edge == e
    &&& forall|i: int, j: int|
        0 <= i < j < list.len() ==> (#[trigger] list[i]).edge != (#[trigger] list[j]).edge
            && edge_not_after(list[i].edge, list[j].edge)
}

impl ProfilerState {
    pub fn new() -> (p: Self)
        ensures
            p@ == (ProfilerModel {
                functions: Map::empty(),
                edges: Map::empty(),
                active: Seq::empty(),
            }),
    {
        let p = ProfilerState {
            functions: Table::new(),
            edges: Table::new(),
            active_frames: Vec::new(),
        };
        assert(p@.active =~= Seq::empty());
        p
    }

    /// The function of the innermost call that has not returned.
    fn caller(&self) -> (r: Option<String>)
        ensures
            r.deep_view() == running(self@),
    {
        assert(self@.active.len() == self.active_frames@.len());
        let n: usize = self.active_frames.len();
        if n == 0 {
            None
        } else {
            Some(self.active_frames[n - 1].function.clone())
        }
    }

    /// Records that a call begins.
    pub fn enter(&mut self, function: &str, now: u64)
        ensures
            final(self)@ == call_entered(old(self)@, function@, now),
    {
        let ghost before = self@;
        let caller = self.caller();
        let name = function.to_owned();
        let mut acc = match self.functions.get(&name) {
            Some(acc) => *acc,
            None => FunctionAccumulator { calls: 0, inclusive_ns: 0, self_ns: 0 },
        };
        acc.calls = plus(acc.calls, 1);
        self.functions.insert(name, acc);
        let edge = (caller, function.to_owned());
        let mut made = match self.edges.get(&edge) {
            Some(acc) => *acc,
            None => EdgeAccumulator { calls: 0, inclusive_ns: 0 },
        };
        made.calls = plus(made.calls, 1);
        self.edges.insert(edge, made);
        assert(before.active.len() == self.active_frames@.len());
        self.active_frames.push(
            ActiveProfilerFrame { function: function.to_owned(), started_ns: now, child_ns: 0 },
        );
        proof {
            assert(self@.active =~= call_entered(before, function@, now).active);
        }
    }

    /// Records that the innermost call returns.
    pub fn exit(&mut self, now: u64)
        ensures
            final(self)@ == call_left(old(self)@, now),
    {
        let ghost before = self@;
        assert(before.active.len() == self.active_frames@.len());
        let frame = match self.active_frames.pop() {
            Some(frame) => frame,
            None => {
                return;
            },
        };
        proof {
            assert(before.active.last() == frame.deep_view());
            assert(self.active_frames.deep_view() =~= before.active.drop_last());
        }
        let elapsed: u64 = elapsed_ns(now, frame.started_ns);
        let own: u64 = elapsed_ns(elapsed, frame.child_ns);
        let mut known = match self.functions.get(&frame.function) {
            Some(acc) => Some(*acc),
            None => None,
        };
        if let Some(acc) = known {
            self.functions.insert(
                frame.function.clone(),
                FunctionAccumulator {
                    calls: acc.calls,
                    inclusive_ns: plus(acc.inclusive_ns, elapsed),
                    self_ns: plus(acc.self_ns, own),
                },
            );
        }
        let edge = (self.caller(), frame.function.clone());
        let called = match self.edges.get(&edge) {
            Some(acc) => Some(*acc),
            None => None,
        };
        if let Some(acc) = called {
            self.edges.insert(
                edge,
                EdgeAccumulator {
                    calls: acc.calls,
                    inclusive_ns: plus(acc.inclusive_ns, elapsed),
                },
            );
        }
        let ghost rest = self.active_frames.deep_view();
        assert(rest.len() == self.active_frames@.len());
        match self.active_frames.pop() {
            Some(parent) => {
                proof {
                    assert(rest.last() == parent.deep_view());
                    assert(self.active_frames.deep_view() =~= rest.drop_last());
                }
                let ghost others = self.active_frames.deep_view();
                assert(others.len() == self.active_frames@.len());
                let grown = ActiveProfilerFrame {
                    function: parent.function,
                    started_ns: parent.started_ns,
                    child_ns: plus(parent.child_ns, elapsed),
                };
                self.active_frames.push(grown);
                assert(self.active_frames.deep_view() =~= others.push(grown.deep_view()));
            },
            None => {
                assert(self.active_frames.deep_view() =~= rest);
            },
        }
    }

    /// The records as a profile.
    pub fn into_profile(self) -> (p: EvaluatorProfile)
        ensures
            lists_functions(p.functions.deep_view(), self@.functions),
            lists_edges(p.edges.deep_view(), self@.edges),
    {
        EvaluatorProfile {
            functions: listed_functions(&self.functions),
            edges: listed_edges(&self.edges),
        }
    }
}

/// The entries of a map under the first keys.
spec fn part<K, V>(m: Map<K, V>, keys: Seq<K>, n: int) -> Map<K, V> {
    m.restrict(keys.take(n).to_set())
}

proof fn lemma_part<K, V>(m: Map<K, V>, keys: Seq<K>, n: int)
    requires
        0 <= n < keys.len(),
        keys.no_duplicates(),
        forall|k: K| #[trigger] m.contains_key(k) <==> keys.contains(k),
    ensures
        part(m, keys, n + 1) == part(m, keys, n).insert(keys[n], m[keys[n]]),
        !part(m, keys, n).contains_key(keys[n]),
        m.contains_key(keys[n]),
{
    crate::data::lemma_take_next(keys, n);
    assert(keys.contains(keys[n]));
    assert(part(m, keys, n + 1) =~= part(m, keys, n).insert(keys[n], m[keys[n]]));
}

proof fn lemma_function_inserted(
    list: Seq<FunctionModel>,
    m: Map<Seq<char>, FunctionAccumulator>,
    at: int,
    new: FunctionModel,
)
    requires
        lists_functions(list, m),
        !m.contains_key(new.function),
        0 <= at <= list.len(),
        forall|i: int|
            0 <= i < at ==> crate::strings::not_after(
                (#[trigger] list[i]).function,
                new.function,
                0,
            ),
        forall|i: int|
            at <= i < list.len() ==> crate::strings::not_after(
                new.function,
                (#[trigger] list[i]).function,
                0,
            ),
    ensures
        lists_functions(list.insert(at, new), m.insert(new.function, new.acc)),
{
    let next = list.insert(at, new);
    let n = m.insert(new.function, new.acc);
    assert forall|i: int| 0 <= i < next.len() implies n.contains_key((#[trigger] next[i]).function)
        && n[next[i].function] == next[i].acc by {
        if i < at {
            assert(next[i] == list[i]);
        } else if i > at {
            assert(next[i] == list[i - 1]);
        }
    }
    assert forall|f: Seq<char>| #[trigger] n.contains_key(f) implies exists|i: int|
        0 <= i < next.len() && (#[trigger] next[i]).function == f by {
        if f == new.function {
            assert(next[at].function == f);
        } else {
            assert(m.contains_key(f));
            let i = choose|i: int| 0 <= i < list.len() && (#[trigger] list[i]).function == f;
            if i < at {
                assert(next[i].function == f);
            } else {
                assert(next[i + 1].function == f);
            }
        }
    }
    assert forall|i: int, j: int| 0 <= i < j < next.len() implies (#[trigger] next[i]).function != (
    #[trigger] next[j]).function && crate::strings::not_after(
        next[i].function,
        next[j].function,
        0,
    ) by {
        let a = if i < at {
            i
        } else {
            i - 1
        };
        let b = if j < at {
            j
        } else {
            j - 1
        };
        if i != at {
            assert(next[i] == list[a]);
        }
        if j != at {
            assert(next[j] == list[b]);
        }
    }
}

proof fn lemma_edge_inserted(
    list: Seq<EdgeModel>,
    m: Map<(Option<Seq<char>>, Seq<char>), EdgeAccumulator>,
    at: int,
    new: EdgeModel,
)
    requires
        lists_edges(list, m),
        !m.contains_key(new.edge),
        0 <= at <= list.len(),
        forall|i: int| 0 <= i < at ==> edge_not_after((#[trigger] list[i]).edge, new.edge),
        forall|i: int| at <= i < list.len() ==> edge_not_after(new.edge, (#[trigger] list[i]).edge),
    ensures
        lists_edges(list.insert(at, new), m.insert(new.edge, new.acc)),
{
    let next = list.insert(at, new);
    let n = m.insert(new.edge, new.acc);
    assert forall|i: int| 0 <= i < next.len() implies n.contains_key((#[trigger] next[i]).edge)
        && n[next[i].edge] == next[i].acc by {
        if i < at {
            assert(next[i] == list[i]);
        } else if i > at {
            assert(next[i] == list[i - 1]);
        }
    }
    assert forall|e: (Option<Seq<char>>, Seq<char>)| #[trigger]
        n.contains_key(e) implies exists|i: int| 0 <= i < next.len() && (#[trigger] next[i]).edge
        == e by {
        if e == new.edge {
            assert(next[at].edge == e);
        } else {
            assert(m.contains_key(e));
            let i = choose|i: int| 0 <= i < list.len() && (#[trigger] list[i]).edge == e;
            if i < at {
                assert(next[i].edge == e);
            } else {
                assert(next[i + 1].edge == e);
            }
        }
    }
    assert forall|i: int, j: int| 0 <= i < j < next.len() implies (#[trigger] next[i]).edge != (
    #[trigger] next[j]).edge && edge_not_after(next[i].edge, next[j].edge) by {
        let a = if i < at {
            i
        } else {
            i - 1
        };
        let b = if j < at {
            j
        } else {
            j - 1
        };
        if i != at {
            assert(next[i] == list[a]);
        }
        if j != at {
            assert(next[j] == list[b]);
        }
    }
}

fn listed_functions(t: &Table<String, FunctionAccumulator>) -> (out: Vec<FunctionProfile>)
    ensures
        lists_functions(out.deep_view(), t@),
{
    let n: usize = t.len();
    let ghost keys = t.keys();
    let ghost m = t@;
    let mut out: Vec<FunctionProfile> = Vec::new();
    let mut i: usize = 0;
    proof {
        assert(out.deep_view() =~= Seq::empty());
        assert(keys.take(0) =~= Seq::empty());
        assert(part(m, keys, 0) =~= Map::empty());
    }
    while i < n
        invariant
            i <= n,
            n == keys.len(),
            keys == t.keys(),
            m == t@,
            keys.no_duplicates(),
            forall|k: Seq<char>| #[trigger] m.contains_key(k) <==> keys.contains(k),
            lists_functions(out.deep_view(), part(m, keys, i as int)),
        decreases n - i,
    {
        let name = t.key_at(i).clone();
        let acc = *t.value_at(i);
        let ghost have = out.deep_view();
        let mut at: usize = out.len();
        proof {
            lemma_part(m, keys, i as int);
            assert(have.len() == out@.len());
        }
        while at > 0 && !is_not_after(out[at - 1].function.as_str(), name.as_str())
            invariant
                at <= out.len(),
                have == out.deep_view(),
                have.len() == out@.len(),
                lists_functions(have, part(m, keys, i as int)),
                forall|j: int|
                    at <= j < have.len() ==> crate::strings::not_after(
                        name@,
                        (#[trigger] have[j]).function,
                        0,
                    ),
            decreases at,
        {
            proof {
                assert(have[at - 1] == out@[at - 1].deep_view());
                crate::strings::lemma_order_total(have[at - 1].function, name@, 0);
            }
            at -= 1;
        }
        let made = FunctionProfile {
            function: name,
            calls: acc.calls,
            inclusive_ns: acc.inclusive_ns,
            self_ns: acc.self_ns,
        };
        let ghost new = made.deep_view();
        proof {
            if at > 0 {
                assert(have[at - 1] == out@[at - 1].deep_view());
                assert forall|j: int| 0 <= j < at implies crate::strings::not_after(
                    (#[trigger] have[j]).function,
                    new.function,
                    0,
                ) by {
                    if j < at - 1 {
                        crate::strings::lemma_order_transitive(
                            have[j].function,
                            have[at - 1].function,
                            new.function,
                            0,
                        );
                    }
                }
            }
            lemma_function_inserted(have, part(m, keys, i as int), at as int, new);
        }
        out.insert(at, made);
        proof {
            assert(out.deep_view() =~= have.insert(at as int, new));
        }
        i += 1;
    }
    proof {
        assert(keys.take(n as int) =~= keys);
        assert(part(m, keys, n as int) =~= m);
    }
    out
}

fn is_edge_not_after(a: &CallEdgeProfile, caller: &Option<String>, callee: &String) -> (b: bool)
    ensures
        b == edge_not_after(a.deep_view().edge, (caller.deep_view(), callee@)),
{
    match (&a.caller, caller) {
        (None, None) => is_not_after(a.callee.as_str(), callee.as_str()),
        (None, Some(_)) => true,
        (Some(_), None) => false,
        (Some(x), Some(y)) => if *x == *y {
            is_not_after(a.callee.as_str(), callee.as_str())
        } else {
            is_not_after(x.as_str(), y.as_str())
        },
    }
}

fn listed_edges(t: &Table<(Option<String>, String), EdgeAccumulator>) -> (out: Vec<CallEdgeProfile>)
    ensures
        lists_edges(out.deep_view(), t@),
{
    let n: usize = t.len();
    let ghost keys = t.keys();
    let ghost m = t@;
    let mut out: Vec<CallEdgeProfile> = Vec::new();
    let mut i: usize = 0;
    proof {
        assert(out.deep_view() =~= Seq::empty());
        assert(keys.take(0) =~= Seq::empty());
        assert(part(m, keys, 0) =~= Map::empty());
    }
    while i < n
        invariant
            i <= n,
            n == keys.len(),
            keys == t.keys(),
            m == t@,
            keys.no_duplicates(),
            forall|k: (Option<Seq<char>>, Seq<char>)| #[trigger]
                m.contains_key(k) <==> keys.contains(k),
            lists_edges(out.deep_view(), part(m, keys, i as int)),
        decreases n - i,
    {
        let (caller, callee) = t.key_at(i).dup();
        let acc = *t.value_at(i);
        let ghost have = out.deep_view();
        let ghost name = (caller.deep_view(), callee@);
        let mut at: usize = out.len();
        proof {
            lemma_part(m, keys, i as int);
            assert(have.len() == out@.len());
        }
        while at > 0 && !is_edge_not_after(&out[at - 1], &caller, &callee)
            invariant
                at <= out.len(),
                have == out.deep_view(),
                have.len() == out@.len(),
                name == (caller.deep_view(), callee@),
                lists_edges(have, part(m, keys, i as int)),
                forall|j: int|
                    at <= j < have.len() ==> edge_not_after(name, (#[trigger] have[j]).edge),
            decreases at,
        {
            proof {
                assert(have[at - 1] == out@[at - 1].deep_view());
                lemma_edges_total(have[at - 1].edge, name);
            }
            at -= 1;
        }
        let made = CallEdgeProfile {
            caller,
            callee,
            calls: acc.calls,
            inclusive_ns: acc.inclusive_ns,
        };
        let ghost new = made.deep_view();
        proof {
            if at > 0 {
                assert(have[at - 1] == out@[at - 1].deep_view());
                assert forall|j: int| 0 <= j < at implies edge_not_after(
                    (#[trigger] have[j]).edge,
                    new.edge,
                ) by {
                    if j < at - 1 {
                        lemma_edges_transitive(have[j].edge, have[at - 1].edge, new.edge);
                    }
                }
            }
            lemma_edge_inserted(have, part(m, keys, i as int), at as int, new);
        }
        out.insert(at, made);
        proof {
            assert(out.deep_view() =~= have.insert(at as int, new));
        }
        i += 1;
    }
    proof {
        assert(keys.take(n as int) =~= keys);
        assert(part(m, keys, n as int) =~= m);
    }
    out
}

} // verus!
