//! What a running program has: its store, the calls that have not returned, a
//! profile where one is made, and what has passed between it and its host.

use crate::ast::{Span, SpanModel};
use crate::data::Dup;
use crate::environment::{Stop, StopModel};
use crate::error::{FrameInfo, FrameModel};
use crate::host::{Event, Host, Reply, ReplyModel, Task, TaskModel};
use crate::profiler::{ProfilerModel, ProfilerState};
use crate::store::{Store, StoreModel};
use vstd::prelude::*;
use vstd::string::*;

verus! {

/// What a running program has.
pub struct Machine {
    pub store: Store,
    pub stack: Vec<FrameInfo>,
    pub profiler: Option<ProfilerState>,
    /// The tasks that the host was given so far, and its answers. The host's own
    /// history grows by the same ones.
    pub log: Ghost<Seq<Event>>,
}

/// What a running program has, and what will have passed between it and its host
/// when it comes to an end. Up to `at`, that has happened.
pub struct World {
    pub store: StoreModel,
    pub stack: Seq<FrameModel>,
    pub profiler: Option<ProfilerModel>,
    pub tape: Seq<Event>,
    pub at: nat,
}

impl Machine {
    /// The state of a program that will have exchanged `tape` with its host.
    pub open spec fn on(self, tape: Seq<Event>) -> World {
        World {
            store: self.store@,
            stack: self.stack.deep_view(),
            profiler: self.profiler.deep_view(),
            tape,
            at: self.log@.len(),
        }
    }
}

/// Whether an exchange begins another one.
pub open spec fn begins(a: Seq<Event>, b: Seq<Event>) -> bool {
    a.is_prefix_of(b)
}

/// A beginning of a beginning is a beginning.
pub broadcast proof fn lemma_begins(a: Seq<Event>, b: Seq<Event>, c: Seq<Event>)
    requires
        #[trigger] begins(a, b),
        #[trigger] begins(b, c),
    ensures
        begins(a, c),
{
    assert forall|i: int| 0 <= i < a.len() implies a[i] == c[i] by {
        assert(a[i] == b[i]);
        assert(b[i] == c[i]);
    }
    assert(a =~= c.take(a.len() as int));
}

/// Every exchange begins itself.
pub broadcast proof fn lemma_begins_itself(a: Seq<Event>)
    ensures
        #[trigger] begins(a, a),
{
    assert(a =~= a.take(a.len() as int));
}

/// Whether a machine noted all that passed between it and its host, and no more:
/// what it noted since then is what was added to the host's history.
pub open spec fn exchanged(
    noted: Seq<Event>,
    since: Seq<Event>,
    before: Seq<Event>,
    after: Seq<Event>,
) -> bool {
    begins(noted, since) && after == before + since.skip(noted.len() as int)
}

/// What passed in two spans of time passed in both together.
pub broadcast proof fn lemma_exchanged(
    a: Seq<Event>,
    b: Seq<Event>,
    c: Seq<Event>,
    x: Seq<Event>,
    y: Seq<Event>,
    z: Seq<Event>,
)
    requires
        #[trigger] exchanged(a, b, x, y),
        #[trigger] exchanged(b, c, y, z),
    ensures
        exchanged(a, c, x, z),
{
    lemma_begins(a, b, c);
    assert(c.skip(a.len() as int) =~= b.skip(a.len() as int) + c.skip(b.len() as int)) by {
        assert(b =~= c.take(b.len() as int));
    }
    assert(z =~= x + c.skip(a.len() as int));
}

/// Where nothing is noted, nothing has passed.
pub broadcast proof fn lemma_nothing_exchanged(a: Seq<Event>, x: Seq<Event>)
    ensures
        #[trigger] exchanged(a, a, x, x),
{
    lemma_begins_itself(a);
    assert(x =~= x + a.skip(a.len() as int));
}

/// What the host answers to a task, and the state after that. An exchange in
/// which the task does not come next has no answer.
pub open spec fn asked(w: World, task: TaskModel) -> (World, Option<ReplyModel>) {
    if w.at < w.tape.len() && w.tape[w.at as int].task == task
        && w.tape[w.at as int].store == w.store {
        (World { at: w.at + 1, ..w }, Some(w.tape[w.at as int].reply))
    } else {
        (w, None)
    }
}

/// The state with another store.
pub open spec fn stored(w: World, s: StoreModel) -> World {
    World { store: s, ..w }
}

/// Where only the store of a machine changes, the rest of its state stays.
pub proof fn lemma_stored(before: Machine, after: Machine)
    requires
        before.log == after.log,
        before.stack == after.stack,
        before.profiler == after.profiler,
    ensures
        forall|tape: Seq<Event>|
            after.on(tape) == stored(#[trigger] before.on(tape), after.store@),
        begins(before.log@, after.log@),
{
    lemma_begins_itself(before.log@);
}

/// The state after a call has begun, as far as a profile is made.
pub open spec fn profile_entered(w: World, function: Seq<char>) -> World {
    match w.profiler {
        None => w,
        Some(p) => {
            let (v, reply) = asked(w, TaskModel::Nanos);
            World {
                profiler: Some(crate::profiler::call_entered(p, function, nanos(reply))),
                ..v
            }
        },
    }
}

/// The state after the innermost call has returned, as far as a profile is made.
pub open spec fn profile_left(w: World) -> World {
    match w.profiler {
        None => w,
        Some(p) => {
            let (v, reply) = asked(w, TaskModel::Nanos);
            World { profiler: Some(crate::profiler::call_left(p, nanos(reply))), ..v }
        },
    }
}

/// The time that an answer gives; none is taken for the beginning of time.
pub open spec fn nanos(reply: Option<ReplyModel>) -> u64 {
    match reply {
        Some(ReplyModel::Bits(n)) => n,
        _ => 0,
    }
}

/// The state after a call has begun.
pub open spec fn frame_pushed(w: World, function: Seq<char>, span: SpanModel) -> World {
    let v = profile_entered(w, function);
    World { stack: v.stack.push(FrameModel { fn_name: function, call_site: span }), ..v }
}

/// The state after the innermost call has returned.
pub open spec fn frame_popped(w: World) -> World {
    let v = profile_left(w);
    World { stack: crate::environment::popped(v.stack), ..v }
}

/// A stop with the calls that led to it.
pub open spec fn stop_stacked(w: World, stop: StopModel) -> StopModel {
    match stop {
        StopModel::Error(e) => StopModel::Error(crate::error::stacked(e, w.stack)),
        _ => stop,
    }
}

/// The state after all that a program has left behind has been taken away.
pub open spec fn fresh(collect_profile: bool, w: World) -> World {
    World {
        store: StoreModel {
            cells: Seq::empty(),
            arrays: Seq::empty(),
            closures: Seq::empty(),
        },
        stack: Seq::empty(),
        profiler: if collect_profile {
            Some(
                ProfilerModel {
                    functions: Map::empty(),
                    edges: Map::empty(),
                    active: Seq::empty(),
                },
            )
        } else {
            None
        },
        ..w
    }
}

impl Machine {
    /// A machine on which nothing has run.
    pub fn new(collect_profile: bool) -> (m: Self)
        ensures
            m.store@ == (StoreModel {
                cells: Seq::empty(),
                arrays: Seq::empty(),
                closures: Seq::empty(),
            }),
            m.stack.deep_view() == Seq::<FrameModel>::empty(),
            m.profiler.deep_view() == if collect_profile {
                Some(
                    ProfilerModel {
                        functions: Map::empty(),
                        edges: Map::empty(),
                        active: Seq::empty(),
                    },
                )
            } else {
                None
            },
            m.log@ == Seq::<Event>::empty(),
    {
        let m = Machine {
            store: Store::new(),
            stack: Vec::new(),
            profiler: if collect_profile {
                Some(ProfilerState::new())
            } else {
                None
            },
            log: Ghost(Seq::empty()),
        };
        assert(m.stack.deep_view() =~= Seq::<FrameModel>::empty());
        m
    }

    /// Takes away all that a program has left behind.
    pub fn reset(&mut self, collect_profile: bool)
        ensures
            final(self).log == old(self).log,
            forall|tape: Seq<Event>|
                fresh(collect_profile, #[trigger] old(self).on(tape)) == final(self).on(tape),
    {
        let fresh = Machine::new(collect_profile);
        self.store = fresh.store;
        self.stack = fresh.stack;
        self.profiler = fresh.profiler;
    }

    /// Gives the host a task. The task and the answer are the ones that the host's
    /// history has from then on.
    pub fn ask<H: Host>(&mut self, host: &mut H, task: Task) -> (reply: Reply)
        ensures
            begins(old(self).log@, final(self).log@),
            exchanged(
                old(self).log@,
                final(self).log@,
                old(host).history(),
                final(host).history(),
            ),
            final(self).log@ == old(self).log@.push(
                (Event {
                    task: task.deep_view(),
                    store: old(self).store@,
                    reply: reply.deep_view(),
                }),
            ),
            forall|tape: Seq<Event>|
                begins(final(self).log@, tape) ==> asked(
                    #[trigger] old(self).on(tape),
                    task.deep_view(),
                ) == (final(self).on(tape), Some(reply.deep_view())),
            final(self).store == old(self).store,
            final(self).stack == old(self).stack,
            final(self).profiler == old(self).profiler,
    {
        let ghost t = task.deep_view();
        let ghost before = self.log@;
        let reply = host.perform(&self.store, task);
        let ghost e = Event { task: t, store: self.store@, reply: reply.deep_view() };
        self.log = Ghost(before.push(e));
        proof {
            let after = before.push(e);
            assert(before =~= after.take(before.len() as int));
            assert(after.skip(before.len() as int) =~= seq![e]);
            assert(host.history() =~= old(host).history() + seq![e]);
            assert forall|tape: Seq<Event>| begins(after, tape) implies asked(
                #[trigger] old(self).on(tape),
                t,
            ) == (self.on(tape), Some(reply.deep_view())) by {
                assert(after[before.len() as int] == e);
                assert(tape[before.len() as int] == e);
            }
        }
        reply
    }

    /// What the clock for measuring shows.
    pub fn now<H: Host>(&mut self, host: &mut H) -> (n: u64)
        ensures
            begins(old(self).log@, final(self).log@),
            exchanged(
                old(self).log@,
                final(self).log@,
                old(host).history(),
                final(host).history(),
            ),
            forall|tape: Seq<Event>|
                begins(final(self).log@, tape) ==> ({
                    let (v, reply) = asked(#[trigger] old(self).on(tape), TaskModel::Nanos);
                    v == final(self).on(tape) && n == nanos(reply)
                }),
            final(self).store == old(self).store,
            final(self).stack == old(self).stack,
            final(self).profiler == old(self).profiler,
    {
        match self.ask(host, Task::Nanos) {
            Reply::Bits(n) => n,
            _ => 0,
        }
    }

    /// Records that a call begins, where a profile is made.
    pub fn profiler_enter<H: Host>(&mut self, host: &mut H, function: &str)
        ensures
            begins(old(self).log@, final(self).log@),
            exchanged(
                old(self).log@,
                final(self).log@,
                old(host).history(),
                final(host).history(),
            ),
            forall|tape: Seq<Event>|
                begins(final(self).log@, tape) ==> profile_entered(
                    #[trigger] old(self).on(tape),
                    function@,
                ) == final(self).on(tape),
    {
        if self.profiler.is_some() {
            let n: u64 = self.now(host);
            let mut profiler = None;
            std::mem::swap(&mut profiler, &mut self.profiler);
            let mut p = profiler.unwrap();
            p.enter(function, n);
            self.profiler = Some(p);
        } else {
            proof {
                lemma_begins_itself(self.log@);
                lemma_nothing_exchanged(self.log@, host.history());
            }
        }
    }

    /// Records that the innermost call returns, where a profile is made.
    pub fn profiler_exit<H: Host>(&mut self, host: &mut H)
        ensures
            begins(old(self).log@, final(self).log@),
            exchanged(
                old(self).log@,
                final(self).log@,
                old(host).history(),
                final(host).history(),
            ),
            forall|tape: Seq<Event>|
                begins(final(self).log@, tape) ==> profile_left(#[trigger] old(self).on(tape))
                    == final(self).on(tape),
    {
        if self.profiler.is_some() {
            let n: u64 = self.now(host);
            let mut profiler = None;
            std::mem::swap(&mut profiler, &mut self.profiler);
            let mut p = profiler.unwrap();
            p.exit(n);
            self.profiler = Some(p);
        } else {
            proof {
                lemma_begins_itself(self.log@);
                lemma_nothing_exchanged(self.log@, host.history());
            }
        }
    }

    /// A call begins.
    pub fn push_frame<H: Host>(&mut self, host: &mut H, fn_name: String, call_site: &Span)
        ensures
            begins(old(self).log@, final(self).log@),
            exchanged(
                old(self).log@,
                final(self).log@,
                old(host).history(),
                final(host).history(),
            ),
            forall|tape: Seq<Event>|
                begins(final(self).log@, tape) ==> frame_pushed(
                    #[trigger] old(self).on(tape),
                    fn_name@,
                    call_site.deep_view(),
                ) == final(self).on(tape),
    {
        self.profiler_enter(host, fn_name.as_str());
        let ghost middle = *self;
        let ghost prev = self.stack.deep_view();
        let ghost frame = FrameModel { fn_name: fn_name@, call_site: call_site.deep_view() };
        assert(prev.len() == self.stack@.len());
        self.stack.push(FrameInfo { fn_name, call_site: call_site.dup() });
        proof {
            assert(self.stack.deep_view() =~= prev.push(frame));
            assert forall|tape: Seq<Event>| begins(self.log@, tape) implies frame_pushed(
                #[trigger] old(self).on(tape),
                fn_name@,
                call_site.deep_view(),
            ) == self.on(tape) by {
                assert(profile_entered(old(self).on(tape), fn_name@) == middle.on(tape));
            }
        }
    }

    /// The innermost call returns.
    pub fn pop_frame<H: Host>(&mut self, host: &mut H)
        ensures
            begins(old(self).log@, final(self).log@),
            exchanged(
                old(self).log@,
                final(self).log@,
                old(host).history(),
                final(host).history(),
            ),
            forall|tape: Seq<Event>|
                begins(final(self).log@, tape) ==> frame_popped(#[trigger] old(self).on(tape))
                    == final(self).on(tape),
    {
        self.profiler_exit(host);
        let ghost middle = *self;
        let ghost prev = self.stack.deep_view();
        assert(prev.len() == self.stack@.len());
        let _ = self.stack.pop();
        proof {
            assert(self.stack.deep_view() =~= crate::environment::popped(prev));
            assert forall|tape: Seq<Event>| begins(self.log@, tape) implies frame_popped(
                #[trigger] old(self).on(tape),
            ) == self.on(tape) by {
                assert(profile_left(old(self).on(tape)) == middle.on(tape));
            }
        }
    }

    /// A stop with the calls that led to it.
    pub fn attach_stack(&self, stop: Stop) -> (r: Stop)
        ensures
            forall|tape: Seq<Event>|
                r.deep_view() == stop_stacked(#[trigger] self.on(tape), stop.deep_view()),
    {
        match stop {
            Stop::Error(e) => Stop::Error(e.with_stack(self.stack.dup())),
            other => other,
        }
    }
}

} // verus!
