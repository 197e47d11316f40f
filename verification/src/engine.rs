//! The engine loop: one long-lived owner of the server connection that
//! drains inbound commands in arrival order, issues the resulting server
//! requests, and keeps the monitor set in step with the UI.
//!
//! The engine never blocks and never talks to the server: the caller pumps
//! the native event loop, receives commands, performs the returned requests
//! while holding the event-loop lock, and reports monitor deaths and
//! creation failures back.  Everything the engine decides is a function of
//! its state and the command, mirrored one-to-one by the `spec_` functions
//! here.

use vstd::prelude::*;

use crate::connect::ConnectionState;
use crate::dispatch::{
    cmd_wf, handle_command, reqs_view, spec_dispatch_requests, spec_outcome, Action, Command,
    DispatchResult, ServerRequest, SpecRequest,
};
use crate::ids::{no_dups, TargetId, TargetSet};
use crate::monitors::{
    create_plan, destroy_plan, lemma_refreshed_wf, refreshed, without_one, MonitorSet,
    RefreshDelta,
};

verus! {

/// The mathematical state of the engine: connection state, the monitored
/// targets, the most recent wanted targets, and whether the loop still runs.
pub struct EngineView {
    pub conn: ConnectionState,
    pub mons: Seq<TargetId>,
    pub last: Seq<TargetId>,
    pub running: bool,
}

/// Well-formed engine state: no target monitored or wanted twice.
pub open spec fn view_wf(s: EngineView) -> bool {
    no_dups(s.mons) && no_dups(s.last)
}

/// Teardown calls for a list of targets, in order.
pub open spec fn destroy_requests(destroy: Seq<TargetId>) -> Seq<SpecRequest>
    decreases destroy.len(),
{
    if destroy.len() == 0 {
        Seq::empty()
    } else {
        destroy_requests(destroy.drop_last()).push(SpecRequest::DestroyMonitor(destroy.last()))
    }
}

/// Creation calls for a list of targets, in order.
pub open spec fn create_requests(create: Seq<TargetId>) -> Seq<SpecRequest>
    decreases create.len(),
{
    if create.len() == 0 {
        Seq::empty()
    } else {
        create_requests(create.drop_last()).push(SpecRequest::CreateMonitor(create.last()))
    }
}

/// The monitor maintenance requests of one refresh: every teardown first,
/// then every creation — a stale handle slot is never reused.
pub open spec fn monitor_requests(destroy: Seq<TargetId>, create: Seq<TargetId>) -> Seq<
    SpecRequest,
> {
    destroy_requests(destroy) + create_requests(create)
}

/// The server requests one command makes the engine issue.
///
/// A tick refreshes the monitors against the last wanted targets; a
/// monitor-set replacement refreshes them against the new targets; every
/// other command issues exactly what the dispatcher translates it to.
pub open spec fn step_requests(s: EngineView, cmd: Command, dead: Seq<TargetId>) -> Seq<
    SpecRequest,
> {
    match cmd {
        Command::Tick => monitor_requests(
            destroy_plan(s.mons, s.last, dead),
            create_plan(s.mons, s.last, dead),
        ),
        Command::ServerAction(Action::CreateMonitorSet(ts)) => monitor_requests(
            destroy_plan(s.mons, ts@, dead),
            create_plan(s.mons, ts@, dead),
        ),
        _ => spec_dispatch_requests(cmd, s.conn),
    }
}

/// The engine state after one command.
///
/// A monitor-set replacement overwrites the wanted targets wholesale and
/// takes effect at once; a tick re-applies the last wanted targets; shutdown
/// stops the loop; everything else leaves the state unchanged.
pub open spec fn step_view(s: EngineView, cmd: Command, dead: Seq<TargetId>) -> EngineView {
    match cmd {
        Command::Tick => EngineView { mons: refreshed(s.mons, s.last, dead), ..s },
        Command::ServerAction(Action::CreateMonitorSet(ts)) => EngineView {
            mons: refreshed(s.mons, ts@, dead),
            last: ts@,
            ..s
        },
        Command::ServerAction(Action::Shutdown) => EngineView { running: false, ..s },
        _ => s,
    }
}

/// What draining a queue of commands does: the commands handled, in order,
/// and the server requests issued, in order.
pub struct RunTrace {
    pub state: EngineView,
    pub handled: Seq<Command>,
    pub requests: Seq<SpecRequest>,
}

/// Drains a queue: commands are handled front to back until the queue is
/// empty or the loop has stopped.
pub open spec fn spec_run(s: EngineView, cmds: Seq<Command>, dead: Seq<TargetId>) -> RunTrace
    decreases cmds.len(),
{
    if cmds.len() == 0 || !s.running {
        RunTrace { state: s, handled: Seq::empty(), requests: Seq::empty() }
    } else {
        let tail = spec_run(step_view(s, cmds[0], dead), cmds.skip(1), dead);
        RunTrace {
            state: tail.state,
            handled: seq![cmds[0]] + tail.handled,
            requests: step_requests(s, cmds[0], dead) + tail.requests,
        }
    }
}

/// What draining one batch of queued commands returned.
#[derive(Debug)]
pub struct BatchResult {
    /// How many commands of the batch were handled before the loop stopped.
    pub handled: usize,
    /// The server calls to issue, in order.
    pub requests: Vec<ServerRequest>,
}

/// The engine: owns the connection state, the monitor set, and the last
/// wanted targets, and runs until an explicit shutdown command.
#[derive(Debug)]
pub struct Engine {
    conn: ConnectionState,
    monitors: MonitorSet,
    last_targets: TargetSet,
    running: bool,
}

impl Engine {
    /// The engine's mathematical state.
    pub closed spec fn model(&self) -> EngineView {
        EngineView {
            conn: self.conn,
            mons: self.monitors@,
            last: self.last_targets@,
            running: self.running,
        }
    }

    /// Well-formed: at most one monitor per target, no wanted target twice.
    pub open spec fn wf(&self) -> bool {
        view_wf(self.model())
    }

    /// A fresh engine over a connection in the given state, with no monitors
    /// and no wanted targets.
    pub fn new(conn: ConnectionState) -> (e: Engine)
        ensures
            e.model() == (EngineView {
                conn,
                mons: Seq::empty(),
                last: Seq::empty(),
                running: true,
            }),
            e.wf(),
    {
        Engine {
            conn,
            monitors: MonitorSet::new(),
            last_targets: TargetSet::new(),
            running: true,
        }
    }

    /// Whether the loop still runs.
    pub fn is_running(&self) -> (b: bool)
        ensures
            b == self.model().running,
    {
        self.running
    }

    /// The connection state the engine last observed.
    pub fn connection_state(&self) -> (c: ConnectionState)
        ensures
            c == self.model().conn,
    {
        self.conn
    }

    /// Records a connection state observed by an explicit query.
    pub fn note_connection_state(&mut self, c: ConnectionState)
        ensures
            final(self).model() == (EngineView { conn: c, ..old(self).model() }),
            old(self).wf() ==> final(self).wf(),
    {
        self.conn = c;
    }

    /// Whether `t` currently has a live monitor.
    pub fn monitored(&self, t: TargetId) -> (b: bool)
        ensures
            b == self.model().mons.contains(t),
    {
        self.monitors.contains(t)
    }

    /// The monitored targets as a plain vector.
    pub fn monitored_targets(&self) -> (r: Vec<TargetId>)
        ensures
            r@ == self.model().mons,
    {
        self.monitors.to_vec()
    }

    /// Forgets the monitor of a target whose creation failed.
    ///
    /// The target stays in the last wanted set, so the next refresh retries
    /// it; the failure never aborts a tick.
    pub fn drop_failed_monitor(&mut self, t: TargetId)
        requires
            old(self).wf(),
        ensures
            final(self).model() == (EngineView {
                mons: without_one(old(self).model().mons, t),
                ..old(self).model()
            }),
            final(self).wf(),
            forall|x: TargetId|
                final(self).model().mons.contains(x) <==> old(self).model().mons.contains(x) && x
                    != t,
    {
        self.monitors.drop_monitor(t);
    }

    /// Handles one command: updates the engine state and returns the loop
    /// outcome and the server calls to issue, in order.
    ///
    /// `dead` names the monitored targets whose handles currently report
    /// failure; monitor handles change only while the caller pumps the event
    /// loop, never during a drain.
    pub fn handle(&mut self, cmd: &Command, dead: &TargetSet) -> (r: DispatchResult)
        requires
            old(self).wf(),
            old(self).model().running,
            cmd_wf(*cmd),
        ensures
            final(self).model() == step_view(old(self).model(), *cmd, dead@),
            reqs_view(r.requests@) == step_requests(old(self).model(), *cmd, dead@),
            r.outcome == spec_outcome(*cmd),
            final(self).wf(),
    {
        let ghost m0 = self.model();
        let mut result = handle_command(cmd, self.conn);
        match cmd {
            Command::Tick => {
                let delta = self.monitors.refresh(&self.last_targets, dead);
                proof {
                    assert(reqs_view(result.requests@) =~= Seq::<SpecRequest>::empty());
                    lemma_refreshed_wf(m0.mons, m0.last, dead@);
                }
                push_monitor_requests(&mut result.requests, &delta);
                proof {
                    assert(reqs_view(result.requests@) =~= step_requests(m0, *cmd, dead@));
                }
            },
            Command::ServerAction(a) => match a {
                Action::CreateMonitorSet(ts) => {
                    self.last_targets = ts.clone();
                    let delta = self.monitors.refresh(&self.last_targets, dead);
                    proof {
                        assert(reqs_view(result.requests@) =~= Seq::<SpecRequest>::empty());
                        lemma_refreshed_wf(m0.mons, ts@, dead@);
                    }
                    push_monitor_requests(&mut result.requests, &delta);
                    proof {
                        assert(reqs_view(result.requests@) =~= step_requests(m0, *cmd, dead@));
                    }
                },
                Action::Shutdown => {
                    self.running = false;
                },
                _ => {},
            },
            _ => {},
        }
        result
    }

    /// Drains one batch of queued commands, front to back, until the batch
    /// is exhausted or a shutdown command stops the loop.
    ///
    /// The returned requests are issued after the drain; the dispatcher is
    /// asynchronous, so no request had to be fired mid-drain.
    pub fn process_batch(&mut self, cmds: &Vec<Command>, dead: &TargetSet) -> (r: BatchResult)
        requires
            old(self).wf(),
            forall|k: int| 0 <= k < cmds@.len() ==> cmd_wf(cmds@[k]),
        ensures
            final(self).model() == spec_run(old(self).model(), cmds@, dead@).state,
            r.handled == spec_run(old(self).model(), cmds@, dead@).handled.len(),
            reqs_view(r.requests@) == spec_run(old(self).model(), cmds@, dead@).requests,
            final(self).wf(),
    {
        let ghost m0 = self.model();
        let ghost total = spec_run(m0, cmds@, dead@);
        let mut requests: Vec<ServerRequest> = Vec::new();
        let mut i: usize = 0;
        proof {
            assert(cmds@.skip(0) =~= cmds@);
            assert(cmds@.take(0) + total.handled =~= total.handled);
            assert(reqs_view(requests@) =~= Seq::<SpecRequest>::empty());
            assert(Seq::<SpecRequest>::empty() + total.requests =~= total.requests);
        }
        while i < cmds.len() && self.running
            invariant
                0 <= i <= cmds@.len(),
                self.wf(),
                forall|k: int| 0 <= k < cmds@.len() ==> cmd_wf(cmds@[k]),
                total == spec_run(m0, cmds@, dead@),
                total.state == spec_run(self.model(), cmds@.skip(i as int), dead@).state,
                total.handled == cmds@.take(i as int) + spec_run(
                    self.model(),
                    cmds@.skip(i as int),
                    dead@,
                ).handled,
                total.requests == reqs_view(requests@) + spec_run(
                    self.model(),
                    cmds@.skip(i as int),
                    dead@,
                ).requests,
            decreases cmds@.len() - i,
        {
            let ghost m = self.model();
            let ghost rest = spec_run(m, cmds@.skip(i as int), dead@);
            proof {
                assert(cmds@.skip(i as int)[0] == cmds@[i as int]);
                assert(cmds@.skip(i as int).skip(1) =~= cmds@.skip(i + 1 as int));
            }
            let mut step = self.handle(&cmds[i], dead);
            let ghost tail = spec_run(self.model(), cmds@.skip(i + 1 as int), dead@);
            let ghost acc0 = requests@;
            let ghost sr = step.requests@;
            requests.append(&mut step.requests);
            proof {
                assert(rest.handled == seq![cmds@[i as int]] + tail.handled);
                assert(rest.requests == step_requests(m, cmds@[i as int], dead@) + tail.requests);
                assert(cmds@.take(i as int) + (seq![cmds@[i as int]] + tail.handled) =~= cmds@.take(
                    i + 1 as int,
                ) + tail.handled);
                assert(requests@ == acc0 + sr);
                assert(reqs_view(acc0 + sr) =~= reqs_view(acc0) + reqs_view(sr));
                assert((reqs_view(acc0) + reqs_view(sr)) + tail.requests =~= reqs_view(acc0) + (
                reqs_view(sr) + tail.requests));
            }
            i = i + 1;
        }
        proof {
            if i == cmds@.len() {
                assert(cmds@.skip(i as int).len() == 0);
            }
            assert(cmds@.take(i as int) + spec_run(
                self.model(),
                cmds@.skip(i as int),
                dead@,
            ).handled =~= cmds@.take(i as int));
            assert(reqs_view(requests@) + spec_run(
                self.model(),
                cmds@.skip(i as int),
                dead@,
            ).requests =~= reqs_view(requests@));
        }
        BatchResult { handled: i, requests }
    }
}

/// One command keeps the engine state well-formed: at most one monitor per
/// target, no wanted target twice.
pub proof fn lemma_step_wf(s: EngineView, cmd: Command, dead: Seq<TargetId>)
    requires
        view_wf(s),
        cmd_wf(cmd),
    ensures
        view_wf(step_view(s, cmd, dead)),
{
    match cmd {
        Command::Tick => {
            lemma_refreshed_wf(s.mons, s.last, dead);
        },
        Command::ServerAction(Action::CreateMonitorSet(ts)) => {
            lemma_refreshed_wf(s.mons, ts@, dead);
        },
        _ => {},
    }
}

/// At-most-one monitor per target: across any sequence of commands —
/// monitor-set replacements included — the engine never holds two live
/// monitors for the same target identifier.
pub proof fn lemma_at_most_one_monitor(s: EngineView, cmds: Seq<Command>, dead: Seq<TargetId>)
    requires
        view_wf(s),
        forall|k: int| 0 <= k < cmds.len() ==> cmd_wf(cmds[k]),
    ensures
        view_wf(spec_run(s, cmds, dead).state),
    decreases cmds.len(),
{
    if cmds.len() == 0 || !s.running {
    } else {
        lemma_step_wf(s, cmds[0], dead);
        assert(forall|k: int|
            0 <= k < cmds.skip(1).len() ==> cmds.skip(1)[k] == cmds[k + 1]);
        lemma_at_most_one_monitor(step_view(s, cmds[0], dead), cmds.skip(1), dead);
    }
}

/// FIFO command ordering: a run handles an in-order prefix of the queue —
/// the commands dispatched are exactly the first `handled.len()` enqueued,
/// in enqueue order, however the native callbacks interleave.
pub proof fn lemma_fifo(s: EngineView, cmds: Seq<Command>, dead: Seq<TargetId>)
    ensures
        spec_run(s, cmds, dead).handled.len() <= cmds.len(),
        spec_run(s, cmds, dead).handled == cmds.take(
            spec_run(s, cmds, dead).handled.len() as int,
        ),
    decreases cmds.len(),
{
    if cmds.len() == 0 || !s.running {
        assert(spec_run(s, cmds, dead).handled =~= cmds.take(0));
    } else {
        let tail = spec_run(step_view(s, cmds[0], dead), cmds.skip(1), dead);
        lemma_fifo(step_view(s, cmds[0], dead), cmds.skip(1), dead);
        let n = tail.handled.len() as int;
        assert(seq![cmds[0]] + cmds.skip(1).take(n) =~= cmds.take(n + 1));
    }
}

/// Shutdown terminates cleanly: with the first shutdown command at position
/// `i`, the run handles exactly the commands up to and including it, the
/// loop is stopped afterwards, and no request of any later command is issued
/// — the shutdown command itself issues none.
pub proof fn lemma_shutdown_stops(
    s: EngineView,
    cmds: Seq<Command>,
    dead: Seq<TargetId>,
    i: int,
)
    requires
        s.running,
        0 <= i < cmds.len(),
        cmds[i] matches Command::ServerAction(Action::Shutdown),
        forall|j: int|
            0 <= j < i ==> !(#[trigger] cmds[j] matches Command::ServerAction(Action::Shutdown)),
    ensures
        spec_run(s, cmds, dead).handled.len() == i + 1,
        !spec_run(s, cmds, dead).state.running,
        spec_run(s, cmds, dead).requests == spec_run(s, cmds.take(i), dead).requests,
    decreases i,
{
    let next = step_view(s, cmds[0], dead);
    if i == 0 {
        assert(!next.running);
        assert(spec_run(next, cmds.skip(1), dead).handled == Seq::<Command>::empty());
        assert(spec_run(next, cmds.skip(1), dead).requests == Seq::<SpecRequest>::empty());
        assert(spec_run(s, cmds, dead).handled =~= seq![cmds[0]]);
        assert(step_requests(s, cmds[0], dead) =~= Seq::<SpecRequest>::empty());
        assert(spec_run(s, cmds, dead).requests =~= Seq::<SpecRequest>::empty());
        assert(spec_run(s, cmds.take(0), dead).requests =~= Seq::<SpecRequest>::empty());
    } else {
        assert(next.running) by {
            assert(!(cmds[0] matches Command::ServerAction(Action::Shutdown)));
        }
        let rest = cmds.skip(1);
        assert(forall|k: int| 0 <= k < rest.len() ==> rest[k] == cmds[k + 1]);
        lemma_shutdown_stops(next, rest, dead, i - 1);
        assert(cmds.take(i).skip(1) =~= rest.take(i - 1));
        assert(cmds.take(i)[0] == cmds[0]);
        assert(spec_run(s, cmds.take(i), dead).requests == step_requests(s, cmds[0], dead)
            + spec_run(next, rest.take(i - 1), dead).requests) by {
            assert(cmds.take(i).len() == i);
        }
    }
}

/// Appends a refresh delta's maintenance calls: every teardown, then every
/// creation.
fn push_monitor_requests(requests: &mut Vec<ServerRequest>, delta: &RefreshDelta)
    ensures
        reqs_view(final(requests)@) == reqs_view(old(requests)@) + monitor_requests(
            delta.destroy@,
            delta.create@,
        ),
{
    let ghost base = reqs_view(requests@);
    let mut i: usize = 0;
    proof {
        assert(reqs_view(requests@) =~= base + destroy_requests(delta.destroy@.take(0)));
    }
    while i < delta.destroy.len()
        invariant
            0 <= i <= delta.destroy@.len(),
            reqs_view(requests@) == base + destroy_requests(delta.destroy@.take(i as int)),
        decreases delta.destroy@.len() - i,
    {
        requests.push(ServerRequest::DestroyMonitor(delta.destroy[i]));
        proof {
            let pre = delta.destroy@.take(i as int);
            let post = delta.destroy@.take(i + 1 as int);
            let x = SpecRequest::DestroyMonitor(delta.destroy@[i as int]);
            assert(post.drop_last() =~= pre);
            assert(post.last() == delta.destroy@[i as int]);
            assert(destroy_requests(post) == destroy_requests(pre).push(x));
            assert(reqs_view(requests@) =~= (base + destroy_requests(pre)).push(x));
            assert((base + destroy_requests(pre)).push(x) =~= base + destroy_requests(pre).push(
                x,
            ));
        }
        i = i + 1;
    }
    proof {
        assert(delta.destroy@.take(delta.destroy@.len() as int) =~= delta.destroy@);
    }
    let ghost mid = reqs_view(requests@);
    let mut j: usize = 0;
    proof {
        assert(reqs_view(requests@) =~= mid + create_requests(delta.create@.take(0)));
    }
    while j < delta.create.len()
        invariant
            0 <= j <= delta.create@.len(),
            reqs_view(requests@) == mid + create_requests(delta.create@.take(j as int)),
        decreases delta.create@.len() - j,
    {
        requests.push(ServerRequest::CreateMonitor(delta.create[j]));
        proof {
            let pre = delta.create@.take(j as int);
            let post = delta.create@.take(j + 1 as int);
            let x = SpecRequest::CreateMonitor(delta.create@[j as int]);
            assert(post.drop_last() =~= pre);
            assert(post.last() == delta.create@[j as int]);
            assert(create_requests(post) == create_requests(pre).push(x));
            assert(reqs_view(requests@) =~= (mid + create_requests(pre)).push(x));
            assert((mid + create_requests(pre)).push(x) =~= mid + create_requests(pre).push(x));
        }
        j = j + 1;
    }
    proof {
        assert(delta.create@.take(delta.create@.len() as int) =~= delta.create@);
        assert(reqs_view(requests@) =~= reqs_view(old(requests)@) + monitor_requests(
            delta.destroy@,
            delta.create@,
        ));
    }
}

} // verus!
