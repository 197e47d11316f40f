//! Commands, server requests, outbound events, and the request dispatcher.
//!
//! The dispatcher translates one inbound command into the server calls the
//! engine must issue.  It never blocks and never talks to the server itself:
//! it returns the requests as plain values, and the caller performs them
//! while holding the event-loop lock.

use vstd::prelude::*;

use crate::connect::ConnectionState;
use crate::ids::{TargetId, TargetSet};

verus! {

/// One server-side action requested by the UI.
#[derive(Clone, Debug)]
pub enum Action {
    /// Mute or unmute a target.
    SetMute(TargetId, bool),
    /// Set a target's per-channel volume levels.
    SetVolume(TargetId, Vec<u32>),
    /// Replace, wholesale, the set of targets to keep peak monitors on.
    CreateMonitorSet(TargetSet),
    /// Stop the engine loop.
    Shutdown,
}

/// One inbound command, produced by the UI layer and consumed exactly once.
#[derive(Clone, Debug)]
pub enum Command {
    /// Query the current record of one entry.
    AskInfo(TargetId),
    /// The periodic maintenance tick.
    Tick,
    /// A server-side action.
    ServerAction(Action),
}

/// Well-formed: a monitor-set command carries a duplicate-free target set.
pub open spec fn cmd_wf(c: Command) -> bool {
    match c {
        Command::ServerAction(Action::CreateMonitorSet(ts)) => ts.wf(),
        _ => true,
    }
}

/// One call for the caller to make against the audio server.
#[derive(Debug, PartialEq, Eq)]
pub enum ServerRequest {
    /// Ask the server for the entry's current record; the completion callback
    /// feeds [`completion_event`].
    QueryInfo(TargetId),
    /// Fire a mute change; no acknowledgment is awaited.
    Mute(TargetId, bool),
    /// Fire a volume change; no acknowledgment is awaited.
    Volume(TargetId, Vec<u32>),
    /// Stop and release the peak monitor of a target.
    DestroyMonitor(TargetId),
    /// Open a peak monitor on a target.
    CreateMonitor(TargetId),
}

/// The mathematical value of one server request: volume levels as a sequence.
pub enum SpecRequest {
    QueryInfo(TargetId),
    Mute(TargetId, bool),
    Volume(TargetId, Seq<u32>),
    DestroyMonitor(TargetId),
    CreateMonitor(TargetId),
}

impl View for ServerRequest {
    type V = SpecRequest;

    open spec fn view(&self) -> SpecRequest {
        match self {
            ServerRequest::QueryInfo(id) => SpecRequest::QueryInfo(*id),
            ServerRequest::Mute(id, mute) => SpecRequest::Mute(*id, *mute),
            ServerRequest::Volume(id, levels) => SpecRequest::Volume(*id, levels@),
            ServerRequest::DestroyMonitor(id) => SpecRequest::DestroyMonitor(*id),
            ServerRequest::CreateMonitor(id) => SpecRequest::CreateMonitor(*id),
        }
    }
}

/// The views of a list of server requests, in order.
pub open spec fn reqs_view(v: Seq<ServerRequest>) -> Seq<SpecRequest> {
    v.map_values(|x: ServerRequest| x@)
}

/// Whether the engine loop goes on after a command.
#[derive(Clone, Copy, Debug, PartialEq, Eq, Structural)]
pub enum DispatchOutcome {
    Continue,
    Stop,
}

/// What dispatching one command asks of the caller.
#[derive(Debug)]
pub struct DispatchResult {
    /// Continue draining, or exit the engine loop.
    pub outcome: DispatchOutcome,
    /// The server calls to issue, in order.
    pub requests: Vec<ServerRequest>,
}

/// The server requests one command translates to, before any monitor
/// maintenance.
///
/// A query is issued in any connection state; the server answers or stays
/// silent.  A mutation is fired only while the connection is Ready: issued in
/// any other state it is dropped, and the loop goes on.  Monitor-set
/// replacement and shutdown issue no call of their own.
pub open spec fn spec_dispatch_requests(cmd: Command, conn: ConnectionState) -> Seq<
    SpecRequest,
> {
    match cmd {
        Command::AskInfo(id) => seq![SpecRequest::QueryInfo(id)],
        Command::Tick => Seq::empty(),
        Command::ServerAction(a) => match a {
            Action::SetMute(id, mute) => if (conn matches ConnectionState::Ready) {
                seq![SpecRequest::Mute(id, mute)]
            } else {
                Seq::empty()
            },
            Action::SetVolume(id, levels) => if (conn matches ConnectionState::Ready) {
                seq![SpecRequest::Volume(id, levels@)]
            } else {
                Seq::empty()
            },
            Action::CreateMonitorSet(_) => Seq::empty(),
            Action::Shutdown => Seq::empty(),
        },
    }
}

/// The loop outcome of one command: only an explicit shutdown stops the loop.
pub open spec fn spec_outcome(cmd: Command) -> DispatchOutcome {
    if (cmd matches Command::ServerAction(Action::Shutdown)) {
        DispatchOutcome::Stop
    } else {
        DispatchOutcome::Continue
    }
}

/// Translates one command into the server calls to issue.
///
/// Returns `Stop` only for an explicit shutdown command, which issues no
/// further server call.  A mutation arriving while the connection is not
/// Ready is discarded, never an error.
pub fn handle_command(cmd: &Command, conn: ConnectionState) -> (r: DispatchResult)
    ensures
        reqs_view(r.requests@) == spec_dispatch_requests(*cmd, conn),
        r.outcome == spec_outcome(*cmd),
{
    let mut requests: Vec<ServerRequest> = Vec::new();
    let mut outcome = DispatchOutcome::Continue;
    match cmd {
        Command::AskInfo(id) => {
            requests.push(ServerRequest::QueryInfo(*id));
        },
        Command::Tick => {},
        Command::ServerAction(a) => match a {
            Action::SetMute(id, mute) => {
                if let ConnectionState::Ready = conn {
                    requests.push(ServerRequest::Mute(*id, *mute));
                }
            },
            Action::SetVolume(id, levels) => {
                if let ConnectionState::Ready = conn {
                    requests.push(ServerRequest::Volume(*id, copy_levels(levels)));
                }
            },
            Action::CreateMonitorSet(_) => {},
            Action::Shutdown => {
                outcome = DispatchOutcome::Stop;
            },
        },
    }
    proof {
        assert(reqs_view(requests@) =~= spec_dispatch_requests(*cmd, conn));
    }
    DispatchResult { outcome, requests }
}

/// A fresh vector with the same volume levels.
fn copy_levels(v: &Vec<u32>) -> (r: Vec<u32>)
    ensures
        r@ == v@,
{
    let mut r: Vec<u32> = Vec::new();
    let mut i: usize = 0;
    while i < v.len()
        invariant
            0 <= i <= v@.len(),
            r@ == v@.take(i as int),
        decreases v@.len() - i,
    {
        r.push(v[i]);
        proof {
            assert(v@.take(i + 1 as int) =~= v@.take(i as int).push(v@[i as int]));
        }
        i = i + 1;
    }
    proof {
        assert(v@.take(v@.len() as int) =~= v@);
    }
    r
}

/// The record of one entry as a query returns it: plain values only.
#[derive(Clone, Debug, PartialEq, Eq)]
pub struct EntryRecord {
    /// The server's index for the entry.
    pub index: u32,
    /// Whether the entry is muted.
    pub mute: bool,
    /// The per-channel volume levels.
    pub volume: Vec<u32>,
}

/// One outbound event for the UI layer.
#[derive(Clone, Debug, PartialEq, Eq)]
pub enum UiEvent {
    /// A fresh snapshot of one entry's record.
    EntryInfo(TargetId, EntryRecord),
    /// One peak-level sample from a monitor.
    PeakSample(TargetId, u32),
    /// The screen needs redrawing.
    Redraw,
}

/// Packages a query completion into an outbound event.
///
/// When the server reports no matching object the completion is dropped
/// silently: no event, and no error either.
pub fn completion_event(id: TargetId, result: Option<EntryRecord>) -> (r: Option<UiEvent>)
    ensures
        r == match result {
            Some(rec) => Some(UiEvent::EntryInfo(id, rec)),
            None => None::<UiEvent>,
        },
{
    match result {
        Some(rec) => Some(UiEvent::EntryInfo(id, rec)),
        None => None,
    }
}

} // verus!
