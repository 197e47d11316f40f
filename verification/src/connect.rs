//! The connect handshake with the audio server.
//!
//! Connecting runs through four stages: build the event loop, build the
//! connection object, issue the connect request, then wait until the server
//! reports the connection Ready.  Each stage can fail, and each failure maps
//! to its own startup error; none is retried.  The blocking waits themselves
//! happen outside the library — the caller reports each stage's outcome and
//! asks what to do next.

use vstd::prelude::*;

verus! {

/// The state of the link to the audio server, as the server reports it.
#[derive(Clone, Copy, Debug, PartialEq, Eq, Structural)]
pub enum ConnectionState {
    Unconnected,
    Connecting,
    Ready,
    Failed,
    Terminated,
}

/// A startup failure; each aborts the connect handshake and is surfaced to
/// the caller without a retry.
#[derive(Clone, Copy, Debug, PartialEq, Eq, Structural)]
pub enum EngineError {
    /// The event loop could not be built.
    MainloopCreate,
    /// The connect request was rejected, or the connection reached a terminal
    /// state before becoming ready.
    MainloopConnect,
    /// The connection object could not be built.
    ContextCreate,
}

/// The stage the connect handshake is in.
#[derive(Clone, Copy, Debug, PartialEq, Eq, Structural)]
pub enum ConnectStage {
    /// Building the event loop.
    CreateMainloop,
    /// Building the connection object with the application's identity.
    CreateContext,
    /// Issuing the connect request.
    IssueConnect,
    /// Waiting for the server to report the connection Ready.
    AwaitReady,
}

/// What the handshake does after one stage outcome: move to the next stage,
/// finish connected, or abort with a startup error.
#[derive(Clone, Copy, Debug, PartialEq, Eq, Structural)]
pub enum ConnectStep {
    Next(ConnectStage),
    Connected,
    Abort(EngineError),
}

/// The connect handshake's transition relation.
///
/// For the three build-and-call stages `ok` says whether the stage's call
/// succeeded; while awaiting readiness the observed connection state decides:
/// Ready finishes, Failed or Terminated aborts, anything else keeps waiting.
pub open spec fn spec_connect_advance(
    stage: ConnectStage,
    ok: bool,
    observed: ConnectionState,
) -> ConnectStep {
    match stage {
        ConnectStage::CreateMainloop => if ok {
            ConnectStep::Next(ConnectStage::CreateContext)
        } else {
            ConnectStep::Abort(EngineError::MainloopCreate)
        },
        ConnectStage::CreateContext => if ok {
            ConnectStep::Next(ConnectStage::IssueConnect)
        } else {
            ConnectStep::Abort(EngineError::ContextCreate)
        },
        ConnectStage::IssueConnect => if ok {
            ConnectStep::Next(ConnectStage::AwaitReady)
        } else {
            ConnectStep::Abort(EngineError::MainloopConnect)
        },
        ConnectStage::AwaitReady => match observed {
            ConnectionState::Ready => ConnectStep::Connected,
            ConnectionState::Failed => ConnectStep::Abort(EngineError::MainloopConnect),
            ConnectionState::Terminated => ConnectStep::Abort(EngineError::MainloopConnect),
            _ => ConnectStep::Next(ConnectStage::AwaitReady),
        },
    }
}

/// Advances the connect handshake by one stage outcome.
///
/// `ok` is the result of the stage's own call (ignored while awaiting
/// readiness); `observed` is the connection state the server reports
/// (consulted only while awaiting readiness).
pub fn connect_advance(stage: ConnectStage, ok: bool, observed: ConnectionState) -> (r:
    ConnectStep)
    ensures
        r == spec_connect_advance(stage, ok, observed),
{
    match stage {
        ConnectStage::CreateMainloop => if ok {
            ConnectStep::Next(ConnectStage::CreateContext)
        } else {
            ConnectStep::Abort(EngineError::MainloopCreate)
        },
        ConnectStage::CreateContext => if ok {
            ConnectStep::Next(ConnectStage::IssueConnect)
        } else {
            ConnectStep::Abort(EngineError::ContextCreate)
        },
        ConnectStage::IssueConnect => if ok {
            ConnectStep::Next(ConnectStage::AwaitReady)
        } else {
            ConnectStep::Abort(EngineError::MainloopConnect)
        },
        ConnectStage::AwaitReady => match observed {
            ConnectionState::Ready => ConnectStep::Connected,
            ConnectionState::Failed => ConnectStep::Abort(EngineError::MainloopConnect),
            ConnectionState::Terminated => ConnectStep::Abort(EngineError::MainloopConnect),
            _ => ConnectStep::Next(ConnectStage::AwaitReady),
        },
    }
}

/// How many build-and-call stages are still ahead of a stage.
pub open spec fn stage_rank(stage: ConnectStage) -> nat {
    match stage {
        ConnectStage::CreateMainloop => 3,
        ConnectStage::CreateContext => 2,
        ConnectStage::IssueConnect => 1,
        ConnectStage::AwaitReady => 0,
    }
}

/// While every stage call succeeds, the handshake never aborts: it either
/// moves strictly forward or waits for readiness, and a Ready observation
/// finishes it.  A handshake that observes Failed or Terminated while
/// waiting aborts, and every abort carries the stage's own error.
pub proof fn lemma_connect_progress(stage: ConnectStage, observed: ConnectionState)
    ensures
        spec_connect_advance(stage, true, observed) is Abort ==> stage is AwaitReady,
        spec_connect_advance(stage, true, observed) matches ConnectStep::Next(next)
            ==> stage_rank(next) < stage_rank(stage) || (stage is AwaitReady
            && next is AwaitReady),
        stage is AwaitReady && observed is Ready ==> spec_connect_advance(stage, true, observed)
            is Connected,
{
}

} // verus!
