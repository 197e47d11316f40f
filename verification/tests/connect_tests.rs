use mixer_engine::connect::{
    connect_advance, ConnectStage, ConnectStep, ConnectionState, EngineError,
};

#[test]
fn success_path_reaches_connected() {
    let s1 = connect_advance(ConnectStage::CreateMainloop, true, ConnectionState::Unconnected);
    assert_eq!(s1, ConnectStep::Next(ConnectStage::CreateContext));
    let s2 = connect_advance(ConnectStage::CreateContext, true, ConnectionState::Unconnected);
    assert_eq!(s2, ConnectStep::Next(ConnectStage::IssueConnect));
    let s3 = connect_advance(ConnectStage::IssueConnect, true, ConnectionState::Connecting);
    assert_eq!(s3, ConnectStep::Next(ConnectStage::AwaitReady));
    let s4 = connect_advance(ConnectStage::AwaitReady, true, ConnectionState::Connecting);
    assert_eq!(s4, ConnectStep::Next(ConnectStage::AwaitReady));
    let s5 = connect_advance(ConnectStage::AwaitReady, true, ConnectionState::Ready);
    assert_eq!(s5, ConnectStep::Connected);
}

#[test]
fn each_stage_fails_with_its_own_error() {
    assert_eq!(
        connect_advance(ConnectStage::CreateMainloop, false, ConnectionState::Unconnected),
        ConnectStep::Abort(EngineError::MainloopCreate)
    );
    assert_eq!(
        connect_advance(ConnectStage::CreateContext, false, ConnectionState::Unconnected),
        ConnectStep::Abort(EngineError::ContextCreate)
    );
    assert_eq!(
        connect_advance(ConnectStage::IssueConnect, false, ConnectionState::Unconnected),
        ConnectStep::Abort(EngineError::MainloopConnect)
    );
}

#[test]
fn terminal_state_before_ready_aborts() {
    assert_eq!(
        connect_advance(ConnectStage::AwaitReady, true, ConnectionState::Failed),
        ConnectStep::Abort(EngineError::MainloopConnect)
    );
    assert_eq!(
        connect_advance(ConnectStage::AwaitReady, true, ConnectionState::Terminated),
        ConnectStep::Abort(EngineError::MainloopConnect)
    );
}
