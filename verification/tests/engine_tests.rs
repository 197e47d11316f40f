use mixer_engine::connect::ConnectionState;
use mixer_engine::dispatch::{
    completion_event, Action, Command, DispatchOutcome, EntryRecord, ServerRequest, UiEvent,
};
use mixer_engine::engine::Engine;
use mixer_engine::ids::{TargetId, TargetKind, TargetSet};

fn sink_input(index: u32) -> TargetId {
    TargetId { kind: TargetKind::SinkInput, index }
}

fn set_of(ids: &[TargetId]) -> TargetSet {
    TargetSet::from_vec(&ids.to_vec())
}

fn monitor_set_cmd(ids: &[TargetId]) -> Command {
    Command::ServerAction(Action::CreateMonitorSet(set_of(ids)))
}

#[test]
fn fifo_order() {
    // Commands enqueued c1, c2, c3 are dispatched in that order.
    let a = sink_input(1);
    let b = sink_input(2);
    let c = sink_input(3);
    let mut engine = Engine::new(ConnectionState::Ready);
    let cmds = vec![
        Command::AskInfo(a),
        Command::ServerAction(Action::SetMute(b, true)),
        Command::AskInfo(c),
    ];
    let run = engine.process_batch(&cmds, &TargetSet::new());
    assert_eq!(run.handled, 3);
    assert_eq!(
        run.requests,
        vec![
            ServerRequest::QueryInfo(a),
            ServerRequest::Mute(b, true),
            ServerRequest::QueryInfo(c),
        ]
    );
}

#[test]
fn shutdown_stops_loop() {
    // A shutdown command ends the drain: the commands after it are not
    // handled and issue no server call; the shutdown itself issues none.
    let a = sink_input(1);
    let b = sink_input(2);
    let mut engine = Engine::new(ConnectionState::Ready);
    let cmds = vec![
        Command::AskInfo(a),
        Command::ServerAction(Action::Shutdown),
        Command::AskInfo(b),
        Command::ServerAction(Action::SetMute(b, false)),
    ];
    let run = engine.process_batch(&cmds, &TargetSet::new());
    assert_eq!(run.handled, 2);
    assert_eq!(run.requests, vec![ServerRequest::QueryInfo(a)]);
    assert!(!engine.is_running());
    // A later batch is not handled at all: the loop has exited.
    let later = engine.process_batch(&vec![Command::AskInfo(b)], &TargetSet::new());
    assert_eq!(later.handled, 0);
    assert_eq!(later.requests, Vec::<ServerRequest>::new());
}

#[test]
fn monitor_set_replacement_takes_effect_at_once() {
    // Targets {A, B} monitored; CreateMonitorSet({B, C}) arrives: A's
    // monitor is destroyed, B's kept, C's created — and the next tick adds
    // nothing further.
    let a = sink_input(1);
    let b = sink_input(2);
    let c = sink_input(3);
    let mut engine = Engine::new(ConnectionState::Ready);
    engine.handle(&monitor_set_cmd(&[a, b]), &TargetSet::new());
    let r = engine.handle(&monitor_set_cmd(&[b, c]), &TargetSet::new());
    assert_eq!(
        r.requests,
        vec![ServerRequest::DestroyMonitor(a), ServerRequest::CreateMonitor(c)]
    );
    assert!(!engine.monitored(a));
    assert!(engine.monitored(b));
    assert!(engine.monitored(c));
    let tick = engine.handle(&Command::Tick, &TargetSet::new());
    assert_eq!(tick.requests, Vec::<ServerRequest>::new());
    assert_eq!(engine.monitored_targets(), vec![b, c]);
}

#[test]
fn duplicate_targets_monitored_once() {
    // However often a target is named, it gets at most one monitor.
    let a = sink_input(1);
    let b = sink_input(2);
    let mut engine = Engine::new(ConnectionState::Ready);
    engine.handle(&monitor_set_cmd(&[a, b, a]), &TargetSet::new());
    engine.handle(&monitor_set_cmd(&[a, b, a]), &TargetSet::new());
    let targets = engine.monitored_targets();
    assert_eq!(targets.iter().filter(|t| **t == a).count(), 1);
    assert_eq!(targets.iter().filter(|t| **t == b).count(), 1);
}

#[test]
fn tick_retries_failed_creation() {
    // A target whose monitor creation failed stays wanted: the next tick
    // asks for it again.
    let a = sink_input(1);
    let mut engine = Engine::new(ConnectionState::Ready);
    let r = engine.handle(&monitor_set_cmd(&[a]), &TargetSet::new());
    assert_eq!(r.requests, vec![ServerRequest::CreateMonitor(a)]);
    engine.drop_failed_monitor(a);
    assert!(!engine.monitored(a));
    let tick = engine.handle(&Command::Tick, &TargetSet::new());
    assert_eq!(tick.requests, vec![ServerRequest::CreateMonitor(a)]);
    assert!(engine.monitored(a));
}

#[test]
fn set_volume_while_failed_is_dropped() {
    // A mutation arriving while the connection is Failed is dropped without
    // an error, and the loop keeps draining the commands after it.
    let a = sink_input(1);
    let b = sink_input(2);
    let mut engine = Engine::new(ConnectionState::Ready);
    engine.note_connection_state(ConnectionState::Failed);
    let cmds = vec![
        Command::ServerAction(Action::SetVolume(a, vec![40000, 40000])),
        Command::AskInfo(b),
    ];
    let run = engine.process_batch(&cmds, &TargetSet::new());
    assert_eq!(run.handled, 2);
    assert_eq!(run.requests, vec![ServerRequest::QueryInfo(b)]);
    assert!(engine.is_running());
}

#[test]
fn mutations_fire_while_ready() {
    let a = sink_input(1);
    let mut engine = Engine::new(ConnectionState::Ready);
    let r = engine.handle(
        &Command::ServerAction(Action::SetVolume(a, vec![30000])),
        &TargetSet::new(),
    );
    assert_eq!(r.outcome, DispatchOutcome::Continue);
    assert_eq!(r.requests, vec![ServerRequest::Volume(a, vec![30000])]);
    let m = engine.handle(
        &Command::ServerAction(Action::SetMute(a, true)),
        &TargetSet::new(),
    );
    assert_eq!(m.requests, vec![ServerRequest::Mute(a, true)]);
}

#[test]
fn batch_interleaves_maintenance_in_command_order() {
    // Monitor maintenance requests stand in the request stream exactly where
    // their command stands in the queue.
    let a = sink_input(1);
    let b = sink_input(2);
    let c = sink_input(3);
    let mut engine = Engine::new(ConnectionState::Ready);
    let cmds = vec![monitor_set_cmd(&[a, b]), Command::AskInfo(c)];
    let run = engine.process_batch(&cmds, &TargetSet::new());
    assert_eq!(run.handled, 2);
    assert_eq!(
        run.requests,
        vec![
            ServerRequest::CreateMonitor(a),
            ServerRequest::CreateMonitor(b),
            ServerRequest::QueryInfo(c),
        ]
    );
}

#[test]
fn missing_query_yields_no_event() {
    // A query for an identifier the server does not know produces no
    // outbound event, not an error event.
    let x = sink_input(77);
    assert_eq!(completion_event(x, None), None);
    let rec = EntryRecord { index: 77, mute: false, volume: vec![50000] };
    let found = completion_event(
        x,
        Some(EntryRecord { index: 77, mute: false, volume: vec![50000] }),
    );
    assert_eq!(found, Some(UiEvent::EntryInfo(x, rec)));
}
