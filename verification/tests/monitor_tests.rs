use mixer_engine::ids::{TargetId, TargetKind, TargetSet};
use mixer_engine::monitors::MonitorSet;

fn sink_input(index: u32) -> TargetId {
    TargetId { kind: TargetKind::SinkInput, index }
}

fn set_of(ids: &[TargetId]) -> TargetSet {
    TargetSet::from_vec(&ids.to_vec())
}

#[test]
fn refresh_fills_empty_set() {
    let a = sink_input(1);
    let b = sink_input(2);
    let mut mons = MonitorSet::new();
    let delta = mons.refresh(&set_of(&[a, b]), &TargetSet::new());
    assert_eq!(delta.destroy, Vec::<TargetId>::new());
    assert_eq!(delta.create, vec![a, b]);
    assert!(mons.contains(a));
    assert!(mons.contains(b));
    assert_eq!(mons.len(), 2);
}

#[test]
fn refresh_twice_is_noop() {
    let a = sink_input(1);
    let b = sink_input(2);
    let targets = set_of(&[a, b]);
    let mut mons = MonitorSet::new();
    let first = mons.refresh(&targets, &TargetSet::new());
    assert_eq!(first.create.len(), 2);
    let second = mons.refresh(&targets, &TargetSet::new());
    assert_eq!(second.destroy, Vec::<TargetId>::new());
    assert_eq!(second.create, Vec::<TargetId>::new());
    assert_eq!(mons.len(), 2);
}

#[test]
fn replace_targets_scenario() {
    // Targets {A, B} monitored; the wanted set becomes {B, C}: the refresh
    // must destroy A's monitor, keep B's, and create C's.
    let a = sink_input(1);
    let b = sink_input(2);
    let c = sink_input(3);
    let mut mons = MonitorSet::new();
    mons.refresh(&set_of(&[a, b]), &TargetSet::new());
    let delta = mons.refresh(&set_of(&[b, c]), &TargetSet::new());
    assert_eq!(delta.destroy, vec![a]);
    assert_eq!(delta.create, vec![c]);
    assert!(!mons.contains(a));
    assert!(mons.contains(b));
    assert!(mons.contains(c));
}

#[test]
fn dead_monitor_is_destroyed_and_reopened() {
    // A dead monitor of a still-wanted target is torn down first, then a
    // fresh one is opened in the same refresh.
    let a = sink_input(1);
    let b = sink_input(2);
    let targets = set_of(&[a, b]);
    let mut mons = MonitorSet::new();
    mons.refresh(&targets, &TargetSet::new());
    let delta = mons.refresh(&targets, &set_of(&[b]));
    assert_eq!(delta.destroy, vec![b]);
    assert_eq!(delta.create, vec![b]);
    assert!(mons.contains(a));
    assert!(mons.contains(b));
}

#[test]
fn bounded_staleness_one_tick() {
    // After a refresh against targets {B, C} where B's old monitor is dead
    // and C's creation then fails, the set is exactly {B, C} minus {C}.
    let a = sink_input(1);
    let b = sink_input(2);
    let c = sink_input(3);
    let mut mons = MonitorSet::new();
    mons.refresh(&set_of(&[a, b]), &TargetSet::new());
    let delta = mons.refresh(&set_of(&[b, c]), &set_of(&[b]));
    assert_eq!(delta.destroy, vec![a, b]);
    assert_eq!(delta.create, vec![b, c]);
    mons.drop_monitor(c);
    assert!(!mons.contains(a));
    assert!(mons.contains(b));
    assert!(!mons.contains(c));
    assert_eq!(mons.len(), 1);
}

#[test]
fn drop_monitor_is_idempotent() {
    let a = sink_input(1);
    let b = sink_input(2);
    let mut mons = MonitorSet::new();
    mons.refresh(&set_of(&[a, b]), &TargetSet::new());
    mons.drop_monitor(a);
    assert_eq!(mons.to_vec(), vec![b]);
    mons.drop_monitor(a);
    assert_eq!(mons.to_vec(), vec![b]);
}

#[test]
fn target_set_deduplicates() {
    let a = sink_input(1);
    let b = TargetId { kind: TargetKind::Source, index: 1 };
    let set = TargetSet::from_vec(&vec![a, b, a, a]);
    assert!(set.contains(a));
    assert!(set.contains(b));
    assert_eq!(set.len(), 2);
    assert_eq!(set.to_vec(), vec![a, b]);
}
