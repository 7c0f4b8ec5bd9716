use note_stack::gate::{focus_gained, reset_delay_ms, BatchFocusGate, GateEvent};
use note_stack::order::SessionOrder;

fn order_of(ids: &[&str]) -> SessionOrder {
    SessionOrder::from_ids(ids.iter().map(|s| s.to_string()).collect())
}

#[test]
fn gate_starts_closed() {
    assert!(!BatchFocusGate::new().is_open());
}

#[test]
fn begin_opens_and_end_closes() {
    let mut gate = BatchFocusGate::new();
    gate.begin_batch();
    assert!(gate.is_open());
    gate.begin_batch();
    assert!(gate.is_open());
    gate.end_batch();
    assert!(!gate.is_open());
    gate.end_batch();
    assert!(!gate.is_open());
}

#[test]
fn overlapping_raises_end_closed_once_every_reset_has_fired() {
    let mut gate = BatchFocusGate::new();
    for event in [GateEvent::Begin, GateEvent::Begin, GateEvent::Reset, GateEvent::Reset] {
        gate.apply(event);
    }
    assert!(!gate.is_open());
    gate.apply(GateEvent::Begin);
    assert!(gate.is_open());
}

#[test]
fn reset_delay_is_half_a_second() {
    assert_eq!(reset_delay_ms(), 500);
}

#[test]
fn focus_is_recorded_while_the_gate_is_closed() {
    let gate = BatchFocusGate::new();
    let mut order = order_of(&["a", "b", "c"]);
    assert!(focus_gained(&gate, &mut order, "a".to_string()));
    assert_eq!(order.ids, vec!["b", "c", "a"]);
}

#[test]
fn focus_is_ignored_while_the_gate_is_open() {
    let mut gate = BatchFocusGate::new();
    gate.begin_batch();
    let mut order = order_of(&["a", "b", "c"]);
    for id in ["a", "b", "c", "z"] {
        assert!(!focus_gained(&gate, &mut order, id.to_string()));
        assert_eq!(order.ids, vec!["a", "b", "c"]);
    }
}

#[test]
fn focus_counts_again_once_the_gate_has_closed() {
    let mut gate = BatchFocusGate::new();
    let mut order = order_of(&["a", "b", "c"]);
    gate.begin_batch();
    assert!(!focus_gained(&gate, &mut order, "a".to_string()));
    gate.end_batch();
    assert!(focus_gained(&gate, &mut order, "a".to_string()));
    assert_eq!(order.ids, vec!["b", "c", "a"]);
    assert!(focus_gained(&gate, &mut order, "new".to_string()));
    assert_eq!(order.ids, vec!["b", "c", "a", "new"]);
}
