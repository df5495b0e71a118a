//! The ready gate.

use syncmesh::node_id::NodeId;
use syncmesh::ready::{ReadyGate, ReadyState};

fn n(b: u8) -> NodeId {
    NodeId::from_bytes([b; 32])
}

#[test]
fn empty_gate_is_pending() {
    let g = ReadyGate::new();
    assert_eq!(g.state(), ReadyState::Pending);
    assert!(g.is_empty());
}

#[test]
fn single_peer_ready_is_all_ready() {
    let mut g = ReadyGate::new();
    g.set(n(1), true);
    assert_eq!(g.state(), ReadyState::AllReady);
    assert_eq!(g.len(), 1);
}

#[test]
fn single_peer_not_ready_is_pending() {
    let mut g = ReadyGate::new();
    g.set(n(1), false);
    assert_eq!(g.state(), ReadyState::Pending);
}

#[test]
fn unanimity_required_by_default() {
    let mut g = ReadyGate::new();
    g.set(n(1), true);
    g.set(n(2), true);
    g.set(n(3), false);
    assert_eq!(g.state(), ReadyState::Pending);

    g.set(n(3), true);
    assert_eq!(g.state(), ReadyState::AllReady);
}

#[test]
fn override_allows_single_ready_to_advance() {
    let mut g = ReadyGate::new();
    g.set(n(1), true);
    g.set(n(2), false);
    g.set(n(3), false);
    assert_eq!(g.state(), ReadyState::Pending);

    g.set_override(true);
    assert_eq!(g.state(), ReadyState::AllReady);
}

#[test]
fn override_still_requires_at_least_one_ready() {
    let mut g = ReadyGate::new();
    g.set(n(1), false);
    g.set(n(2), false);
    g.set_override(true);
    assert_eq!(g.state(), ReadyState::Pending);
}

#[test]
fn remove_peer_can_unblock() {
    let mut g = ReadyGate::new();
    g.set(n(1), true);
    g.set(n(2), false);
    assert_eq!(g.state(), ReadyState::Pending);

    g.remove(&n(2));
    assert_eq!(g.state(), ReadyState::AllReady);
}

#[test]
fn not_ready_enumerates_laggards() {
    let mut g = ReadyGate::new();
    g.set(n(1), true);
    g.set(n(2), false);
    g.set(n(3), false);
    g.set(n(4), true);
    let laggards: Vec<_> = g.not_ready();
    assert_eq!(laggards, vec![n(2), n(3)]);
}

#[test]
fn get_returns_current_state() {
    let mut g = ReadyGate::new();
    g.set(n(1), true);
    assert_eq!(g.get(&n(1)), Some(true));
    g.set(n(1), false);
    assert_eq!(g.get(&n(1)), Some(false));
    assert_eq!(g.get(&n(2)), None);
}

#[test]
fn set_if_absent_never_changes_a_known_peer() {
    let mut g = ReadyGate::new();
    g.set_if_absent(n(1), false);
    assert_eq!(g.get(&n(1)), Some(false));
    g.set(n(1), true);
    g.set_if_absent(n(1), false);
    assert_eq!(g.get(&n(1)), Some(true));
}

#[test]
fn laggards_come_in_ascending_order() {
    let mut g = ReadyGate::new();
    for b in [9u8, 3, 7, 1] {
        g.set(n(b), b == 7);
    }
    assert_eq!(g.not_ready(), vec![n(1), n(3), n(9)]);
}

#[test]
fn the_count_follows_what_is_tracked() {
    let mut g = ReadyGate::new();
    assert_eq!(g.len(), 0);
    g.set(NodeId::from_bytes([1; 32]), false);
    g.set(NodeId::from_bytes([2; 32]), true);
    assert_eq!(g.len(), 2);
    g.set(NodeId::from_bytes([1; 32]), true);
    assert_eq!(g.len(), 2);
    g.remove(&NodeId::from_bytes([3; 32]));
    assert_eq!(g.len(), 2);
    g.remove(&NodeId::from_bytes([2; 32]));
    assert_eq!(g.len(), 1);
    assert!(!g.is_empty());
}
