use mesh_runtime::discovery::{NetworkState, Reception, GOSSIP_FANOUT};
use mesh_runtime::node::{Message, NodeInfo, PeerAddr};
use std::collections::HashSet;

fn addr(port: u16) -> PeerAddr {
    PeerAddr::V4 { ip: 0x7f00_0001, port }
}

fn info(id: u32, port: u16, links: &[u32], ts: u64) -> NodeInfo {
    NodeInfo {
        id,
        addr: addr(port),
        known_neighbors: links.iter().copied().collect(),
        last_update_timestamp: ts,
    }
}

fn links(state: &NetworkState, id: u32) -> HashSet<u32> {
    state.nodes()[&id].known_neighbors.clone()
}

fn set(ids: &[u32]) -> HashSet<u32> {
    ids.iter().copied().collect()
}

fn local_state() -> NetworkState {
    let mut state = NetworkState::new();
    state.insert(NodeInfo::initial(1, addr(4000)));
    state
}

#[test]
fn initial_info_links_to_itself() {
    let me = NodeInfo::initial(9, addr(5000));
    assert_eq!(me.id, 9);
    assert_eq!(me.addr, addr(5000));
    assert_eq!(me.known_neighbors, set(&[9]));
    assert_eq!(me.last_update_timestamp, 1);
}

#[test]
fn snapshot_copies_everything() {
    let a = info(3, 7000, &[1, 2, 3], 42);
    let b = a.snapshot();
    assert_eq!(b.id, 3);
    assert_eq!(b.addr, addr(7000));
    assert_eq!(b.known_neighbors, set(&[1, 2, 3]));
    assert_eq!(b.last_update_timestamp, 42);
}

#[test]
fn own_messages_are_ignored() {
    let mut state = local_state();
    let r = state.handle_message(Message::Gossip(info(1, 9999, &[5, 6], 100)), 1);
    assert_eq!(r, Reception::OwnMessage);
    assert_eq!(state.len(), 1);
    assert_eq!(state.nodes()[&1].addr, addr(4000));
    assert_eq!(links(&state, 1), set(&[1]));
    let r = state.handle_message(Message::Discovery(info(1, 9999, &[], 100)), 1);
    assert_eq!(r, Reception::OwnMessage);
    assert_eq!(state.nodes()[&1].last_update_timestamp, 1);
}

#[test]
fn discovery_adds_then_replaces() {
    let mut state = local_state();
    let r = state.handle_message(Message::Discovery(info(2, 4001, &[2], 5)), 1);
    assert_eq!(r, Reception::NewNode);
    assert!(state.contains(2));
    assert_eq!(state.len(), 2);
    let r = state.handle_message(Message::Discovery(info(2, 4002, &[2, 7], 3)), 1);
    assert_eq!(r, Reception::KnownNode);
    let entry = &state.nodes()[&2];
    assert_eq!(entry.addr, addr(4002));
    assert_eq!(entry.last_update_timestamp, 3);
    assert_eq!(entry.known_neighbors, set(&[2, 7]));
}

#[test]
fn gossip_from_unknown_node_is_recorded() {
    let mut state = local_state();
    let r = state.handle_message(Message::LinkStateUpdate(info(4, 4004, &[4, 1], 2)), 1);
    assert_eq!(r, Reception::UnknownSender);
    assert_eq!(state.nodes()[&4].last_update_timestamp, 2);
    assert_eq!(links(&state, 4), set(&[4, 1]));
}

#[test]
fn fresher_gossip_is_merged() {
    let mut state = local_state();
    state.insert(info(2, 4001, &[2, 3], 5));
    let r = state.handle_message(Message::Gossip(info(2, 4111, &[2, 8], 6)), 1);
    assert_eq!(r, Reception::LinkStateMerged);
    let entry = &state.nodes()[&2];
    assert_eq!(entry.id, 2);
    assert_eq!(entry.addr, addr(4111));
    assert_eq!(entry.last_update_timestamp, 6);
    assert_eq!(entry.known_neighbors, set(&[2, 3, 8]));
}

#[test]
fn stale_gossip_changes_nothing() {
    let mut state = local_state();
    state.insert(info(2, 4001, &[2, 3], 5));
    for ts in [5, 4, 0] {
        let r = state.handle_message(Message::Gossip(info(2, 4111, &[9], ts)), 1);
        assert_eq!(r, Reception::LinkStateStale);
        let entry = &state.nodes()[&2];
        assert_eq!(entry.addr, addr(4001));
        assert_eq!(entry.last_update_timestamp, 5);
        assert_eq!(entry.known_neighbors, set(&[2, 3]));
    }
}

#[test]
fn handling_twice_is_handling_once() {
    let mut state = local_state();
    state.insert(info(2, 4001, &[2, 3], 5));
    let r = state.handle_message(Message::Gossip(info(2, 4111, &[2, 8], 6)), 1);
    assert_eq!(r, Reception::LinkStateMerged);
    let r = state.handle_message(Message::Gossip(info(2, 4111, &[2, 8], 6)), 1);
    assert_eq!(r, Reception::LinkStateStale);
    assert_eq!(links(&state, 2), set(&[2, 3, 8]));
    assert_eq!(state.nodes()[&2].last_update_timestamp, 6);
}

#[test]
fn gossip_never_rolls_back() {
    let mut state = local_state();
    state.insert(info(2, 4001, &[2, 3], 5));
    state.handle_message(Message::LinkStateUpdate(info(2, 4001, &[], 9)), 1);
    assert_eq!(state.nodes()[&2].last_update_timestamp, 9);
    assert_eq!(links(&state, 2), set(&[2, 3]));
    assert_eq!(state.len(), 2);
}

#[test]
fn outgoing_messages_carry_own_entry() {
    let state = local_state();
    match state.beacon_message(1) {
        Message::Discovery(me) => {
            assert_eq!(me.id, 1);
            assert_eq!(me.addr, addr(4000));
            assert_eq!(me.known_neighbors, set(&[1]));
            assert_eq!(me.last_update_timestamp, 1);
        }
        other => panic!("unexpected {:?}", other),
    }
    match state.gossip_message(1) {
        Message::Gossip(me) => {
            assert_eq!(me.id, 1);
            assert_eq!(me.known_neighbors, set(&[1]));
        }
        other => panic!("unexpected {:?}", other),
    }
}

#[test]
fn candidates_are_all_other_nodes() {
    let mut state = local_state();
    assert!(state.gossip_candidates(1).is_empty());
    for id in 2..6 {
        state.insert(info(id, 4000 + id as u16, &[id], 1));
    }
    let mut ports: Vec<u16> = state
        .gossip_candidates(1)
        .into_iter()
        .map(|a| match a {
            PeerAddr::V4 { port, .. } => port,
            PeerAddr::V6 { port, .. } => port,
        })
        .collect();
    ports.sort();
    assert_eq!(ports, vec![4002, 4003, 4004, 4005]);
}

#[test]
fn targets_are_empty_without_peers() {
    let state = local_state();
    assert!(state.gossip_targets(1).is_empty());
}

#[test]
fn targets_are_all_peers_when_few() {
    let mut state = local_state();
    state.insert(info(2, 4002, &[2], 1));
    state.insert(info(3, 4003, &[3], 1));
    let mut targets = state.gossip_targets(1);
    targets.sort_by_key(|a| match a {
        PeerAddr::V4 { port, .. } => *port,
        PeerAddr::V6 { port, .. } => *port,
    });
    assert_eq!(targets, vec![addr(4002), addr(4003)]);
}

#[test]
fn targets_are_a_fanout_sized_sample() {
    let mut state = local_state();
    for id in 2..8 {
        state.insert(info(id, 4000 + id as u16, &[id], 1));
    }
    for _ in 0..20 {
        let targets = state.gossip_targets(1);
        assert_eq!(targets.len(), GOSSIP_FANOUT);
        let distinct: HashSet<_> = targets.iter().map(|a| format!("{:?}", a)).collect();
        assert_eq!(distinct.len(), GOSSIP_FANOUT);
        assert!(!targets.contains(&addr(4000)));
        for t in &targets {
            assert!(state.gossip_candidates(1).contains(t));
        }
    }
}
