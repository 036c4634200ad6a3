//! The state of a discovery node: what it knows of the network, how received
//! messages update that knowledge, and what it sends.
use crate::node::{Message, MessageView, NodeInfo, NodeInfoView, PeerAddr};
use rand::seq::IteratorRandom;
use std::collections::{HashMap, HashSet};
use vstd::prelude::*;

verus! {

broadcast use vstd::std_specs::hash::group_hash_axioms;

/// Number of peers a node gossips with per round.
pub const GOSSIP_FANOUT: usize = 3;

/// What a node knows of the network, keyed by node number.
#[derive(Debug)]
pub struct NetworkState {
    nodes: HashMap<u32, NodeInfo>,
}

/// Every entry is stored under the number of the node it describes.
pub open spec fn well_keyed(m: Map<u32, NodeInfoView>) -> bool {
    forall|k: u32| #[trigger] m.contains_key(k) ==> m[k].id == k
}

/// How a received message was handled.
#[derive(Debug, Clone, Copy, PartialEq, Eq, Structural)]
pub enum Reception {
    /// The message came from this node itself and was ignored.
    OwnMessage,
    /// A discovery message from a node not known before: it was added.
    NewNode,
    /// A discovery message from a known node: its entry was replaced.
    KnownNode,
    /// Gossip fresher than the known entry: the link states were merged.
    LinkStateMerged,
    /// Gossip not fresher than the known entry: nothing changed.
    LinkStateStale,
    /// Gossip from a node not known before: it was added.
    UnknownSender,
}

/// The entry for a known node after fresher gossip `remote` about it: the
/// newer timestamp and address, and the union of the two link sets.
pub open spec fn merged(known: NodeInfoView, remote: NodeInfoView) -> NodeInfoView {
    NodeInfoView {
        id: known.id,
        addr: remote.addr,
        known_neighbors: known.known_neighbors.union(remote.known_neighbors),
        last_update_timestamp: remote.last_update_timestamp,
    }
}

/// The knowledge of node `local_id` after it receives `msg`.
pub open spec fn apply_message(state: Map<u32, NodeInfoView>, msg: MessageView, local_id: u32) -> Map<
    u32,
    NodeInfoView,
> {
    let info = msg.sender();
    if info.id == local_id {
        state
    } else if msg is Discovery {
        state.insert(info.id, info)
    } else if !state.contains_key(info.id) {
        state.insert(info.id, info)
    } else if info.last_update_timestamp > state[info.id].last_update_timestamp {
        state.insert(info.id, merged(state[info.id], info))
    } else {
        state
    }
}

/// How node `local_id` handles `msg` in `state`.
pub open spec fn reception(state: Map<u32, NodeInfoView>, msg: MessageView, local_id: u32) -> Reception {
    let info = msg.sender();
    if info.id == local_id {
        Reception::OwnMessage
    } else if msg is Discovery {
        if state.contains_key(info.id) {
            Reception::KnownNode
        } else {
            Reception::NewNode
        }
    } else if !state.contains_key(info.id) {
        Reception::UnknownSender
    } else if info.last_update_timestamp > state[info.id].last_update_timestamp {
        Reception::LinkStateMerged
    } else {
        Reception::LinkStateStale
    }
}

/// `peers` lists the addresses of every node in `state` other than
/// `local_id`, each once, in some order.
pub open spec fn lists_peers(state: Map<u32, NodeInfoView>, local_id: u32, peers: Seq<PeerAddr>) -> bool {
    exists|ids: Seq<u32>|
        #![trigger ids.to_set()]
        {
            &&& ids.no_duplicates()
            &&& ids.to_set() == state.dom().remove(local_id)
            &&& ids.len() == peers.len()
            &&& forall|i: int| 0 <= i < ids.len() ==> peers[i] == state[#[trigger] ids[i]].addr
        }
}

/// The number of nodes in `state` other than `local_id`.
pub open spec fn peer_count(state: Map<u32, NodeInfoView>, local_id: u32) -> nat {
    state.dom().remove(local_id).len()
}

/// Picks up to `amount` of `candidates` at random.
///
/// Calls `rand::seq::IteratorRandom::choose_multiple` with the thread's
/// generator `rand::rng()`. As its source shows (reservoir sampling), the
/// result holds `amount` of the candidates, or all of them when there are no
/// more, each candidate at most as often as it occurs; with no more than
/// `amount` candidates it is the candidates themselves, in their order.
/// Which candidates are picked depends on the generator and is not stated.
/// `rand::rng()` panics if the operating system's random source cannot seed
/// the generator; no argument decides that, so no clause excludes it.
#[verifier::external_body]
fn choose_peers(candidates: Vec<PeerAddr>, amount: usize) -> (chosen: Vec<PeerAddr>)
    ensures
        chosen.len() == (if candidates.len() < amount { candidates.len() } else { amount }),
        chosen@.to_multiset().subset_of(candidates@.to_multiset()),
        candidates.len() <= amount ==> chosen@ == candidates@,
{
    candidates.into_iter().choose_multiple(&mut rand::rng(), amount)
}

/// Adds every number of `from` to `into`.
fn merge_ids(into: &mut HashSet<u32>, from: &HashSet<u32>)
    ensures
        final(into)@ == old(into)@.union(from@),
{
    for id in it: from.iter()
        invariant
            it.seq().unref().to_set() == from@,
            old(into)@.subset_of(into@),
            into@.subset_of(old(into)@.union(from@)),
            forall|j: int| 0 <= j < it.index() ==> into@.contains(*#[trigger] it.seq()[j]),
    {
        into.insert(*id);
    }
    assert(into@ =~= old(into)@.union(from@));
}

impl View for NetworkState {
    type V = Map<u32, NodeInfoView>;

    closed spec fn view(&self) -> Map<u32, NodeInfoView> {
        self.nodes@.map_values(|n: NodeInfo| n@)
    }
}

impl NetworkState {
    /// A state that knows no node.
    pub fn new() -> (state: NetworkState)
        ensures
            state@ == Map::<u32, NodeInfoView>::empty(),
    {
        let state = NetworkState { nodes: HashMap::new() };
        assert(state@ =~= Map::<u32, NodeInfoView>::empty());
        state
    }

    /// Records `info` under its node's number, replacing what was known.
    pub fn insert(&mut self, info: NodeInfo)
        ensures
            final(self)@ == old(self)@.insert(info.id, info@),
    {
        let ghost v = info@;
        self.nodes.insert(info.id, info);
        assert(self@ =~= old(self)@.insert(v.id, v));
    }

    /// Whether node `id` is known.
    pub fn contains(&self, id: u32) -> (known: bool)
        ensures
            known == self@.contains_key(id),
    {
        self.nodes.contains_key(&id)
    }

    /// The number of known nodes.
    pub fn len(&self) -> (n: usize)
        ensures
            n == self@.len(),
    {
        proof {
            assert(self@.dom() =~= self.nodes@.dom());
        }
        self.nodes.len()
    }

    /// The known nodes, keyed by number.
    pub fn nodes(&self) -> (nodes: &HashMap<u32, NodeInfo>)
        ensures
            nodes@.map_values(|n: NodeInfo| n@) == self@,
    {
        &self.nodes
    }

    /// Updates this node's knowledge (it is node `local_id`) with a received
    /// message, and says how the message was handled.
    ///
    /// A message from the node itself is ignored. A discovery message
    /// replaces whatever was known of its sender. Gossip and link-state
    /// updates about a known node are merged only when their timestamp is
    /// newer; about an unknown node, they are recorded as they are.
    pub fn handle_message(&mut self, msg: Message, local_id: u32) -> (event: Reception)
        ensures
            final(self)@ == apply_message(old(self)@, msg@, local_id),
            event == reception(old(self)@, msg@, local_id),
    {
        let ghost m = msg@;
        let ghost before = self@;
        let (is_discovery, info) = match msg {
            Message::Discovery(info) => (true, info),
            Message::Gossip(info) => (false, info),
            Message::LinkStateUpdate(info) => (false, info),
        };
        assert(info@ == m.sender());
        if info.id == local_id {
            return Reception::OwnMessage;
        }
        let id = info.id;
        if is_discovery {
            let known = self.nodes.contains_key(&id);
            self.insert(info);
            if known {
                Reception::KnownNode
            } else {
                Reception::NewNode
            }
        } else {
            match self.nodes.remove(&id) {
                Some(mut local_info) => {
                    assert(before[id] == local_info@);
                    if info.last_update_timestamp > local_info.last_update_timestamp {
                        local_info.last_update_timestamp = info.last_update_timestamp;
                        merge_ids(&mut local_info.known_neighbors, &info.known_neighbors);
                        local_info.addr = info.addr;
                        let ghost after = local_info@;
                        self.nodes.insert(id, local_info);
                        assert(after == merged(before[id], info@));
                        assert(self@ =~= before.insert(id, after));
                        Reception::LinkStateMerged
                    } else {
                        self.nodes.insert(id, local_info);
                        assert(self@ =~= before);
                        Reception::LinkStateStale
                    }
                },
                None => {
                    assert(self@ =~= before);
                    self.insert(info);
                    Reception::UnknownSender
                },
            }
        }
    }

    /// The discovery message this node (number `local_id`) multicasts: its
    /// own entry.
    pub fn beacon_message(&self, local_id: u32) -> (msg: Message)
        requires
            self@.contains_key(local_id),
        ensures
            msg@ == MessageView::Discovery(self@[local_id]),
    {
        let info = self.nodes.get(&local_id).unwrap();
        Message::Discovery(info.snapshot())
    }

    /// The gossip message this node (number `local_id`) sends to its peers:
    /// its own entry.
    pub fn gossip_message(&self, local_id: u32) -> (msg: Message)
        requires
            self@.contains_key(local_id),
        ensures
            msg@ == MessageView::Gossip(self@[local_id]),
    {
        let info = self.nodes.get(&local_id).unwrap();
        Message::Gossip(info.snapshot())
    }

    /// The addresses of every known node but this one (number `local_id`).
    pub fn gossip_candidates(&self, local_id: u32) -> (peers: Vec<PeerAddr>)
        ensures
            lists_peers(self@, local_id, peers@),
            peers.len() == peer_count(self@, local_id),
    {
        let ghost m = self.nodes@;
        let mut peers: Vec<PeerAddr> = Vec::new();
        let ghost mut ids: Seq<u32> = Seq::empty();
        for (id, info) in it: self.nodes.iter()
            invariant
                m == self.nodes@,
                it.seq().no_duplicates(),
                forall|j: int|
                    0 <= j < it.seq().len() ==> m.contains_key(*#[trigger] it.seq()[j].0)
                        && m[*it.seq()[j].0] == *it.seq()[j].1,
                forall|k: u32| #[trigger] m.contains_key(k) ==> it.seq().contains((&k, &m[k])),
                ids.no_duplicates(),
                ids.len() == peers.len(),
                forall|i: int|
                    0 <= i < ids.len() ==> peers@[i] == m[#[trigger] ids[i]].addr && ids[i] != local_id
                        && exists|j: int| 0 <= j < it.index() && *#[trigger] it.seq()[j].0 == ids[i],
                forall|k: u32|
                    #[trigger] m.contains_key(k) && k != local_id && !ids.contains(k) ==> exists|j: int|
                        #![trigger it.seq()[j]]
                        it.index() <= j < it.seq().len() && it.seq()[j] == (&k, &m[k]),
        {
            let ghost ids0 = ids;
            if *id != local_id {
                proof {
                    let k = *id;
                    let here = it.index();
                    if ids.contains(k) {
                        let i = choose|i: int| 0 <= i < ids.len() && ids[i] == k;
                        let j = choose|j: int| 0 <= j < here && *it.seq()[j].0 == ids[i];
                        assert(it.seq()[j] == it.seq()[here]);
                    }
                }
                peers.push(info.addr);
                proof {
                    ids = ids.push(*id);
                }
            }
            proof {
                let here = it.index();
                assert forall|k: u32|
                    #[trigger] m.contains_key(k) && k != local_id && !ids.contains(k) implies exists|j: int|
                    #![trigger it.seq()[j]]
                    here + 1 <= j < it.seq().len() && it.seq()[j] == (&k, &m[k]) by {
                    if k == *id {
                        assert(ids[ids.len() - 1] == k);
                    } else {
                        assert(!ids0.contains(k)) by {
                            if ids0.contains(k) {
                                let i = choose|i: int| 0 <= i < ids0.len() && ids0[i] == k;
                                assert(ids[i] == k);
                            }
                        }
                        let j = choose|j: int|
                            #![trigger it.seq()[j]]
                            here <= j < it.seq().len() && it.seq()[j] == (&k, &m[k]);
                        assert(j != here);
                    }
                }
            }
        }
        proof {
            assert forall|x: u32| #[trigger] self@.dom().remove(local_id).contains(x) implies ids.contains(x) by {
                assert(m.contains_key(x));
            }
            assert(ids.to_set() =~= self@.dom().remove(local_id));
            assert forall|i: int| 0 <= i < ids.len() implies peers@[i] == self@[#[trigger] ids[i]].addr by {}
            ids.unique_seq_to_set();
        }
        peers
    }

    /// The peers this node (number `local_id`) gossips with in one round:
    /// `GOSSIP_FANOUT` of the other known nodes picked at random, or all of
    /// them when there are no more.
    pub fn gossip_targets(&self, local_id: u32) -> (targets: Vec<PeerAddr>)
        ensures
            targets.len() == (if peer_count(self@, local_id) < GOSSIP_FANOUT {
                peer_count(self@, local_id)
            } else {
                GOSSIP_FANOUT as nat
            }),
            exists|peers: Seq<PeerAddr>|
                {
                    &&& lists_peers(self@, local_id, peers)
                    &&& #[trigger] targets@.to_multiset().subset_of(peers.to_multiset())
                    &&& peers.len() <= GOSSIP_FANOUT ==> targets@ == peers
                },
    {
        let peers = self.gossip_candidates(local_id);
        let ghost listed = peers@;
        let targets = choose_peers(peers, GOSSIP_FANOUT);
        assert(targets@.to_multiset().subset_of(listed.to_multiset()));
        targets
    }
} // impl NetworkState

} // verus!

verus! {

/// Recording a node's information or handling a message keeps every entry
/// stored under its node's number.
pub proof fn law_handling_keeps_entries_keyed(
    state: Map<u32, NodeInfoView>,
    msg: MessageView,
    local_id: u32,
    info: NodeInfoView,
)
    requires
        well_keyed(state),
    ensures
        well_keyed(state.insert(info.id, info)),
        well_keyed(apply_message(state, msg, local_id)),
{
}

/// A node ignores its own messages, and no message changes what a node
/// knows of itself.
pub proof fn law_own_entry_untouched(state: Map<u32, NodeInfoView>, msg: MessageView, local_id: u32)
    ensures
        msg.sender().id == local_id ==> apply_message(state, msg, local_id) == state,
        apply_message(state, msg, local_id).contains_key(local_id) == state.contains_key(local_id),
        state.contains_key(local_id) ==> apply_message(state, msg, local_id)[local_id] == state[local_id],
{
}

/// Nodes are never forgotten: every node known before a message is known
/// after it, and the sender is known after any message from another node.
pub proof fn law_knowledge_only_grows(state: Map<u32, NodeInfoView>, msg: MessageView, local_id: u32)
    ensures
        state.dom().subset_of(apply_message(state, msg, local_id).dom()),
        msg.sender().id != local_id ==> apply_message(state, msg, local_id).contains_key(msg.sender().id),
{
}

/// Gossip and link-state updates never roll an entry back: for every known
/// node the timestamp does not decrease and no link is lost.
pub proof fn law_gossip_is_monotone(state: Map<u32, NodeInfoView>, msg: MessageView, local_id: u32)
    requires
        !(msg is Discovery),
    ensures
        forall|k: u32|
            #[trigger] state.contains_key(k) ==> {
                let after = apply_message(state, msg, local_id)[k];
                &&& state[k].last_update_timestamp <= after.last_update_timestamp
                &&& state[k].known_neighbors.subset_of(after.known_neighbors)
            },
{
}

/// Receiving the same message twice has the same effect as receiving it once.
pub proof fn law_handling_is_idempotent(state: Map<u32, NodeInfoView>, msg: MessageView, local_id: u32)
    ensures
        apply_message(apply_message(state, msg, local_id), msg, local_id) == apply_message(
            state,
            msg,
            local_id,
        ),
{
    let once = apply_message(state, msg, local_id);
    let info = msg.sender();
    if info.id != local_id && !(msg is Discovery) && state.contains_key(info.id)
        && info.last_update_timestamp > state[info.id].last_update_timestamp {
        assert(once[info.id].last_update_timestamp == info.last_update_timestamp);
    }
    assert(apply_message(once, msg, local_id) =~= once);
}

} // verus!

verus! {

/// A discovery message from another node leaves exactly the information it
/// carries under the sender's number, whatever was known of that node
/// before, and no other entry changes.
pub proof fn law_discovery_replaces_entry(state: Map<u32, NodeInfoView>, info: NodeInfoView, local_id: u32)
    requires
        info.id != local_id,
    ensures
        apply_message(state, MessageView::Discovery(info), local_id).contains_key(info.id),
        apply_message(state, MessageView::Discovery(info), local_id)[info.id] == info,
        forall|k: u32|
            k != info.id ==> (#[trigger] apply_message(state, MessageView::Discovery(info), local_id).contains_key(k)
                == state.contains_key(k) && (state.contains_key(k) ==> apply_message(
                state,
                MessageView::Discovery(info),
                local_id,
            )[k] == state[k])),
{
}

/// Gossip and link-state updates are handled alike.
pub proof fn law_gossip_and_link_state_alike(state: Map<u32, NodeInfoView>, info: NodeInfoView, local_id: u32)
    ensures
        apply_message(state, MessageView::Gossip(info), local_id) == apply_message(
            state,
            MessageView::LinkStateUpdate(info),
            local_id,
        ),
        reception(state, MessageView::Gossip(info), local_id) == reception(
            state,
            MessageView::LinkStateUpdate(info),
            local_id,
        ),
{
}

/// Fresher gossip or link-state update about a known other node: its entry
/// takes the received timestamp and address, keeps its number, and its links
/// become exactly the union of the known and the received links.
pub proof fn law_fresher_link_state_is_merged(state: Map<u32, NodeInfoView>, msg: MessageView, local_id: u32)
    requires
        !(msg is Discovery),
        msg.sender().id != local_id,
        state.contains_key(msg.sender().id),
        msg.sender().last_update_timestamp > state[msg.sender().id].last_update_timestamp,
    ensures
        ({
            let i = msg.sender();
            let after = apply_message(state, msg, local_id);
            &&& after.dom() == state.dom()
            &&& after[i.id].id == state[i.id].id
            &&& after[i.id].addr == i.addr
            &&& after[i.id].last_update_timestamp == i.last_update_timestamp
            &&& forall|n: u32|
                #[trigger] after[i.id].known_neighbors.contains(n) <==> state[i.id].known_neighbors.contains(n)
                    || i.known_neighbors.contains(n)
            &&& forall|k: u32| #[trigger] state.contains_key(k) && k != i.id ==> after[k] == state[k]
        }),
{
    let i = msg.sender();
    assert(apply_message(state, msg, local_id).dom() =~= state.dom());
}

/// Gossip or a link-state update from a node not known before is recorded
/// exactly as received, and no other entry changes.
pub proof fn law_unknown_sender_recorded_as_received(
    state: Map<u32, NodeInfoView>,
    msg: MessageView,
    local_id: u32,
)
    requires
        !(msg is Discovery),
        msg.sender().id != local_id,
        !state.contains_key(msg.sender().id),
    ensures
        apply_message(state, msg, local_id).contains_key(msg.sender().id),
        apply_message(state, msg, local_id)[msg.sender().id] == msg.sender(),
        apply_message(state, msg, local_id).dom() == state.dom().insert(msg.sender().id),
        forall|k: u32| #[trigger] state.contains_key(k) ==> apply_message(state, msg, local_id)[k] == state[k],
{
    assert(apply_message(state, msg, local_id).dom() =~= state.dom().insert(msg.sender().id));
}

/// Gossip or a link-state update that is not newer than what is known of its
/// sender changes nothing at all: not the address, links or timestamp.
pub proof fn law_stale_link_state_ignored(state: Map<u32, NodeInfoView>, msg: MessageView, local_id: u32)
    requires
        !(msg is Discovery),
        state.contains_key(msg.sender().id),
        msg.sender().last_update_timestamp <= state[msg.sender().id].last_update_timestamp,
    ensures
        apply_message(state, msg, local_id) == state,
{
}

} // verus!
