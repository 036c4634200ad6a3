//! What a node of the discovery protocol knows about another node, and the
//! messages that carry it.
use std::collections::HashSet;
use vstd::prelude::*;

verus! {

broadcast use vstd::std_specs::hash::group_hash_axioms;

/// A node's unicast address: an IPv4 or IPv6 socket address, as plain numbers
/// (the IP address in network order as one integer).
#[derive(Debug, Clone, Copy, PartialEq, Eq, Structural)]
pub enum PeerAddr {
    V4 { ip: u32, port: u16 },
    V6 { ip: u128, port: u16, flowinfo: u32, scope_id: u32 },
}

/// Information about a single node in the network.
#[derive(Debug)]
pub struct NodeInfo {
    pub id: u32,
    /// The address of the node's unicast gossip socket.
    pub addr: PeerAddr,
    /// The nodes it is linked to (its link state).
    pub known_neighbors: HashSet<u32>,
    pub last_update_timestamp: u64,
}

/// The mathematical value of a `NodeInfo`.
pub struct NodeInfoView {
    pub id: u32,
    pub addr: PeerAddr,
    pub known_neighbors: Set<u32>,
    pub last_update_timestamp: u64,
}

impl View for NodeInfo {
    type V = NodeInfoView;

    open spec fn view(&self) -> NodeInfoView {
        NodeInfoView {
            id: self.id,
            addr: self.addr,
            known_neighbors: self.known_neighbors@,
            last_update_timestamp: self.last_update_timestamp,
        }
    }
}

/// A copy of a set of node numbers.
fn copy_ids(ids: &HashSet<u32>) -> (copy: HashSet<u32>)
    ensures
        copy@ == ids@,
{
    let mut copy: HashSet<u32> = HashSet::new();
    for id in it: ids.iter()
        invariant
            it.seq().unref().to_set() == ids@,
            copy@.subset_of(ids@),
            forall|j: int| 0 <= j < it.index() ==> copy@.contains(*#[trigger] it.seq()[j]),
    {
        copy.insert(*id);
    }
    assert(copy@ =~= ids@);
    copy
}

impl NodeInfo {
    /// What a node knows of itself when it starts: its own number as its only
    /// link, and timestamp 1.
    pub fn initial(id: u32, addr: PeerAddr) -> (info: NodeInfo)
        ensures
            info@ == (NodeInfoView { id, addr, known_neighbors: set![id], last_update_timestamp: 1 }),
    {
        let mut known_neighbors: HashSet<u32> = HashSet::new();
        known_neighbors.insert(id);
        NodeInfo { id, addr, known_neighbors, last_update_timestamp: 1 }
    }

    /// A copy of this information.
    pub fn snapshot(&self) -> (copy: NodeInfo)
        ensures
            copy@ == self@,
    {
        NodeInfo {
            id: self.id,
            addr: self.addr,
            known_neighbors: copy_ids(&self.known_neighbors),
            last_update_timestamp: self.last_update_timestamp,
        }
    }
}

/// A message exchanged between nodes.
#[derive(Debug)]
pub enum Message {
    /// Sent to the multicast group for initial discovery.
    Discovery(NodeInfo),
    /// Unicast status confirmation and topology sharing.
    Gossip(NodeInfo),
    /// Sent when a new link state is confirmed or detected.
    LinkStateUpdate(NodeInfo),
}

/// The mathematical value of a `Message`.
pub enum MessageView {
    Discovery(NodeInfoView),
    Gossip(NodeInfoView),
    LinkStateUpdate(NodeInfoView),
}

impl View for Message {
    type V = MessageView;

    open spec fn view(&self) -> MessageView {
        match self {
            Message::Discovery(info) => MessageView::Discovery(info@),
            Message::Gossip(info) => MessageView::Gossip(info@),
            Message::LinkStateUpdate(info) => MessageView::LinkStateUpdate(info@),
        }
    }
}

impl MessageView {
    /// The information about its sender that a message carries.
    pub open spec fn sender(self) -> NodeInfoView {
        match self {
            MessageView::Discovery(info) => info,
            MessageView::Gossip(info) => info,
            MessageView::LinkStateUpdate(info) => info,
        }
    }
}

} // verus!
