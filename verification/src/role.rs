//! The role of this node and the quorum arithmetic that follows from the
//! size of the peer set.

use vstd::prelude::*;

verus! {

/// How many faulty peers a set of `peer_count` participants tolerates:
/// the largest `f` with `3f + 1 <= peer_count`, and 0 for an empty set.
pub open spec fn fault_tolerance_of(peer_count: nat) -> nat {
    if peer_count == 0 {
        0
    } else {
        ((peer_count - 1) / 3) as nat
    }
}

/// How many distinct votes make a quorum among `peer_count` participants:
/// `2f + 1`.
pub open spec fn quorum_threshold_of(peer_count: nat) -> nat {
    2 * fault_tolerance_of(peer_count) + 1
}

/// Whether `votes` distinct votes are a quorum among `peer_count`
/// participants.
pub open spec fn is_quorum(votes: nat, peer_count: nat) -> bool {
    votes >= quorum_threshold_of(peer_count)
}

/// With `3f + 1` participants the tolerance is `f` and a quorum is reached
/// exactly when at least `2f + 1` distinct peers have voted.
pub proof fn lemma_quorum_of_full_set(f: nat, votes: nat)
    ensures
        fault_tolerance_of(3 * f + 1) == f,
        quorum_threshold_of(3 * f + 1) == 2 * f + 1,
        is_quorum(votes, 3 * f + 1) <==> votes >= 2 * f + 1,
{
}

/// What this process is in the network: primary or secondary, among how
/// many participants (itself included).
#[derive(Clone, Copy, Debug, PartialEq, Eq, Structural)]
pub struct NodeRole {
    /// Whether this node may originate a round from a client request.
    pub is_primary: bool,
    /// The number of participants, this node included.
    pub peer_count: u32,
}

impl NodeRole {
    /// The role of a node that is primary or not among `peer_count`
    /// participants.
    pub fn new(is_primary: bool, peer_count: u32) -> (r: NodeRole)
        ensures
            r == (NodeRole { is_primary, peer_count }),
    {
        NodeRole { is_primary, peer_count }
    }

    /// The number of faulty peers that the current peer set tolerates.
    pub fn fault_tolerance(&self) -> (f: u32)
        ensures
            f == fault_tolerance_of(self.peer_count as nat),
    {
        if self.peer_count == 0 {
            0
        } else {
            (self.peer_count - 1) / 3
        }
    }

    /// The number of distinct votes that make a quorum, computed from the
    /// current peer count.
    pub fn quorum_threshold(&self) -> (t: u32)
        ensures
            t == quorum_threshold_of(self.peer_count as nat),
            t >= 1,
    {
        2 * self.fault_tolerance() + 1
    }

    /// Whether `votes` distinct votes are a quorum now.
    pub fn reaches_quorum(&self, votes: usize) -> (b: bool)
        ensures
            b == is_quorum(votes as nat, self.peer_count as nat),
    {
        votes >= self.quorum_threshold() as usize
    }
}

} // verus!
