//! The consensus state machine as a function on plain values: from the
//! state of a node and one event to the next state and the reply.

use vstd::prelude::*;
use crate::error::ConsensusError;
use crate::proposal::{EventType, ProposalView};
use crate::role::{quorum_threshold_of, NodeRole};
use crate::stage::{ConsensusStage, Outcome};
use crate::tracker::TrackerView;

verus! {

/// The number of ticks a proposal is given to reach its decision.
pub const PBFT_TIME: u64 = 6;

/// How the round of a proposal ended on this node.
#[derive(Clone, Copy, Debug, PartialEq, Eq, Structural)]
pub enum Closure {
    /// The round was decided.
    Finalized(Outcome),
    /// The deadline passed, or the node was reset, before a decision.
    Abandoned,
}

/// The state of a node, as plain values.
pub struct NodeState {
    /// The identity under which this node votes.
    pub local: Seq<u8>,
    /// Primary or secondary, among how many participants.
    pub role: NodeRole,
    /// The vote this node casts when it commits.
    pub endorse: bool,
    /// The peers that discovery has reported and not yet withdrawn.
    pub members: Set<Seq<u8>>,
    /// The latest tick the node was told of.
    pub clock: u64,
    /// The proposals in flight, by key.
    pub trackers: Map<u64, TrackerView>,
    /// The proposals whose round is over, by key.
    pub closed: Map<u64, Closure>,
    /// Every proposal value that a transition of this node produced or took
    /// in, oldest first.
    pub history: Seq<ProposalView>,
    /// How many `Prepare` messages were taken in, repeats included.
    pub recipient_count: u32,
}

/// The next state and the reply to the sender of the event: a message to
/// broadcast, nothing, or the reason why the event was refused.
pub struct Step {
    pub state: NodeState,
    pub reply: Result<Option<ProposalView>, ConsensusError>,
}

/// What a reply of the executable state machine says, as plain values.
pub open spec fn reply_view(r: Result<Option<EventType>, ConsensusError>) -> Result<
    Option<ProposalView>,
    ConsensusError,
> {
    match r {
        Ok(Some(e)) => Ok(Some(e@)),
        Ok(None) => Ok(None),
        Err(e) => Err(e),
    }
}

impl NodeState {
    /// The state of a node that has seen nothing yet.
    pub open spec fn initial(local: Seq<u8>, role: NodeRole) -> NodeState {
        NodeState {
            local,
            role,
            endorse: true,
            members: Set::empty(),
            clock: 0,
            trackers: Map::empty(),
            closed: Map::empty(),
            history: Seq::empty(),
            recipient_count: 0,
        }
    }

    /// Every tracker is well formed, finitely many proposals are in flight
    /// or over, and none is both.
    pub open spec fn wf(self) -> bool {
        &&& self.members.finite()
        &&& self.trackers.dom().finite()
        &&& self.closed.dom().finite()
        &&& self.trackers.dom().disjoint(self.closed.dom())
        &&& forall|k: u64| #[trigger] self.trackers.dom().contains(k) ==> self.trackers[k].wf()
    }

    /// The number of distinct votes that make a quorum now.
    pub open spec fn threshold(self) -> nat {
        quorum_threshold_of(self.role.peer_count as nat)
    }

    /// The deadline of a tracker that is created now.
    pub open spec fn new_deadline(self) -> u64 {
        if self.clock + PBFT_TIME > u64::MAX {
            u64::MAX
        } else {
            (self.clock + PBFT_TIME) as u64
        }
    }

    /// Whether the round of `key` is over.
    pub open spec fn is_closed(self, key: u64) -> bool {
        self.closed.dom().contains(key)
    }

    /// Whether `key` is in flight.
    pub open spec fn is_tracked(self, key: u64) -> bool {
        self.trackers.dom().contains(key)
    }

    /// The tracker of `key`: the one in flight, or a fresh one.
    pub open spec fn tracker(self, key: u64) -> TrackerView {
        if self.is_tracked(key) {
            self.trackers[key]
        } else {
            TrackerView::fresh(self.new_deadline())
        }
    }

    /// How far the round of `key` has come on this node: 0 where the node
    /// has not taken the proposal up, one more than the rank of its stage
    /// while it is in flight, and 6 once the round is over.
    pub open spec fn progress(self, key: u64) -> nat {
        if self.is_closed(key) {
            6
        } else if self.is_tracked(key) {
            match self.trackers[key].proposal {
                Some(p) => p.stage.rank() + 1,
                None => 0,
            }
        } else {
            0
        }
    }

    /// The state with `t` as the tracker of `key`.
    pub open spec fn store(self, key: u64, t: TrackerView) -> NodeState {
        NodeState { trackers: self.trackers.insert(key, t), ..self }
    }

    /// The state with `p` appended to the history.
    pub open spec fn log(self, p: ProposalView) -> NodeState {
        NodeState { history: self.history.push(p), ..self }
    }

    /// The state with the round of `key` over, ended as `c`.
    pub open spec fn close(self, key: u64, c: Closure) -> NodeState {
        NodeState {
            trackers: self.trackers.remove(key),
            closed: self.closed.insert(key, c),
            ..self
        }
    }

    /// The state with one more `Prepare` counted; the count stays at its
    /// largest value once it is there.
    pub open spec fn count_prepare(self) -> NodeState {
        NodeState {
            recipient_count: if self.recipient_count < u32::MAX {
                (self.recipient_count + 1) as u32
            } else {
                self.recipient_count
            },
            ..self
        }
    }

    /// Whether the node can still take `key` up with a proposal of its own:
    /// the round is not over and no proposal is tracked yet.
    pub open spec fn is_free(self, key: u64) -> bool {
        !self.is_closed(key) && self.tracker(key).proposal is None
    }

    /// The state after the node takes `p` up as the proposal it tracks under
    /// the key of `p`; a proposal already tracked stays, and so does a round
    /// that is over.
    pub open spec fn set_primary_proposal(self, p: ProposalView) -> NodeState {
        if self.is_free(p.proposal_key) {
            self.store(p.proposal_key, self.tracker(p.proposal_key).with_proposal(p))
        } else {
            self
        }
    }

    /// The state after a `Prepare` of `peer` for `key` is recorded; a round
    /// that is over takes no more votes.
    pub open spec fn record_prepare(self, key: u64, peer: Seq<u8>) -> NodeState {
        if self.is_closed(key) {
            self
        } else {
            self.store(key, self.tracker(key).record_prepare(peer))
        }
    }

    /// The state after a `Commit` of `peer` with `vote` for `key` is
    /// recorded; a round that is over takes no more votes.
    pub open spec fn record_commit(self, key: u64, peer: Seq<u8>, vote: bool) -> NodeState {
        if self.is_closed(key) {
            self
        } else {
            self.store(key, self.tracker(key).record_commit(peer, vote))
        }
    }

    /// What is known of the decision on `key`: the outcome where the round
    /// was decided, nothing while it is not over, and a timeout where it
    /// was given up.
    pub open spec fn decision(self, key: u64) -> Result<Option<Outcome>, ConsensusError> {
        if self.is_closed(key) {
            match self.closed[key] {
                Closure::Finalized(o) => Ok(Some(o)),
                Closure::Abandoned => Err(ConsensusError::QuorumTimeout),
            }
        } else {
            Ok(None)
        }
    }

    /// The event is dropped: nothing changes and nothing is sent.
    pub open spec fn discard(self) -> Step {
        Step { state: self, reply: Ok(None) }
    }

    /// The event is refused with `e`: nothing changes and nothing is sent.
    pub open spec fn refuse(self, e: ConsensusError) -> Step {
        Step { state: self, reply: Err(e) }
    }

    /// A client request `p`: the primary announces it, unless the key is
    /// known already; a secondary refuses it. A proposal at another stage
    /// is refused as out of order.
    pub open spec fn handle_request_from_client(self, p: ProposalView) -> Step {
        if !(p.stage is RequestFromClient) {
            self.refuse(ConsensusError::StageContractViolation)
        } else if !self.role.is_primary {
            self.refuse(ConsensusError::RoleViolation)
        } else if !self.is_free(p.proposal_key) {
            self.discard()
        } else {
            let q = p.at(ConsensusStage::PrePrepare);
            Step { state: self.set_primary_proposal(q).log(q), reply: Ok(Some(q)) }
        }
    }

    /// An announcement `p`: the node accepts it, casts its own `Prepare` and
    /// says so, unless it has accepted one for this key before.
    pub open spec fn handle_pre_prepare(self, p: ProposalView) -> Step {
        let key = p.proposal_key;
        if !(p.stage is PrePrepare) {
            self.refuse(ConsensusError::StageContractViolation)
        } else if self.is_closed(key) || self.progress(key) > ConsensusStage::PrePrepare.rank()
            + 1 {
            self.discard()
        } else {
            let q = p.at(ConsensusStage::Prepare);
            let t = self.tracker(key).with_proposal(q).record_prepare(self.local);
            Step { state: self.store(key, t).log(q), reply: Ok(Some(q)) }
        }
    }

    /// Where a quorum has prepared for `key` and the node itself stands at
    /// `Prepare`, it commits with its own vote and says so; otherwise
    /// nothing happens.
    pub open spec fn commit_if_prepared(self, key: u64) -> Step {
        let t = self.tracker(key);
        if !self.is_closed(key) && t.prepared(self.threshold()) && t.proposal is Some
            && t.proposal->0.stage is Prepare {
            let q = t.proposal->0.at(ConsensusStage::Commit(self.endorse));
            let t2 = t.with_proposal(q).record_commit(self.local, self.endorse);
            Step { state: self.store(key, t2).log(q), reply: Ok(Some(q)) }
        } else {
            self.discard()
        }
    }

    /// Where one side of the commit votes for `key` holds a quorum and the
    /// node itself stands at `Commit`, the round is decided and the primary
    /// says so; otherwise nothing happens.
    pub open spec fn decide_if_committed(self, key: u64) -> Step {
        let t = self.tracker(key);
        if !self.is_closed(key) && t.committed(self.threshold()) && t.proposal is Some
            && t.proposal->0.stage is Commit {
            let q = t.proposal->0.at(ConsensusStage::Result(t.verdict(self.threshold())));
            Step {
                state: self.store(key, t.with_proposal(q)).log(q),
                reply: Ok(
                    if self.role.is_primary {
                        Some(q)
                    } else {
                        None
                    },
                ),
            }
        } else {
            self.discard()
        }
    }

    /// The votes held for `key` are weighed against the threshold of the
    /// moment, as after a change of the peer count: the node takes the step
    /// that is due at its stage, if one is.
    pub open spec fn reevaluate(self, key: u64) -> Step {
        if self.tracker(key).proposal is Some && self.tracker(key).proposal->0.stage is Prepare {
            self.commit_if_prepared(key)
        } else {
            self.decide_if_committed(key)
        }
    }

    /// A `Prepare` of `origin` for the key of `p`: the vote is recorded, and
    /// where a quorum has prepared and the node itself stands at `Prepare`,
    /// it commits with its own vote and says so.
    pub open spec fn handle_prepare(self, p: ProposalView, origin: Seq<u8>) -> Step {
        let key = p.proposal_key;
        if !(p.stage is Prepare) {
            self.refuse(ConsensusError::StageContractViolation)
        } else if self.is_closed(key) {
            self.discard()
        } else {
            self.count_prepare().record_prepare(key, origin).commit_if_prepared(key)
        }
    }

    /// A `Commit` of `origin` with `vote` for the key of `p`: the vote is
    /// recorded in the place of an earlier one, and where one side holds a
    /// quorum and the node itself stands at `Commit`, the round is decided;
    /// the primary says so.
    pub open spec fn handle_commit(self, p: ProposalView, origin: Seq<u8>, vote: bool) -> Step {
        let key = p.proposal_key;
        if p.stage != ConsensusStage::Commit(vote) {
            self.refuse(ConsensusError::StageContractViolation)
        } else if self.is_closed(key) {
            self.discard()
        } else {
            self.record_commit(key, origin, vote).decide_if_committed(key)
        }
    }

    /// A `Result` with `outcome` for the key of `p`: the round is over and
    /// its tracker goes; a round that is over already stays as it is.
    pub open spec fn handle_result(self, p: ProposalView, outcome: Outcome) -> Step {
        let key = p.proposal_key;
        if p.stage != ConsensusStage::Result(outcome) {
            self.refuse(ConsensusError::StageContractViolation)
        } else if self.is_closed(key) {
            self.discard()
        } else {
            Step { state: self.close(key, Closure::Finalized(outcome)).log(p), reply: Ok(None) }
        }
    }

    /// One inbound message `p` from `origin`: a proposal whose key is not
    /// the one its client and content give is refused as malformed; any
    /// other goes to the handler of its stage.
    pub open spec fn on_message(self, p: ProposalView, origin: Seq<u8>) -> Step {
        if !p.consistent() {
            self.refuse(ConsensusError::DecodeError)
        } else {
            match p.stage {
                ConsensusStage::RequestFromClient => self.handle_request_from_client(p),
                ConsensusStage::PrePrepare => self.handle_pre_prepare(p),
                ConsensusStage::Prepare => self.handle_prepare(p, origin),
                ConsensusStage::Commit(vote) => self.handle_commit(p, origin, vote),
                ConsensusStage::Result(outcome) => self.handle_result(p, outcome),
            }
        }
    }

    /// A request that a client hands to this node.
    pub open spec fn submit_client_request(self, client: Seq<char>, content: Seq<char>) -> Step {
        self.handle_request_from_client(ProposalView::request(client, content))
    }

    /// Whether a report that `peer` joined adds a participant: it is not
    /// this node, not a member yet, and the count has room.
    pub open spec fn admits(self, peer: Seq<u8>) -> bool {
        peer != self.local && !self.members.contains(peer) && self.role.peer_count < u32::MAX
    }

    /// The state after discovery reported `peer`.
    pub open spec fn on_peer_joined(self, peer: Seq<u8>) -> NodeState {
        if self.admits(peer) {
            NodeState {
                members: self.members.insert(peer),
                role: NodeRole { peer_count: (self.role.peer_count + 1) as u32, ..self.role },
                ..self
            }
        } else {
            self
        }
    }

    /// The state after discovery withdrew `peer`; this node itself always
    /// counts.
    pub open spec fn on_peer_left(self, peer: Seq<u8>) -> NodeState {
        if self.members.contains(peer) {
            NodeState {
                members: self.members.remove(peer),
                role: NodeRole {
                    peer_count: if self.role.peer_count > 1 {
                        (self.role.peer_count - 1) as u32
                    } else {
                        self.role.peer_count
                    },
                    ..self.role
                },
                ..self
            }
        } else {
            self
        }
    }

    /// The state after discovery reported each peer of `peers`, in turn.
    pub open spec fn on_peers_joined(self, peers: Seq<Seq<u8>>) -> NodeState
        decreases peers.len(),
    {
        if peers.len() == 0 {
            self
        } else {
            self.on_peers_joined(peers.drop_last()).on_peer_joined(peers.last())
        }
    }

    /// The state after discovery withdrew each peer of `peers`, in turn.
    pub open spec fn on_peers_left(self, peers: Seq<Seq<u8>>) -> NodeState
        decreases peers.len(),
    {
        if peers.len() == 0 {
            self
        } else {
            self.on_peers_left(peers.drop_last()).on_peer_left(peers.last())
        }
    }

    /// How the round of a tracker ends when its time is up: decided where
    /// the node had reached the result, abandoned otherwise.
    pub open spec fn closure_of(t: TrackerView) -> Closure {
        match t.proposal {
            Some(p) => match p.stage {
                ConsensusStage::Result(o) => Closure::Finalized(o),
                _ => Closure::Abandoned,
            },
            None => Closure::Abandoned,
        }
    }

    /// Whether the tracker of `key` is in flight and its deadline has come
    /// at the tick `now`.
    pub open spec fn is_due(self, key: u64, now: u64) -> bool {
        self.is_tracked(key) && self.trackers[key].deadline <= now
    }

    /// The state at the tick `now`: every tracker whose deadline has come is
    /// evicted and its round is over; the clock never runs backwards.
    pub open spec fn on_tick(self, now: u64) -> NodeState {
        NodeState {
            clock: if now > self.clock {
                now
            } else {
                self.clock
            },
            trackers: self.trackers.remove_keys(Set::new(|k: u64| self.is_due(k, now))),
            closed: Map::new(
                |k: u64| self.is_closed(k) || self.is_due(k, now),
                |k: u64|
                    if self.is_closed(k) {
                        self.closed[k]
                    } else {
                        Self::closure_of(self.trackers[k])
                    },
            ),
            ..self
        }
    }

    /// The keys that the tick `now` gives up without a decision.
    pub open spec fn abandoned_at(self, now: u64) -> Set<u64> {
        Set::new(
            |k: u64|
                self.is_due(k, now) && !self.is_closed(k) && Self::closure_of(self.trackers[k])
                    == Closure::Abandoned,
        )
    }

    /// The state after a reset: the round of every proposal in flight is
    /// over, as if its deadline had come, and the history is empty; role,
    /// members, clock and counts stay.
    pub open spec fn reset(self) -> NodeState {
        NodeState { clock: self.clock, history: Seq::empty(), ..self.on_tick(u64::MAX) }
    }
}

} // verus!
