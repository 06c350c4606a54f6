//! The state that one node keeps: its role, the peers it knows, and the
//! bookkeeping of every proposal in flight.

use vstd::prelude::*;
use crate::error::ConsensusError;
use crate::model::{Closure, NodeState, PBFT_TIME};
use crate::peer::{PeerId, PeerSet};
use crate::proposal::Proposal;
use crate::role::NodeRole;
use crate::stage::{ConsensusStage, Outcome};
use crate::table::Table;
use crate::tracker::{CommitOutcome, PrepareOutcome, QuorumTracker, TrackerView};

verus! {

/// The views of the trackers of a table.
pub open spec fn tracker_views(m: Map<u64, QuorumTracker>) -> Map<u64, TrackerView> {
    m.map_values(|t: QuorumTracker| t@)
}

/// The views of a sequence of proposals.
pub open spec fn proposal_views(s: Seq<Proposal>) -> Seq<crate::proposal::ProposalView> {
    s.map_values(|p: Proposal| p@)
}

/// Everything one node knows about the consensus rounds it takes part in.
///
/// The state is owned by the loop that feeds it events, one at a time.
pub struct PbftPeerMetadata {
    local: PeerId,
    role: NodeRole,
    endorse: bool,
    members: PeerSet,
    clock: u64,
    trackers: Table<QuorumTracker>,
    closed: Table<Closure>,
    secondary_proposals: Vec<Proposal>,
    recipient_count: u32,
}

impl View for PbftPeerMetadata {
    type V = NodeState;

    closed spec fn view(&self) -> NodeState {
        NodeState {
            local: self.local@,
            role: self.role,
            endorse: self.endorse,
            members: self.members@,
            clock: self.clock,
            trackers: tracker_views(self.trackers.map()),
            closed: self.closed.map(),
            history: proposal_views(self.secondary_proposals@),
            recipient_count: self.recipient_count,
        }
    }
}

impl PbftPeerMetadata {
    /// The tables hold each key once, every tracker is well formed, and no
    /// key is both in flight and over.
    pub closed spec fn wf(&self) -> bool {
        &&& self.members.wf()
        &&& self.trackers.wf()
        &&& self.closed.wf()
        &&& self.trackers.map().dom().disjoint(self.closed.map().dom())
        &&& forall|k: u64| #[trigger]
            self.trackers.map().dom().contains(k) ==> self.trackers.map()[k].wf()
    }

    /// A well-formed state has a well-formed view.
    pub proof fn lemma_view_wf(&self)
        requires
            self.wf(),
        ensures
            self@.wf(),
    {
        self.members.lemma_finite();
        self.trackers.lemma_finite();
        self.closed.lemma_finite();
        assert(self@.trackers.dom() =~= self.trackers.map().dom());
        assert forall|k: u64| #[trigger] self@.trackers.dom().contains(k) implies self@.trackers[
            k
        ].wf() by {
            self.trackers.map()[k].lemma_view_wf();
        }
    }

    /// The state of a secondary that knows no peer but itself and has seen
    /// nothing yet.
    pub fn new() -> (m: PbftPeerMetadata)
        ensures
            m.wf(),
            m@ == NodeState::initial(
                Seq::<u8>::empty(),
                NodeRole { is_primary: false, peer_count: 1 },
            ),
    {
        Self::with_identity(
            PeerId::from_bytes(Vec::new()),
            NodeRole { is_primary: false, peer_count: 1 },
        )
    }

    /// The state of the node `local` in the role `role` that has seen
    /// nothing yet.
    pub fn with_identity(local: PeerId, role: NodeRole) -> (m: PbftPeerMetadata)
        ensures
            m.wf(),
            m@ == NodeState::initial(local@, role),
    {
        let m = PbftPeerMetadata {
            local,
            role,
            endorse: true,
            members: PeerSet::new(),
            clock: 0,
            trackers: Table::new(),
            closed: Table::new(),
            secondary_proposals: Vec::new(),
            recipient_count: 0,
        };
        proof {
            assert(m@.trackers =~= Map::<u64, TrackerView>::empty());
            assert(m@.history =~= Seq::<crate::proposal::ProposalView>::empty());
        }
        m
    }

    /// Makes this node the primary.
    pub fn set_primary(&mut self)
        requires
            old(self).wf(),
        ensures
            final(self).wf(),
            final(self)@ == (NodeState {
                role: NodeRole { is_primary: true, ..old(self)@.role },
                ..old(self)@
            }),
    {
        self.role = NodeRole { is_primary: true, peer_count: self.role.peer_count };
    }

    /// Whether this node is the primary.
    pub fn is_primary(&self) -> (b: bool)
        ensures
            b == self@.role.is_primary,
    {
        self.role.is_primary
    }

    /// Sets the vote this node casts when it commits.
    pub fn set_endorse(&mut self, vote: bool)
        requires
            old(self).wf(),
        ensures
            final(self).wf(),
            final(self)@ == (NodeState { endorse: vote, ..old(self)@ }),
    {
        self.endorse = vote;
    }

    /// The vote this node casts when it commits.
    pub fn endorse(&self) -> (b: bool)
        ensures
            b == self@.endorse,
    {
        self.endorse
    }

    /// The identity under which this node votes.
    pub fn local_peer(&self) -> (p: &PeerId)
        ensures
            p@ == self@.local,
    {
        &self.local
    }

    /// The role of this node and the size of the peer set.
    pub fn role(&self) -> (r: NodeRole)
        ensures
            r == self@.role,
    {
        self.role
    }

    /// The number of distinct votes that make a quorum now.
    pub fn quorum_threshold(&self) -> (t: u32)
        ensures
            t == self@.threshold(),
            t >= 1,
    {
        self.role.quorum_threshold()
    }

    /// The latest tick the node was told of.
    pub fn clock(&self) -> (c: u64)
        ensures
            c == self@.clock,
    {
        self.clock
    }

    /// How many `Prepare` messages were taken in, repeats included.
    pub fn recipient_count(&self) -> (n: u32)
        ensures
            n == self@.recipient_count,
    {
        self.recipient_count
    }

    /// Counts one more `Prepare` message.
    pub fn increment_count(&mut self)
        requires
            old(self).wf(),
            old(self)@.recipient_count < u32::MAX,
        ensures
            final(self).wf(),
            final(self)@ == old(self)@.count_prepare(),
            final(self)@.recipient_count == old(self)@.recipient_count + 1,
    {
        self.recipient_count += 1;
    }

    /// Counts one more `Prepare` message, as long as the count has room.
    pub(crate) fn count_prepare(&mut self)
        requires
            old(self).wf(),
        ensures
            final(self).wf(),
            final(self)@ == old(self)@.count_prepare(),
    {
        if self.recipient_count < u32::MAX {
            self.increment_count();
        }
    }

    /// Appends `sec_proposal` to the history.
    pub fn add_secondary_proposal(&mut self, sec_proposal: &Proposal)
        requires
            old(self).wf(),
        ensures
            final(self).wf(),
            final(self)@ == old(self)@.log(sec_proposal@),
    {
        let ghost before = self.secondary_proposals@;
        self.secondary_proposals.push(sec_proposal.clone());
        proof {
            assert(proposal_views(self.secondary_proposals@) =~= proposal_views(before).push(
                sec_proposal@,
            ));
        }
    }

    /// The history: every proposal value that a transition of this node
    /// produced or took in, oldest first.
    pub fn secondary_proposals(&self) -> (h: &Vec<Proposal>)
        ensures
            proposal_views(h@) == self@.history,
    {
        &self.secondary_proposals
    }

    /// Whether the round of `key` is over.
    pub fn is_closed(&self, key: u64) -> (b: bool)
        requires
            self.wf(),
        ensures
            b == self@.is_closed(key),
    {
        self.closed.contains_key(key)
    }

    /// How the round of `key` ended, if it is over.
    pub fn closure(&self, key: u64) -> (c: Option<Closure>)
        requires
            self.wf(),
        ensures
            c == if self@.is_closed(key) {
                Some(self@.closed[key])
            } else {
                None
            },
    {
        match self.closed.get(key) {
            Some(c) => Some(*c),
            None => None,
        }
    }

    /// What is known of the decision on `key`: the outcome where the round
    /// was decided, nothing while it is not over, and a timeout where it
    /// was given up.
    pub fn decision(&self, key: u64) -> (r: Result<Option<Outcome>, ConsensusError>)
        requires
            self.wf(),
        ensures
            r == self@.decision(key),
    {
        match self.closed.get(key) {
            Some(Closure::Finalized(o)) => Ok(Some(*o)),
            Some(Closure::Abandoned) => Err(ConsensusError::QuorumTimeout),
            None => Ok(None),
        }
    }

    /// Whether `key` is in flight.
    pub fn is_tracked(&self, key: u64) -> (b: bool)
        requires
            self.wf(),
        ensures
            b == self@.is_tracked(key),
    {
        self.trackers.contains_key(key)
    }

    /// How many proposals are in flight.
    pub fn in_flight(&self) -> (n: usize)
        requires
            self.wf(),
        ensures
            n == self@.trackers.dom().len(),
    {
        proof {
            assert(self@.trackers.dom() =~= self.trackers.map().dom());
        }
        self.trackers.len()
    }

    /// The keys of the proposals in flight, each once.
    pub fn in_flight_keys(&self) -> (keys: Vec<u64>)
        requires
            self.wf(),
        ensures
            keys@.no_duplicates(),
            keys@.to_set() == self@.trackers.dom(),
    {
        proof {
            assert(self@.trackers.dom() =~= self.trackers.map().dom());
        }
        self.trackers.keys()
    }

    /// The tracker of `key`, while it is in flight.
    pub fn tracker(&self, key: u64) -> (t: Option<&QuorumTracker>)
        requires
            self.wf(),
        ensures
            match t {
                Some(q) => q.wf() && self@.is_tracked(key) && q@ == self@.trackers[key],
                None => !self@.is_tracked(key),
            },
    {
        self.trackers.get(key)
    }

    /// The proposal tracked under `key`, as far as this node has taken it.
    pub fn primary_proposal(&self, key: u64) -> (p: Option<&Proposal>)
        requires
            self.wf(),
        ensures
            match p {
                Some(q) => self@.tracker(key).proposal == Some(q@),
                None => self@.tracker(key).proposal is None,
            },
    {
        match self.trackers.get(key) {
            Some(t) => t.proposal(),
            None => None,
        }
    }

    fn new_deadline(&self) -> (d: u64)
        ensures
            d == self@.new_deadline(),
    {
        if self.clock > u64::MAX - PBFT_TIME {
            u64::MAX
        } else {
            self.clock + PBFT_TIME
        }
    }

    /// Takes the tracker of `key` out of the state: the one in flight, or a
    /// fresh one.
    pub(crate) fn take_tracker(&mut self, key: u64) -> (t: QuorumTracker)
        requires
            old(self).wf(),
        ensures
            final(self).wf(),
            t.wf(),
            t@ == old(self)@.tracker(key),
            final(self)@ == (NodeState {
                trackers: old(self)@.trackers.remove(key),
                ..old(self)@
            }),
    {
        let deadline = self.new_deadline();
        let ghost before = self.trackers.map();
        let found = self.trackers.take(key);
        proof {
            assert(tracker_views(before.remove(key)) =~= tracker_views(before).remove(key));
        }
        match found {
            Some(t) => t,
            None => QuorumTracker::new(deadline),
        }
    }

    /// Files `t` as the tracker of `key`, which has none and whose round is
    /// not over.
    pub(crate) fn put_tracker(&mut self, key: u64, t: QuorumTracker)
        requires
            old(self).wf(),
            t.wf(),
            !old(self)@.is_tracked(key),
            !old(self)@.is_closed(key),
        ensures
            final(self).wf(),
            final(self)@ == old(self)@.store(key, t@),
    {
        let ghost before = self.trackers.map();
        self.trackers.put(key, t);
        proof {
            assert(tracker_views(before.insert(key, t)) =~= tracker_views(before).insert(key, t@));
        }
    }

    /// Ends the round of `key` as `c` and evicts its tracker.
    pub(crate) fn close(&mut self, key: u64, c: Closure)
        requires
            old(self).wf(),
            !old(self)@.is_closed(key),
        ensures
            final(self).wf(),
            final(self)@ == old(self)@.close(key, c),
    {
        let ghost before = self.trackers.map();
        let _ = self.trackers.take(key);
        self.closed.put(key, c);
        proof {
            assert(tracker_views(before.remove(key)) =~= tracker_views(before).remove(key));
        }
    }

    /// Takes `proposal` up as the proposal tracked under its key; a proposal
    /// already tracked stays, and so does a round that is over.
    pub fn set_primary_proposal(&mut self, proposal: &Proposal)
        requires
            old(self).wf(),
        ensures
            final(self).wf(),
            final(self)@ == old(self)@.set_primary_proposal(proposal@),
    {
        let key = proposal.proposal_key();
        if self.is_closed(key) {
            return ;
        }
        let ghost before = self@;
        let mut t = self.take_tracker(key);
        if t.proposal().is_none() {
            t.set_proposal(proposal.clone());
        }
        self.put_tracker(key, t);
        proof {
            if before.tracker(key).proposal is Some {
                assert(before.trackers.remove(key).insert(key, before.trackers[key])
                    =~= before.trackers);
            }
            assert(before.trackers.remove(key).insert(key, t@) =~= before.trackers.insert(
                key,
                t@,
            ));
        }
    }

    /// Records a `Prepare` of `peer_id` for `proposal_key` and reports the
    /// count of distinct peers that have prepared, and whether they are a
    /// quorum of the current peer set. A round that is over takes no votes.
    pub fn record_prepare(&mut self, proposal_key: u64, peer_id: &PeerId) -> (r: PrepareOutcome)
        requires
            old(self).wf(),
        ensures
            final(self).wf(),
            final(self)@ == old(self)@.record_prepare(proposal_key, peer_id@),
            r == final(self)@.tracker(proposal_key).prepare_outcome(old(self)@.threshold()),
    {
        let threshold = self.quorum_threshold();
        if self.is_closed(proposal_key) {
            return PrepareOutcome::BelowQuorum(0);
        }
        let ghost before = self@;
        let mut t = self.take_tracker(proposal_key);
        let r = t.record_prepare(peer_id.clone(), threshold);
        self.put_tracker(proposal_key, t);
        proof {
            assert(before.trackers.remove(proposal_key).insert(proposal_key, t@)
                =~= before.trackers.insert(proposal_key, t@));
        }
        r
    }

    /// Records a `Commit` of `peer_id` with `vote` for `proposal_key`, in the
    /// place of any earlier vote of that peer, and reports whether either
    /// side holds a quorum of the current peer set. A round that is over
    /// takes no votes.
    pub fn record_commit(&mut self, proposal_key: u64, peer_id: &PeerId, vote: bool) -> (r:
        CommitOutcome)
        requires
            old(self).wf(),
        ensures
            final(self).wf(),
            final(self)@ == old(self)@.record_commit(proposal_key, peer_id@, vote),
            r == final(self)@.tracker(proposal_key).commit_outcome(old(self)@.threshold()),
    {
        let threshold = self.quorum_threshold();
        if self.is_closed(proposal_key) {
            return CommitOutcome::BelowQuorum;
        }
        let ghost before = self@;
        let mut t = self.take_tracker(proposal_key);
        let r = t.record_commit(peer_id.clone(), vote, threshold);
        self.put_tracker(proposal_key, t);
        proof {
            assert(before.trackers.remove(proposal_key).insert(proposal_key, t@)
                =~= before.trackers.insert(proposal_key, t@));
        }
        r
    }

    /// The decision that the commit votes for `proposal_key` give now:
    /// accepted as valid where a quorum is in favour, else accepted as
    /// invalid where a quorum is against, else rejected.
    pub fn finalize(&self, proposal_key: u64) -> (o: Outcome)
        requires
            self.wf(),
        ensures
            o == self@.tracker(proposal_key).verdict(self@.threshold()),
    {
        let threshold = self.quorum_threshold();
        match self.trackers.get(proposal_key) {
            Some(t) => t.finalize(threshold),
            None => Outcome::Rejected,
        }
    }

    /// Takes note that discovery reported `peer`: a peer not known before
    /// adds one to the peer count. Says whether it did.
    pub fn on_peer_joined(&mut self, peer: &PeerId) -> (added: bool)
        requires
            old(self).wf(),
        ensures
            final(self).wf(),
            final(self)@ == old(self)@.on_peer_joined(peer@),
            added == old(self)@.admits(peer@),
    {
        if *peer == self.local || self.members.contains(peer) || self.role.peer_count
            == u32::MAX {
            false
        } else {
            self.members.insert(peer.clone());
            self.role = NodeRole {
                is_primary: self.role.is_primary,
                peer_count: self.role.peer_count + 1,
            };
            true
        }
    }

    /// Takes note that discovery withdrew `peer`: a peer known before takes
    /// one off the peer count, which never falls below one. Says whether
    /// the peer was known.
    pub fn on_peer_left(&mut self, peer: &PeerId) -> (removed: bool)
        requires
            old(self).wf(),
        ensures
            final(self).wf(),
            final(self)@ == old(self)@.on_peer_left(peer@),
            removed == old(self)@.members.contains(peer@),
    {
        if self.members.remove(peer) {
            if self.role.peer_count > 1 {
                self.role = NodeRole {
                    is_primary: self.role.is_primary,
                    peer_count: self.role.peer_count - 1,
                };
            }
            true
        } else {
            assert(self.members@ =~= old(self).members@);
            false
        }
    }
}

/// Whether `key` is in `m` and its deadline has come at the tick `now`.
pub open spec fn due(m: Map<u64, QuorumTracker>, key: u64, now: u64) -> bool {
    m.dom().contains(key) && m[key]@.deadline <= now
}

/// Whether `key` was in `m`, was due at `now`, and is no longer in `rest`.
pub open spec fn swept(
    m: Map<u64, QuorumTracker>,
    rest: Map<u64, QuorumTracker>,
    key: u64,
    now: u64,
) -> bool {
    due(m, key, now) && !rest.dom().contains(key)
}

fn closure_of_tracker(t: &QuorumTracker) -> (c: Closure)
    ensures
        c == NodeState::closure_of(t@),
{
    match t.proposal() {
        Some(p) => match p.stage() {
            ConsensusStage::Result(o) => Closure::Finalized(o),
            _ => Closure::Abandoned,
        },
        None => Closure::Abandoned,
    }
}

/// Evicts every tracker whose deadline has come at `now`, ends its round,
/// and hands out the keys that were given up without a decision.
fn sweep(trackers: &mut Table<QuorumTracker>, closed: &mut Table<Closure>, now: u64) -> (abandoned:
    Vec<u64>)
    requires
        old(trackers).wf(),
        old(closed).wf(),
        old(trackers).map().dom().disjoint(old(closed).map().dom()),
        forall|k: u64| #[trigger]
            old(trackers).map().dom().contains(k) ==> old(trackers).map()[k].wf(),
    ensures
        final(trackers).wf(),
        final(closed).wf(),
        final(trackers).map() == old(trackers).map().remove_keys(
            Set::new(|k: u64| due(old(trackers).map(), k, now)),
        ),
        final(closed).map() == Map::new(
            |k: u64| old(closed).map().dom().contains(k) || due(old(trackers).map(), k, now),
            |k: u64|
                if old(closed).map().dom().contains(k) {
                    old(closed).map()[k]
                } else {
                    NodeState::closure_of(old(trackers).map()[k]@)
                },
        ),
        abandoned@.no_duplicates(),
        forall|k: u64| #[trigger]
            abandoned@.contains(k) <==> due(old(trackers).map(), k, now) && NodeState::closure_of(
                old(trackers).map()[k]@,
            ) == Closure::Abandoned,
{
    let ghost m0 = trackers.map();
    let ghost c0 = closed.map();
    let mut kept: Table<QuorumTracker> = Table::new();
    let mut abandoned: Vec<u64> = Vec::new();
    while trackers.len() > 0
        invariant
            trackers.wf(),
            closed.wf(),
            kept.wf(),
            m0.dom().disjoint(c0.dom()),
            forall|k: u64| #[trigger] m0.dom().contains(k) ==> m0[k].wf(),
            forall|k: u64| #[trigger]
                trackers.map().dom().contains(k) ==> m0.dom().contains(k) && trackers.map()[k]
                    == m0[k],
            forall|k: u64| #[trigger]
                kept.map().dom().contains(k) ==> m0.dom().contains(k) && kept.map()[k] == m0[k]
                    && !due(m0, k, now) && !trackers.map().dom().contains(k),
            forall|k: u64| #[trigger]
                m0.dom().contains(k) ==> trackers.map().dom().contains(k)
                    || kept.map().dom().contains(k) || due(m0, k, now),
            forall|k: u64| #[trigger]
                closed.map().dom().contains(k) <==> c0.dom().contains(k) || swept(
                    m0,
                    trackers.map(),
                    k,
                    now,
                ),
            forall|k: u64| #[trigger]
                closed.map().dom().contains(k) ==> closed.map()[k] == if c0.dom().contains(k) {
                    c0[k]
                } else {
                    NodeState::closure_of(m0[k]@)
                },
            abandoned@.no_duplicates(),
            forall|k: u64| #[trigger]
                abandoned@.contains(k) <==> swept(m0, trackers.map(), k, now)
                    && NodeState::closure_of(m0[k]@) == Closure::Abandoned,
        decreases trackers.map().dom().len(),
    {
        let ghost rest = trackers.map();
        let ghost done = closed.map();
        let ghost given_up = abandoned@;
        let popped = trackers.pop();
        match popped {
            None => {
                assert(rest.dom() =~= Set::<u64>::empty());
                assert(false);
            },
            Some((k, t)) => {
                assert(rest.dom().contains(k));
                assert(m0.dom().contains(k) && m0[k] == t);
                assert(!swept(m0, rest, k, now));
                assert(!c0.dom().contains(k));
                assert(!done.dom().contains(k));
                assert(!given_up.contains(k));
                if t.deadline() <= now {
                    let c = closure_of_tracker(&t);
                    closed.put(k, c);
                    match c {
                        Closure::Abandoned => {
                            abandoned.push(k);
                            assert forall|x: u64| #[trigger]
                                abandoned@.contains(x) <==> swept(m0, trackers.map(), x, now)
                                    && NodeState::closure_of(m0[x]@) == Closure::Abandoned by {
                                if given_up.contains(x) {
                                    let j = choose|j: int|
                                        0 <= j < given_up.len() && given_up[j] == x;
                                    assert(abandoned@[j] == x);
                                }
                                if x == k {
                                    assert(abandoned@[given_up.len() as int] == x);
                                }
                                if abandoned@.contains(x) {
                                    let j = choose|j: int|
                                        0 <= j < abandoned@.len() && abandoned@[j] == x;
                                    if j < given_up.len() {
                                        assert(given_up[j] == x);
                                    }
                                }
                            }
                        },
                        Closure::Finalized(_) => {},
                    }
                    assert forall|x: u64| #[trigger]
                        closed.map().dom().contains(x) <==> c0.dom().contains(x) || swept(
                            m0,
                            trackers.map(),
                            x,
                            now,
                        ) by {
                        if x != k {
                            assert(done.dom().contains(x) <==> c0.dom().contains(x) || swept(
                                m0,
                                rest,
                                x,
                                now,
                            ));
                        }
                    }
                } else {
                    kept.put(k, t);
                    assert forall|x: u64| #[trigger]
                        closed.map().dom().contains(x) <==> c0.dom().contains(x) || swept(
                            m0,
                            trackers.map(),
                            x,
                            now,
                        ) by {
                        assert(done.dom().contains(x) <==> c0.dom().contains(x) || swept(
                            m0,
                            rest,
                            x,
                            now,
                        ));
                    }
                    assert forall|x: u64| #[trigger]
                        abandoned@.contains(x) <==> swept(m0, trackers.map(), x, now)
                            && NodeState::closure_of(m0[x]@) == Closure::Abandoned by {
                        assert(given_up.contains(x) <==> swept(m0, rest, x, now)
                            && NodeState::closure_of(m0[x]@) == Closure::Abandoned);
                    }
                }
                proof {
                    trackers.lemma_finite();
                    assert(rest.dom().finite()) by {
                        assert(rest.dom() =~= trackers.map().dom().insert(k));
                    }
                }
            },
        }
    }
    proof {
        trackers.lemma_finite();
        assert(trackers.map().dom() =~= Set::<u64>::empty()) by {
            if trackers.map().dom().len() == 0 {
                trackers.map().dom().lemma_len0_is_empty();
            }
        }
        assert(kept.map() =~= m0.remove_keys(Set::new(|k: u64| due(m0, k, now))));
        assert forall|k: u64| #[trigger]
            closed.map().dom().contains(k) <==> c0.dom().contains(k) || due(m0, k, now) by {
            assert(swept(m0, trackers.map(), k, now) <==> due(m0, k, now));
        }
        assert(closed.map() =~= Map::new(
            |k: u64| c0.dom().contains(k) || due(m0, k, now),
            |k: u64|
                if c0.dom().contains(k) {
                    c0[k]
                } else {
                    NodeState::closure_of(m0[k]@)
                },
        ));
        assert forall|k: u64| #[trigger]
            abandoned@.contains(k) <==> due(m0, k, now) && NodeState::closure_of(m0[k]@)
                == Closure::Abandoned by {
            assert(swept(m0, trackers.map(), k, now) <==> due(m0, k, now));
        }
    }
    *trackers = kept;
    abandoned
}

impl PbftPeerMetadata {
    /// Takes note that the tick `now` has come: every tracker whose deadline
    /// has come is evicted and its round is over. Hands out the keys that
    /// were given up without a decision, each once.
    pub fn on_tick(&mut self, now: u64) -> (abandoned: Vec<u64>)
        requires
            old(self).wf(),
        ensures
            final(self).wf(),
            final(self)@ == old(self)@.on_tick(now),
            abandoned@.no_duplicates(),
            abandoned@.to_set() == old(self)@.abandoned_at(now),
    {
        if now > self.clock {
            self.clock = now;
        }
        let ghost m0 = self.trackers.map();
        let ghost before = old(self)@;
        let abandoned = sweep(&mut self.trackers, &mut self.closed, now);
        proof {
            assert forall|k: u64| before.is_due(k, now) <==> due(m0, k, now) by {}
            assert(self@.trackers =~= before.on_tick(now).trackers);
            assert(self@.closed =~= before.on_tick(now).closed);
            assert(abandoned@.to_set() =~= before.abandoned_at(now));
        }
        abandoned
    }

    /// Ends the round of every proposal in flight, as if its deadline had
    /// come, and empties the history. Role, members, clock and counts stay.
    pub fn reset(&mut self)
        requires
            old(self).wf(),
        ensures
            final(self).wf(),
            final(self)@ == old(self)@.reset(),
    {
        let ghost m0 = self.trackers.map();
        let ghost before = old(self)@;
        let _ = sweep(&mut self.trackers, &mut self.closed, u64::MAX);
        self.secondary_proposals = Vec::new();
        proof {
            assert forall|k: u64| before.is_due(k, u64::MAX) <==> due(m0, k, u64::MAX) by {}
            assert(self@.trackers =~= before.reset().trackers);
            assert(self@.closed =~= before.reset().closed);
            assert(self@.history =~= before.reset().history);
        }
    }
}

} // verus!
