//! The votes and acknowledgements gathered for one proposal.

use vstd::prelude::*;
use crate::peer::{PeerId, PeerSet};
use crate::proposal::{Proposal, ProposalView};
use crate::stage::Outcome;

verus! {

/// What one more `Prepare` left behind: the number of distinct peers that
/// have prepared, and whether they are a quorum.
#[derive(Clone, Copy, Debug, PartialEq, Eq, Structural)]
pub enum PrepareOutcome {
    BelowQuorum(usize),
    QuorumReached(usize),
}

/// What one more `Commit` left behind: whether either side holds a quorum,
/// and then the number of peers on each side.
#[derive(Clone, Copy, Debug, PartialEq, Eq, Structural)]
pub enum CommitOutcome {
    BelowQuorum,
    QuorumReached { in_favor: usize, opposed: usize },
}

/// The bookkeeping of one proposal, as plain values.
pub struct TrackerView {
    /// The proposal as far as this node has taken it, if it has taken it up.
    pub proposal: Option<ProposalView>,
    /// The distinct peers that sent a `Prepare`.
    pub prepare_votes: Set<Seq<u8>>,
    /// The distinct peers whose last `Commit` was in favour.
    pub in_favor: Set<Seq<u8>>,
    /// The distinct peers whose last `Commit` was against.
    pub opposed: Set<Seq<u8>>,
    /// The tick at which the proposal is given up.
    pub deadline: u64,
}

impl TrackerView {
    /// A tracker without proposal and votes.
    pub open spec fn fresh(deadline: u64) -> TrackerView {
        TrackerView {
            proposal: None,
            prepare_votes: Set::empty(),
            in_favor: Set::empty(),
            opposed: Set::empty(),
            deadline,
        }
    }

    /// The sets are finite and no peer stands on both sides.
    pub open spec fn wf(self) -> bool {
        &&& self.prepare_votes.finite()
        &&& self.in_favor.finite()
        &&& self.opposed.finite()
        &&& self.in_favor.disjoint(self.opposed)
    }

    /// The last commit vote of each peer that cast one.
    pub open spec fn commit_votes(self) -> Map<Seq<u8>, bool> {
        Map::new(
            |p: Seq<u8>| self.in_favor.contains(p) || self.opposed.contains(p),
            |p: Seq<u8>| self.in_favor.contains(p),
        )
    }

    /// The number of distinct peers that have prepared.
    pub open spec fn prepare_count(self) -> nat {
        self.prepare_votes.len()
    }

    /// The number of peers whose last vote was in favour.
    pub open spec fn in_favor_count(self) -> nat {
        self.in_favor.len()
    }

    /// The number of peers whose last vote was against.
    pub open spec fn opposed_count(self) -> nat {
        self.opposed.len()
    }

    /// The tracker with the proposal `p`.
    pub open spec fn with_proposal(self, p: ProposalView) -> TrackerView {
        TrackerView { proposal: Some(p), ..self }
    }

    /// The tracker after a `Prepare` of `peer`.
    pub open spec fn record_prepare(self, peer: Seq<u8>) -> TrackerView {
        TrackerView { prepare_votes: self.prepare_votes.insert(peer), ..self }
    }

    /// The tracker after a `Commit` of `peer` with `vote`; an earlier vote of
    /// the same peer no longer counts.
    pub open spec fn record_commit(self, peer: Seq<u8>, vote: bool) -> TrackerView {
        if vote {
            TrackerView {
                in_favor: self.in_favor.insert(peer),
                opposed: self.opposed.remove(peer),
                ..self
            }
        } else {
            TrackerView {
                in_favor: self.in_favor.remove(peer),
                opposed: self.opposed.insert(peer),
                ..self
            }
        }
    }

    /// Whether at least `threshold` distinct peers have prepared.
    pub open spec fn prepared(self, threshold: nat) -> bool {
        self.prepare_count() >= threshold
    }

    /// Whether one side of the commit votes holds at least `threshold` peers.
    pub open spec fn committed(self, threshold: nat) -> bool {
        self.in_favor_count() >= threshold || self.opposed_count() >= threshold
    }

    /// The decision that the commit votes give at `threshold`.
    pub open spec fn verdict(self, threshold: nat) -> Outcome {
        if self.in_favor_count() >= threshold {
            Outcome::Accepted(true)
        } else if self.opposed_count() >= threshold {
            Outcome::Accepted(false)
        } else {
            Outcome::Rejected
        }
    }

    /// What `record_prepare` reports of this tracker at `threshold`.
    pub open spec fn prepare_outcome(self, threshold: nat) -> PrepareOutcome {
        if self.prepared(threshold) {
            PrepareOutcome::QuorumReached(self.prepare_count() as usize)
        } else {
            PrepareOutcome::BelowQuorum(self.prepare_count() as usize)
        }
    }

    /// What `record_commit` reports of this tracker at `threshold`.
    pub open spec fn commit_outcome(self, threshold: nat) -> CommitOutcome {
        if self.committed(threshold) {
            CommitOutcome::QuorumReached {
                in_favor: self.in_favor_count() as usize,
                opposed: self.opposed_count() as usize,
            }
        } else {
            CommitOutcome::BelowQuorum
        }
    }

    /// The tracker after each peer of `peers` has sent a `Prepare`, in turn.
    pub open spec fn record_prepares(self, peers: Seq<Seq<u8>>) -> TrackerView
        decreases peers.len(),
    {
        if peers.len() == 0 {
            self
        } else {
            self.record_prepares(peers.drop_last()).record_prepare(peers.last())
        }
    }
}

/// A repeated `Prepare` of one peer changes nothing, and no `Prepare` adds
/// more than one to the count.
pub proof fn lemma_prepare_idempotent(t: TrackerView, peer: Seq<u8>)
    requires
        t.wf(),
    ensures
        t.record_prepare(peer).wf(),
        t.record_prepare(peer).record_prepare(peer) == t.record_prepare(peer),
        t.prepare_votes.contains(peer) ==> t.record_prepare(peer) == t,
        t.record_prepare(peer).prepare_count() <= t.prepare_count() + 1,
        t.record_prepare(peer).prepare_count() >= t.prepare_count(),
{
    assert(t.prepare_votes.insert(peer).insert(peer) =~= t.prepare_votes.insert(peer));
    if t.prepare_votes.contains(peer) {
        assert(t.prepare_votes.insert(peer) =~= t.prepare_votes);
    }
}

/// However often the peers of `peers` send a `Prepare`, the votes held
/// afterwards are the old ones and those peers, each once.
pub proof fn lemma_prepares_count_peers_once(t: TrackerView, peers: Seq<Seq<u8>>)
    requires
        t.wf(),
    ensures
        t.record_prepares(peers).wf(),
        t.record_prepares(peers).prepare_votes == t.prepare_votes.union(peers.to_set()),
        t.record_prepares(peers).prepare_count() <= t.prepare_count() + peers.to_set().len(),
        t.record_prepares(peers) == (TrackerView {
            prepare_votes: t.prepare_votes.union(peers.to_set()),
            ..t
        }),
    decreases peers.len(),
{
    vstd::seq_lib::seq_to_set_is_finite(peers);
    if peers.len() == 0 {
        assert(peers.to_set() =~= Set::<Seq<u8>>::empty());
        assert(t.prepare_votes.union(peers.to_set()) =~= t.prepare_votes);
    } else {
        let head = peers.drop_last();
        lemma_prepares_count_peers_once(t, head);
        assert(peers.to_set() =~= head.to_set().insert(peers.last())) by {
            assert forall|x: Seq<u8>| peers.to_set().contains(x) <==> head.to_set().insert(
                peers.last(),
            ).contains(x) by {
                if peers.contains(x) {
                    let j = choose|j: int| 0 <= j < peers.len() && peers[j] == x;
                    if j < head.len() {
                        assert(head[j] == x);
                    }
                }
                if head.contains(x) {
                    let j = choose|j: int| 0 <= j < head.len() && head[j] == x;
                    assert(peers[j] == x);
                }
                if x == peers.last() {
                    assert(peers[peers.len() - 1] == x);
                }
            }
        }
        assert(t.prepare_votes.union(head.to_set()).insert(peers.last())
            =~= t.prepare_votes.union(peers.to_set()));
    }
    vstd::set_lib::lemma_len_union(t.prepare_votes, peers.to_set());
}

/// A peer that sends `Prepare` over and over counts once: after any number
/// of its messages the votes are the old ones and that one peer.
pub proof fn lemma_duplicate_prepares_count_once(t: TrackerView, peer: Seq<u8>, times: nat)
    requires
        t.wf(),
        times >= 1,
    ensures
        t.record_prepares(Seq::new(times, |i: int| peer)) == t.record_prepare(peer),
        t.record_prepares(Seq::new(times, |i: int| peer)).prepare_count() <= t.prepare_count()
            + 1,
{
    let peers = Seq::new(times, |i: int| peer);
    lemma_prepares_count_peers_once(t, peers);
    assert(peers.to_set() =~= set![peer]) by {
        assert(peers[0] == peer);
    }
    assert(t.prepare_votes.union(set![peer]) =~= t.prepare_votes.insert(peer));
    lemma_prepare_idempotent(t, peer);
}

/// The last vote of a peer is the one that counts: recording a commit
/// overwrites that peer's entry and leaves every other entry alone.
pub proof fn lemma_commit_last_vote_wins(t: TrackerView, peer: Seq<u8>, vote: bool)
    requires
        t.wf(),
    ensures
        t.record_commit(peer, vote).wf(),
        t.record_commit(peer, vote).commit_votes() == t.commit_votes().insert(peer, vote),
        t.record_commit(peer, vote).record_commit(peer, vote) == t.record_commit(peer, vote),
        t.record_commit(peer, vote).in_favor_count() + t.record_commit(
            peer,
            vote,
        ).opposed_count() <= t.in_favor_count() + t.opposed_count() + 1,
{
    let n = t.record_commit(peer, vote);
    assert(n.commit_votes() =~= t.commit_votes().insert(peer, vote));
    if vote {
        assert(t.in_favor.insert(peer).insert(peer) =~= t.in_favor.insert(peer));
        assert(t.opposed.remove(peer).remove(peer) =~= t.opposed.remove(peer));
    } else {
        assert(t.in_favor.remove(peer).remove(peer) =~= t.in_favor.remove(peer));
        assert(t.opposed.insert(peer).insert(peer) =~= t.opposed.insert(peer));
    }
}

/// The number of votes in favour is the number of peers whose entry in the
/// map of commit votes is `true`; likewise against.
pub proof fn lemma_commit_counts(t: TrackerView)
    requires
        t.wf(),
    ensures
        t.commit_votes().dom().finite(),
        t.commit_votes().dom().filter(|p: Seq<u8>| t.commit_votes()[p]) == t.in_favor,
        t.commit_votes().dom().filter(|p: Seq<u8>| !t.commit_votes()[p]) == t.opposed,
{
    assert(t.commit_votes().dom() =~= t.in_favor.union(t.opposed));
    assert(t.commit_votes().dom().filter(|p: Seq<u8>| t.commit_votes()[p]) =~= t.in_favor);
    assert(t.commit_votes().dom().filter(|p: Seq<u8>| !t.commit_votes()[p]) =~= t.opposed);
}

/// The votes and acknowledgements gathered for one proposal.
pub struct QuorumTracker {
    proposal: Option<Proposal>,
    prepare_votes: PeerSet,
    in_favor: PeerSet,
    opposed: PeerSet,
    deadline: u64,
}

impl View for QuorumTracker {
    type V = TrackerView;

    closed spec fn view(&self) -> TrackerView {
        TrackerView {
            proposal: match self.proposal {
                Some(p) => Some(p@),
                None => None,
            },
            prepare_votes: self.prepare_votes@,
            in_favor: self.in_favor@,
            opposed: self.opposed@,
            deadline: self.deadline,
        }
    }
}

impl QuorumTracker {
    /// No peer is held twice, and none stands on both sides.
    pub closed spec fn wf(&self) -> bool {
        &&& self.prepare_votes.wf()
        &&& self.in_favor.wf()
        &&& self.opposed.wf()
        &&& self.in_favor@.disjoint(self.opposed@)
    }

    /// A well-formed tracker has a well-formed view.
    pub proof fn lemma_view_wf(&self)
        requires
            self.wf(),
        ensures
            self@.wf(),
    {
        self.prepare_votes.lemma_finite();
        self.in_favor.lemma_finite();
        self.opposed.lemma_finite();
    }

    /// A tracker without proposal and votes, to be given up at `deadline`.
    pub fn new(deadline: u64) -> (t: QuorumTracker)
        ensures
            t.wf(),
            t@ == TrackerView::fresh(deadline),
    {
        QuorumTracker {
            proposal: None,
            prepare_votes: PeerSet::new(),
            in_favor: PeerSet::new(),
            opposed: PeerSet::new(),
            deadline,
        }
    }

    /// The proposal as far as this node has taken it.
    pub fn proposal(&self) -> (p: Option<&Proposal>)
        ensures
            match p {
                Some(q) => self@.proposal == Some(q@),
                None => self@.proposal is None,
            },
    {
        self.proposal.as_ref()
    }

    /// The tick at which the proposal is given up.
    pub fn deadline(&self) -> (d: u64)
        ensures
            d == self@.deadline,
    {
        self.deadline
    }

    /// Puts `p` in the place of the tracked proposal.
    pub fn set_proposal(&mut self, p: Proposal)
        requires
            old(self).wf(),
        ensures
            final(self).wf(),
            final(self)@ == old(self)@.with_proposal(p@),
    {
        self.proposal = Some(p);
    }

    /// Takes the tracked proposal out, leaving none.
    pub fn take_proposal(&mut self) -> (p: Option<Proposal>)
        requires
            old(self).wf(),
        ensures
            final(self).wf(),
            final(self)@ == (TrackerView { proposal: None, ..old(self)@ }),
            match p {
                Some(q) => old(self)@.proposal == Some(q@),
                None => old(self)@.proposal is None,
            },
    {
        self.proposal.take()
    }

    /// The number of distinct peers that have prepared.
    pub fn prepare_count(&self) -> (n: usize)
        requires
            self.wf(),
        ensures
            n == self@.prepare_count(),
    {
        self.prepare_votes.len()
    }

    /// The number of peers whose last vote was in favour.
    pub fn in_favor(&self) -> (n: usize)
        requires
            self.wf(),
        ensures
            n == self@.in_favor_count(),
    {
        self.in_favor.len()
    }

    /// The number of peers whose last vote was against.
    pub fn opposed(&self) -> (n: usize)
        requires
            self.wf(),
        ensures
            n == self@.opposed_count(),
    {
        self.opposed.len()
    }

    /// Whether `peer` has prepared.
    pub fn has_prepared(&self, peer: &PeerId) -> (b: bool)
        ensures
            b == self@.prepare_votes.contains(peer@),
    {
        self.prepare_votes.contains(peer)
    }

    /// The last commit vote of `peer`, if it cast one.
    pub fn commit_vote(&self, peer: &PeerId) -> (v: Option<bool>)
        ensures
            v == if self@.commit_votes().dom().contains(peer@) {
                Some(self@.commit_votes()[peer@])
            } else {
                None
            },
    {
        if self.in_favor.contains(peer) {
            Some(true)
        } else if self.opposed.contains(peer) {
            Some(false)
        } else {
            None
        }
    }

    /// Whether at least `threshold` distinct peers have prepared.
    pub fn is_prepared(&self, threshold: u32) -> (b: bool)
        requires
            self.wf(),
        ensures
            b == self@.prepared(threshold as nat),
    {
        self.prepare_votes.len() >= threshold as usize
    }

    /// Whether one side of the commit votes holds at least `threshold` peers.
    pub fn is_committed(&self, threshold: u32) -> (b: bool)
        requires
            self.wf(),
        ensures
            b == self@.committed(threshold as nat),
    {
        self.in_favor.len() >= threshold as usize || self.opposed.len() >= threshold as usize
    }

    /// Records a `Prepare` of `peer` and reports the count of distinct peers
    /// that have prepared, and whether they are a quorum at `threshold`.
    pub fn record_prepare(&mut self, peer: PeerId, threshold: u32) -> (r: PrepareOutcome)
        requires
            old(self).wf(),
        ensures
            final(self).wf(),
            final(self)@ == old(self)@.record_prepare(peer@),
            r == final(self)@.prepare_outcome(threshold as nat),
    {
        self.prepare_votes.insert(peer);
        let count = self.prepare_votes.len();
        if count >= threshold as usize {
            PrepareOutcome::QuorumReached(count)
        } else {
            PrepareOutcome::BelowQuorum(count)
        }
    }

    /// Records a `Commit` of `peer` with `vote`, in the place of any earlier
    /// vote of that peer, and reports whether either side holds a quorum at
    /// `threshold`.
    pub fn record_commit(&mut self, peer: PeerId, vote: bool, threshold: u32) -> (r:
        CommitOutcome)
        requires
            old(self).wf(),
        ensures
            final(self).wf(),
            final(self)@ == old(self)@.record_commit(peer@, vote),
            r == final(self)@.commit_outcome(threshold as nat),
    {
        if vote {
            self.opposed.remove(&peer);
            self.in_favor.insert(peer);
        } else {
            self.in_favor.remove(&peer);
            self.opposed.insert(peer);
        }
        let in_favor = self.in_favor.len();
        let opposed = self.opposed.len();
        if in_favor >= threshold as usize || opposed >= threshold as usize {
            CommitOutcome::QuorumReached { in_favor, opposed }
        } else {
            CommitOutcome::BelowQuorum
        }
    }

    /// The decision that the commit votes give at `threshold`: accepted as
    /// valid where that many are in favour, else accepted as invalid where
    /// that many are against, else rejected.
    pub fn finalize(&self, threshold: u32) -> (o: Outcome)
        requires
            self.wf(),
        ensures
            o == self@.verdict(threshold as nat),
    {
        if self.in_favor.len() >= threshold as usize {
            Outcome::Accepted(true)
        } else if self.opposed.len() >= threshold as usize {
            Outcome::Accepted(false)
        } else {
            Outcome::Rejected
        }
    }
}

} // verus!
