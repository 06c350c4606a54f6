//! What holds of the state machine on every state and every event.

use vstd::prelude::*;
use crate::model::{NodeState, Step};
use crate::proposal::ProposalView;
use crate::role::quorum_threshold_of;
use crate::stage::ConsensusStage;
use crate::tracker::TrackerView;

verus! {

/// The state after the same message `p` from `origin` was taken in `times`
/// times in a row.
pub open spec fn on_messages(s: NodeState, p: ProposalView, origin: Seq<u8>, times: nat) -> NodeState
    decreases times,
{
    if times == 0 {
        s
    } else {
        on_messages(s, p, origin, (times - 1) as nat).on_message(p, origin).state
    }
}

/// Taking in a message keeps a well-formed state well formed.
pub proof fn lemma_on_message_keeps_wf(s: NodeState, p: ProposalView, origin: Seq<u8>)
    requires
        s.wf(),
    ensures
        s.on_message(p, origin).state.wf(),
{
    let key = p.proposal_key;
    let n = s.on_message(p, origin).state;
    assert(s.tracker(key).wf());
    assert(n.trackers.dom() =~= s.trackers.dom() || n.trackers.dom() =~= s.trackers.dom().insert(
        key,
    ) || n.trackers.dom() =~= s.trackers.dom().remove(key));
    assert(n.closed.dom() =~= s.closed.dom() || n.closed.dom() =~= s.closed.dom().insert(key));
}

/// However often one peer repeats its `Prepare` for one proposal, it adds
/// at most itself to the peers that have prepared: the count of that
/// proposal rises by one at most, and not at all where the peer had
/// prepared before.
pub proof fn lemma_duplicate_prepare_counts_once(
    s: NodeState,
    p: ProposalView,
    origin: Seq<u8>,
    times: nat,
)
    requires
        s.wf(),
        p.stage is Prepare,
    ensures
        on_messages(s, p, origin, times).wf(),
        on_messages(s, p, origin, times).tracker(p.proposal_key).prepare_votes.subset_of(
            s.tracker(p.proposal_key).prepare_votes.insert(origin),
        ),
        s.tracker(p.proposal_key).prepare_votes.subset_of(
            on_messages(s, p, origin, times).tracker(p.proposal_key).prepare_votes,
        ),
        on_messages(s, p, origin, times).tracker(p.proposal_key).prepare_count() <= s.tracker(
            p.proposal_key,
        ).prepare_count() + 1,
        s.tracker(p.proposal_key).prepare_votes.contains(origin) ==> on_messages(
            s,
            p,
            origin,
            times,
        ).tracker(p.proposal_key).prepare_count() == s.tracker(p.proposal_key).prepare_count(),
        on_messages(s, p, origin, times).is_closed(p.proposal_key) == s.is_closed(
            p.proposal_key,
        ),
        on_messages(s, p, origin, times).clock == s.clock,
    decreases times,
{
    let key = p.proposal_key;
    let v0 = s.tracker(key).prepare_votes;
    assert(s.tracker(key).wf());
    if times == 0 {
    } else {
        let m = on_messages(s, p, origin, (times - 1) as nat);
        lemma_duplicate_prepare_counts_once(s, p, origin, (times - 1) as nat);
        lemma_on_message_keeps_wf(m, p, origin);
        let n = m.on_message(p, origin).state;
        let vm = m.tracker(key).prepare_votes;
        let vn = n.tracker(key).prepare_votes;
        assert(vn == vm || vn == vm.insert(origin));
        assert(vn.subset_of(v0.insert(origin)));
        assert(v0.subset_of(vn));
        assert(m.tracker(key).wf());
        assert(n.tracker(key).wf());
        vstd::set_lib::lemma_len_subset(vn, v0.insert(origin));
        vstd::set_lib::lemma_len_subset(v0, vn);
        if v0.contains(origin) {
            assert(v0.insert(origin) =~= v0);
        }
    }
}

/// With `3f + 1` participants a tracker reports a quorum of `Prepare`
/// exactly when at least `2f + 1` distinct peers have prepared, and a
/// quorum of `Commit` exactly when one side holds at least `2f + 1` peers.
pub proof fn lemma_quorum_is_two_f_plus_one(t: TrackerView, f: nat)
    ensures
        quorum_threshold_of(3 * f + 1) == 2 * f + 1,
        t.prepared(quorum_threshold_of(3 * f + 1)) <==> t.prepare_count() >= 2 * f + 1,
        t.committed(quorum_threshold_of(3 * f + 1)) <==> (t.in_favor_count() >= 2 * f + 1
            || t.opposed_count() >= 2 * f + 1),
        quorum_threshold_of(4) == 3,
{
    crate::role::lemma_quorum_of_full_set(f, t.prepare_count());
    crate::role::lemma_quorum_of_full_set(1, 0);
}

/// A `Result` for a proposal whose round is over changes nothing and sends
/// nothing, whoever sends it and whatever it says.
pub proof fn lemma_result_replay_is_silent(s: NodeState, p: ProposalView, origin: Seq<u8>)
    requires
        s.is_closed(p.proposal_key),
        p.stage is Result,
    ensures
        s.on_message(p, origin).state == s,
        !(s.on_message(p, origin).reply matches Ok(Some(_))),
        p.consistent() ==> s.on_message(p, origin) == s.discard(),
{
}

/// Once a `Result` has been taken in, taking it in again changes nothing
/// and sends nothing.
pub proof fn lemma_result_is_idempotent(
    s: NodeState,
    p: ProposalView,
    origin: Seq<u8>,
    again: Seq<u8>,
)
    requires
        p.stage is Result,
        p.consistent(),
    ensures
        s.on_message(p, origin).state.is_closed(p.proposal_key),
        s.on_message(p, origin).state.on_message(p, again) == (Step {
            state: s.on_message(p, origin).state,
            reply: Ok(None),
        }),
{
}

/// No message sets the round of any proposal back: the progress of every
/// key after the message is at least what it was before.
pub proof fn lemma_on_message_never_regresses(
    s: NodeState,
    p: ProposalView,
    origin: Seq<u8>,
    key: u64,
)
    requires
        s.wf(),
    ensures
        s.on_message(p, origin).state.progress(key) >= s.progress(key),
{
}

/// A client request sets the round of no proposal back.
pub proof fn lemma_submit_never_regresses(
    s: NodeState,
    client: Seq<char>,
    content: Seq<char>,
    key: u64,
)
    requires
        s.wf(),
    ensures
        s.submit_client_request(client, content).state.progress(key) >= s.progress(key),
{
}

/// Neither a tick nor a reset sets the round of any proposal back: what
/// they evict is over for good.
pub proof fn lemma_eviction_never_regresses(s: NodeState, now: u64, key: u64)
    requires
        s.wf(),
    ensures
        s.on_tick(now).progress(key) >= s.progress(key),
        s.reset().progress(key) >= s.progress(key),
        s.is_due(key, now) ==> s.on_tick(now).progress(key) == 6,
        s.is_tracked(key) ==> s.reset().progress(key) == 6,
{
}

/// Reports of discovery, votes recorded by hand, a proposal taken up by
/// hand and votes weighed again set the round of no proposal back.
pub proof fn lemma_bookkeeping_never_regresses(
    s: NodeState,
    peer: Seq<u8>,
    vote: bool,
    p: ProposalView,
    other: u64,
    key: u64,
)
    requires
        s.wf(),
    ensures
        s.on_peer_joined(peer).progress(key) == s.progress(key),
        s.on_peer_left(peer).progress(key) == s.progress(key),
        s.record_prepare(other, peer).progress(key) == s.progress(key),
        s.record_commit(other, peer, vote).progress(key) == s.progress(key),
        s.set_primary_proposal(p).progress(key) >= s.progress(key),
        s.log(p).progress(key) == s.progress(key),
        s.count_prepare().progress(key) == s.progress(key),
        s.reevaluate(other).state.progress(key) >= s.progress(key),
{
}

/// While a proposal is in flight, the stage at which the node holds it
/// never falls in the order
/// `RequestFromClient < PrePrepare < Prepare < Commit < Result`.
pub proof fn lemma_stage_never_falls(s: NodeState, p: ProposalView, origin: Seq<u8>, key: u64)
    requires
        s.wf(),
        s.is_tracked(key),
        s.trackers[key].proposal is Some,
        s.on_message(p, origin).state.is_tracked(key),
    ensures
        s.on_message(p, origin).state.trackers[key].proposal is Some,
        s.on_message(p, origin).state.trackers[key].proposal->0.stage.rank()
            >= s.trackers[key].proposal->0.stage.rank(),
{
    lemma_on_message_never_regresses(s, p, origin, key);
    lemma_on_message_keeps_wf(s, p, origin);
}

/// A transition that `advance` grants moves one stage up.
pub proof fn lemma_precedes_is_one_step(from: ConsensusStage, to: ConsensusStage)
    ensures
        from.precedes(to) ==> from.rank() < to.rank(),
        !(ConsensusStage::Result(crate::stage::Outcome::Rejected)).precedes(to),
{
}

} // verus!
