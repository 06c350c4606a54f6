//! The reactions of a node to the events it is fed: one inbound message, a
//! client request, a report of discovery. Each takes the state and the
//! event, and hands back what is to be broadcast, if anything.

use vstd::prelude::*;
use crate::error::ConsensusError;
use crate::metadata::PbftPeerMetadata;
use crate::model::{reply_view, Closure};
use crate::peer::{ids, PeerId};
use crate::proposal::{EventType, Proposal};
use crate::stage::{ConsensusStage, Outcome};

verus! {

/// Takes in a client request: the primary announces it to every peer,
/// unless it knows the key already; a secondary refuses it.
pub fn handle_request_from_client(proposal: Proposal, metadata: &mut PbftPeerMetadata) -> (r:
    Result<Option<EventType>, ConsensusError>)
    requires
        old(metadata).wf(),
    ensures
        final(metadata).wf(),
        final(metadata)@ == old(metadata)@.handle_request_from_client(proposal@).state,
        reply_view(r) == old(metadata)@.handle_request_from_client(proposal@).reply,
{
    match proposal.stage() {
        ConsensusStage::RequestFromClient => {},
        _ => {
            return Err(ConsensusError::StageContractViolation);
        },
    }
    if !metadata.is_primary() {
        return Err(ConsensusError::RoleViolation);
    }
    let key = proposal.proposal_key();
    if metadata.is_closed(key) || metadata.primary_proposal(key).is_some() {
        return Ok(None);
    }
    let next_proposal = proposal.to_pre_prepare();
    metadata.set_primary_proposal(&next_proposal);
    metadata.add_secondary_proposal(&next_proposal);
    Ok(Some(EventType::Send(next_proposal)))
}

/// Takes in an announcement: the node accepts it, casts its own `Prepare`
/// and says so to every peer, unless it has accepted one for this key
/// before.
pub fn handle_pre_prepare(proposal: Proposal, metadata: &mut PbftPeerMetadata) -> (r: Result<
    Option<EventType>,
    ConsensusError,
>)
    requires
        old(metadata).wf(),
    ensures
        final(metadata).wf(),
        final(metadata)@ == old(metadata)@.handle_pre_prepare(proposal@).state,
        reply_view(r) == old(metadata)@.handle_pre_prepare(proposal@).reply,
{
    match proposal.stage() {
        ConsensusStage::PrePrepare => {},
        _ => {
            return Err(ConsensusError::StageContractViolation);
        },
    }
    let key = proposal.proposal_key();
    if metadata.is_closed(key) {
        return Ok(None);
    }
    let accepted_before = match metadata.primary_proposal(key) {
        Some(p) => p.stage().ordinal() >= 2,
        None => false,
    };
    if accepted_before {
        return Ok(None);
    }
    let ghost before = metadata@;
    let threshold = metadata.quorum_threshold();
    let to_send = proposal.to_prepare();
    let mut t = metadata.take_tracker(key);
    t.set_proposal(to_send.clone());
    t.record_prepare(metadata.local_peer().clone(), threshold);
    metadata.put_tracker(key, t);
    metadata.add_secondary_proposal(&to_send);
    proof {
        assert(before.trackers.remove(key).insert(key, t@) =~= before.trackers.insert(key, t@));
    }
    Ok(Some(EventType::Send(to_send)))
}

/// Where a quorum has prepared for `key` and the node itself stands at
/// `Prepare`, the node commits with its own vote; the envelope to broadcast
/// is handed back. Otherwise nothing happens.
pub fn commit_if_prepared(metadata: &mut PbftPeerMetadata, key: u64) -> (r: Result<
    Option<EventType>,
    ConsensusError,
>)
    requires
        old(metadata).wf(),
    ensures
        final(metadata).wf(),
        final(metadata)@ == old(metadata)@.commit_if_prepared(key).state,
        reply_view(r) == old(metadata)@.commit_if_prepared(key).reply,
{
    if metadata.is_closed(key) || !metadata.is_tracked(key) {
        return Ok(None);
    }
    let ghost before = metadata@;
    let threshold = metadata.quorum_threshold();
    let vote = metadata.endorse();
    let mut t = metadata.take_tracker(key);
    let stands_at_prepare = match t.proposal() {
        Some(p) => match p.stage() {
            ConsensusStage::Prepare => true,
            _ => false,
        },
        None => false,
    };
    if t.is_prepared(threshold) && stands_at_prepare {
        let to_send = match t.take_proposal() {
            Some(p) => p.to_commit(vote),
            None => {
                metadata.put_tracker(key, t);
                return Ok(None);
            },
        };
        t.set_proposal(to_send.clone());
        t.record_commit(metadata.local_peer().clone(), vote, threshold);
        metadata.put_tracker(key, t);
        metadata.add_secondary_proposal(&to_send);
        proof {
            assert(before.trackers.remove(key).insert(key, t@) =~= before.trackers.insert(
                key,
                t@,
            ));
        }
        Ok(Some(EventType::Send(to_send)))
    } else {
        metadata.put_tracker(key, t);
        proof {
            assert(before.trackers.remove(key).insert(key, t@) =~= before.trackers);
        }
        Ok(None)
    }
}

/// Where one side of the commit votes for `key` holds a quorum and the node
/// itself stands at `Commit`, the round is decided; on the primary the
/// envelope to broadcast is handed back. Otherwise nothing happens.
pub fn decide_if_committed(metadata: &mut PbftPeerMetadata, key: u64) -> (r: Result<
    Option<EventType>,
    ConsensusError,
>)
    requires
        old(metadata).wf(),
    ensures
        final(metadata).wf(),
        final(metadata)@ == old(metadata)@.decide_if_committed(key).state,
        reply_view(r) == old(metadata)@.decide_if_committed(key).reply,
{
    if metadata.is_closed(key) || !metadata.is_tracked(key) {
        return Ok(None);
    }
    let ghost before = metadata@;
    let threshold = metadata.quorum_threshold();
    let mut t = metadata.take_tracker(key);
    let stands_at_commit = match t.proposal() {
        Some(p) => match p.stage() {
            ConsensusStage::Commit(_) => true,
            _ => false,
        },
        None => false,
    };
    if t.is_committed(threshold) && stands_at_commit {
        let outcome = t.finalize(threshold);
        let to_send = match t.take_proposal() {
            Some(p) => match outcome {
                Outcome::Accepted(valid) => p.to_accept_proposal(valid),
                Outcome::Rejected => p.to_reject_proposal(),
            },
            None => {
                metadata.put_tracker(key, t);
                return Ok(None);
            },
        };
        t.set_proposal(to_send.clone());
        metadata.put_tracker(key, t);
        metadata.add_secondary_proposal(&to_send);
        proof {
            assert(before.trackers.remove(key).insert(key, t@) =~= before.trackers.insert(
                key,
                t@,
            ));
        }
        if metadata.is_primary() {
            Ok(Some(EventType::Send(to_send)))
        } else {
            Ok(None)
        }
    } else {
        metadata.put_tracker(key, t);
        proof {
            assert(before.trackers.remove(key).insert(key, t@) =~= before.trackers);
        }
        Ok(None)
    }
}

/// Weighs the votes held for `key` against the threshold of the moment, as
/// after a change of the peer count, and takes the step that is due at the
/// stage of the node, if one is.
pub fn reevaluate(metadata: &mut PbftPeerMetadata, key: u64) -> (r: Result<
    Option<EventType>,
    ConsensusError,
>)
    requires
        old(metadata).wf(),
    ensures
        final(metadata).wf(),
        final(metadata)@ == old(metadata)@.reevaluate(key).state,
        reply_view(r) == old(metadata)@.reevaluate(key).reply,
{
    let stands_at_prepare = match metadata.primary_proposal(key) {
        Some(p) => match p.stage() {
            ConsensusStage::Prepare => true,
            _ => false,
        },
        None => false,
    };
    if stands_at_prepare {
        commit_if_prepared(metadata, key)
    } else {
        decide_if_committed(metadata, key)
    }
}

/// Takes in a `Prepare` of `origin`: the vote is recorded, and where a
/// quorum has prepared and the node itself stands at `Prepare`, it commits
/// with its own vote and says so to every peer.
pub fn handle_prepare(proposal: Proposal, origin: &PeerId, metadata: &mut PbftPeerMetadata) -> (r:
    Result<Option<EventType>, ConsensusError>)
    requires
        old(metadata).wf(),
    ensures
        final(metadata).wf(),
        final(metadata)@ == old(metadata)@.handle_prepare(proposal@, origin@).state,
        reply_view(r) == old(metadata)@.handle_prepare(proposal@, origin@).reply,
{
    match proposal.stage() {
        ConsensusStage::Prepare => {},
        _ => {
            return Err(ConsensusError::StageContractViolation);
        },
    }
    let key = proposal.proposal_key();
    if metadata.is_closed(key) {
        return Ok(None);
    }
    metadata.count_prepare();
    metadata.record_prepare(key, origin);
    commit_if_prepared(metadata, key)
}

/// Takes in a `Commit` of `origin` with `vote`: the vote is recorded in the
/// place of an earlier one, and where one side holds a quorum and the node
/// itself stands at `Commit`, the round is decided; the primary says so to
/// every peer.
pub fn handle_commit(
    proposal: Proposal,
    origin: &PeerId,
    metadata: &mut PbftPeerMetadata,
    vote: bool,
) -> (r: Result<Option<EventType>, ConsensusError>)
    requires
        old(metadata).wf(),
    ensures
        final(metadata).wf(),
        final(metadata)@ == old(metadata)@.handle_commit(proposal@, origin@, vote).state,
        reply_view(r) == old(metadata)@.handle_commit(proposal@, origin@, vote).reply,
{
    match proposal.stage() {
        ConsensusStage::Commit(v) => {
            if v != vote {
                return Err(ConsensusError::StageContractViolation);
            }
        },
        _ => {
            return Err(ConsensusError::StageContractViolation);
        },
    }
    let key = proposal.proposal_key();
    if metadata.is_closed(key) {
        return Ok(None);
    }
    metadata.record_commit(key, origin, vote);
    decide_if_committed(metadata, key)
}

/// Takes in a `Result` with `outcome`: the round is over and its tracker is
/// evicted. A round that is over already stays as it is.
pub fn handle_result(proposal: Proposal, metadata: &mut PbftPeerMetadata, outcome: Outcome) -> (r:
    Result<Option<EventType>, ConsensusError>)
    requires
        old(metadata).wf(),
    ensures
        final(metadata).wf(),
        final(metadata)@ == old(metadata)@.handle_result(proposal@, outcome).state,
        reply_view(r) == old(metadata)@.handle_result(proposal@, outcome).reply,
{
    match proposal.stage() {
        ConsensusStage::Result(o) => {
            if o != outcome {
                return Err(ConsensusError::StageContractViolation);
            }
        },
        _ => {
            return Err(ConsensusError::StageContractViolation);
        },
    }
    let key = proposal.proposal_key();
    if metadata.is_closed(key) {
        return Ok(None);
    }
    metadata.close(key, Closure::Finalized(outcome));
    metadata.add_secondary_proposal(&proposal);
    Ok(None)
}

/// Takes in one message from `origin`: a proposal whose key is not the one
/// its client and content give is refused as malformed; any other goes to
/// the handler of its stage. Hands back what is to be broadcast, if
/// anything.
pub fn on_message(metadata: &mut PbftPeerMetadata, envelope: EventType, origin: &PeerId) -> (r:
    Result<Option<EventType>, ConsensusError>)
    requires
        old(metadata).wf(),
    ensures
        final(metadata).wf(),
        final(metadata)@ == old(metadata)@.on_message(envelope@, origin@).state,
        reply_view(r) == old(metadata)@.on_message(envelope@, origin@).reply,
{
    let proposal = envelope.into_proposal();
    if !proposal.is_consistent() {
        return Err(ConsensusError::DecodeError);
    }
    match proposal.stage() {
        ConsensusStage::RequestFromClient => handle_request_from_client(proposal, metadata),
        ConsensusStage::PrePrepare => handle_pre_prepare(proposal, metadata),
        ConsensusStage::Prepare => handle_prepare(proposal, origin, metadata),
        ConsensusStage::Commit(vote) => handle_commit(proposal, origin, metadata, vote),
        ConsensusStage::Result(outcome) => handle_result(proposal, metadata, outcome),
    }
}

/// Takes in the request that `client` makes with `content`. On the primary
/// the request is announced, unless its key is known already; a secondary
/// refuses it. Hands back the key of the request and what is to be
/// broadcast, if anything.
pub fn submit_client_request(metadata: &mut PbftPeerMetadata, client: String, content: String) -> (r:
    Result<(u64, Option<EventType>), ConsensusError>)
    requires
        old(metadata).wf(),
    ensures
        final(metadata).wf(),
        final(metadata)@ == old(metadata)@.submit_client_request(client@, content@).state,
        match r {
            Ok((key, out)) => key == crate::proposal::proposal_key_of(client@, content@)
                && reply_view(Ok(out)) == old(metadata)@.submit_client_request(
                client@,
                content@,
            ).reply,
            Err(e) => old(metadata)@.submit_client_request(client@, content@).reply == Err::<
                Option<crate::proposal::ProposalView>,
                ConsensusError,
            >(e),
        },
{
    let proposal = Proposal::new_request(client, content);
    let key = proposal.proposal_key();
    match handle_request_from_client(proposal, metadata) {
        Ok(out) => Ok((key, out)),
        Err(e) => Err(e),
    }
}

/// Takes note of the peers that discovery reported, in turn.
pub fn mdns_discover_peer(metadata: &mut PbftPeerMetadata, list: &Vec<PeerId>)
    requires
        old(metadata).wf(),
    ensures
        final(metadata).wf(),
        final(metadata)@ == old(metadata)@.on_peers_joined(ids(list@)),
{
    let mut i: usize = 0;
    while i < list.len()
        invariant
            i <= list.len(),
            metadata.wf(),
            metadata@ == old(metadata)@.on_peers_joined(ids(list@).take(i as int)),
        decreases list.len() - i,
    {
        proof {
            assert(ids(list@).take(i + 1).drop_last() =~= ids(list@).take(i as int));
            assert(ids(list@).take(i + 1).last() == list@[i as int]@);
        }
        metadata.on_peer_joined(&list[i]);
        i += 1;
    }
    proof {
        assert(ids(list@).take(i as int) =~= ids(list@));
    }
}

/// Takes note of the peers that discovery withdrew, in turn.
pub fn mdns_expired_peer(metadata: &mut PbftPeerMetadata, list: &Vec<PeerId>)
    requires
        old(metadata).wf(),
    ensures
        final(metadata).wf(),
        final(metadata)@ == old(metadata)@.on_peers_left(ids(list@)),
{
    let mut i: usize = 0;
    while i < list.len()
        invariant
            i <= list.len(),
            metadata.wf(),
            metadata@ == old(metadata)@.on_peers_left(ids(list@).take(i as int)),
        decreases list.len() - i,
    {
        proof {
            assert(ids(list@).take(i + 1).drop_last() =~= ids(list@).take(i as int));
            assert(ids(list@).take(i + 1).last() == list@[i as int]@);
        }
        metadata.on_peer_left(&list[i]);
        i += 1;
    }
    proof {
        assert(ids(list@).take(i as int) =~= ids(list@));
    }
}

} // verus!
