use pbft_node::{
    handle_commit, handle_pre_prepare, handle_prepare, handle_request_from_client, handle_result,
    mdns_discover_peer, mdns_expired_peer, on_message, submit_client_request, Closure,
    CommitOutcome, ConsensusError, ConsensusStage, EventType, NodeRole, Outcome, PbftPeerMetadata,
    PeerId, PrepareOutcome, Proposal, PBFT_TIME,
};

fn peer(n: u8) -> PeerId {
    PeerId::from_bytes(vec![n])
}

fn node(n: u8, is_primary: bool, peer_count: u32) -> PbftPeerMetadata {
    PbftPeerMetadata::with_identity(peer(n), NodeRole::new(is_primary, peer_count))
}

fn request() -> Proposal {
    Proposal::new_request("clientA".to_string(), "do-X".to_string())
}

fn at(stage: ConsensusStage) -> Proposal {
    let r = request();
    Proposal::from_parts(stage, r.client().to_string(), r.content().to_string(), r.proposal_key())
}

fn stage_of(m: &PbftPeerMetadata, key: u64) -> Option<ConsensusStage> {
    m.primary_proposal(key).map(|p| p.stage())
}

/// Hands every message to every node until nothing is left to send, and
/// gives back what was sent, in order.
fn run_to_quiet(nodes: &mut Vec<PbftPeerMetadata>, first: Vec<(usize, EventType)>) -> Vec<(usize, ConsensusStage)> {
    let mut queue = first;
    let mut sent = Vec::new();
    while !queue.is_empty() {
        let (from, envelope) = queue.remove(0);
        sent.push((from, envelope.proposal().stage()));
        let origin = nodes[from].local_peer().clone();
        for i in 0..nodes.len() {
            let reply = on_message(&mut nodes[i], envelope.clone(), &origin).unwrap();
            if let Some(out) = reply {
                queue.push((i, out));
            }
        }
    }
    sent
}

#[test]
fn happy_path_four_peers_accepts() {
    let mut nodes = vec![node(1, true, 4), node(2, false, 4), node(3, false, 4), node(4, false, 4)];
    assert_eq!(nodes[0].quorum_threshold(), 3);
    let (key, out) = submit_client_request(&mut nodes[0], "clientA".to_string(), "do-X".to_string()).unwrap();
    assert_eq!(key, 0x5bf8_bbbf_d717_824e);
    let announce = out.unwrap();
    assert_eq!(announce.proposal().stage(), ConsensusStage::PrePrepare);
    assert_eq!(stage_of(&nodes[0], key), Some(ConsensusStage::PrePrepare));

    let sent = run_to_quiet(&mut nodes, vec![(0, announce)]);

    let prepares = sent.iter().filter(|(_, s)| *s == ConsensusStage::Prepare).count();
    let commits = sent.iter().filter(|(_, s)| *s == ConsensusStage::Commit(true)).count();
    let results: Vec<&(usize, ConsensusStage)> =
        sent.iter().filter(|(_, s)| matches!(s, ConsensusStage::Result(_))).collect();
    assert_eq!(prepares, 4);
    assert_eq!(commits, 4);
    assert_eq!(results.len(), 1);
    assert_eq!(*results[0], (0, ConsensusStage::Result(Outcome::Accepted(true))));
    for n in nodes.iter() {
        assert_eq!(n.closure(key), Some(Closure::Finalized(Outcome::Accepted(true))));
        assert!(!n.is_tracked(key));
        assert_eq!(n.in_flight(), 0);
    }
}

#[test]
fn prepare_quorum_is_reached_at_the_third_distinct_peer() {
    let mut m = node(2, false, 4);
    let key = request().proposal_key();
    assert_eq!(handle_pre_prepare(at(ConsensusStage::PrePrepare), &mut m).unwrap().unwrap().proposal().stage(), ConsensusStage::Prepare);
    assert_eq!(m.tracker(key).unwrap().prepare_count(), 1);
    assert!(on_message(&mut m, EventType::Send(at(ConsensusStage::Prepare)), &peer(1)).unwrap().is_none());
    assert_eq!(m.tracker(key).unwrap().prepare_count(), 2);
    let out = on_message(&mut m, EventType::Send(at(ConsensusStage::Prepare)), &peer(3)).unwrap().unwrap();
    assert_eq!(out.proposal().stage(), ConsensusStage::Commit(true));
    assert_eq!(m.tracker(key).unwrap().prepare_count(), 3);
    assert_eq!(m.tracker(key).unwrap().in_favor(), 1);
    assert_eq!(stage_of(&m, key), Some(ConsensusStage::Commit(true)));
    assert!(on_message(&mut m, EventType::Send(at(ConsensusStage::Prepare)), &peer(4)).unwrap().is_none());
    assert_eq!(m.tracker(key).unwrap().prepare_count(), 4);
}

#[test]
fn split_commits_time_out_as_abandoned() {
    let mut m = node(1, true, 4);
    let (key, out) = submit_client_request(&mut m, "clientA".to_string(), "do-X".to_string()).unwrap();
    let prepare = on_message(&mut m, out.unwrap(), &peer(1)).unwrap().unwrap();
    assert!(on_message(&mut m, prepare.clone(), &peer(1)).unwrap().is_none());
    assert!(on_message(&mut m, prepare.clone(), &peer(2)).unwrap().is_none());
    let commit = on_message(&mut m, prepare, &peer(3)).unwrap().unwrap();
    assert_eq!(commit.proposal().stage(), ConsensusStage::Commit(true));
    assert!(on_message(&mut m, EventType::Send(at(ConsensusStage::Commit(true))), &peer(2)).unwrap().is_none());
    assert!(on_message(&mut m, EventType::Send(at(ConsensusStage::Commit(false))), &peer(3)).unwrap().is_none());
    assert!(on_message(&mut m, EventType::Send(at(ConsensusStage::Commit(false))), &peer(4)).unwrap().is_none());
    let t = m.tracker(key).unwrap();
    assert_eq!((t.in_favor(), t.opposed()), (2, 2));
    assert!(!t.is_committed(3));
    assert_eq!(stage_of(&m, key), Some(ConsensusStage::Commit(true)));
    assert_eq!(m.closure(key), None);

    assert_eq!(m.on_tick(PBFT_TIME - 1), Vec::<u64>::new());
    assert!(m.is_tracked(key));
    assert_eq!(m.on_tick(PBFT_TIME), vec![key]);
    assert!(!m.is_tracked(key));
    assert_eq!(m.closure(key), Some(Closure::Abandoned));
    assert_eq!(m.clock(), PBFT_TIME);
    assert!(on_message(&mut m, EventType::Send(at(ConsensusStage::Commit(true))), &peer(4)).unwrap().is_none());
    assert!(!m.is_tracked(key));
}

#[test]
fn secondary_refuses_a_client_request() {
    let mut m = node(2, false, 4);
    let r = submit_client_request(&mut m, "clientA".to_string(), "do-X".to_string());
    assert_eq!(r.err(), Some(ConsensusError::RoleViolation));
    assert_eq!(m.in_flight(), 0);
    assert!(m.secondary_proposals().is_empty());
    let r = on_message(&mut m, EventType::Send(request()), &peer(1));
    assert_eq!(r.err(), Some(ConsensusError::RoleViolation));
    assert_eq!(m.in_flight(), 0);
}

#[test]
fn duplicate_pre_prepare_is_discarded() {
    let mut m = node(2, false, 4);
    let key = request().proposal_key();
    let first = on_message(&mut m, EventType::Send(at(ConsensusStage::PrePrepare)), &peer(1)).unwrap();
    assert_eq!(first.unwrap().proposal().stage(), ConsensusStage::Prepare);
    let second = on_message(&mut m, EventType::Send(at(ConsensusStage::PrePrepare)), &peer(1)).unwrap();
    assert!(second.is_none());
    assert_eq!(stage_of(&m, key), Some(ConsensusStage::Prepare));
    assert_eq!(m.secondary_proposals().len(), 1);
    assert_eq!(m.tracker(key).unwrap().prepare_count(), 1);
}

#[test]
fn duplicate_prepares_of_one_peer_count_once() {
    let mut m = node(2, false, 7);
    let key = request().proposal_key();
    for _ in 0..5 {
        assert!(on_message(&mut m, EventType::Send(at(ConsensusStage::Prepare)), &peer(9)).unwrap().is_none());
    }
    assert_eq!(m.tracker(key).unwrap().prepare_count(), 1);
    assert!(m.tracker(key).unwrap().has_prepared(&peer(9)));
    assert_eq!(m.recipient_count(), 5);
    assert_eq!(m.record_prepare(key, &peer(9)), PrepareOutcome::BelowQuorum(1));
    assert_eq!(m.record_prepare(key, &peer(8)), PrepareOutcome::BelowQuorum(2));
}

#[test]
fn replayed_result_changes_nothing() {
    let mut m = node(2, false, 4);
    let key = request().proposal_key();
    let result = at(ConsensusStage::Result(Outcome::Accepted(true)));
    assert!(on_message(&mut m, EventType::Send(result.clone()), &peer(1)).unwrap().is_none());
    assert_eq!(m.closure(key), Some(Closure::Finalized(Outcome::Accepted(true))));
    let logged = m.secondary_proposals().len();
    let again = at(ConsensusStage::Result(Outcome::Rejected));
    assert!(on_message(&mut m, EventType::Send(result), &peer(1)).unwrap().is_none());
    assert!(on_message(&mut m, EventType::Send(again), &peer(3)).unwrap().is_none());
    assert_eq!(m.closure(key), Some(Closure::Finalized(Outcome::Accepted(true))));
    assert_eq!(m.secondary_proposals().len(), logged);
    assert_eq!(m.in_flight(), 0);
}

#[test]
fn stage_never_falls_on_one_node() {
    let mut m = node(1, true, 1);
    let key = request().proposal_key();
    let mut seen = vec![0u8];
    let script = vec![
        at(ConsensusStage::Prepare),
        at(ConsensusStage::RequestFromClient),
        at(ConsensusStage::Commit(true)),
        at(ConsensusStage::PrePrepare),
        at(ConsensusStage::RequestFromClient),
        at(ConsensusStage::PrePrepare),
        at(ConsensusStage::Prepare),
        at(ConsensusStage::PrePrepare),
        at(ConsensusStage::Commit(true)),
        at(ConsensusStage::Prepare),
        at(ConsensusStage::Result(Outcome::Accepted(true))),
        at(ConsensusStage::PrePrepare),
        at(ConsensusStage::RequestFromClient),
    ];
    for p in script {
        let _ = on_message(&mut m, EventType::Send(p), &peer(5)).unwrap();
        let now = if m.is_closed(key) { 6 } else { stage_of(&m, key).map(|s| s.ordinal() + 1).unwrap_or(0) };
        assert!(now >= *seen.last().unwrap());
        seen.push(now);
    }
    assert_eq!(*seen.last().unwrap(), 6);
}

#[test]
fn out_of_order_votes_are_kept_until_the_node_catches_up() {
    let mut m = node(2, false, 4);
    let key = request().proposal_key();
    for n in [1u8, 3, 4] {
        assert!(on_message(&mut m, EventType::Send(at(ConsensusStage::Prepare)), &peer(n)).unwrap().is_none());
        assert!(on_message(&mut m, EventType::Send(at(ConsensusStage::Commit(true))), &peer(n)).unwrap().is_none());
    }
    assert_eq!(stage_of(&m, key), None);
    let prepare = on_message(&mut m, EventType::Send(at(ConsensusStage::PrePrepare)), &peer(1)).unwrap().unwrap();
    assert_eq!(prepare.proposal().stage(), ConsensusStage::Prepare);
    let commit = on_message(&mut m, prepare, &peer(2)).unwrap().unwrap();
    assert_eq!(commit.proposal().stage(), ConsensusStage::Commit(true));
    let decided = on_message(&mut m, commit, &peer(2)).unwrap();
    assert!(decided.is_none());
    assert_eq!(stage_of(&m, key), Some(ConsensusStage::Result(Outcome::Accepted(true))));
    assert_eq!(m.on_tick(100), Vec::<u64>::new());
    assert_eq!(m.closure(key), Some(Closure::Finalized(Outcome::Accepted(true))));
}

#[test]
fn quorum_against_gives_accepted_false() {
    let mut m = node(1, true, 4);
    m.set_endorse(false);
    let (key, out) = submit_client_request(&mut m, "clientA".to_string(), "do-X".to_string()).unwrap();
    let prepare = on_message(&mut m, out.unwrap(), &peer(1)).unwrap().unwrap();
    assert!(on_message(&mut m, prepare.clone(), &peer(2)).unwrap().is_none());
    let commit = on_message(&mut m, prepare, &peer(3)).unwrap().unwrap();
    assert_eq!(commit.proposal().stage(), ConsensusStage::Commit(false));
    assert!(on_message(&mut m, EventType::Send(at(ConsensusStage::Commit(true))), &peer(2)).unwrap().is_none());
    assert!(on_message(&mut m, EventType::Send(at(ConsensusStage::Commit(false))), &peer(3)).unwrap().is_none());
    assert_eq!(m.finalize(key), Outcome::Rejected);
    let result = on_message(&mut m, EventType::Send(at(ConsensusStage::Commit(false))), &peer(2)).unwrap().unwrap();
    assert_eq!(result.proposal().stage(), ConsensusStage::Result(Outcome::Accepted(false)));
    assert_eq!(m.finalize(key), Outcome::Accepted(false));
}

#[test]
fn last_commit_vote_of_a_peer_wins() {
    let mut m = node(2, false, 4);
    let key = 77;
    assert_eq!(m.record_commit(key, &peer(1), true), CommitOutcome::BelowQuorum);
    assert_eq!(m.record_commit(key, &peer(1), false), CommitOutcome::BelowQuorum);
    assert_eq!(m.tracker(key).unwrap().commit_vote(&peer(1)), Some(false));
    assert_eq!((m.tracker(key).unwrap().in_favor(), m.tracker(key).unwrap().opposed()), (0, 1));
    assert_eq!(m.record_commit(key, &peer(2), false), CommitOutcome::BelowQuorum);
    assert_eq!(m.record_commit(key, &peer(1), true), CommitOutcome::BelowQuorum);
    assert_eq!(m.record_commit(key, &peer(3), false), CommitOutcome::BelowQuorum);
    assert_eq!(
        m.record_commit(key, &peer(1), false),
        CommitOutcome::QuorumReached { in_favor: 0, opposed: 3 }
    );
    assert_eq!(m.tracker(key).unwrap().commit_vote(&peer(9)), None);
    assert_eq!(m.finalize(key), Outcome::Accepted(false));
    assert_eq!(m.finalize(78), Outcome::Rejected);
}

#[test]
fn message_with_a_wrong_key_is_refused() {
    let mut m = node(2, false, 4);
    let forged = Proposal::from_parts(ConsensusStage::PrePrepare, "clientA".to_string(), "do-X".to_string(), 1);
    assert!(!forged.is_consistent());
    let r = on_message(&mut m, EventType::Send(forged), &peer(1));
    assert_eq!(r.err(), Some(ConsensusError::DecodeError));
    assert_eq!(m.in_flight(), 0);
}

#[test]
fn handlers_refuse_a_proposal_at_another_stage() {
    let mut m = node(1, true, 4);
    let e = Some(ConsensusError::StageContractViolation);
    assert_eq!(handle_request_from_client(at(ConsensusStage::Prepare), &mut m).err(), e);
    assert_eq!(handle_pre_prepare(at(ConsensusStage::Prepare), &mut m).err(), e);
    assert_eq!(handle_prepare(at(ConsensusStage::PrePrepare), &peer(2), &mut m).err(), e);
    assert_eq!(handle_commit(at(ConsensusStage::Commit(true)), &peer(2), &mut m, false).err(), e);
    assert_eq!(handle_result(at(ConsensusStage::Commit(true)), &mut m, Outcome::Rejected).err(), e);
    assert_eq!(m.in_flight(), 0);
    assert_eq!(request().advance(ConsensusStage::Prepare).err(), e);
    assert_eq!(
        request().advance(ConsensusStage::PrePrepare).unwrap().stage(),
        ConsensusStage::PrePrepare
    );
}

#[test]
fn primary_discards_a_request_it_knows() {
    let mut m = node(1, true, 4);
    let (key, first) = submit_client_request(&mut m, "clientA".to_string(), "do-X".to_string()).unwrap();
    assert!(first.is_some());
    let (again, second) = submit_client_request(&mut m, "clientA".to_string(), "do-X".to_string()).unwrap();
    assert_eq!(again, key);
    assert!(second.is_none());
    assert_eq!(m.in_flight(), 1);
    let (other, third) = submit_client_request(&mut m, "clientA".to_string(), "do-Y".to_string()).unwrap();
    assert_eq!(other, 0x5bf8_bcbf_d717_8401);
    assert!(third.is_some());
    assert_eq!(m.in_flight(), 2);
}

#[test]
fn discovery_counts_each_peer_once() {
    let mut m = node(1, true, 1);
    assert_eq!(m.quorum_threshold(), 1);
    mdns_discover_peer(&mut m, &vec![peer(2), peer(2), peer(3), peer(1), peer(4)]);
    assert_eq!(m.role().peer_count, 4);
    assert_eq!(m.quorum_threshold(), 3);
    assert!(!m.on_peer_joined(&peer(3)));
    assert!(m.on_peer_joined(&peer(5)));
    assert_eq!(m.role().peer_count, 5);
    mdns_expired_peer(&mut m, &vec![peer(5), peer(5), peer(9)]);
    assert_eq!(m.role().peer_count, 4);
    assert!(m.on_peer_left(&peer(2)));
    assert!(!m.on_peer_left(&peer(2)));
    assert_eq!(m.role().peer_count, 3);
    assert_eq!(m.quorum_threshold(), 1);
}

#[test]
fn threshold_follows_the_peer_count_of_the_moment() {
    let mut m = node(2, false, 4);
    let key = request().proposal_key();
    let prepare = on_message(&mut m, EventType::Send(at(ConsensusStage::PrePrepare)), &peer(1)).unwrap().unwrap();
    for n in [5u8, 6, 7] {
        m.on_peer_joined(&peer(n));
    }
    assert_eq!(m.quorum_threshold(), 5);
    assert!(on_message(&mut m, prepare.clone(), &peer(1)).unwrap().is_none());
    assert!(on_message(&mut m, prepare.clone(), &peer(3)).unwrap().is_none());
    assert_eq!(m.tracker(key).unwrap().prepare_count(), 3);
    for n in [5u8, 6, 7] {
        m.on_peer_left(&peer(n));
    }
    assert_eq!(m.quorum_threshold(), 3);
    let out = on_message(&mut m, prepare, &peer(3)).unwrap().unwrap();
    assert_eq!(out.proposal().stage(), ConsensusStage::Commit(true));
}

#[test]
fn reset_gives_up_what_is_in_flight() {
    let mut m = node(1, true, 4);
    let (key, _) = submit_client_request(&mut m, "clientA".to_string(), "do-X".to_string()).unwrap();
    m.increment_count();
    m.reset();
    assert_eq!(m.in_flight(), 0);
    assert!(m.secondary_proposals().is_empty());
    assert_eq!(m.closure(key), Some(Closure::Abandoned));
    assert!(m.is_primary());
    assert_eq!(m.recipient_count(), 1);
    assert_eq!(m.role().peer_count, 4);
    let (_, out) = submit_client_request(&mut m, "clientA".to_string(), "do-X".to_string()).unwrap();
    assert!(out.is_none());
}

#[test]
fn fresh_node_is_a_lone_secondary() {
    let mut m = PbftPeerMetadata::new();
    assert!(!m.is_primary());
    assert_eq!(m.role(), NodeRole::new(false, 1));
    assert_eq!(m.recipient_count(), 0);
    assert_eq!(m.clock(), 0);
    assert!(m.endorse());
    assert_eq!(m.local_peer().as_bytes().len(), 0);
    m.set_primary();
    assert!(m.is_primary());
    assert_eq!(m.role().peer_count, 1);
}

#[test]
fn first_proposal_taken_up_stays() {
    let mut m = node(1, true, 4);
    let key = request().proposal_key();
    m.set_primary_proposal(&at(ConsensusStage::PrePrepare));
    m.set_primary_proposal(&at(ConsensusStage::Commit(false)));
    assert_eq!(stage_of(&m, key), Some(ConsensusStage::PrePrepare));
    m.add_secondary_proposal(&at(ConsensusStage::Prepare));
    m.add_secondary_proposal(&at(ConsensusStage::Commit(true)));
    assert_eq!(m.secondary_proposals().len(), 2);
    assert_eq!(m.secondary_proposals()[1], at(ConsensusStage::Commit(true)));
    assert_eq!(m.tracker(key).unwrap().deadline(), PBFT_TIME);
}

#[test]
fn deadline_is_counted_from_the_tick_of_the_first_sighting() {
    let mut m = node(2, false, 4);
    assert_eq!(m.on_tick(10), Vec::<u64>::new());
    assert_eq!(m.on_tick(4), Vec::<u64>::new());
    assert_eq!(m.clock(), 10);
    m.record_prepare(5, &peer(1));
    assert_eq!(m.tracker(5).unwrap().deadline(), 16);
    m.on_tick(u64::MAX - 1);
    m.record_prepare(6, &peer(1));
    assert_eq!(m.tracker(6).unwrap().deadline(), u64::MAX);
    assert_eq!(m.closure(5), Some(Closure::Abandoned));
}

#[test]
fn decision_tells_decided_pending_and_given_up_apart() {
    let mut m = node(2, false, 4);
    let key = request().proposal_key();
    assert_eq!(m.decision(key), Ok(None));
    m.record_prepare(key, &peer(1));
    assert_eq!(m.decision(key), Ok(None));
    m.record_prepare(9, &peer(1));
    let _ = on_message(
        &mut m,
        EventType::Send(at(ConsensusStage::Result(Outcome::Accepted(false)))),
        &peer(1),
    );
    assert_eq!(m.decision(key), Ok(Some(Outcome::Accepted(false))));
    assert_eq!(m.on_tick(PBFT_TIME), vec![9]);
    assert_eq!(m.decision(9), Err(ConsensusError::QuorumTimeout));
    assert_eq!(m.decision(10), Ok(None));
}

#[test]
fn votes_are_weighed_again_when_the_peer_set_shrinks() {
    let mut m = node(1, true, 7);
    let (key, out) = submit_client_request(&mut m, "clientA".to_string(), "do-X".to_string()).unwrap();
    let prepare = on_message(&mut m, out.unwrap(), &peer(1)).unwrap().unwrap();
    assert!(on_message(&mut m, prepare.clone(), &peer(2)).unwrap().is_none());
    assert!(on_message(&mut m, prepare, &peer(3)).unwrap().is_none());
    assert_eq!(m.quorum_threshold(), 5);
    assert!(pbft_node::reevaluate(&mut m, key).unwrap().is_none());
    assert_eq!(m.in_flight_keys(), vec![key]);

    mdns_discover_peer(&mut m, &vec![peer(5), peer(6), peer(7)]);
    assert_eq!(m.role().peer_count, 10);
    mdns_expired_peer(&mut m, &vec![peer(5), peer(6), peer(7)]);
    assert_eq!(m.role().peer_count, 7);
    for n in [11u8, 12, 13] {
        m.on_peer_joined(&peer(n));
    }
    for n in [11u8, 12, 13] {
        m.on_peer_left(&peer(n));
    }
    assert_eq!(m.quorum_threshold(), 5);
    let mut small = node(1, true, 4);
    let (key, out) = submit_client_request(&mut small, "clientA".to_string(), "do-X".to_string()).unwrap();
    let prepare = on_message(&mut small, out.unwrap(), &peer(1)).unwrap().unwrap();
    small.on_peer_joined(&peer(8));
    small.on_peer_joined(&peer(9));
    small.on_peer_joined(&peer(10));
    assert_eq!(small.quorum_threshold(), 5);
    assert!(on_message(&mut small, prepare.clone(), &peer(2)).unwrap().is_none());
    assert!(on_message(&mut small, prepare, &peer(3)).unwrap().is_none());
    assert!(pbft_node::reevaluate(&mut small, key).unwrap().is_none());
    small.on_peer_left(&peer(8));
    small.on_peer_left(&peer(9));
    small.on_peer_left(&peer(10));
    assert_eq!(small.quorum_threshold(), 3);
    let commit = pbft_node::reevaluate(&mut small, key).unwrap().unwrap();
    assert_eq!(commit.proposal().stage(), ConsensusStage::Commit(true));
    assert!(pbft_node::reevaluate(&mut small, key).unwrap().is_none());
    small.record_commit(key, &peer(2), true);
    small.record_commit(key, &peer(3), true);
    let result = pbft_node::reevaluate(&mut small, key).unwrap().unwrap();
    assert_eq!(result.proposal().stage(), ConsensusStage::Result(Outcome::Accepted(true)));
    assert!(pbft_node::reevaluate(&mut small, key).unwrap().is_none());
    assert!(pbft_node::reevaluate(&mut small, 12345).unwrap().is_none());
}
