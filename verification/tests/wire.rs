use pbft_node::{
    decode_event, encode_event, get_client_proposal, handle_gossip_message, key_to_text,
    text_to_key, ConsensusError, ConsensusStage, EventType, Json, NodeRole, Outcome,
    PbftPeerMetadata, PeerId, Proposal,
};
use pbft_node::wire::{outcome_from_json, proposal_from_json, stage_from_json};

fn all_stages() -> Vec<ConsensusStage> {
    vec![
        ConsensusStage::RequestFromClient,
        ConsensusStage::PrePrepare,
        ConsensusStage::Prepare,
        ConsensusStage::Commit(true),
        ConsensusStage::Commit(false),
        ConsensusStage::Result(Outcome::Accepted(true)),
        ConsensusStage::Result(Outcome::Accepted(false)),
        ConsensusStage::Result(Outcome::Rejected),
    ]
}

fn text(s: &str) -> Json {
    Json::Text(s.to_string())
}

fn object(members: Vec<(&str, Json)>) -> Json {
    Json::Object(members.into_iter().map(|(k, v)| (k.to_string(), v)).collect())
}

#[test]
fn key_is_written_as_sixteen_hex_digits() {
    assert_eq!(key_to_text(0), "0000000000000000");
    assert_eq!(key_to_text(0x5bf8_bbbf_d717_824e), "5bf8bbbfd717824e");
    assert_eq!(key_to_text(u64::MAX), "ffffffffffffffff");
    assert_eq!(key_to_text(0x0123_4567_89ab_cdef), "0123456789abcdef");
    assert_eq!(text_to_key("0123456789abcdef"), Some(0x0123_4567_89ab_cdef));
    assert_eq!(text_to_key("ffffffffffffffff"), Some(u64::MAX));
    assert_eq!(text_to_key("0000000000000010"), Some(16));
    assert_eq!(text_to_key("0123456789ABCDEF"), None);
    assert_eq!(text_to_key("123"), None);
    assert_eq!(text_to_key("00000000000000000"), None);
    assert_eq!(text_to_key("000000000000000g"), None);
    assert_eq!(text_to_key("00000000000000é0"), None);
    assert_eq!(text_to_key(""), None);
}

#[test]
fn envelope_is_written_with_stable_member_names() {
    let p = Proposal::new_request("clientA".to_string(), "do-X".to_string()).to_pre_prepare();
    assert_eq!(
        encode_event(&EventType::Send(p)).unwrap(),
        "{\"stage\":\"PrePrepare\",\"proposal_key\":\"5bf8bbbfd717824e\",\"client\":\"clientA\",\"content\":\"do-X\"}"
    );
    let p = Proposal::from_parts(ConsensusStage::Commit(false), "a\"b".to_string(), "x\ny\\".to_string(), 16);
    assert_eq!(
        encode_event(&EventType::Send(p)).unwrap(),
        "{\"stage\":{\"Commit\":{\"vote\":false}},\"proposal_key\":\"0000000000000010\",\"client\":\"a\\\"b\",\"content\":\"x\\ny\\\\\"}"
    );
    let p = Proposal::from_parts(ConsensusStage::Result(Outcome::Accepted(true)), "".to_string(), "".to_string(), 0);
    assert_eq!(
        encode_event(&EventType::Send(p)).unwrap(),
        "{\"stage\":{\"Result\":{\"outcome\":{\"Accepted\":{\"valid\":true}}}},\"proposal_key\":\"0000000000000000\",\"client\":\"\",\"content\":\"\"}"
    );
    let p = Proposal::from_parts(ConsensusStage::Result(Outcome::Rejected), "c".to_string(), "d".to_string(), 1);
    assert_eq!(
        encode_event(&EventType::Send(p)).unwrap(),
        "{\"stage\":{\"Result\":{\"outcome\":\"Rejected\"}},\"proposal_key\":\"0000000000000001\",\"client\":\"c\",\"content\":\"d\"}"
    );
}

#[test]
fn every_stage_survives_the_wire() {
    for stage in all_stages() {
        for (client, content) in [("clientA", "do-X"), ("", ""), ("q\"uo\\te", "line\nbreak\ttab \u{1F600} é \u{0}")] {
            let p = Proposal::from_parts(stage, client.to_string(), content.to_string(), 0xdead_beef_0000_0001);
            let text = encode_event(&EventType::Send(p.clone())).unwrap();
            let back = decode_event(text.as_bytes()).unwrap();
            assert_eq!(*back.proposal(), p);
        }
    }
}

#[test]
fn decoding_reads_members_in_any_order_and_passes_over_others() {
    let bytes = b" { \"content\" : \"do-X\", \"extra\": [1, 2.5, null], \"client\":\"clientA\",\n \"proposal_key\":\"5bf8bbbfd717824e\", \"stage\": {\"Commit\": {\"vote\": true, \"more\": 1}} } ";
    let e = decode_event(bytes).unwrap();
    assert_eq!(e.proposal().stage(), ConsensusStage::Commit(true));
    assert_eq!(e.proposal().client(), "clientA");
    assert_eq!(e.proposal().content(), "do-X");
    assert_eq!(e.proposal().proposal_key(), 0x5bf8_bbbf_d717_824e);
    assert!(e.proposal().is_consistent());
}

#[test]
fn malformed_envelopes_are_decode_errors() {
    let bad: Vec<&[u8]> = vec![
        b"",
        b"not json",
        b"[]",
        b"\"Prepare\"",
        b"{\"stage\":\"Prepare\",\"proposal_key\":\"5bf8bbbfd717824e\",\"client\":\"a\"}",
        b"{\"stage\":\"Prepare\",\"proposal_key\":\"5bf8bbbfd717824e\",\"content\":\"a\"}",
        b"{\"stage\":\"Prepare\",\"client\":\"a\",\"content\":\"b\"}",
        b"{\"proposal_key\":\"5bf8bbbfd717824e\",\"client\":\"a\",\"content\":\"b\"}",
        b"{\"stage\":\"Prepare\",\"proposal_key\":\"5bf8bbbfd717824\",\"client\":\"a\",\"content\":\"b\"}",
        b"{\"stage\":\"Prepare\",\"proposal_key\":\"5BF8BBBFD717824E\",\"client\":\"a\",\"content\":\"b\"}",
        b"{\"stage\":\"Prepare\",\"proposal_key\":6627253284297474638,\"client\":\"a\",\"content\":\"b\"}",
        b"{\"stage\":\"Prepare\",\"proposal_key\":\"5bf8bbbfd717824e\",\"client\":1,\"content\":\"b\"}",
        b"{\"stage\":\"Prepare\",\"proposal_key\":\"5bf8bbbfd717824e\",\"client\":\"a\",\"content\":null}",
        b"{\"stage\":\"ViewChange\",\"proposal_key\":\"5bf8bbbfd717824e\",\"client\":\"a\",\"content\":\"b\"}",
        b"{\"stage\":\"prepare\",\"proposal_key\":\"5bf8bbbfd717824e\",\"client\":\"a\",\"content\":\"b\"}",
        b"{\"stage\":\"Commit\",\"proposal_key\":\"5bf8bbbfd717824e\",\"client\":\"a\",\"content\":\"b\"}",
        b"{\"stage\":{\"Commit\":true},\"proposal_key\":\"5bf8bbbfd717824e\",\"client\":\"a\",\"content\":\"b\"}",
        b"{\"stage\":{\"Commit\":{\"vote\":\"yes\"}},\"proposal_key\":\"5bf8bbbfd717824e\",\"client\":\"a\",\"content\":\"b\"}",
        b"{\"stage\":{\"Commit\":{\"vote\":true},\"Prepare\":{}},\"proposal_key\":\"5bf8bbbfd717824e\",\"client\":\"a\",\"content\":\"b\"}",
        b"{\"stage\":{\"Prepare\":{}},\"proposal_key\":\"5bf8bbbfd717824e\",\"client\":\"a\",\"content\":\"b\"}",
        b"{\"stage\":{\"Result\":{\"outcome\":\"Accepted\"}},\"proposal_key\":\"5bf8bbbfd717824e\",\"client\":\"a\",\"content\":\"b\"}",
        b"{\"stage\":{\"Result\":{\"outcome\":{\"Rejected\":{}}}},\"proposal_key\":\"5bf8bbbfd717824e\",\"client\":\"a\",\"content\":\"b\"}",
        b"{\"stage\":{\"Result\":{\"outcome\":{\"Accepted\":{\"valid\":1}}}},\"proposal_key\":\"5bf8bbbfd717824e\",\"client\":\"a\",\"content\":\"b\"}",
        b"{\"stage\":{\"Result\":\"Rejected\"},\"proposal_key\":\"5bf8bbbfd717824e\",\"client\":\"a\",\"content\":\"b\"}",
        b"{\"stage\":\"Prepare\",\"proposal_key\":\"5bf8bbbfd717824e\",\"client\":\"a\",\"content\":\"b\"} trailing",
        b"{\"stage\":\"Prepare\",\"proposal_key\":\"5bf8bbbfd717824e\",\"client\":\"a\",\"content\":\"b\"",
    ];
    for bytes in bad {
        assert_eq!(decode_event(bytes).err(), Some(ConsensusError::DecodeError));
    }
}

#[test]
fn stage_is_read_from_its_json_form() {
    assert_eq!(stage_from_json(&text("RequestFromClient")), Some(ConsensusStage::RequestFromClient));
    assert_eq!(stage_from_json(&text("PrePrepare")), Some(ConsensusStage::PrePrepare));
    assert_eq!(stage_from_json(&text("Prepare")), Some(ConsensusStage::Prepare));
    assert_eq!(stage_from_json(&text("Rejected")), None);
    assert_eq!(stage_from_json(&Json::Null), None);
    assert_eq!(stage_from_json(&Json::Number), None);
    assert_eq!(stage_from_json(&Json::List(vec![text("Prepare")])), None);
    let commit = object(vec![("Commit", object(vec![("vote", Json::Bool(false))]))]);
    assert_eq!(stage_from_json(&commit), Some(ConsensusStage::Commit(false)));
    let accepted = object(vec![("Accepted", object(vec![("valid", Json::Bool(true))]))]);
    assert_eq!(outcome_from_json(&accepted), Some(Outcome::Accepted(true)));
    assert_eq!(outcome_from_json(&text("Rejected")), Some(Outcome::Rejected));
    assert_eq!(outcome_from_json(&text("Accepted")), None);
    assert_eq!(outcome_from_json(&Json::Bool(true)), None);
    let result = object(vec![("Result", object(vec![("outcome", accepted)]))]);
    assert_eq!(stage_from_json(&result), Some(ConsensusStage::Result(Outcome::Accepted(true))));
    let two = object(vec![("vote", Json::Bool(true)), ("vote", Json::Bool(false))]);
    assert_eq!(two.get("vote").and_then(|v| v.as_flag()), Some(true));
    assert!(two.get("valid").is_none());
    assert!(two.as_sole_member().is_none());
    assert!(text("x").get("x").is_none());
    assert_eq!(text("x").as_text(), Some("x"));
    assert_eq!(Json::Bool(true).as_text(), None);
}

#[test]
fn proposal_is_read_from_its_json_form() {
    let j = object(vec![
        ("stage", text("Prepare")),
        ("proposal_key", text("00000000000000ff")),
        ("client", text("c")),
        ("content", text("d")),
    ]);
    let p = proposal_from_json(&j).unwrap();
    assert_eq!(p, Proposal::from_parts(ConsensusStage::Prepare, "c".to_string(), "d".to_string(), 255));
    let j = object(vec![("stage", text("Prepare")), ("proposal_key", text("ff")), ("client", text("c")), ("content", text("d"))]);
    assert_eq!(proposal_from_json(&j).err(), Some(ConsensusError::DecodeError));
    assert_eq!(proposal_from_json(&Json::Null).err(), Some(ConsensusError::DecodeError));
}

#[test]
fn parser_names_the_parts_of_a_text() {
    let j = Json::parse(b"{\"b\":[true,null,\"x\",3],\"a\":{\"k\":false}}").unwrap();
    assert_eq!(j.get("a").unwrap().get("k").unwrap().as_flag(), Some(false));
    let (name, inner) = j.get("a").unwrap().as_sole_member().unwrap();
    assert_eq!(name, "k");
    assert_eq!(inner.as_flag(), Some(false));
    match j.get("b").unwrap() {
        Json::List(items) => {
            assert_eq!(items.len(), 4);
            assert_eq!(items[0].as_flag(), Some(true));
            assert!(matches!(items[1], Json::Null));
            assert_eq!(items[2].as_text(), Some("x"));
            assert!(matches!(items[3], Json::Number));
        },
        _ => panic!("not a list"),
    }
    assert!(Json::parse(b"{").is_none());
    assert_eq!(Json::quote("a\"b").unwrap(), "\"a\\\"b\"");
    assert_eq!(Json::quote("").unwrap(), "\"\"");
}

#[test]
fn client_file_gives_a_fresh_request() {
    let p = get_client_proposal(b"{\"client\":\"clientA\",\"content\":\"do-X\"}").unwrap();
    assert_eq!(p, Proposal::new_request("clientA".to_string(), "do-X".to_string()));
    let p = get_client_proposal(b"{\"stage\":\"Prepare\",\"client\":\"c\",\"content\":\"\"}").unwrap();
    assert_eq!(p.stage(), ConsensusStage::RequestFromClient);
    assert!(p.is_consistent());
    assert_eq!(get_client_proposal(b"{\"client\":\"c\"}").err(), Some(ConsensusError::DecodeError));
    assert_eq!(get_client_proposal(b"{\"client\":\"c\",\"content\":7}").err(), Some(ConsensusError::DecodeError));
    assert_eq!(get_client_proposal(b"oops").err(), Some(ConsensusError::DecodeError));
}

#[test]
fn gossip_bytes_go_through_the_state_machine() {
    let mut m = PbftPeerMetadata::with_identity(PeerId::from_bytes(vec![2]), NodeRole::new(false, 4));
    let origin = PeerId::from_bytes(vec![1]);
    let announce = b"{\"stage\":\"PrePrepare\",\"proposal_key\":\"5bf8bbbfd717824e\",\"client\":\"clientA\",\"content\":\"do-X\"}";
    let out = handle_gossip_message(&mut m, &origin, announce).unwrap().unwrap();
    assert_eq!(
        out,
        "{\"stage\":\"Prepare\",\"proposal_key\":\"5bf8bbbfd717824e\",\"client\":\"clientA\",\"content\":\"do-X\"}"
    );
    assert_eq!(handle_gossip_message(&mut m, &origin, announce).unwrap(), None);
    assert_eq!(handle_gossip_message(&mut m, &origin, b"{}").err(), Some(ConsensusError::DecodeError));
    let forged = b"{\"stage\":\"PrePrepare\",\"proposal_key\":\"0000000000000001\",\"client\":\"clientA\",\"content\":\"do-X\"}";
    assert_eq!(handle_gossip_message(&mut m, &origin, forged).err(), Some(ConsensusError::DecodeError));
    let request = b"{\"stage\":\"RequestFromClient\",\"proposal_key\":\"5bf8bcbfd7178401\",\"client\":\"clientA\",\"content\":\"do-Y\"}";
    assert_eq!(handle_gossip_message(&mut m, &origin, request).err(), Some(ConsensusError::RoleViolation));
    assert_eq!(m.in_flight(), 1);
}

#[test]
fn primary_starts_by_announcing_its_client_file() {
    let file = b"{\"client\":\"clientA\",\"content\":\"do-X\"}";
    let (m, out) = pbft_node::setup(PeerId::from_bytes(vec![1]), Some("primary"), Some(file)).unwrap();
    assert!(m.is_primary());
    assert_eq!(m.role().peer_count, 1);
    assert_eq!(
        out.unwrap(),
        "{\"stage\":\"PrePrepare\",\"proposal_key\":\"5bf8bbbfd717824e\",\"client\":\"clientA\",\"content\":\"do-X\"}"
    );
    assert_eq!(m.primary_proposal(0x5bf8_bbbf_d717_824e).unwrap().stage(), ConsensusStage::PrePrepare);
    assert_eq!(m.local_peer().as_bytes(), &vec![1u8]);

    for role in [None, Some("secondary"), Some("Primary"), Some("")] {
        let (m, out) = pbft_node::setup(PeerId::from_bytes(vec![2]), role, Some(file)).unwrap();
        assert!(!m.is_primary());
        assert!(out.is_none());
        assert_eq!(m.in_flight(), 0);
    }
    assert_eq!(
        pbft_node::setup(PeerId::from_bytes(vec![1]), Some("primary"), None).err(),
        Some(ConsensusError::DecodeError)
    );
    assert_eq!(
        pbft_node::setup(PeerId::from_bytes(vec![1]), Some("primary"), Some(b"{}")).err(),
        Some(ConsensusError::DecodeError)
    );
}
