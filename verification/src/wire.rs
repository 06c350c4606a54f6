//! The wire form of an envelope: a JSON object with the members `stage`,
//! `proposal_key`, `client` and `content`.
//!
//! The three stages without payload are written as their names; the others
//! as an object with one member: `{"Commit":{"vote":true}}`,
//! `{"Result":{"outcome":{"Accepted":{"valid":true}}}}` and
//! `{"Result":{"outcome":"Rejected"}}`. The key is written as sixteen
//! hexadecimal digits, lower case.

use vstd::prelude::*;
use vstd::string::StringExecFns;
use vstd::string::StrSliceExecFns;
use crate::error::ConsensusError;
use crate::handler::on_message;
use crate::json::{json_parsed, json_quoted, Json};
use crate::metadata::PbftPeerMetadata;
use crate::peer::PeerId;
use crate::proposal::{EventType, Proposal, ProposalView};
use crate::stage::{ConsensusStage, Outcome};

verus! {

/// The hexadecimal digit for `n`, lower case.
pub open spec fn hex_digit(n: nat) -> char {
    if n == 0 {
        '0'
    } else if n == 1 {
        '1'
    } else if n == 2 {
        '2'
    } else if n == 3 {
        '3'
    } else if n == 4 {
        '4'
    } else if n == 5 {
        '5'
    } else if n == 6 {
        '6'
    } else if n == 7 {
        '7'
    } else if n == 8 {
        '8'
    } else if n == 9 {
        '9'
    } else if n == 10 {
        'a'
    } else if n == 11 {
        'b'
    } else if n == 12 {
        'c'
    } else if n == 13 {
        'd'
    } else if n == 14 {
        'e'
    } else {
        'f'
    }
}

/// What the hexadecimal digit `c` stands for; `None` for any other
/// character, an upper-case digit too.
pub open spec fn hex_value(c: char) -> Option<nat> {
    if c == '0' {
        Some(0)
    } else if c == '1' {
        Some(1)
    } else if c == '2' {
        Some(2)
    } else if c == '3' {
        Some(3)
    } else if c == '4' {
        Some(4)
    } else if c == '5' {
        Some(5)
    } else if c == '6' {
        Some(6)
    } else if c == '7' {
        Some(7)
    } else if c == '8' {
        Some(8)
    } else if c == '9' {
        Some(9)
    } else if c == 'a' {
        Some(10)
    } else if c == 'b' {
        Some(11)
    } else if c == 'c' {
        Some(12)
    } else if c == 'd' {
        Some(13)
    } else if c == 'e' {
        Some(14)
    } else if c == 'f' {
        Some(15)
    } else {
        None
    }
}

/// 16 to the power `n`.
pub open spec fn pow16(n: nat) -> nat
    decreases n,
{
    if n == 0 {
        1
    } else {
        16 * pow16((n - 1) as nat)
    }
}

/// The last `width` hexadecimal digits of `k`, most significant first.
pub open spec fn hex_of(k: nat, width: nat) -> Seq<char>
    decreases width,
{
    if width == 0 {
        Seq::empty()
    } else {
        hex_of(k / 16, (width - 1) as nat).push(hex_digit(k % 16))
    }
}

/// Whether every character of `s` is a hexadecimal digit, lower case.
pub open spec fn all_hex(s: Seq<char>) -> bool {
    forall|i: int| 0 <= i < s.len() ==> (#[trigger] hex_value(s[i])) is Some
}

/// The number that the hexadecimal digits `s` write, most significant
/// first.
pub open spec fn hex_number(s: Seq<char>) -> nat
    decreases s.len(),
{
    if s.len() == 0 {
        0
    } else {
        16 * hex_number(s.drop_last()) + match hex_value(s.last()) {
            Some(d) => d,
            None => 0,
        }
    }
}

/// The wire form of the key `k`: sixteen hexadecimal digits.
pub open spec fn key_text(k: u64) -> Seq<char> {
    hex_of(k as nat, 16)
}

/// The key that `s` writes: `s` has to be sixteen hexadecimal digits.
pub open spec fn key_of_text(s: Seq<char>) -> Option<u64> {
    if s.len() == 16 && all_hex(s) {
        Some(hex_number(s) as u64)
    } else {
        None
    }
}

proof fn lemma_pow16_monotone(a: nat, b: nat)
    requires
        a <= b,
    ensures
        pow16(a) <= pow16(b),
        pow16(a) >= 1,
    decreases b,
{
    if a == 0 {
        if b > 0 {
            lemma_pow16_monotone(0, (b - 1) as nat);
        }
    } else {
        lemma_pow16_monotone((a - 1) as nat, (b - 1) as nat);
    }
}

proof fn lemma_pow16_sixteen()
    ensures
        pow16(16) == 0x1_0000_0000_0000_0000,
{
    reveal_with_fuel(pow16, 17);
}

/// Digits write a number below 16 to the power of their count.
pub proof fn lemma_hex_number_bound(s: Seq<char>)
    ensures
        hex_number(s) < pow16(s.len()),
    decreases s.len(),
{
    if s.len() > 0 {
        lemma_hex_number_bound(s.drop_last());
        assert(match hex_value(s.last()) {
            Some(d) => d,
            None => 0,
        } < 16);
    }
}

/// The digits written for a number are digits, as many as asked for, and
/// write that number again where it fits in them.
pub proof fn lemma_hex_round_trip(k: nat, width: nat)
    ensures
        hex_of(k, width).len() == width,
        all_hex(hex_of(k, width)),
        k < pow16(width) ==> hex_number(hex_of(k, width)) == k,
    decreases width,
{
    if width > 0 {
        lemma_hex_round_trip(k / 16, (width - 1) as nat);
        let s = hex_of(k, width);
        let head = hex_of(k / 16, (width - 1) as nat);
        assert(s.drop_last() =~= head);
        assert(hex_value(hex_digit(k % 16)) == Some(k % 16));
        assert forall|i: int| 0 <= i < s.len() implies (#[trigger] hex_value(s[i])) is Some by {
            if i < head.len() {
                assert(s[i] == head[i]);
            }
        }
    }
}

/// The wire form of a key reads back as that key.
pub proof fn lemma_key_text_round_trip(k: u64)
    ensures
        key_of_text(key_text(k)) == Some(k),
{
    lemma_pow16_sixteen();
    lemma_hex_round_trip(k as nat, 16);
}

fn digit_text(n: u8) -> (s: &'static str)
    requires
        n < 16,
    ensures
        s@ == seq![hex_digit(n as nat)],
{
    proof {
        reveal_strlit("0");
        reveal_strlit("1");
        reveal_strlit("2");
        reveal_strlit("3");
        reveal_strlit("4");
        reveal_strlit("5");
        reveal_strlit("6");
        reveal_strlit("7");
        reveal_strlit("8");
        reveal_strlit("9");
        reveal_strlit("a");
        reveal_strlit("b");
        reveal_strlit("c");
        reveal_strlit("d");
        reveal_strlit("e");
        reveal_strlit("f");
    }
    let s = match n {
        0 => "0",
        1 => "1",
        2 => "2",
        3 => "3",
        4 => "4",
        5 => "5",
        6 => "6",
        7 => "7",
        8 => "8",
        9 => "9",
        10 => "a",
        11 => "b",
        12 => "c",
        13 => "d",
        14 => "e",
        _ => "f",
    };
    assert(s@ =~= seq![hex_digit(n as nat)]);
    s
}

fn digit_value(c: char) -> (r: Option<u8>)
    ensures
        match r {
            Some(d) => hex_value(c) == Some(d as nat) && d < 16,
            None => hex_value(c) is None,
        },
{
    match c {
        '0' => Some(0),
        '1' => Some(1),
        '2' => Some(2),
        '3' => Some(3),
        '4' => Some(4),
        '5' => Some(5),
        '6' => Some(6),
        '7' => Some(7),
        '8' => Some(8),
        '9' => Some(9),
        'a' => Some(10),
        'b' => Some(11),
        'c' => Some(12),
        'd' => Some(13),
        'e' => Some(14),
        'f' => Some(15),
        _ => None,
    }
}

/// Writes the key `k` as sixteen hexadecimal digits.
pub fn key_to_text(k: u64) -> (s: String)
    ensures
        s@ == key_text(k),
{
    let mut out = String::new();
    let mut cur: u64 = k;
    let mut i: usize = 0;
    assert(hex_of(k as nat, 16) =~= hex_of(cur as nat, 16) + out@);
    while i < 16
        invariant
            i <= 16,
            hex_of(k as nat, 16) == hex_of(cur as nat, (16 - i) as nat) + out@,
        decreases 16 - i,
    {
        let d = (cur % 16) as u8;
        let ghost tail = out@;
        let ghost n = (16 - i) as nat;
        out = String::from_str(digit_text(d)).concat(out.as_str());
        proof {
            assert(hex_of(cur as nat, n) == hex_of(cur as nat / 16, (n - 1) as nat).push(
                hex_digit(cur as nat % 16),
            ));
            assert(hex_of(cur as nat / 16, (n - 1) as nat).push(hex_digit(cur as nat % 16)) + tail
                =~= hex_of(cur as nat / 16, (n - 1) as nat) + (seq![hex_digit(cur as nat % 16)]
                + tail));
        }
        cur = cur / 16;
        i += 1;
    }
    assert(hex_of(cur as nat, 0) + out@ =~= out@);
    out
}

/// Reads sixteen hexadecimal digits as a key.
pub fn text_to_key(s: &str) -> (r: Option<u64>)
    ensures
        r == key_of_text(s@),
{
    if s.unicode_len() != 16 {
        return None;
    }
    let mut acc: u64 = 0;
    let mut i: usize = 0;
    assert(s@.take(0) =~= Seq::<char>::empty());
    while i < 16
        invariant
            i <= 16,
            s@.len() == 16,
            acc == hex_number(s@.take(i as int)),
            all_hex(s@.take(i as int)),
        decreases 16 - i,
    {
        let c = s.get_char(i);
        proof {
            assert(s@.take(i + 1).drop_last() =~= s@.take(i as int));
            assert(s@.take(i + 1).last() == c);
            lemma_hex_number_bound(s@.take(i as int));
            lemma_pow16_monotone(i as nat, 15);
            lemma_pow16_monotone(15, 16);
            lemma_pow16_sixteen();
            assert(pow16(16) == 16 * pow16(15));
        }
        match digit_value(c) {
            None => {
                assert(hex_value(s@[i as int]) is None);
                return None;
            },
            Some(d) => {
                acc = acc * 16 + d as u64;
                assert forall|j: int| 0 <= j < s@.take(i + 1).len() implies (#[trigger] hex_value(
                    s@.take(i + 1)[j],
                )) is Some by {
                    if j < i {
                        assert(s@.take(i as int)[j] == s@.take(i + 1)[j]);
                    }
                }
            },
        }
        i += 1;
    }
    proof {
        assert(s@.take(16) =~= s@);
        lemma_hex_number_bound(s@);
        lemma_pow16_sixteen();
    }
    Some(acc)
}

/// Whether two texts are the same.
fn same_text(a: &str, b: &str) -> (r: bool)
    ensures
        r == (a@ == b@),
{
    String::from_str(a) == String::from_str(b)
}

/// The truth value of the member `name` of `j`.
pub open spec fn flag_member(j: Json, name: Seq<char>) -> Option<bool> {
    match j.field(name) {
        Some(v) => v.flag(),
        None => None,
    }
}

/// The text of the member `name` of `j`.
pub open spec fn text_member(j: Json, name: Seq<char>) -> Option<Seq<char>> {
    match j.field(name) {
        Some(v) => v.text(),
        None => None,
    }
}

/// The outcome that `j` writes: the text `Rejected`, or an object whose one
/// member `Accepted` has the truth value `valid`.
pub open spec fn outcome_of_json(j: Json) -> Option<Outcome> {
    match j.text() {
        Some(t) => if t == "Rejected"@ {
            Some(Outcome::Rejected)
        } else {
            None
        },
        None => match j.sole_member() {
            Some((name, body)) => if name == "Accepted"@ {
                match flag_member(body, "valid"@) {
                    Some(valid) => Some(Outcome::Accepted(valid)),
                    None => None,
                }
            } else {
                None
            },
            None => None,
        },
    }
}

/// The stage that `j` writes: the name of a stage without payload, or an
/// object whose one member is `Commit` with a `vote` or `Result` with an
/// `outcome`.
pub open spec fn stage_of_json(j: Json) -> Option<ConsensusStage> {
    match j.text() {
        Some(t) => if t == "RequestFromClient"@ {
            Some(ConsensusStage::RequestFromClient)
        } else if t == "PrePrepare"@ {
            Some(ConsensusStage::PrePrepare)
        } else if t == "Prepare"@ {
            Some(ConsensusStage::Prepare)
        } else {
            None
        },
        None => match j.sole_member() {
            Some((name, body)) => if name == "Commit"@ {
                match flag_member(body, "vote"@) {
                    Some(vote) => Some(ConsensusStage::Commit(vote)),
                    None => None,
                }
            } else if name == "Result"@ {
                match body.field("outcome"@) {
                    Some(o) => match outcome_of_json(o) {
                        Some(outcome) => Some(ConsensusStage::Result(outcome)),
                        None => None,
                    },
                    None => None,
                }
            } else {
                None
            },
            None => None,
        },
    }
}

/// The proposal that the object `j` writes: its members `stage`,
/// `proposal_key`, `client` and `content` each have to be there and well
/// formed; other members are passed over.
pub open spec fn proposal_of_json(j: Json) -> Option<ProposalView> {
    match (
        j.field("stage"@),
        text_member(j, "proposal_key"@),
        text_member(j, "client"@),
        text_member(j, "content"@),
    ) {
        (Some(s), Some(k), Some(client), Some(content)) => match (
            stage_of_json(s),
            key_of_text(k),
        ) {
            (Some(stage), Some(proposal_key)) => Some(
                ProposalView { stage, client, content, proposal_key },
            ),
            _ => None,
        },
        _ => None,
    }
}

/// What the bytes of one message say: the proposal of the envelope, or that
/// they are no well-formed envelope.
pub open spec fn event_of_bytes(bytes: Seq<u8>) -> Result<ProposalView, ConsensusError> {
    match json_parsed(bytes) {
        Some(j) => match proposal_of_json(j) {
            Some(p) => Ok(p),
            None => Err(ConsensusError::DecodeError),
        },
        None => Err(ConsensusError::DecodeError),
    }
}

/// The request that the bytes of a client file make: an object whose
/// members `client` and `content` are texts.
pub open spec fn request_of_bytes(bytes: Seq<u8>) -> Result<ProposalView, ConsensusError> {
    match json_parsed(bytes) {
        Some(j) => match (text_member(j, "client"@), text_member(j, "content"@)) {
            (Some(client), Some(content)) => Ok(ProposalView::request(client, content)),
            _ => Err(ConsensusError::DecodeError),
        },
        None => Err(ConsensusError::DecodeError),
    }
}

/// The wire form of a stage.
pub open spec fn stage_text(s: ConsensusStage) -> Seq<char> {
    match s {
        ConsensusStage::RequestFromClient => "\"RequestFromClient\""@,
        ConsensusStage::PrePrepare => "\"PrePrepare\""@,
        ConsensusStage::Prepare => "\"Prepare\""@,
        ConsensusStage::Commit(true) => "{\"Commit\":{\"vote\":true}}"@,
        ConsensusStage::Commit(false) => "{\"Commit\":{\"vote\":false}}"@,
        ConsensusStage::Result(Outcome::Accepted(true)) =>
            "{\"Result\":{\"outcome\":{\"Accepted\":{\"valid\":true}}}}"@,
        ConsensusStage::Result(Outcome::Accepted(false)) =>
            "{\"Result\":{\"outcome\":{\"Accepted\":{\"valid\":false}}}}"@,
        ConsensusStage::Result(Outcome::Rejected) => "{\"Result\":{\"outcome\":\"Rejected\"}}"@,
    }
}

/// The wire form of an envelope that carries `p`, where client and content
/// can be written as JSON strings.
pub open spec fn wire_text(p: ProposalView) -> Option<Seq<char>> {
    match (json_quoted(p.client), json_quoted(p.content)) {
        (Some(client), Some(content)) => Some(
            "{\"stage\":"@ + stage_text(p.stage) + ",\"proposal_key\":\""@ + key_text(
                p.proposal_key,
            ) + "\",\"client\":"@ + client + ",\"content\":"@ + content + "}"@,
        ),
        _ => None,
    }
}

fn flag_of_member(j: &Json, name: &str) -> (r: Option<bool>)
    ensures
        r == flag_member(*j, name@),
{
    match j.get(name) {
        Some(v) => v.as_flag(),
        None => None,
    }
}

fn text_of_member<'a>(j: &'a Json, name: &str) -> (r: Option<&'a str>)
    ensures
        match r {
            Some(s) => text_member(*j, name@) == Some(s@),
            None => text_member(*j, name@) is None,
        },
{
    match j.get(name) {
        Some(v) => v.as_text(),
        None => None,
    }
}

/// Reads an outcome from its JSON form.
pub fn outcome_from_json(j: &Json) -> (r: Option<Outcome>)
    ensures
        r == outcome_of_json(*j),
{
    match j.as_text() {
        Some(t) => {
            if same_text(t, "Rejected") {
                Some(Outcome::Rejected)
            } else {
                None
            }
        },
        None => match j.as_sole_member() {
            Some((name, body)) => {
                if same_text(name, "Accepted") {
                    match flag_of_member(body, "valid") {
                        Some(valid) => Some(Outcome::Accepted(valid)),
                        None => None,
                    }
                } else {
                    None
                }
            },
            None => None,
        },
    }
}

/// Reads a stage from its JSON form.
pub fn stage_from_json(j: &Json) -> (r: Option<ConsensusStage>)
    ensures
        r == stage_of_json(*j),
{
    match j.as_text() {
        Some(t) => {
            if same_text(t, "RequestFromClient") {
                Some(ConsensusStage::RequestFromClient)
            } else if same_text(t, "PrePrepare") {
                Some(ConsensusStage::PrePrepare)
            } else if same_text(t, "Prepare") {
                Some(ConsensusStage::Prepare)
            } else {
                None
            }
        },
        None => match j.as_sole_member() {
            Some((name, body)) => {
                if same_text(name, "Commit") {
                    match flag_of_member(body, "vote") {
                        Some(vote) => Some(ConsensusStage::Commit(vote)),
                        None => None,
                    }
                } else if same_text(name, "Result") {
                    match body.get("outcome") {
                        Some(o) => match outcome_from_json(o) {
                            Some(outcome) => Some(ConsensusStage::Result(outcome)),
                            None => None,
                        },
                        None => None,
                    }
                } else {
                    None
                }
            },
            None => None,
        },
    }
}

/// Reads a proposal from the JSON object of an envelope.
pub fn proposal_from_json(j: &Json) -> (r: Result<Proposal, ConsensusError>)
    ensures
        match r {
            Ok(p) => proposal_of_json(*j) == Some(p@),
            Err(e) => proposal_of_json(*j) is None && e == ConsensusError::DecodeError,
        },
{
    let stage_json = j.get("stage");
    let key_text = text_of_member(j, "proposal_key");
    let client = text_of_member(j, "client");
    let content = text_of_member(j, "content");
    match (stage_json, key_text, client, content) {
        (Some(s), Some(k), Some(client), Some(content)) => {
            match (stage_from_json(s), text_to_key(k)) {
                (Some(stage), Some(proposal_key)) => Ok(
                    Proposal::from_parts(
                        stage,
                        String::from_str(client),
                        String::from_str(content),
                        proposal_key,
                    ),
                ),
                _ => Err(ConsensusError::DecodeError),
            }
        },
        _ => Err(ConsensusError::DecodeError),
    }
}

/// Reads the bytes of one message as an envelope.
pub fn decode_event(bytes: &[u8]) -> (r: Result<EventType, ConsensusError>)
    ensures
        match r {
            Ok(e) => event_of_bytes(bytes@) == Ok::<ProposalView, ConsensusError>(e@),
            Err(e) => event_of_bytes(bytes@) == Err::<ProposalView, ConsensusError>(e),
        },
{
    match Json::parse(bytes) {
        Some(j) => match proposal_from_json(&j) {
            Ok(p) => Ok(EventType::Send(p)),
            Err(e) => Err(e),
        },
        None => Err(ConsensusError::DecodeError),
    }
}

/// Reads the bytes of a client file as the request it makes: a JSON object
/// whose members `client` and `content` are texts.
pub fn get_client_proposal(input: &[u8]) -> (r: Result<Proposal, ConsensusError>)
    ensures
        match r {
            Ok(p) => request_of_bytes(input@) == Ok::<ProposalView, ConsensusError>(p@),
            Err(e) => request_of_bytes(input@) == Err::<ProposalView, ConsensusError>(e),
        },
{
    match Json::parse(input) {
        Some(j) => {
            let client = text_of_member(&j, "client");
            let content = text_of_member(&j, "content");
            match (client, content) {
                (Some(client), Some(content)) => Ok(
                    Proposal::new_request(String::from_str(client), String::from_str(content)),
                ),
                _ => Err(ConsensusError::DecodeError),
            }
        },
        None => Err(ConsensusError::DecodeError),
    }
}

fn stage_literal(s: ConsensusStage) -> (t: &'static str)
    ensures
        t@ == stage_text(s),
{
    match s {
        ConsensusStage::RequestFromClient => "\"RequestFromClient\"",
        ConsensusStage::PrePrepare => "\"PrePrepare\"",
        ConsensusStage::Prepare => "\"Prepare\"",
        ConsensusStage::Commit(true) => "{\"Commit\":{\"vote\":true}}",
        ConsensusStage::Commit(false) => "{\"Commit\":{\"vote\":false}}",
        ConsensusStage::Result(Outcome::Accepted(true)) =>
            "{\"Result\":{\"outcome\":{\"Accepted\":{\"valid\":true}}}}",
        ConsensusStage::Result(Outcome::Accepted(false)) =>
            "{\"Result\":{\"outcome\":{\"Accepted\":{\"valid\":false}}}}",
        ConsensusStage::Result(Outcome::Rejected) => "{\"Result\":{\"outcome\":\"Rejected\"}}",
    }
}

/// Writes an envelope in its wire form. Where client or content cannot be
/// written as a JSON string, nothing is written and the message is not
/// sent.
pub fn encode_event(event: &EventType) -> (r: Result<String, ConsensusError>)
    ensures
        match r {
            Ok(s) => wire_text(event@) == Some(s@),
            Err(e) => wire_text(event@) is None && e == ConsensusError::DispatchError,
        },
{
    let p = event.proposal();
    let client = Json::quote(p.client());
    let content = Json::quote(p.content());
    match (client, content) {
        (Some(client), Some(content)) => {
            let mut out = String::from_str("{\"stage\":");
            out.append(stage_literal(p.stage()));
            out.append(",\"proposal_key\":\"");
            out.append(key_to_text(p.proposal_key()).as_str());
            out.append("\",\"client\":");
            out.append(client.as_str());
            out.append(",\"content\":");
            out.append(content.as_str());
            out.append("}");
            Ok(out)
        },
        _ => Err(ConsensusError::DispatchError),
    }
}

/// What a node in the state `s` makes of the bytes `data` that `origin`
/// sent: bytes that are no envelope are refused and change nothing; an
/// envelope goes through the state machine, and what it hands back to be
/// broadcast is written in its wire form.
pub open spec fn gossip_step(s: crate::model::NodeState, origin: Seq<u8>, data: Seq<u8>) -> (
    crate::model::NodeState,
    Result<Option<Seq<char>>, ConsensusError>,
) {
    match event_of_bytes(data) {
        Err(e) => (s, Err(e)),
        Ok(p) => {
            let step = s.on_message(p, origin);
            (
                step.state,
                match step.reply {
                    Err(e) => Err(e),
                    Ok(None) => Ok(None),
                    Ok(Some(q)) => match wire_text(q) {
                        Some(t) => Ok(Some(t)),
                        None => Err(ConsensusError::DispatchError),
                    },
                },
            )
        },
    }
}

/// What a reply in wire form says, as plain values.
pub open spec fn wire_reply_view(r: Result<Option<String>, ConsensusError>) -> Result<
    Option<Seq<char>>,
    ConsensusError,
> {
    match r {
        Ok(Some(s)) => Ok(Some(s@)),
        Ok(None) => Ok(None),
        Err(e) => Err(e),
    }
}

/// Takes in the bytes `data` of one gossip message that `peer_id` sent, and
/// hands back the bytes to publish, if any.
pub fn handle_gossip_message(metadata: &mut PbftPeerMetadata, peer_id: &PeerId, data: &[u8]) -> (r:
    Result<Option<String>, ConsensusError>)
    requires
        old(metadata).wf(),
    ensures
        final(metadata).wf(),
        final(metadata)@ == gossip_step(old(metadata)@, peer_id@, data@).0,
        wire_reply_view(r) == gossip_step(old(metadata)@, peer_id@, data@).1,
{
    let event = match decode_event(data) {
        Ok(event) => event,
        Err(e) => {
            return Err(e);
        },
    };
    match on_message(metadata, event, peer_id) {
        Err(e) => Err(e),
        Ok(None) => Ok(None),
        Ok(Some(out)) => match encode_event(&out) {
            Ok(text) => Ok(Some(text)),
            Err(e) => Err(e),
        },
    }
}

} // verus!
