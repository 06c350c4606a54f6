//! A client request under consensus, and the envelope that carries it.

use vstd::prelude::*;
use vstd::std_specs::cmp::PartialEqSpecImpl;
use vstd::utf8::encode_utf8;
use crate::error::ConsensusError;
use crate::stage::{ConsensusStage, Outcome};

verus! {

/// Start value of the key digest.
pub const DIGEST_OFFSET: u64 = 0xcbf2_9ce4_8422_2325;

/// Multiplier of the key digest.
pub const DIGEST_PRIME: u64 = 0x0000_0100_0000_01b3;

/// Byte that parts the client from the content in the digest; it occurs in
/// no UTF-8 text.
pub const FIELD_SEPARATOR: u8 = 0xff;

/// One step of the digest: the byte is folded in, then the state is
/// multiplied, modulo 2^64.
pub open spec fn mix(h: u64, b: u8) -> u64 {
    (((h ^ (b as u64)) as nat * DIGEST_PRIME as nat) % 0x1_0000_0000_0000_0000) as u64
}

/// The digest of `bytes`, continued from the state `h`.
pub open spec fn digest(h: u64, bytes: Seq<u8>) -> u64
    decreases bytes.len(),
{
    if bytes.len() == 0 {
        h
    } else {
        mix(digest(h, bytes.drop_last()), bytes.last())
    }
}

/// The stable identity of the request that `client` makes with `content`:
/// the digest of the client's UTF-8 bytes, a separator, and the content's.
pub open spec fn proposal_key_of(client: Seq<char>, content: Seq<char>) -> u64 {
    digest(
        mix(digest(DIGEST_OFFSET, encode_utf8(client)), FIELD_SEPARATOR),
        encode_utf8(content),
    )
}

fn mix_byte(h: u64, b: u8) -> (r: u64)
    ensures
        r == mix(h, b),
{
    (h ^ (b as u64)).wrapping_mul(DIGEST_PRIME)
}

fn digest_bytes(h: u64, bytes: &[u8]) -> (r: u64)
    ensures
        r == digest(h, bytes@),
{
    let mut acc: u64 = h;
    let mut i: usize = 0;
    while i < bytes.len()
        invariant
            i <= bytes.len(),
            acc == digest(h, bytes@.take(i as int)),
        decreases bytes.len() - i,
    {
        assert(bytes@.take(i + 1).drop_last() =~= bytes@.take(i as int));
        acc = mix_byte(acc, bytes[i]);
        i += 1;
    }
    assert(bytes@.take(i as int) =~= bytes@);
    acc
}

/// Computes the key under which every message about the request of
/// `client` with `content` is filed.
pub fn proposal_key(client: &str, content: &str) -> (k: u64)
    ensures
        k == proposal_key_of(client@, content@),
{
    let h = digest_bytes(DIGEST_OFFSET, client.as_bytes());
    let h = mix_byte(h, FIELD_SEPARATOR);
    digest_bytes(h, content.as_bytes())
}

/// What a proposal is, as plain values.
pub struct ProposalView {
    pub stage: ConsensusStage,
    pub client: Seq<char>,
    pub content: Seq<char>,
    pub proposal_key: u64,
}

impl ProposalView {
    /// The same request at another stage.
    pub open spec fn at(self, stage: ConsensusStage) -> ProposalView {
        ProposalView { stage, ..self }
    }

    /// Whether the key is the one that client and content give.
    pub open spec fn consistent(self) -> bool {
        self.proposal_key == proposal_key_of(self.client, self.content)
    }

    /// A fresh request of `client` with `content`.
    pub open spec fn request(client: Seq<char>, content: Seq<char>) -> ProposalView {
        ProposalView {
            stage: ConsensusStage::RequestFromClient,
            client,
            content,
            proposal_key: proposal_key_of(client, content),
        }
    }
}

/// One client request on its way through the consensus stages.
///
/// Client, content and key never change; a transition hands out a new value
/// at the next stage.
#[derive(Debug)]
pub struct Proposal {
    stage: ConsensusStage,
    client: String,
    content: String,
    proposal_key: u64,
}

impl View for Proposal {
    type V = ProposalView;

    closed spec fn view(&self) -> ProposalView {
        ProposalView {
            stage: self.stage,
            client: self.client@,
            content: self.content@,
            proposal_key: self.proposal_key,
        }
    }
}

impl Clone for Proposal {
    fn clone(&self) -> (p: Proposal)
        ensures
            p@ == self@,
    {
        Proposal {
            stage: self.stage,
            client: self.client.clone(),
            content: self.content.clone(),
            proposal_key: self.proposal_key,
        }
    }
}

impl PartialEq for Proposal {
    fn eq(&self, other: &Proposal) -> (r: bool) {
        let r = self.stage == other.stage && self.client == other.client && self.content
            == other.content && self.proposal_key == other.proposal_key;
        proof {
            if r {
                assert(self@ == other@);
            }
        }
        r
    }
}

impl PartialEqSpecImpl for Proposal {
    open spec fn obeys_eq_spec() -> bool {
        true
    }

    open spec fn eq_spec(&self, other: &Proposal) -> bool {
        self@ == other@
    }
}

impl Eq for Proposal {

}

impl Proposal {
    /// A new request of `client` with `content`, filed under the key that the
    /// two give.
    pub fn new_request(client: String, content: String) -> (p: Proposal)
        ensures
            p@ == ProposalView::request(client@, content@),
    {
        let proposal_key = proposal_key(client.as_str(), content.as_str());
        Proposal { stage: ConsensusStage::RequestFromClient, client, content, proposal_key }
    }

    /// A proposal made of the four parts as they stand, whatever the key.
    pub fn from_parts(
        stage: ConsensusStage,
        client: String,
        content: String,
        proposal_key: u64,
    ) -> (p: Proposal)
        ensures
            p@ == (ProposalView { stage, client: client@, content: content@, proposal_key }),
    {
        Proposal { stage, client, content, proposal_key }
    }

    /// The stage the proposal is at.
    pub fn stage(&self) -> (s: ConsensusStage)
        ensures
            s == self@.stage,
    {
        self.stage
    }

    /// Who made the request.
    pub fn client(&self) -> (s: &str)
        ensures
            s@ == self@.client,
    {
        self.client.as_str()
    }

    /// What is requested.
    pub fn content(&self) -> (s: &str)
        ensures
            s@ == self@.content,
    {
        self.content.as_str()
    }

    /// The key under which the proposal is filed.
    pub fn proposal_key(&self) -> (k: u64)
        ensures
            k == self@.proposal_key,
    {
        self.proposal_key
    }

    /// Whether the key is the one that client and content give.
    pub fn is_consistent(&self) -> (b: bool)
        ensures
            b == self@.consistent(),
    {
        self.proposal_key == proposal_key(self.client.as_str(), self.content.as_str())
    }

    /// The announcement of a client request.
    pub fn to_pre_prepare(self) -> (p: Proposal)
        requires
            self@.stage is RequestFromClient,
        ensures
            p@ == self@.at(ConsensusStage::PrePrepare),
    {
        Proposal { stage: ConsensusStage::PrePrepare, ..self }
    }

    /// The acceptance of an announcement.
    pub fn to_prepare(self) -> (p: Proposal)
        requires
            self@.stage is PrePrepare,
        ensures
            p@ == self@.at(ConsensusStage::Prepare),
    {
        Proposal { stage: ConsensusStage::Prepare, ..self }
    }

    /// The vote of a peer that saw a quorum of acceptances.
    pub fn to_commit(self, vote: bool) -> (p: Proposal)
        requires
            self@.stage is Prepare,
        ensures
            p@ == self@.at(ConsensusStage::Commit(vote)),
    {
        Proposal { stage: ConsensusStage::Commit(vote), ..self }
    }

    /// The decision that a quorum agreed, in favour (`valid`) or against.
    pub fn to_accept_proposal(self, valid: bool) -> (p: Proposal)
        requires
            self@.stage is Commit,
        ensures
            p@ == self@.at(ConsensusStage::Result(Outcome::Accepted(valid))),
    {
        Proposal { stage: ConsensusStage::Result(Outcome::Accepted(valid)), ..self }
    }

    /// The decision that no quorum could be confirmed.
    pub fn to_reject_proposal(self) -> (p: Proposal)
        requires
            self@.stage is Commit,
        ensures
            p@ == self@.at(ConsensusStage::Result(Outcome::Rejected)),
    {
        Proposal { stage: ConsensusStage::Result(Outcome::Rejected), ..self }
    }

    /// Moves the proposal to `next` if that is the stage after the one it is
    /// at, and reports the attempt otherwise.
    pub fn advance(self, next: ConsensusStage) -> (r: Result<Proposal, ConsensusError>)
        ensures
            match r {
                Ok(p) => self@.stage.precedes(next) && p@ == self@.at(next),
                Err(e) => !self@.stage.precedes(next) && e
                    == ConsensusError::StageContractViolation,
            },
    {
        if next.ordinal() == self.stage.ordinal() + 1 {
            Ok(Proposal { stage: next, ..self })
        } else {
            Err(ConsensusError::StageContractViolation)
        }
    }
}

/// The envelope that carries one proposal, at one stage, between peers.
#[derive(Debug)]
pub enum EventType {
    /// A proposal sent to every peer.
    Send(Proposal),
}

impl View for EventType {
    type V = ProposalView;

    open spec fn view(&self) -> ProposalView {
        match self {
            EventType::Send(p) => p@,
        }
    }
}

impl Clone for EventType {
    fn clone(&self) -> (e: EventType)
        ensures
            e@ == self@,
    {
        match self {
            EventType::Send(p) => EventType::Send(p.clone()),
        }
    }
}

impl EventType {
    /// The proposal that the envelope carries.
    pub fn proposal(&self) -> (p: &Proposal)
        ensures
            p@ == self@,
    {
        match self {
            EventType::Send(p) => p,
        }
    }

    /// Takes the proposal out of the envelope.
    pub fn into_proposal(self) -> (p: Proposal)
        ensures
            p@ == self@,
    {
        match self {
            EventType::Send(p) => p,
        }
    }
}

} // verus!
