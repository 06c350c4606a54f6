//! The stages a proposal passes through, and their order.

use vstd::prelude::*;

verus! {

/// The terminal verdict on a proposal.
#[derive(Clone, Copy, Debug, PartialEq, Eq, Structural)]
pub enum Outcome {
    /// A quorum agreed; `true` when the proposal was found valid.
    Accepted(bool),
    /// No quorum could be confirmed on either side.
    Rejected,
}

/// One stage of the consensus round of a proposal.
#[derive(Clone, Copy, Debug, PartialEq, Eq, Structural)]
pub enum ConsensusStage {
    /// A client handed the request to the primary.
    RequestFromClient,
    /// The primary announced the request to every peer.
    PrePrepare,
    /// A peer accepted the announcement and says so to every peer.
    Prepare,
    /// A peer saw a quorum of `Prepare` and casts its vote.
    Commit(bool),
    /// The round is decided.
    Result(Outcome),
}

impl ConsensusStage {
    /// Position of the stage in the order
    /// `RequestFromClient < PrePrepare < Prepare < Commit < Result`.
    pub open spec fn rank(self) -> nat {
        match self {
            ConsensusStage::RequestFromClient => 0,
            ConsensusStage::PrePrepare => 1,
            ConsensusStage::Prepare => 2,
            ConsensusStage::Commit(_) => 3,
            ConsensusStage::Result(_) => 4,
        }
    }

    /// Whether `next` is a stage that may directly follow `self`.
    pub open spec fn precedes(self, next: ConsensusStage) -> bool {
        next.rank() == self.rank() + 1
    }

    /// The position of this stage in the order of stages.
    pub fn ordinal(&self) -> (r: u8)
        ensures
            r as nat == self.rank(),
    {
        match self {
            ConsensusStage::RequestFromClient => 0,
            ConsensusStage::PrePrepare => 1,
            ConsensusStage::Prepare => 2,
            ConsensusStage::Commit(_) => 3,
            ConsensusStage::Result(_) => 4,
        }
    }
}

} // verus!
