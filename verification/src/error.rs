//! What can go wrong while a message is handled. None of these stops the
//! consensus loop.

use vstd::prelude::*;

verus! {

/// The kinds of failure of the consensus core.
#[derive(Clone, Copy, Debug, PartialEq, Eq, Structural)]
pub enum ConsensusError {
    /// An inbound envelope was malformed; the message is dropped.
    DecodeError,
    /// The operation needs a role that this node does not have.
    RoleViolation,
    /// A transition was attempted from a stage that does not precede it.
    StageContractViolation,
    /// An outbound message could not be handed on; it is not sent this round.
    DispatchError,
    /// The soft deadline of a proposal passed before it was decided.
    QuorumTimeout,
}

} // verus!
