//! How a node starts: its role comes from the argument it was started with,
//! and a primary announces the request of its client file at once.

use vstd::prelude::*;
use vstd::string::StringExecFns;
use crate::error::ConsensusError;
use crate::handler::handle_request_from_client;
use crate::metadata::PbftPeerMetadata;
use crate::model::NodeState;
use crate::peer::PeerId;
use crate::role::NodeRole;
use crate::wire::{encode_event, get_client_proposal, request_of_bytes, wire_text};

verus! {

/// Whether the argument `peer_role` makes the node the primary: it has to
/// be the word `primary`.
pub open spec fn is_primary_role(peer_role: Option<Seq<char>>) -> bool {
    peer_role == Some("primary"@)
}

/// The state in which the node `local` starts, and the wire form of what it
/// announces at once. A secondary starts with nothing to announce. A
/// primary needs a client file that makes a request, and announces it.
pub open spec fn setup_of(
    local: Seq<u8>,
    peer_role: Option<Seq<char>>,
    client_file: Option<Seq<u8>>,
) -> Result<(NodeState, Option<Seq<char>>), ConsensusError> {
    let start = NodeState::initial(
        local,
        NodeRole { is_primary: is_primary_role(peer_role), peer_count: 1 },
    );
    if !is_primary_role(peer_role) {
        Ok((start, None))
    } else {
        match client_file {
            None => Err(ConsensusError::DecodeError),
            Some(bytes) => match request_of_bytes(bytes) {
                Err(e) => Err(e),
                Ok(p) => {
                    let step = start.handle_request_from_client(p);
                    match step.reply {
                        Err(e) => Err(e),
                        Ok(None) => Ok((step.state, None)),
                        Ok(Some(q)) => match wire_text(q) {
                            Some(t) => Ok((step.state, Some(t))),
                            None => Err(ConsensusError::DispatchError),
                        },
                    }
                },
            },
        }
    }
}

/// What `setup` hands back, as plain values.
pub open spec fn setup_view(r: Result<(PbftPeerMetadata, Option<String>), ConsensusError>) -> Result<
    (NodeState, Option<Seq<char>>),
    ConsensusError,
> {
    match r {
        Ok((m, Some(t))) => Ok((m@, Some(t@))),
        Ok((m, None)) => Ok((m@, None)),
        Err(e) => Err(e),
    }
}

/// Starts the node `local`. The argument `peer_role` decides its role; on a
/// primary the bytes of the client file give the request that is announced
/// at once. Hands back the state and the bytes to publish, if any.
pub fn setup(local: PeerId, peer_role: Option<&str>, client_file: Option<&[u8]>) -> (r: Result<
    (PbftPeerMetadata, Option<String>),
    ConsensusError,
>)
    ensures
        setup_view(r) == setup_of(
            local@,
            match peer_role {
                Some(s) => Some(s@),
                None => None,
            },
            match client_file {
                Some(b) => Some(b@),
                None => None,
            },
        ),
        r matches Ok((m, _)) ==> m.wf(),
{
    let is_primary = match peer_role {
        Some(s) => String::from_str(s) == String::from_str("primary"),
        None => false,
    };
    let mut metadata = PbftPeerMetadata::with_identity(local, NodeRole::new(false, 1));
    if !is_primary {
        return Ok((metadata, None));
    }
    metadata.set_primary();
    let bytes = match client_file {
        Some(bytes) => bytes,
        None => {
            return Err(ConsensusError::DecodeError);
        },
    };
    let given_proposal = match get_client_proposal(bytes) {
        Ok(p) => p,
        Err(e) => {
            return Err(e);
        },
    };
    match handle_request_from_client(given_proposal, &mut metadata) {
        Err(e) => Err(e),
        Ok(None) => Ok((metadata, None)),
        Ok(Some(event)) => match encode_event(&event) {
            Ok(text) => Ok((metadata, Some(text))),
            Err(e) => Err(e),
        },
    }
}

} // verus!
