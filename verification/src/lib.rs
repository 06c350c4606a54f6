//! Consensus core of a PBFT replica: the per-proposal stage model, the
//! quorum bookkeeping and the reactive state machine that turns one inbound
//! message into the next local state and at most one outbound message.

pub mod error;
pub mod event_loop;
pub mod handler;
pub mod json;
pub mod laws;
pub mod metadata;
pub mod model;
pub mod peer;
pub mod proposal;
pub mod role;
pub mod stage;
pub mod table;
pub mod tracker;
pub mod wire;

pub use error::ConsensusError;
pub use event_loop::setup;
pub use handler::{
    commit_if_prepared, decide_if_committed, handle_commit, handle_pre_prepare, handle_prepare,
    handle_request_from_client, handle_result, mdns_discover_peer, mdns_expired_peer, on_message,
    reevaluate, submit_client_request,
};
pub use json::Json;
pub use metadata::PbftPeerMetadata;
pub use model::{Closure, PBFT_TIME};
pub use peer::{PeerId, PeerSet};
pub use proposal::{proposal_key, EventType, Proposal};
pub use role::NodeRole;
pub use stage::{ConsensusStage, Outcome};
pub use tracker::{CommitOutcome, PrepareOutcome, QuorumTracker};
pub use wire::{
    decode_event, encode_event, get_client_proposal, handle_gossip_message, key_to_text,
    text_to_key,
};
