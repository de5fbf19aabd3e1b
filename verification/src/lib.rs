//! Verified core of a secure job orchestrator: canonical JSON, payload hashing and
//! Ed25519 metadata signatures, the deterministic compute checksum, the job lifecycle
//! state machine, and the request checks of the RPC front end.

pub mod text;
pub mod compute;
pub mod json;
pub mod json_laws;
pub mod canonical_unique;
pub mod job;
pub mod error;
pub mod ids;
pub mod crypto;
pub mod interceptor;
pub mod pipeline;
pub mod events;
pub mod config;
