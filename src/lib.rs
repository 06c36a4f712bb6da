//! A gossip-based broadcast node for a line-oriented request/reply cluster
//! protocol: message envelopes, reply derivation, and the node state machine
//! that disseminates values to its neighbours by push/pull anti-entropy.
pub mod broadcast;
pub mod echo;
pub mod idset;
pub mod knowledge;
pub mod laws;
pub mod protocol;
mod rng;
pub mod unique;
