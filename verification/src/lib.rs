//! Compact block filter light client core: header chain, filter commitments,
//! peer sessions and the node state machine, with machine-checked contracts.

pub mod network;
pub mod primitives;
pub mod chain;
pub mod client;
pub mod db;
pub mod node;
pub mod peers;
