//! The node: the state machine that drives the sync, and the messages it
//! exchanges with its peers.

pub mod channel_messages;
pub mod config;
pub mod error;
pub mod node;
pub mod peer_map;
