//! What can go wrong in the stores behind the node.

pub mod error;
