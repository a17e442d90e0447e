//! The validated header chain and everything indexed by block height.

pub mod cfheaders;
pub mod chain;
pub mod checkpoints;
pub mod error;
pub mod header;
pub mod header_chain;
pub mod validate;
pub mod work;
