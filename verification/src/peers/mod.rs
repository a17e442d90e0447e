//! Remote peers: their addresses, the catalogue of known ones, the frames
//! they send and the session with each.

pub mod address;
pub mod directory;
pub mod framing;
pub mod peer;
pub mod wire;
