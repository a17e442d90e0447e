//! Why the node cannot start or go on.

use vstd::prelude::*;

verus! {

/// What could not be taken up from the stores.
#[derive(Clone, Copy, Debug, PartialEq, Eq, Structural)]
pub enum PersistenceError {
    /// The stored headers do not form a chain above the anchor.
    HeaderLoadError,
    /// The stored peers cannot be read.
    PeerLoadFailure,
}

/// Why the node stops.
#[derive(Clone, Copy, Debug, PartialEq, Eq, Structural)]
pub enum NodeError {
    /// A store could not be read.
    LoadError(PersistenceError),
    /// No peer is known and the seeds named none.
    DnsFailure,
}

impl NodeError {
    /// A sentence for the person reading the log.
    pub fn message(&self) -> (r: &'static str)
        ensures
            r@ == (match self {
                NodeError::LoadError(PersistenceError::HeaderLoadError) => "the headers could not be loaded"@,
                NodeError::LoadError(PersistenceError::PeerLoadFailure) => "the peers could not be loaded"@,
                NodeError::DnsFailure => "the seeds named no peer"@,
            }),
    {
        match self {
            NodeError::LoadError(PersistenceError::HeaderLoadError) => "the headers could not be loaded",
            NodeError::LoadError(PersistenceError::PeerLoadFailure) => "the peers could not be loaded",
            NodeError::DnsFailure => "the seeds named no peer",
        }
    }
}

} // verus!
