//! Why the chain turned a peer's data down.

use vstd::prelude::*;

verus! {

/// Why a batch of headers was rejected. The chain is unchanged in every case.
#[derive(Clone, Copy, Debug, PartialEq, Eq, Structural)]
pub enum HeaderSyncError {
    /// The batch held no header.
    EmptyMessage,
    /// Some header of the batch does not build on the one before it.
    HeadersNotConnected,
    /// The batch builds on no block inside the reorganisation window.
    FloatingHeaders,
    /// The chain would outgrow the largest height.
    ChainTooLong,
    /// A header's hash does not meet the target it declares.
    InvalidHeaderWork,
    /// A header declares a target the network or the retarget schedule does
    /// not allow.
    InvalidBits,
    /// A header's time does not exceed the median of the eleven before it.
    InvalidHeaderTimes,
    /// The competing branch holds no more work than the branch it would replace.
    LessWorkFork,
}

impl HeaderSyncError {
    /// A sentence for the person reading the log.
    pub fn message(&self) -> (r: &'static str)
        ensures
            r@ == (match self {
                HeaderSyncError::EmptyMessage => "empty headers message"@,
                HeaderSyncError::HeadersNotConnected => "the headers do not connect to each other"@,
                HeaderSyncError::FloatingHeaders => "the headers do not build on a recent block"@,
                HeaderSyncError::ChainTooLong => "the chain is at the largest height"@,
                HeaderSyncError::InvalidHeaderWork => "a header does not meet its proof of work target"@,
                HeaderSyncError::InvalidBits => "a header declares a target off the retarget schedule"@,
                HeaderSyncError::InvalidHeaderTimes => "a header is not later than the median time past"@,
                HeaderSyncError::LessWorkFork => "the competing branch does not hold more work"@,
            }),
    {
        match self {
            HeaderSyncError::EmptyMessage => "empty headers message",
            HeaderSyncError::HeadersNotConnected => "the headers do not connect to each other",
            HeaderSyncError::FloatingHeaders => "the headers do not build on a recent block",
            HeaderSyncError::ChainTooLong => "the chain is at the largest height",
            HeaderSyncError::InvalidHeaderWork => "a header does not meet its proof of work target",
            HeaderSyncError::InvalidBits => "a header declares a target off the retarget schedule",
            HeaderSyncError::InvalidHeaderTimes => "a header is not later than the median time past",
            HeaderSyncError::LessWorkFork => "the competing branch does not hold more work",
        }
    }
}

/// Why stored headers could not be taken up again.
#[derive(Clone, Copy, Debug, PartialEq, Eq, Structural)]
pub enum HeaderPersistenceError {
    /// The stored headers do not chain up from the anchor.
    Corruption,
    /// More headers are stored than heights remain above the anchor.
    TooManyHeaders,
}

/// Why a batch of filter headers was rejected.
#[derive(Clone, Copy, Debug, PartialEq, Eq, Structural)]
pub enum CFHeaderSyncError {
    /// The batch held no filter hash.
    EmptyMessage,
    /// The batch stops at a block this chain does not hold, or covers other
    /// heights than the ones asked for.
    UnknownStopHash,
    /// The batch does not build on the filter header recorded before it.
    PrevHeaderMismatch,
    /// The peer contradicts what a quorum of peers has settled.
    HeaderMismatch,
}

/// Why a filter was rejected.
#[derive(Clone, Copy, Debug, PartialEq, Eq, Structural)]
pub enum CFilterSyncError {
    /// The filter belongs to a block without a recorded filter header.
    UnrequestedFilter,
    /// The filter's bytes do not hash to the recorded filter hash.
    MisalignedFilterHash,
}

/// Why a block was rejected.
#[derive(Clone, Copy, Debug, PartialEq, Eq, Structural)]
pub enum BlockScanError {
    /// No filter matched this block.
    UnexpectedBlock,
    /// The transactions do not hash to the Merkle root in the header.
    InvalidMerkleRoot,
}

} // verus!
