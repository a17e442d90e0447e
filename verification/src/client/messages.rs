//! Messages between the node and the application that embeds it.

use vstd::prelude::*;

use crate::chain::chain::{IndexedBlock, IndexedFilter};
use crate::chain::error::{BlockScanError, CFHeaderSyncError, CFilterSyncError, HeaderSyncError};
use crate::chain::header::Hash256;

verus! {

/// How far the sync has come.
#[derive(Clone, Copy, Debug, PartialEq, Eq, Structural)]
pub struct Progress {
    /// The number of filter headers recorded.
    pub filter_headers: u32,
    /// The number of filters held.
    pub filters: u32,
    /// The best height any peer has told of.
    pub tip_height: u32,
}

impl Progress {
    pub fn new(filter_headers: u32, filters: u32, tip_height: u32) -> (r: Progress)
        ensures
            r == (Progress { filter_headers, filters, tip_height }),
    {
        Progress { filter_headers, filters, tip_height }
    }
}

/// The tip the node is synced to.
#[derive(Clone, Copy, Debug)]
pub struct SyncUpdate {
    pub tip_height: u32,
    pub tip_hash: Hash256,
}

/// Something went wrong with one peer. The node goes on.
#[derive(Clone, Copy, Debug, PartialEq, Eq, Structural)]
pub enum Warning {
    /// The node has fewer peers than it wants and looks for one.
    NotEnoughConnections,
    /// A peer serves no compact block filters or no blocks.
    NoCompactFilters,
    /// A peer sent headers the chain turned down.
    HeaderSync(HeaderSyncError),
    /// A peer sent filter headers the chain turned down.
    FilterHeaderSync(CFHeaderSyncError),
    /// Peers that were outvoted on filter headers are disconnected.
    FilterHeaderMinority,
    /// A peer sent a filter the chain turned down.
    FilterSync(CFilterSyncError),
    /// A peer sent a block the chain turned down.
    BlockScan(BlockScanError),
    /// A peer sent bytes the session turned down: a frame that is not in
    /// order, or a payload that is not the message its frame names.
    Framing,
}

/// What the node tells the application.
#[derive(Debug)]
pub enum NodeMessage {
    /// A sentence for the log.
    Dialog(String),
    /// Trouble with a peer.
    Warning(Warning),
    /// How far the sync has come.
    Progress(Progress),
    /// A filter that was checked against its recorded hash and stored, for
    /// the application to test against scripts of its own.
    IndexedFilter(IndexedFilter),
    /// A block that concerns the application.
    Block(IndexedBlock),
    /// The node has as many peers as it wants.
    ConnectionsMet,
    /// Every phase of the sync is done.
    Synced(SyncUpdate),
}

/// A message to the application as a mathematical value.
pub enum NodeMessageView {
    Dialog(Seq<char>),
    Warning(Warning),
    Progress(Progress),
    IndexedFilter { height: u32, hash: Seq<u8>, contents: Seq<u8> },
    Block { height: u32, hash: Seq<u8>, txids: Seq<Seq<u8>> },
    ConnectionsMet,
    Synced { tip_height: u32, tip_hash: Seq<u8> },
}

impl View for NodeMessage {
    type V = NodeMessageView;

    open spec fn view(&self) -> NodeMessageView {
        match self {
            NodeMessage::Dialog(s) => NodeMessageView::Dialog(s@),
            NodeMessage::Warning(w) => NodeMessageView::Warning(*w),
            NodeMessage::Progress(p) => NodeMessageView::Progress(*p),
            NodeMessage::IndexedFilter(f) => NodeMessageView::IndexedFilter {
                height: f.spec_height(),
                hash: f.spec_block_hash(),
                contents: f.spec_contents(),
            },
            NodeMessage::Block(b) => NodeMessageView::Block {
                height: b.height,
                hash: b.hash@,
                txids: b.transactions.deep_view(),
            },
            NodeMessage::ConnectionsMet => NodeMessageView::ConnectionsMet,
            NodeMessage::Synced(u) => NodeMessageView::Synced {
                tip_height: u.tip_height,
                tip_hash: u.tip_hash@,
            },
        }
    }
}

/// The views of a list of messages.
pub open spec fn messages_view(messages: Seq<NodeMessage>) -> Seq<NodeMessageView> {
    messages.map_values(|m: NodeMessage| m@)
}

/// What the application tells the node.
#[derive(Debug)]
pub enum ClientMessage {
    /// Watch for one more script.
    AddScript(Vec<u8>),
    /// Hand a transaction, in its wire form, to the peers.
    Broadcast(Vec<u8>),
    /// Go on to filters after a halt.
    ContinueFilters,
    /// Stop.
    Shutdown,
}

/// Whether the node goes on to filters by itself once headers are synced.
#[derive(Clone, Copy, Debug, PartialEq, Eq, Structural)]
pub enum FilterSyncPolicy {
    /// It waits for the application to say so.
    Halt,
    /// It does.
    Continue,
}

} // verus!
