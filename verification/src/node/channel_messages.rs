//! Messages between the node and the sessions with its peers.

use vstd::prelude::*;

use crate::chain::chain::{Block, CFHeaders, CFilter, FilterRange};
use crate::chain::header::{Hash256, Header};
use crate::peers::address::PeerAddress;
use crate::peers::wire::ReadError;

verus! {

/// What a peer says of itself when the session opens.
#[derive(Clone, Copy, Debug)]
pub struct RemoteVersion {
    pub version: u32,
    pub service_flags: u64,
    pub timestamp: i64,
    pub height: i32,
}

/// Why a session has ended.
#[derive(Clone, Copy, Debug, PartialEq, Eq, Structural)]
pub enum Departure {
    /// The connection was closed or lost.
    Closed,
    /// The peer was silent for too long, or the session has lasted too long.
    TimedOut,
    /// The peer speaks too old a protocol.
    Outdated,
    /// The peer sent bytes the session turned down.
    Rejected(ReadError),
}

/// What a session passes on from its peer.
#[derive(Debug)]
pub enum PeerMessage {
    Version(RemoteVersion),
    Verack,
    Addr(Vec<PeerAddress>),
    Headers(Vec<Header>),
    FilterHeaders(CFHeaders),
    Filter(CFilter),
    Block(Block),
    NewBlocks(Vec<Hash256>),
    Ping(u64),
    Pong(u64),
    /// The session has ended, and why.
    Disconnect(Departure),
}

/// A message from a peer with the nonce of its session.
#[derive(Debug)]
pub struct PeerThreadMessage {
    pub nonce: u32,
    pub message: PeerMessage,
}

/// A request for headers: where this chain stands and where to stop.
#[derive(Debug)]
pub struct GetHeaderConfig {
    pub locators: Vec<Hash256>,
    pub stop_hash: Option<Hash256>,
}

/// A request for one block.
#[derive(Clone, Copy, Debug)]
pub struct GetBlockConfig {
    pub locator: Hash256,
}

/// What the node asks of a session.
#[derive(Debug)]
pub enum MainThreadMessage {
    GetAddr,
    GetHeaders(GetHeaderConfig),
    GetFilterHeaders(FilterRange),
    GetFilters(FilterRange),
    GetBlock(GetBlockConfig),
    /// Hand a transaction, in its wire form, to the peer.
    SendTransaction(Vec<u8>),
    Disconnect,
}

/// A request to a session as a mathematical value.
pub enum RequestView {
    GetAddr,
    GetHeaders { locators: Seq<Seq<u8>>, stop: Option<Seq<u8>> },
    GetFilterHeaders { start_height: u32, stop_hash: Seq<u8> },
    GetFilters { start_height: u32, stop_hash: Seq<u8> },
    GetBlock { hash: Seq<u8> },
    SendTransaction { bytes: Seq<u8> },
    Disconnect,
}

impl View for MainThreadMessage {
    type V = RequestView;

    open spec fn view(&self) -> RequestView {
        match self {
            MainThreadMessage::GetAddr => RequestView::GetAddr,
            MainThreadMessage::GetHeaders(c) => RequestView::GetHeaders {
                locators: c.locators.deep_view(),
                stop: match c.stop_hash {
                    Some(h) => Some(h@),
                    None => None,
                },
            },
            MainThreadMessage::GetFilterHeaders(r) => RequestView::GetFilterHeaders {
                start_height: r.start_height,
                stop_hash: r.stop_hash@,
            },
            MainThreadMessage::GetFilters(r) => RequestView::GetFilters {
                start_height: r.start_height,
                stop_hash: r.stop_hash@,
            },
            MainThreadMessage::GetBlock(c) => RequestView::GetBlock { hash: c.locator@ },
            MainThreadMessage::SendTransaction(tx) => RequestView::SendTransaction { bytes: tx@ },
            MainThreadMessage::Disconnect => RequestView::Disconnect,
        }
    }
}

/// The view of a request that may be missing.
pub open spec fn request_view(m: Option<MainThreadMessage>) -> Option<RequestView> {
    match m {
        Some(m) => Some(m@),
        None => None,
    }
}

} // verus!
