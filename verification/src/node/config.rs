//! What the application decides before the node starts.

use vstd::prelude::*;

use crate::chain::checkpoints::HeaderCheckpoint;
use crate::client::messages::FilterSyncPolicy;
use crate::peers::address::TrustedPeer;
use crate::peers::directory::PeerStoreSizeConfig;

verus! {

/// The settings of a node.
#[derive(Debug)]
pub struct NodeConfig {
    /// How many peers the node keeps once headers are synced, and how many
    /// must agree on filter headers.
    pub required_peers: usize,
    /// Peers to try before any other.
    pub white_list: Vec<TrustedPeer>,
    /// The scripts to watch for.
    pub scripts: Vec<Vec<u8>>,
    /// The block the chain starts from.
    pub header_checkpoint: Option<HeaderCheckpoint>,
    /// The height above which filters are synced.
    pub filter_startpoint: Option<u32>,
    /// How many peers the catalogue may hold.
    pub target_peer_size: PeerStoreSizeConfig,
    /// Whether the node goes on to filters by itself.
    pub filter_sync_policy: FilterSyncPolicy,
    /// How many blocks a competing branch may replace.
    pub reorg_window: u32,
}

} // verus!
