//! Building a node step by step.

use vstd::prelude::*;

use crate::chain::checkpoints::HeaderCheckpoint;
use crate::chain::header::Header;
use crate::client::messages::FilterSyncPolicy;
use crate::network::Network;
use crate::node::config::NodeConfig;
use crate::chain::header_chain::HeaderChainView;
use crate::node::error::{NodeError, PersistenceError};
use crate::node::node::{starts_from, Node, NodeView, DEFAULT_REORG_WINDOW};
use crate::peers::address::TrustedPeer;
use crate::peers::directory::{spec_add_all, PeerRecord, PeerStoreSizeConfig};
use crate::primitives::spec_genesis_hash;

verus! {

/// Seconds a peer has to answer unless the application says otherwise.
pub const DEFAULT_RESPONSE_TIMEOUT_SECS: u64 = 5;

/// Seconds a session lasts at most unless the application says otherwise.
pub const DEFAULT_MAX_CONNECTION_SECS: u64 = 7200;

/// How the node reaches its peers.
#[derive(Clone, Copy, Debug, PartialEq, Eq, Structural)]
pub enum ConnectionType {
    /// Directly over TCP.
    Tcp,
    /// Over the Tor network.
    Tor,
}

/// Build a node in an additive way.
pub struct NodeBuilder {
    pub config: NodeConfig,
    pub network: Network,
    pub data_path: Option<std::path::PathBuf>,
    pub connection_type: ConnectionType,
    pub response_timeout: Option<std::time::Duration>,
    pub max_connection_time: Option<std::time::Duration>,
}

impl NodeBuilder {
    /// Create a new builder: one peer is required, nothing is watched, the
    /// chain starts at the first block, peers are reached over TCP, timeouts
    /// are the default ones and filters follow headers without a halt.
    pub fn new(network: Network) -> (r: Self)
        ensures
            r.network == network,
            r.config.required_peers == 1,
            r.config.white_list@.len() == 0,
            r.config.scripts@.len() == 0,
            r.config.header_checkpoint is None,
            r.config.filter_startpoint is None,
            r.config.target_peer_size == PeerStoreSizeConfig::Unbounded,
            r.config.filter_sync_policy == FilterSyncPolicy::Continue,
            r.config.reorg_window == DEFAULT_REORG_WINDOW,
            r.data_path is None,
            r.connection_type == ConnectionType::Tcp,
            r.response_timeout is None,
            r.max_connection_time is None,
    {
        NodeBuilder {
            config: NodeConfig {
                required_peers: 1,
                white_list: Vec::new(),
                scripts: Vec::new(),
                header_checkpoint: None,
                filter_startpoint: None,
                target_peer_size: PeerStoreSizeConfig::Unbounded,
                filter_sync_policy: FilterSyncPolicy::Continue,
                reorg_window: DEFAULT_REORG_WINDOW,
            },
            network,
            data_path: None,
            connection_type: ConnectionType::Tcp,
            response_timeout: None,
            max_connection_time: None,
        }
    }

    /// Add preferred peers to try to connect to, in place of any added before.
    pub fn add_peers(self, whitelist: Vec<TrustedPeer>) -> (r: Self)
        ensures
            r == (NodeBuilder {
                config: NodeConfig { white_list: whitelist, ..self.config },
                ..self
            }),
    {
        let mut b = self;
        b.config.white_list = whitelist;
        b
    }

    /// Add a preferred peer to try to connect to.
    pub fn add_peer(self, trusted_peer: TrustedPeer) -> (r: Self)
        ensures
            r.config.white_list@ == self.config.white_list@.push(trusted_peer),
            r == (NodeBuilder {
                config: NodeConfig { white_list: r.config.white_list, ..self.config },
                ..self
            }),
    {
        let mut b = self;
        b.config.white_list.push(trusted_peer);
        b
    }

    /// Add scripts to monitor for, in place of any added before.
    pub fn add_scripts(self, scripts: Vec<Vec<u8>>) -> (r: Self)
        ensures
            r == (NodeBuilder { config: NodeConfig { scripts, ..self.config }, ..self }),
    {
        let mut b = self;
        b.config.scripts = scripts;
        b
    }

    /// Add a path to the directory where data should be stored.
    pub fn add_data_dir(self, path: std::path::PathBuf) -> (r: Self)
        ensures
            r == (NodeBuilder { data_path: Some(path), ..self }),
    {
        let mut b = self;
        b.data_path = Some(path);
        b
    }

    /// Add the minimum number of peer connections that should be maintained
    /// by the node.
    pub fn num_required_peers(self, num_peers: u8) -> (r: Self)
        ensures
            r == (NodeBuilder {
                config: NodeConfig { required_peers: num_peers as usize, ..self.config },
                ..self
            }),
    {
        let mut b = self;
        b.config.required_peers = num_peers as usize;
        b
    }

    /// Set the desired number of peers for the database to keep track of.
    pub fn peer_db_size(self, target: PeerStoreSizeConfig) -> (r: Self)
        ensures
            r == (NodeBuilder {
                config: NodeConfig { target_peer_size: target, ..self.config },
                ..self
            }),
    {
        let mut b = self;
        b.config.target_peer_size = target;
        b
    }

    /// Add a checkpoint for the node to look for relevant blocks strictly
    /// after the given height.
    pub fn anchor_checkpoint(self, checkpoint: HeaderCheckpoint) -> (r: Self)
        ensures
            r == (NodeBuilder {
                config: NodeConfig { header_checkpoint: Some(checkpoint), ..self.config },
                ..self
            }),
    {
        let mut b = self;
        b.config.header_checkpoint = Some(checkpoint);
        b
    }

    /// Add a starting height for filters. Where no anchor checkpoint is set,
    /// the closest known checkpoint at or below the height becomes the
    /// anchor; one that is set stays.
    pub fn filter_startpoint(self, start_height: u32) -> (r: Self)
        ensures
            r.config.filter_startpoint == Some(start_height),
            self.config.header_checkpoint is Some ==> r.config.header_checkpoint
                == self.config.header_checkpoint,
            self.config.header_checkpoint is None ==> (r.config.header_checkpoint
                matches Some(c) && HeaderCheckpoint::is_closest_known(
                self.network,
                start_height,
                c,
            )),
            r == (NodeBuilder {
                config: NodeConfig {
                    filter_startpoint: r.config.filter_startpoint,
                    header_checkpoint: r.config.header_checkpoint,
                    ..self.config
                },
                ..self
            }),
    {
        let mut b = self;
        b.config.filter_startpoint = Some(start_height);
        if b.config.header_checkpoint.is_none() {
            let checkpoint: HeaderCheckpoint = HeaderCheckpoint::closest_checkpoint_below_height(
                start_height,
                b.network,
            );
            return b.anchor_checkpoint(checkpoint);
        }
        b
    }

    /// Set the desired communication channel.
    pub fn set_connection_type(self, connection_type: ConnectionType) -> (r: Self)
        ensures
            r == (NodeBuilder { connection_type, ..self }),
    {
        let mut b = self;
        b.connection_type = connection_type;
        b
    }

    /// Set the time duration a peer has to respond to a message from the
    /// local node.
    pub fn set_response_timeout(self, response_timeout: std::time::Duration) -> (r: Self)
        ensures
            r == (NodeBuilder { response_timeout: Some(response_timeout), ..self }),
    {
        let mut b = self;
        b.response_timeout = Some(response_timeout);
        b
    }

    /// The maximum connection time that will be maintained with a remote
    /// peer, regardless of the quality of the peer.
    pub fn set_maximum_connection_time(self, max_connection_time: std::time::Duration) -> (r: Self)
        ensures
            r == (NodeBuilder { max_connection_time: Some(max_connection_time), ..self }),
    {
        let mut b = self;
        b.max_connection_time = Some(max_connection_time);
        b
    }

    /// Stop the node from downloading and checking compact block filters
    /// until an explicit command by the client is made.
    pub fn halt_filter_download(self) -> (r: Self)
        ensures
            r == (NodeBuilder {
                config: NodeConfig { filter_sync_policy: FilterSyncPolicy::Halt, ..self.config },
                ..self
            }),
    {
        let mut b = self;
        b.config.filter_sync_policy = FilterSyncPolicy::Halt;
        b
    }

    /// Takes the settings out of the builder and leaves the default ones.
    fn take_config(&mut self) -> (r: NodeConfig)
        ensures
            r == old(self).config,
            final(self).network == old(self).network,
            final(self).config.white_list@.len() == 0,
            final(self).config.scripts@.len() == 0,
    {
        let mut config = NodeConfig {
            required_peers: 1,
            white_list: Vec::new(),
            scripts: Vec::new(),
            header_checkpoint: None,
            filter_startpoint: None,
            target_peer_size: PeerStoreSizeConfig::Unbounded,
            filter_sync_policy: FilterSyncPolicy::Continue,
            reorg_window: DEFAULT_REORG_WINDOW,
        };
        std::mem::swap(&mut self.config, &mut config);
        config
    }

    /// Consume the settings and receive a node that starts from the headers
    /// the store holds. Fails where those headers do not chain up from the
    /// anchor.
    pub fn build_node(&mut self, stored_headers: Vec<Header>) -> (r: Result<Node, NodeError>)
        ensures
            r matches Ok(node) ==> node.wf() && starts_from(
                node@,
                old(self).config,
                old(self).network,
                stored_headers@,
            ),
            r is Ok <==> HeaderChainView::loaded(
                old(self).network,
                (match old(self).config.header_checkpoint {
                    Some(c) => c.height as nat,
                    None => 0nat,
                }),
                (match old(self).config.header_checkpoint {
                    Some(c) => c.hash@,
                    None => spec_genesis_hash(old(self).network),
                }),
                stored_headers@,
                old(self).config.reorg_window as nat,
            ) is Ok,
            r matches Err(e) ==> e == NodeError::LoadError(PersistenceError::HeaderLoadError),
            final(self).network == old(self).network,
            final(self).config.white_list@.len() == 0,
            final(self).config.scripts@.len() == 0,
    {
        let config: NodeConfig = self.take_config();
        Node::new_from_config(config, self.network, stored_headers)
    }

    /// Consume the settings and receive a node that starts from what the
    /// application's own stores hold: the headers, and the peers, which join
    /// the catalogue as far as it has room.
    pub fn build_with_databases(&mut self, peer_store: Vec<PeerRecord>, header_store: Vec<Header>) -> (r:
        Result<Node, NodeError>)
        ensures
            r matches Ok(node) ==> node.wf() && starts_from(
                (NodeView { peers: Seq::empty(), ..node@ }),
                old(self).config,
                old(self).network,
                header_store@,
            ) && node@.peers == spec_add_all(
                Seq::empty(),
                old(self).config.target_peer_size,
                peer_store@,
            ),
            r is Ok <==> HeaderChainView::loaded(
                old(self).network,
                (match old(self).config.header_checkpoint {
                    Some(c) => c.height as nat,
                    None => 0nat,
                }),
                (match old(self).config.header_checkpoint {
                    Some(c) => c.hash@,
                    None => spec_genesis_hash(old(self).network),
                }),
                header_store@,
                old(self).config.reorg_window as nat,
            ) is Ok,
            r matches Err(e) ==> e == NodeError::LoadError(PersistenceError::HeaderLoadError),
            final(self).network == old(self).network,
    {
        let config: NodeConfig = self.take_config();
        match Node::new_from_config(config, self.network, header_store) {
            Ok(node) => {
                let mut node = node;
                let ghost fresh = node@;
                assert(fresh.peers =~= Seq::<PeerRecord>::empty());
                node.load_peers(&peer_store);
                assert((NodeView { peers: Seq::empty(), ..node@ }) == fresh);
                Ok(node)
            },
            Err(e) => Err(e),
        }
    }
}

} // verus!
