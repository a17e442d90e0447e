//! The node: which phase the sync is in, and what each event does to it.

use vstd::prelude::*;

use crate::chain::cfheaders::{AttestationView, CFHeaderSyncOutcome, OutcomeView};
use crate::chain::chain::{
    distinct_scripts, txs_view, Block, CFHeaders, CFilter, Chain, ChainView, FilterRange,
    FilterSyncOutcome,
    IndexedFilter, StoreUpdate, TransactionView, CF_HEADER_BATCH_SIZE, FILTER_BATCH_SIZE,
};
use crate::chain::checkpoints::HeaderCheckpoint;
use crate::chain::error::HeaderSyncError;
use crate::chain::header::{Hash256, Header};
use crate::chain::header_chain::{HeaderChain, HeaderChainView, HeaderSyncOutcome};
use crate::client::dialog::{
    next_block_text, peer_version_text, required_peers_text, starting_text, Dialog,
};
use crate::client::messages::{
    ClientMessage, FilterSyncPolicy, NodeMessage, NodeMessageView, SyncUpdate, Warning,
};
use crate::network::Network;
use crate::node::channel_messages::{
    request_view, Departure, GetBlockConfig, GetHeaderConfig, MainThreadMessage, PeerMessage,
    PeerThreadMessage, RemoteVersion, RequestView,
};
use crate::node::peer_map::{
    all_closing, all_nonces, count_ready, has_nonce, open_sessions, ready_nonces, with_offset,
    with_services, with_state, ManagedPeer, PeerMap, SessionState,
};
use crate::node::config::NodeConfig;
use crate::node::error::{NodeError, PersistenceError};
use crate::peers::address::{
    serves, spec_serves, IpAddress, PeerAddress, TrustedPeer, SERVICE_COMPACT_FILTERS,
    SERVICE_NETWORK,
};
use crate::peers::directory::{PeerDirectory, PeerRecord, PeerStoreSizeConfig};
use crate::peers::framing::{
    spec_next_frame, FrameError, FrameView, ENVELOPE_LEN, MAX_MESSAGE_SIZE,
};
use crate::peers::wire::{ReadError, ReadStep};
use crate::primitives::{genesis_hash, shuffle, spec_genesis_hash};

verus! {

/// How many blocks a competing branch may replace unless the application
/// says otherwise.
pub const DEFAULT_REORG_WINDOW: u32 = 2016;

/// The phase of the sync.
#[derive(Debug, Clone, Copy, PartialEq, Eq, Structural)]
pub enum NodeState {
    /// Headers are missing up to the best known tip.
    Behind,
    /// Headers are synced; filter headers are next.
    HeadersSynced,
    /// Filter headers are synced; filters are next.
    FilterHeadersSynced,
    /// Filters are synced; the blocks that matched are next.
    FiltersSynced,
    /// Every block that matched has been fetched.
    TransactionsSynced,
}

impl NodeState {
    /// The place of the phase in the order of the sync.
    pub open spec fn rank(self) -> nat {
        match self {
            NodeState::Behind => 0,
            NodeState::HeadersSynced => 1,
            NodeState::FilterHeadersSynced => 2,
            NodeState::FiltersSynced => 3,
            NodeState::TransactionsSynced => 4,
        }
    }
}

/// The phase that follows from `state` once the chain allows it: each phase
/// ends when its part of the chain is synced, and a halted node stays at
/// `HeadersSynced`.
pub open spec fn next_state(state: NodeState, chain: ChainView, policy: FilterSyncPolicy) -> NodeState {
    match state {
        NodeState::Behind => if chain.headers_synced() {
            NodeState::HeadersSynced
        } else {
            state
        },
        NodeState::HeadersSynced => if policy == FilterSyncPolicy::Continue
            && chain.cf_headers_synced() {
            NodeState::FilterHeadersSynced
        } else {
            state
        },
        NodeState::FilterHeadersSynced => if chain.filters_synced() {
            NodeState::FiltersSynced
        } else {
            state
        },
        NodeState::FiltersSynced => if chain.queue.len() == 0 {
            NodeState::TransactionsSynced
        } else {
            state
        },
        NodeState::TransactionsSynced => state,
    }
}

/// Whether `start` is the height of the lowest block whose filter is
/// missing.
pub open spec fn is_first_missing(chain: ChainView, start: u32) -> bool {
    let k = start - chain.filter_base - 1;
    &&& 0 <= k < chain.filters.len()
    &&& chain.filters[k] is None
    &&& forall|i: int| 0 <= i < k ==> (#[trigger] chain.filters[i]) is Some
}

/// Whether `r` is the request that carries the sync on once headers are
/// synced: none for a halted node; else the next filter headers while any are
/// missing; else the next filters while any are missing; else none.
pub open spec fn follow_up_ok(chain: ChainView, policy: FilterSyncPolicy, r: Option<RequestView>) -> bool {
    if policy == FilterSyncPolicy::Halt {
        r is None
    } else if !chain.cf_headers_synced() {
        r == Some(
            RequestView::GetFilterHeaders {
                start_height: (chain.cf_tip() + 1) as u32,
                stop_hash: chain.headers.hash_at(chain.cf_stop(CF_HEADER_BATCH_SIZE as nat) as int),
            },
        )
    } else {
        next_filters_ok(chain, r)
    }
}

/// Whether `r` is the request for the filters that are missing: none where
/// every block with a recorded filter header has its filter; else the
/// request for a run of filters that starts at the lowest block whose filter
/// is missing.
pub open spec fn next_filters_ok(chain: ChainView, r: Option<RequestView>) -> bool {
    if chain.all_filters_present() {
        r is None
    } else {
        r matches Some(RequestView::GetFilters { start_height, stop_hash }) && is_first_missing(
            chain,
            start_height,
        ) && stop_hash == chain.headers.hash_at(
            chain.filter_stop(start_height as nat, FILTER_BATCH_SIZE as nat) as int,
        )
    }
}

/// The request for the headers that follow the tip.
pub open spec fn get_headers_view(chain: ChainView) -> RequestView {
    RequestView::GetHeaders { locators: chain.headers.locators(), stop: None }
}

/// Whether a batch of headers replaces a part of the chain.
pub open spec fn reorganizes(headers: HeaderChainView, batch: Seq<Header>) -> bool {
    headers.plan(batch) matches Ok(HeaderSyncOutcome::Adopted { fork_height, from })
        && fork_height < headers.tip_height()
}

/// A store update as a mathematical value.
pub struct StoreUpdateView {
    pub rewind_to: u32,
    pub headers: Seq<Header>,
}

/// The views of a list of store updates.
pub open spec fn updates_view(updates: Seq<StoreUpdate>) -> Seq<StoreUpdateView> {
    updates.map_values(|u: StoreUpdate| StoreUpdateView { rewind_to: u.rewind_to, headers: u.headers@ })
}

/// The node as a mathematical value.
pub struct NodeView {
    pub state: NodeState,
    pub chain: ChainView,
    pub peers: Seq<PeerRecord>,
    pub peer_size: PeerStoreSizeConfig,
    pub required_peers: nat,
    pub white_list: Seq<TrustedPeer>,
    pub network: Network,
    pub policy: FilterSyncPolicy,
    pub outbox: Seq<NodeMessageView>,
    pub store_updates: Seq<StoreUpdateView>,
    pub evictions: Seq<u32>,
    pub connections_met: bool,
}

impl NodeView {
    /// The node after it is told to stop: the headers the store lacks are
    /// handed to it.
    pub open spec fn closed_down(self) -> NodeView {
        NodeView {
            chain: ChainView { persisted: self.chain.headers.headers.len(), ..self.chain },
            store_updates: self.store_updates.push(
                StoreUpdateView {
                    rewind_to: (self.chain.headers.anchor_height + self.chain.persisted) as u32,
                    headers: self.chain.headers.headers.skip(self.chain.persisted as int),
                },
            ),
            ..self
        }
    }

    /// The node with one more message for the application.
    pub open spec fn say(self, message: NodeMessageView) -> NodeView {
        NodeView { outbox: self.outbox.push(message), ..self }
    }

    /// The node after the phase has moved on as far as the chain allows in
    /// one step. Each step tells the application; the end of the first phase
    /// hands the headers to the store; the end of the last tells the tip.
    pub open spec fn advanced(self) -> NodeView {
        let next = next_state(self.state, self.chain, self.policy);
        if next == self.state {
            self
        } else {
            match next {
                NodeState::Behind => self,
                NodeState::HeadersSynced => NodeView {
                    state: next,
                    chain: ChainView { persisted: self.chain.headers.headers.len(), ..self.chain },
                    store_updates: self.store_updates.push(
                        StoreUpdateView {
                            rewind_to: (self.chain.headers.anchor_height
                                + self.chain.persisted) as u32,
                            headers: self.chain.headers.headers.skip(self.chain.persisted as int),
                        },
                    ),
                    ..self.say(
                        NodeMessageView::Dialog("Headers synced"@),
                    )
                },
                NodeState::FilterHeadersSynced => NodeView {
                    state: next,
                    ..self.say(
                        NodeMessageView::Dialog("CF Headers synced. Downloading block filters."@),
                    )
                },
                NodeState::FiltersSynced => NodeView {
                    state: next,
                    ..self.say(
                        NodeMessageView::Dialog(
                            "Filters synced"@,
                        ),
                    )
                },
                NodeState::TransactionsSynced => NodeView {
                    state: next,
                    ..self.say(
                        NodeMessageView::Synced {
                            tip_height: self.chain.headers.tip_height() as u32,
                            tip_hash: self.chain.headers.hash_at(
                                self.chain.headers.tip_height() as int,
                            ),
                        },
                    )
                },
            }
        }
    }

    /// How many ready sessions the node wants in its phase: one while it is
    /// behind, the configured number afterwards.
    pub open spec fn wanted_peers(self) -> nat {
        if self.state == NodeState::Behind {
            1
        } else {
            self.required_peers
        }
    }

    /// The node after it has looked for a peer while `live` sessions were
    /// ready and made the choice `choice`: the application hears how many
    /// peers are wanted and how many are there and is warned that peers are
    /// missing, a peer of the white list leaves the list, and a sentence
    /// tells where the peer comes from unless it was preferred for its
    /// filters or the seeds are next.
    pub open spec fn after_search(self, now: u64, choice: PeerChoice, live: nat) -> NodeView {
        let warned = NodeView {
            connections_met: false,
            ..self.say(NodeMessageView::Dialog(required_peers_text(self.required_peers, live))).say(
                NodeMessageView::Dialog("Not connected to enough peers, finding one..."@),
            ).say(NodeMessageView::Warning(Warning::NotEnoughConnections))
        };
        if self.white_list.len() > 0 {
            NodeView {
                white_list: self.white_list.drop_last(),
                ..warned.say(NodeMessageView::Dialog("Using a peer from the white list"@))
            }
        } else if choice is Peer && !prefers_cpf(self, now) {
            warned.say(NodeMessageView::Dialog("Loaded peer from the database"@))
        } else {
            warned
        }
    }

    /// The node after it has found that it has the peers it wants: the
    /// application hears of it once.
    pub open spec fn after_enough(self) -> NodeView {
        if self.connections_met {
            self
        } else {
            NodeView { connections_met: true, ..self.say(NodeMessageView::ConnectionsMet) }
        }
    }

    /// The node after it has asked for the block that has waited longest, if
    /// one waits: the application hears which block it is and that it is
    /// asked of some peer.
    pub open spec fn after_block_request(self) -> NodeView {
        if self.chain.queue.len() > 0 {
            self.say(NodeMessageView::Dialog(next_block_text(self.chain.queue[0].hash))).say(
                NodeMessageView::Dialog("Sending block request to a random peer"@),
            )
        } else {
            self
        }
    }

    /// The node after a peer has said what it is: past the first phase a
    /// peer that lacks a service gives a warning; from any other peer the
    /// height it tells of is noted if it is the best so far.
    pub open spec fn on_version(self, version: RemoteVersion) -> NodeView {
        if lacks_services(self.state, version.service_flags) {
            self.say(NodeMessageView::Warning(Warning::NoCompactFilters))
        } else {
            NodeView {
                chain: ChainView {
                    best_known_height: if told_height(version) >= self.chain.best_known_height {
                        told_height(version) as nat
                    } else {
                        self.chain.best_known_height
                    },
                    ..self.chain
                },
                ..self
            }
        }
    }

    /// The node after addresses a peer has told of.
    pub open spec fn on_addrs(self, peers: Seq<PeerAddress>, now: u64) -> NodeView {
        NodeView {
            peers: crate::peers::directory::spec_add_cpf_peers(
                self.peers,
                self.peer_size,
                peers,
                now,
            ),
            ..self
        }
    }

    /// The node after a batch of headers: the chain takes the batch; a batch
    /// that replaces a part of the chain sends the node back to the first
    /// phase; a batch that is turned down for another reason than being
    /// empty gives a warning.
    pub open spec fn on_headers(self, headers: Seq<Header>) -> NodeView {
        NodeView {
            chain: self.chain.after_headers(headers),
            state: if reorganizes(self.chain.headers, headers) {
                NodeState::Behind
            } else {
                self.state
            },
            outbox: match self.chain.headers.plan(headers) {
                Err(HeaderSyncError::EmptyMessage) => self.outbox,
                Err(e) => self.outbox.push(NodeMessageView::Warning(Warning::HeaderSync(e))),
                Ok(_) => self.outbox,
            },
            ..self
        }
    }

    /// The node after a peer's filter headers: the chain takes them; a peer
    /// whose answer is turned down is marked for eviction with a warning;
    /// where the answer settles a claim, the peers that were outvoted are
    /// marked for eviction, with one warning if there are any.
    pub open spec fn on_cf_headers(self, peer: u32, stop_hash: Seq<u8>, claim: AttestationView) -> NodeView {
        let after = NodeView { chain: self.chain.after_cf_headers(stop_hash, claim), ..self };
        match self.chain.plan_cf_headers(stop_hash, claim) {
            Err(e) => NodeView {
                evictions: self.evictions.push(peer),
                ..after.say(NodeMessageView::Warning(Warning::FilterHeaderSync(e)))
            },
            Ok(OutcomeView::Waiting) => after,
            Ok(OutcomeView::Accepted { minority }) => NodeView {
                evictions: self.evictions + minority,
                outbox: if minority.len() > 0 {
                    self.outbox.push(NodeMessageView::Warning(Warning::FilterHeaderMinority))
                } else {
                    self.outbox
                },
                ..after
            },
        }
    }

    /// The node after a peer's filter: the chain takes it; a filter that is
    /// stored is handed to the application; a peer whose filter is turned
    /// down, because its bytes do not hash to the recorded filter hash or
    /// because no filter header is recorded for its block, is marked for
    /// eviction with a warning.
    pub open spec fn on_filter(self, peer: u32, block_hash: Seq<u8>, content: Seq<u8>) -> NodeView {
        match self.chain.plan_filter(block_hash, content) {
            Err(e) => NodeView {
                evictions: self.evictions.push(peer),
                ..self.say(NodeMessageView::Warning(Warning::FilterSync(e)))
            },
            Ok(FilterSyncOutcome::AlreadyHeld) => self,
            Ok(FilterSyncOutcome::Stored { height, matched }) => NodeView {
                chain: self.chain.after_filter(block_hash, content),
                ..self.say(
                    NodeMessageView::IndexedFilter { height, hash: block_hash, contents: content },
                )
            },
        }
    }

    /// The node after a block from the session with nonce `peer`: while it
    /// is behind nothing changes; in every other phase the chain takes the
    /// block, and the application hears of the block or of the reason it was
    /// turned down. A peer whose block is turned down is marked for eviction.
    pub open spec fn on_block(self, peer: u32, header: Header, txs: Seq<TransactionView>) -> NodeView {
        if self.state == NodeState::Behind {
            self
        } else {
            match self.chain.plan_block(header, txs) {
                Ok((height, txids)) => NodeView {
                    chain: self.chain.after_block(header, txs),
                    ..self.say(
                        NodeMessageView::Block {
                            height: height as u32,
                            hash: header.spec_hash(),
                            txids,
                        },
                    )
                },
                Err(e) => NodeView {
                    evictions: self.evictions.push(peer),
                    ..self.say(NodeMessageView::Warning(Warning::BlockScan(e)))
                },
            }
        }
    }

    /// The node after word that a session has ended: the application is
    /// warned where the peer sent bytes the session turned down.
    pub open spec fn on_departure(self, why: Departure) -> NodeView {
        match why {
            Departure::Rejected(_) => self.say(NodeMessageView::Warning(Warning::Framing)),
            _ => self,
        }
    }

    /// The node after word of new blocks: it is back in the first phase.
    pub open spec fn on_inventory(self) -> NodeView {
        NodeView { state: NodeState::Behind, ..self }
    }

    /// The node after the handler of a message from the session with nonce
    /// `nonce` has run.
    pub open spec fn on_message(self, nonce: u32, message: PeerMessage, now: u64) -> NodeView {
        match message {
            PeerMessage::Version(version) => self.on_version(version).say(
                NodeMessageView::Dialog(peer_version_text(nonce)),
            ),
            PeerMessage::Addr(addresses) => self.on_addrs(addresses@, now),
            PeerMessage::Headers(headers) => self.on_headers(headers@),
            PeerMessage::FilterHeaders(cf_headers) => self.on_cf_headers(
                nonce,
                cf_headers.stop_hash@,
                claim_view(nonce, cf_headers),
            ),
            PeerMessage::Filter(filter) => self.on_filter(
                nonce,
                filter.block_hash@,
                filter.contents@,
            ),
            PeerMessage::Block(block) => self.on_block(
                nonce,
                block.header,
                txs_view(block.txdata@),
            ),
            PeerMessage::NewBlocks(_) => self.on_inventory(),
            PeerMessage::Disconnect(why) => self.on_departure(why),
            _ => self,
        }
    }

    /// A batch of headers that the chain has taken, handed to the node a
    /// second time, changes neither the chain nor the phase, and nothing is
    /// handed to the store either time: where no two heights of the chain
    /// hold the same block hash after the first time, the second time leaves
    /// the chain, the mark of what the store holds, the phase and the list of
    /// store updates as the first time left them.
    pub proof fn lemma_headers_twice(self, batch: Seq<Header>)
        requires
            self.chain.inv(),
            self.chain.headers.plan(batch) is Ok,
            self.chain.after_headers(batch).headers.distinct(),
        ensures
            self.on_headers(batch).on_headers(batch).chain == self.on_headers(batch).chain,
            self.on_headers(batch).on_headers(batch).state == self.on_headers(batch).state,
            self.on_headers(batch).on_headers(batch).store_updates == self.store_updates,
            self.on_headers(batch).store_updates == self.store_updates,
            self.on_headers(batch).on_headers(batch).chain.headers.tip_height()
                == self.on_headers(batch).chain.headers.tip_height(),
    {
        self.chain.lemma_headers_twice(batch);
        self.chain.headers.lemma_sync_twice(batch);
        assert(self.chain.after_headers(batch).headers == self.chain.headers.after(batch));
    }

    /// The node after one message from a session was taken: the handler has
    /// run, the sessions marked for eviction were told, and the phase has
    /// moved on if the chain allows it.
    pub open spec fn after_message(self, event: PeerThreadMessage, now: u64) -> NodeView {
        (NodeView {
            evictions: Seq::empty(),
            ..self.on_message(event.nonce, event.message, now)
        }).advanced()
    }
}

/// Whether `node` is a node as it starts from a configuration and from the
/// headers a store holds: behind, watching each script of the configuration
/// once, with the anchor of the configuration or the first block of the
/// network, the stored headers above it, the tip of them as the best known
/// height and all of them counted as stored, no filter headers and no
/// filters, no peers, and one message that tells from where the sync starts.
pub open spec fn starts_from(node: NodeView, config: NodeConfig, network: Network, stored: Seq<Header>) -> bool {
    &&& node.state == NodeState::Behind
    &&& node.network == network
    &&& node.white_list == config.white_list@
    &&& node.required_peers == config.required_peers
    &&& node.policy == config.filter_sync_policy
    &&& node.peer_size == config.target_peer_size
    &&& node.connections_met == false
    &&& node.chain.scripts == distinct_scripts(config.scripts.deep_view())
    &&& node.chain.watched.len() == 0
    &&& node.chain.headers.network == network
    &&& node.chain.headers.headers == stored
    &&& node.chain.headers.reorg_window == config.reorg_window
    &&& node.chain.headers.anchor_height == (match config.header_checkpoint {
        Some(c) => c.height,
        None => 0,
    })
    &&& node.chain.headers.anchor_hash == (match config.header_checkpoint {
        Some(c) => c.hash@,
        None => spec_genesis_hash(network),
    })
    &&& node.chain.filter_base == (match config.filter_startpoint {
        Some(s) if s > node.chain.headers.anchor_height => s as nat,
        _ => node.chain.headers.anchor_height,
    })
    &&& node.chain.cf.entries.len() == 0
    &&& node.chain.cf.pending.len() == 0
    &&& node.chain.filters.len() == 0
    &&& node.chain.cf.quorum == (if config.required_peers == 0 {
        1nat
    } else {
        config.required_peers as nat
    })
    &&& node.chain.queue.len() == 0
    &&& node.chain.best_known_height == node.chain.headers.tip_height()
    &&& node.chain.persisted == stored.len()
    &&& node.peers.len() == 0
    &&& node.evictions.len() == 0
    &&& node.store_updates.len() == 0
    &&& node.outbox == seq![
        NodeMessageView::Dialog(starting_text(node.chain.headers.tip_height() as u32)),
    ]
}

/// Where to find the next peer.
#[derive(Clone, Copy, Debug)]
pub enum PeerChoice {
    /// Connect to this peer, on this port or on the default port.
    Peer(IpAddress, Option<u16>),
    /// No peer is known: ask the seeds, then hand what they name to
    /// `bootstrap_peers`.
    Bootstrap,
}

/// The node.
pub struct Node {
    state: NodeState,
    chain: Chain,
    peer_db: PeerDirectory,
    required_peers: usize,
    white_list: Vec<TrustedPeer>,
    network: Network,
    filter_sync_policy: FilterSyncPolicy,
    dialog: Dialog,
    store_updates: Vec<StoreUpdate>,
    evictions: Vec<u32>,
    connections_met: bool,
}

impl View for Node {
    type V = NodeView;

    closed spec fn view(&self) -> NodeView {
        NodeView {
            state: self.state,
            chain: self.chain@,
            peers: self.peer_db@,
            peer_size: self.peer_db.spec_size(),
            required_peers: self.required_peers as nat,
            white_list: self.white_list@,
            network: self.network,
            policy: self.filter_sync_policy,
            outbox: self.dialog@,
            store_updates: updates_view(self.store_updates@),
            evictions: self.evictions@,
            connections_met: self.connections_met,
        }
    }
}

impl Node {
    /// The invariant of the node: that of its chain and of its catalogue of
    /// peers.
    pub closed spec fn wf(&self) -> bool {
        &&& self.chain.wf()
        &&& self.peer_db.wf()
        &&& self.chain@.headers.network == self.network
    }

    /// The chain of a well-formed node meets its invariant.
    pub proof fn lemma_chain_inv(&self)
        requires
            self.wf(),
        ensures
            self@.chain.inv(),
    {
        self.chain.lemma_inv();
    }

    /// Starts a node from what the header store holds, with an unbounded
    /// catalogue of peers, filters from the anchor on and the usual reorg
    /// window. Without a checkpoint the chain starts at the first block of
    /// the network. The node starts behind, with the tip of the stored
    /// headers as the best known height, and tells the application from
    /// where it syncs.
    pub fn new(
        network: Network,
        white_list: Vec<TrustedPeer>,
        scripts: Vec<Vec<u8>>,
        stored_headers: Vec<Header>,
        header_checkpoint: Option<HeaderCheckpoint>,
        required_peers: usize,
    ) -> (r: Result<Node, NodeError>)
        ensures
            r matches Ok(node) ==> node.wf() && starts_from(
                node@,
                (NodeConfig {
                    required_peers,
                    white_list,
                    scripts,
                    header_checkpoint,
                    filter_startpoint: None,
                    target_peer_size: PeerStoreSizeConfig::Unbounded,
                    filter_sync_policy: FilterSyncPolicy::Continue,
                    reorg_window: DEFAULT_REORG_WINDOW,
                }),
                network,
                stored_headers@,
            ),
            r is Ok <==> HeaderChainView::loaded(
                network,
                (match header_checkpoint {
                    Some(c) => c.height as nat,
                    None => 0nat,
                }),
                (match header_checkpoint {
                    Some(c) => c.hash@,
                    None => spec_genesis_hash(network),
                }),
                stored_headers@,
                DEFAULT_REORG_WINDOW as nat,
            ) is Ok,
            r matches Err(e) ==> e == NodeError::LoadError(PersistenceError::HeaderLoadError),
    {
        let config = NodeConfig {
            required_peers,
            white_list,
            scripts,
            header_checkpoint,
            filter_startpoint: None,
            target_peer_size: PeerStoreSizeConfig::Unbounded,
            filter_sync_policy: FilterSyncPolicy::Continue,
            reorg_window: DEFAULT_REORG_WINDOW,
        };
        Node::new_from_config(config, network, stored_headers)
    }

    /// Starts a node from a configuration and from what the header store
    /// holds.
    pub fn new_from_config(config: NodeConfig, network: Network, stored_headers: Vec<Header>) -> (r:
        Result<Node, NodeError>)
        ensures
            r matches Ok(node) ==> node.wf() && starts_from(node@, config, network, stored_headers@),
            r is Ok <==> HeaderChainView::loaded(
                network,
                (match config.header_checkpoint {
                    Some(c) => c.height as nat,
                    None => 0nat,
                }),
                (match config.header_checkpoint {
                    Some(c) => c.hash@,
                    None => spec_genesis_hash(network),
                }),
                stored_headers@,
                config.reorg_window as nat,
            ) is Ok,
            r matches Err(e) ==> e == NodeError::LoadError(PersistenceError::HeaderLoadError),
    {
        let anchor: HeaderCheckpoint = match config.header_checkpoint {
            Some(c) => c,
            None => HeaderCheckpoint { height: 0, hash: genesis_hash(network) },
        };
        let headers: HeaderChain = match HeaderChain::load(
            network,
            anchor,
            stored_headers,
            config.reorg_window,
        ) {
            Ok(h) => h,
            Err(_) => {
                return Err(NodeError::LoadError(PersistenceError::HeaderLoadError));
            },
        };
        let chain: Chain = Chain::new(
            headers,
            config.scripts,
            config.filter_startpoint,
            config.required_peers,
        );
        let height: u32 = chain.height();
        proof {
            chain.lemma_inv();
        }
        let mut dialog: Dialog = Dialog::new();
        dialog.starting(height);
        assert(dialog@ =~= seq![NodeMessageView::Dialog(starting_text(height))]);
        Ok(
            Node {
                state: NodeState::Behind,
                chain,
                peer_db: PeerDirectory::new(config.target_peer_size),
                required_peers: config.required_peers,
                white_list: config.white_list,
                network,
                filter_sync_policy: config.filter_sync_policy,
                dialog,
                store_updates: Vec::new(),
                evictions: Vec::new(),
                connections_met: false,
            },
        )
    }

    /// The phase of the sync.
    pub fn state(&self) -> (r: NodeState)
        ensures
            r == self@.state,
    {
        self.state
    }

    /// The height of the tip of the chain.
    pub fn height(&self) -> (r: u32)
        requires
            self.wf(),
        ensures
            r == self@.chain.headers.tip_height(),
    {
        self.chain.height()
    }

    /// The chain.
    pub fn chain(&self) -> (r: &Chain)
        ensures
            r@ == self@.chain,
            self.wf() ==> r.wf(),
    {
        &self.chain
    }

    /// The number of peers in the catalogue.
    pub fn known_peers(&self) -> (r: usize)
        ensures
            r == self@.peers.len(),
    {
        self.peer_db.len()
    }

    /// The peers in the catalogue: what a store keeps.
    pub fn peer_records(&self) -> (r: Vec<PeerRecord>)
        ensures
            r@ == self@.peers,
    {
        self.peer_db.records()
    }

    /// Notes the outcome of a connection to a peer of the catalogue.
    pub fn mark_tried(&mut self, addr: &IpAddress, port: u16, succeeded: bool, now: u64)
        requires
            old(self).wf(),
        ensures
            final(self).wf(),
            final(self)@ == (NodeView { peers: final(self)@.peers, ..old(self)@ }),
            final(self)@.peers.len() == old(self)@.peers.len(),
            forall|i: int|
                0 <= i < old(self)@.peers.len() ==> (#[trigger] final(self)@.peers[i]) == (if old(self)@.peers[i].has_key(addr@, port) {
                    PeerRecord {
                        tried: if old(self)@.peers[i].tried < u32::MAX {
                            (old(self)@.peers[i].tried + 1) as u32
                        } else {
                            u32::MAX
                        },
                        last_seen: if succeeded {
                            now
                        } else {
                            old(self)@.peers[i].last_seen
                        },
                        ..old(self)@.peers[i]
                    }
                } else {
                    old(self)@.peers[i]
                }),
    {
        self.peer_db.mark_tried(addr, port, succeeded, now);
    }

    /// Hands out the messages for the application.
    pub fn drain_messages(&mut self) -> (r: Vec<NodeMessage>)
        requires
            old(self).wf(),
        ensures
            final(self).wf(),
            crate::client::messages::messages_view(r@) == old(self)@.outbox,
            final(self)@ == (NodeView { outbox: Seq::empty(), ..old(self)@ }),
    {
        let r = self.dialog.drain();
        assert(self.dialog@ =~= Seq::empty());
        r
    }

    /// Hands out what the header store must do.
    pub fn drain_store_updates(&mut self) -> (r: Vec<StoreUpdate>)
        requires
            old(self).wf(),
        ensures
            final(self).wf(),
            updates_view(r@) == old(self)@.store_updates,
            final(self)@ == (NodeView { store_updates: Seq::empty(), ..old(self)@ }),
    {
        let mut taken: Vec<StoreUpdate> = Vec::new();
        taken.append(&mut self.store_updates);
        assert(updates_view(self.store_updates@) =~= Seq::empty());
        taken
    }

    /// Hands out the nonces of the sessions to close.
    pub fn drain_evictions(&mut self) -> (r: Vec<u32>)
        requires
            old(self).wf(),
        ensures
            final(self).wf(),
            r@ == old(self)@.evictions,
            final(self)@ == (NodeView { evictions: Seq::empty(), ..old(self)@ }),
    {
        let mut taken: Vec<u32> = Vec::new();
        taken.append(&mut self.evictions);
        assert(self.evictions@ =~= Seq::empty());
        taken
    }

    /// Moves the sync on to the next phase if the chain allows it, and tells
    /// the application. The headers are handed to the store when the first
    /// phase ends. The phase never moves back here.
    pub fn advance_state(&mut self)
        requires
            old(self).wf(),
        ensures
            final(self).wf(),
            final(self)@ == old(self)@.advanced(),
            final(self)@.state == next_state(old(self)@.state, old(self)@.chain, old(self)@.policy),
            final(self)@.state.rank() >= old(self)@.state.rank(),
    {
        proof {
            self.chain.lemma_inv();
        }
        match self.state {
            NodeState::Behind => {
                if self.chain.is_synced() {
                    self.dialog.send_dialog(
                        "Headers synced".to_owned(),
                    );
                    let update: StoreUpdate = self.chain.flush_to_disk();
                    let ghost before = updates_view(self.store_updates@);
                    let ghost uv = StoreUpdateView {
                        rewind_to: update.rewind_to,
                        headers: update.headers@,
                    };
                    self.store_updates.push(update);
                    assert(updates_view(self.store_updates@) =~= before.push(uv));
                    self.state = NodeState::HeadersSynced;
                }
            },
            NodeState::HeadersSynced => {
                if self.filter_sync_policy == FilterSyncPolicy::Continue
                    && self.chain.is_cf_headers_synced() {
                    self.dialog.send_dialog(
                        "CF Headers synced. Downloading block filters.".to_owned(),
                    );
                    self.state = NodeState::FilterHeadersSynced;
                }
            },
            NodeState::FilterHeadersSynced => {
                if self.chain.is_filters_synced() {
                    self.dialog.send_dialog(
                        "Filters synced".to_owned(),
                    );
                    self.state = NodeState::FiltersSynced;
                }
            },
            NodeState::FiltersSynced => {
                if self.chain.block_queue_empty() {
                    self.state = NodeState::TransactionsSynced;
                    let update = SyncUpdate {
                        tip_height: self.chain.height(),
                        tip_hash: self.chain.tip_hash(),
                    };
                    self.dialog.send_data(NodeMessage::Synced(update));
                }
            },
            NodeState::TransactionsSynced => {},
        }
    }

    /// How many peers the node wants in its phase: one while it is behind,
    /// the configured number afterwards.
    pub fn next_required_peers(&self) -> (r: usize)
        ensures
            r == (if self@.state == NodeState::Behind {
                1nat
            } else {
                self@.required_peers
            }),
    {
        match self.state {
            NodeState::Behind => 1,
            _ => self.required_peers,
        }
    }

    /// The request for the headers that follow the tip.
    fn get_headers(&self) -> (r: MainThreadMessage)
        requires
            self.wf(),
        ensures
            r@ == get_headers_view(self@.chain),
    {
        MainThreadMessage::GetHeaders(
            GetHeaderConfig { locators: self.chain.locators(), stop_hash: None },
        )
    }

    /// The request that carries the sync on once headers are synced.
    fn follow_up(&self) -> (r: Option<MainThreadMessage>)
        requires
            self.wf(),
        ensures
            follow_up_ok(self@.chain, self@.policy, request_view(r)),
    {
        if self.filter_sync_policy == FilterSyncPolicy::Halt {
            return None;
        }
        match self.chain.next_cf_header_message() {
            Some(range) => {
                return Some(MainThreadMessage::GetFilterHeaders(range));
            },
            None => {},
        }
        match self.chain.next_filter_message() {
            Some(range) => Some(MainThreadMessage::GetFilters(range)),
            None => None,
        }
    }
}

impl Node {
    /// Takes what a peer says of itself once the session is open. After the
    /// first phase a peer that does not serve both compact block filters and
    /// blocks is turned away with a warning. Any other peer is asked for the
    /// headers that follow the tip, and the height it tells of, read as an
    /// unsigned number, is noted if it is the best so far.
    pub fn handle_version(&mut self, version_message: RemoteVersion) -> (r: MainThreadMessage)
        requires
            old(self).wf(),
        ensures
            final(self).wf(),
            final(self)@ == old(self)@.on_version(version_message),
            final(self)@.state == old(self)@.state,
            r@ == (if lacks_services(old(self)@.state, version_message.service_flags) {
                RequestView::Disconnect
            } else {
                get_headers_view(final(self)@.chain)
            }),
    {
        match self.state {
            NodeState::Behind => {},
            _ => {
                if !serves(version_message.service_flags, SERVICE_COMPACT_FILTERS) || !serves(
                    version_message.service_flags,
                    SERVICE_NETWORK,
                ) {
                    self.dialog.send_warning(Warning::NoCompactFilters);
                    return MainThreadMessage::Disconnect;
                }
            },
        }
        let peer_height: u32 = unsigned_height(version_message.height);
        if peer_height >= self.chain.best_known_height() {
            self.chain.set_best_known_height(peer_height);
        }
        self.get_headers()
    }

    /// Takes the addresses a peer has told of: those that signal compact
    /// block filters join the catalogue.
    pub fn handle_new_addrs(&mut self, new_peers: Vec<PeerAddress>, now: u64)
        requires
            old(self).wf(),
        ensures
            final(self).wf(),
            final(self)@ == old(self)@.on_addrs(new_peers@, now),
            final(self)@.peers.len() >= old(self)@.peers.len(),
    {
        let _taken: usize = self.peer_db.add_cpf_peers(&new_peers, now);
    }

    /// Takes a batch of headers from a peer and says what to ask that peer
    /// next.
    ///
    /// An empty batch from a peer while headers are missing, and any batch
    /// the chain turns down, ends the session; the latter with a warning. A
    /// batch that replaces a part of the chain sends the node back to the
    /// first phase. As long as headers are missing the peer is asked for
    /// more; after that the request is the one that carries the sync on.
    pub fn handle_headers(&mut self, headers: Vec<Header>) -> (r: Option<MainThreadMessage>)
        requires
            old(self).wf(),
        ensures
            final(self).wf(),
            final(self)@ == old(self)@.on_headers(headers@),
            headers_answer_ok(old(self)@, headers@, request_view(r)),
            headers@.len() == 0 && !old(self)@.chain.headers_synced() ==> request_view(r) == Some(
                RequestView::Disconnect,
            ),
            headers@.len() == 0 && old(self)@.chain.headers_synced() ==> follow_up_ok(
                old(self)@.chain,
                old(self)@.policy,
                request_view(r),
            ) && final(self)@ == old(self)@,
    {
        proof {
            self.chain.lemma_inv();
        }
        let old_tip: u32 = self.chain.height();
        match self.chain.sync_chain(headers) {
            Err(HeaderSyncError::EmptyMessage) => {
                if !self.chain.is_synced() {
                    Some(MainThreadMessage::Disconnect)
                } else {
                    self.follow_up()
                }
            },
            Err(e) => {
                self.dialog.send_warning(Warning::HeaderSync(e));
                Some(MainThreadMessage::Disconnect)
            },
            Ok(outcome) => {
                match outcome {
                    HeaderSyncOutcome::Adopted { fork_height, from } => {
                        if fork_height < old_tip {
                            self.state = NodeState::Behind;
                        }
                    },
                    HeaderSyncOutcome::Unchanged => {},
                }
                if !self.chain.is_synced() {
                    Some(self.get_headers())
                } else {
                    self.follow_up()
                }
            },
        }
    }

    /// Takes a peer's filter headers. A peer whose answer the chain turns
    /// down is marked for eviction with a warning. Where the answer settles
    /// the claim, the peers that were outvoted are marked for eviction, with
    /// one warning if there are any, and the request that carries the sync
    /// on is handed back. Nothing is asked while a quorum is waited for.
    pub fn handle_cf_headers(&mut self, peer_id: u32, cf_headers: CFHeaders) -> (r: Option<
        MainThreadMessage,
    >)
        requires
            old(self).wf(),
        ensures
            final(self).wf(),
            final(self)@ == old(self)@.on_cf_headers(
                peer_id,
                cf_headers.stop_hash@,
                claim_view(peer_id, cf_headers),
            ),
            cf_headers_answer_ok(
                old(self)@,
                peer_id,
                cf_headers.stop_hash@,
                claim_view(peer_id, cf_headers),
                request_view(r),
            ),
    {
        match self.chain.sync_cf_headers(peer_id, cf_headers) {
            Err(e) => {
                self.dialog.send_warning(Warning::FilterHeaderSync(e));
                self.evictions.push(peer_id);
                None
            },
            Ok(CFHeaderSyncOutcome::Waiting) => None,
            Ok(CFHeaderSyncOutcome::Accepted { minority }) => {
                let mut minority = minority;
                if minority.len() > 0 {
                    self.dialog.send_warning(Warning::FilterHeaderMinority);
                }
                self.evictions.append(&mut minority);
                self.follow_up()
            },
        }
    }

    /// Takes a filter from a peer. A peer whose filter the chain turns down,
    /// because its bytes do not hash to the recorded filter hash or because
    /// no filter header is recorded for its block, is marked for eviction
    /// with a warning, and the chain stays as it was. When the last filter of
    /// a run of a thousand blocks or the filter of the last recorded block is
    /// stored, the next filters are asked for if any are missing.
    pub fn handle_filter(&mut self, peer_id: u32, filter: CFilter) -> (r: Option<MainThreadMessage>)
        requires
            old(self).wf(),
        ensures
            final(self).wf(),
            final(self)@ == old(self)@.on_filter(peer_id, filter.block_hash@, filter.contents@),
            filter_answer_ok(
                old(self)@,
                peer_id,
                filter.block_hash@,
                filter.contents@,
                request_view(r),
            ),
            old(self)@.chain.plan_filter(filter.block_hash@, filter.contents@) is Err
                ==> final(self)@.chain == old(self)@.chain,
    {
        proof {
            self.chain.lemma_inv();
        }
        let base: u32 = self.chain.filter_base();
        let cf_tip: u32 = self.chain.cf_tip();
        let block_hash: Hash256 = filter.block_hash;
        let contents: Vec<u8> = crate::chain::header_chain::tail(&filter.contents, 0);
        assert(contents@ =~= filter.contents@);
        match self.chain.sync_filter(filter) {
            Err(e) => {
                self.dialog.send_warning(Warning::FilterSync(e));
                self.evictions.push(peer_id);
                None
            },
            Ok(FilterSyncOutcome::AlreadyHeld) => None,
            Ok(FilterSyncOutcome::Stored { height, matched }) => {
                self.dialog.send_data(
                    NodeMessage::IndexedFilter(IndexedFilter::new(height, block_hash, contents)),
                );
                if height == cf_tip || (height > base && (height - base) % FILTER_BATCH_SIZE == 0) {
                    match self.chain.next_filter_message() {
                        Some(range) => Some(MainThreadMessage::GetFilters(range)),
                        None => None,
                    }
                } else {
                    None
                }
            },
        }
    }

    /// Takes a block from the session with nonce `peer_id`. While the node
    /// is behind no block was asked for and the session ends. In every other
    /// phase the chain scans the block: a block it accepts is handed to the
    /// application; one it turns down, because it was not asked for or
    /// because its transactions do not hash to its Merkle root, gives a
    /// warning and marks the peer for eviction. Nothing more is asked of the
    /// peer.
    pub fn handle_block(&mut self, peer_id: u32, block: Block) -> (r: Option<MainThreadMessage>)
        requires
            old(self).wf(),
        ensures
            final(self).wf(),
            final(self)@ == old(self)@.on_block(peer_id, block.header, txs_view(block.txdata@)),
            request_view(r) == (if old(self)@.state == NodeState::Behind {
                Some(RequestView::Disconnect)
            } else {
                None
            }),
    {
        match self.state {
            NodeState::Behind => Some(MainThreadMessage::Disconnect),
            _ => {
                match self.chain.scan_block(&block) {
                    Ok(indexed) => {
                        self.dialog.send_data(NodeMessage::Block(indexed));
                    },
                    Err(e) => {
                        self.dialog.send_warning(Warning::BlockScan(e));
                        self.evictions.push(peer_id);
                    },
                }
                None
            },
        }
    }

    /// The request for the block that has waited longest, if any waits.
    pub fn pop_block_queue(&mut self) -> (r: Option<MainThreadMessage>)
        requires
            old(self).wf(),
        ensures
            final(self).wf(),
            old(self)@.chain.queue.len() == 0 ==> r is None && final(self)@ == old(self)@,
            old(self)@.chain.queue.len() > 0 ==> request_view(r) == Some(
                RequestView::GetBlock { hash: old(self)@.chain.queue[0].hash },
            ) && final(self)@ == (NodeView {
                outbox: old(self)@.outbox.push(
                    NodeMessageView::Dialog(next_block_text(old(self)@.chain.queue[0].hash)),
                ),
                ..old(self)@
            }),
    {
        match self.chain.next_block() {
            Some(block_hash) => {
                self.dialog.next_block(&block_hash);
                Some(MainThreadMessage::GetBlock(GetBlockConfig { locator: block_hash }))
            },
            None => None,
        }
    }

    /// Takes a peer's word of new blocks. A node that is past the first
    /// phase goes back to it and asks for the headers that follow its tip.
    pub fn handle_inventory_blocks(&mut self) -> (r: Option<MainThreadMessage>)
        requires
            old(self).wf(),
        ensures
            final(self).wf(),
            final(self)@ == old(self)@.on_inventory(),
            request_view(r) == (if old(self)@.state == NodeState::Behind {
                None
            } else {
                Some(get_headers_view(old(self)@.chain))
            }),
    {
        match self.state {
            NodeState::Behind => None,
            _ => {
                self.state = NodeState::Behind;
                Some(self.get_headers())
            },
        }
    }

    /// Lets the node go on to filters after a halt.
    pub fn continue_filters(&mut self)
        requires
            old(self).wf(),
        ensures
            final(self).wf(),
            final(self)@ == (NodeView { policy: FilterSyncPolicy::Continue, ..old(self)@ }),
    {
        self.filter_sync_policy = FilterSyncPolicy::Continue;
    }

    /// Watches for one more script.
    pub fn add_script(&mut self, script: Vec<u8>)
        requires
            old(self).wf(),
        ensures
            final(self).wf(),
            final(self)@ == (NodeView {
                chain: if old(self)@.chain.scripts.contains(script@) {
                    old(self)@.chain
                } else {
                    ChainView {
                        scripts: old(self)@.chain.scripts.push(script@),
                        ..old(self)@.chain
                    }
                },
                ..old(self)@
            }),
    {
        self.chain.add_script(script);
    }
}

impl Node {
    /// Takes the peers a store holds into the catalogue, as far as it has
    /// room.
    pub fn load_peers(&mut self, stored: &Vec<PeerRecord>)
        requires
            old(self).wf(),
        ensures
            final(self).wf(),
            final(self)@ == (NodeView {
                peers: crate::peers::directory::spec_add_all(
                    old(self)@.peers,
                    old(self)@.peer_size,
                    stored@,
                ),
                ..old(self)@
            }),
            old(self)@.peers.len() <= final(self)@.peers.len() <= old(self)@.peers.len()
                + stored@.len(),
    {
        self.peer_db.add_all(stored);
    }
}

impl Node {
    /// Tells the application how far the sync has come.
    pub fn report_progress(&mut self)
        requires
            old(self).wf(),
        ensures
            final(self).wf(),
            final(self)@ == old(self)@.say(
                NodeMessageView::Progress(
                    crate::client::messages::Progress {
                        filter_headers: old(self)@.chain.cf.entries.len() as u32,
                        filters: progress_filters(old(self)@.chain),
                        tip_height: old(self)@.chain.best_known_height as u32,
                    },
                ),
            ).say(
                NodeMessageView::Dialog(
                    crate::client::dialog::chain_update_text(
                        old(self)@.chain.headers.tip_height() as u32,
                        old(self)@.chain.cf.entries.len() as u32,
                        progress_filters(old(self)@.chain),
                        old(self)@.chain.best_known_height as u32,
                    ),
                ),
            ),
    {
        proof {
            self.chain.lemma_inv();
        }
        let headers: u32 = self.chain.height();
        let cf_headers: u32 = self.chain.cf_tip() - self.chain.filter_base();
        let filters: u32 = self.chain.filters_in_row() as u32;
        let best: u32 = self.chain.best_known_height();
        self.dialog.chain_update(headers, cf_headers, filters, best);
    }

    /// Takes a command from the application. A script is watched from now
    /// on; the word to continue lifts a halt; a transaction is handed on to
    /// every ready session; the word to stop closes the node down.
    pub fn handle_client_message(&mut self, node_map: &mut PeerMap, message: ClientMessage) -> (r:
        ClientStep)
        requires
            old(self).wf(),
            old(node_map).wf(),
        ensures
            final(self).wf(),
            final(node_map).wf(),
            final(self)@ == (match message {
                ClientMessage::AddScript(script) => NodeView {
                    chain: if old(self)@.chain.scripts.contains(script@) {
                        old(self)@.chain
                    } else {
                        ChainView {
                            scripts: old(self)@.chain.scripts.push(script@),
                            ..old(self)@.chain
                        }
                    },
                    ..old(self)@
                },
                ClientMessage::ContinueFilters => NodeView {
                    policy: FilterSyncPolicy::Continue,
                    ..old(self)@
                },
                ClientMessage::Broadcast(_) => old(self)@,
                ClientMessage::Shutdown => old(self)@.closed_down(),
            }),
            final(node_map)@ == (if message is Shutdown {
                all_closing(old(node_map)@)
            } else {
                old(node_map)@
            }),
            match message {
                ClientMessage::Broadcast(tx) => r matches ClientStep::Tell(
                    NodeAction::Broadcast { nonces, message: m },
                ) && nonces@ == ready_nonces(old(node_map)@) && m@
                    == (RequestView::SendTransaction { bytes: tx@ }),
                ClientMessage::Shutdown => r matches ClientStep::Stop(
                    NodeAction::Broadcast { nonces, message: m },
                ) && nonces@ == all_nonces(old(node_map)@) && m is Disconnect,
                _ => r is Done,
            },
    {
        match message {
            ClientMessage::AddScript(script) => {
                self.add_script(script);
                ClientStep::Done
            },
            ClientMessage::ContinueFilters => {
                self.continue_filters();
                ClientStep::Done
            },
            ClientMessage::Broadcast(tx) => ClientStep::Tell(
                NodeAction::Broadcast {
                    nonces: node_map.broadcast(),
                    message: MainThreadMessage::SendTransaction(tx),
                },
            ),
            ClientMessage::Shutdown => {
                let nonces: Vec<u32> = node_map.nonces();
                node_map.close_all();
                proof {
                    self.chain.lemma_inv();
                }
                let update: StoreUpdate = self.chain.flush_to_disk();
                let ghost before = updates_view(self.store_updates@);
                let ghost uv = StoreUpdateView {
                    rewind_to: update.rewind_to,
                    headers: update.headers@,
                };
                self.store_updates.push(update);
                assert(updates_view(self.store_updates@) =~= before.push(uv));
                ClientStep::Stop(
                    NodeAction::Broadcast { nonces, message: MainThreadMessage::Disconnect },
                )
            },
        }
    }
}

/// The number of filters held without a gap from the filter base on.
pub open spec fn progress_filters(chain: ChainView) -> u32 {
    choose|r: u32|
        r <= chain.filters.len() && (forall|i: int|
            0 <= i < r ==> (#[trigger] chain.filters[i]) is Some) && (r < chain.filters.len()
            ==> chain.filters[r as int] is None)
}

/// What a command of the application leaves for the task that runs the
/// node to do.
#[derive(Debug)]
pub enum ClientStep {
    /// Nothing.
    Done,
    /// Do this and go on.
    Tell(NodeAction),
    /// Do this, write what the node hands to the store, and stop.
    Stop(NodeAction),
}

/// What the application must do for the node.
#[derive(Debug)]
pub enum NodeAction {
    /// Open a session with this peer under this nonce.
    Connect { nonce: u32, addr: IpAddress, port: u16 },
    /// Ask the seeds for peers and hand them to `bootstrap_peers`.
    Bootstrap,
    /// Send a request to one session.
    Send { nonce: u32, message: MainThreadMessage },
    /// Send a request to each of these sessions.
    Broadcast { nonces: Vec<u32>, message: MainThreadMessage },
}

/// Whether `r` is the answer to a batch of headers: an empty batch while
/// headers are missing and a batch the chain turns down end the session; as
/// long as headers are missing after the batch more are asked for; else the
/// request is the one that carries the sync on.
pub open spec fn headers_answer_ok(node: NodeView, headers: Seq<Header>, r: Option<RequestView>) -> bool {
    let after = node.on_headers(headers);
    match node.chain.headers.plan(headers) {
        Err(HeaderSyncError::EmptyMessage) => if !node.chain.headers_synced() {
            r == Some(RequestView::Disconnect)
        } else {
            follow_up_ok(node.chain, node.policy, r)
        },
        Err(_) => r == Some(RequestView::Disconnect),
        Ok(_) => if !after.chain.headers_synced() {
            r == Some(get_headers_view(after.chain))
        } else {
            follow_up_ok(after.chain, after.policy, r)
        },
    }
}

/// Whether `r` is the answer to a peer's filter headers: the request that
/// carries the sync on where they settle a claim, none otherwise.
pub open spec fn cf_headers_answer_ok(
    node: NodeView,
    peer: u32,
    stop_hash: Seq<u8>,
    claim: AttestationView,
    r: Option<RequestView>,
) -> bool {
    let after = node.on_cf_headers(peer, stop_hash, claim);
    match node.chain.plan_cf_headers(stop_hash, claim) {
        Ok(OutcomeView::Accepted { minority }) => follow_up_ok(after.chain, after.policy, r),
        _ => r is None,
    }
}

/// Whether `r` is the answer to a peer's filter: the request for what is
/// still missing where the filter was stored and ends a run, none otherwise.
pub open spec fn filter_answer_ok(
    node: NodeView,
    peer: u32,
    block_hash: Seq<u8>,
    content: Seq<u8>,
    r: Option<RequestView>,
) -> bool {
    let after = node.on_filter(peer, block_hash, content);
    match node.chain.plan_filter(block_hash, content) {
        Ok(FilterSyncOutcome::Stored { height, matched }) => if ends_filter_run(node.chain, height) {
            next_filters_ok(after.chain, r)
        } else {
            r is None
        },
        _ => r is None,
    }
}

/// The request an answer holds, if there is an answer.
pub open spec fn the_answer(actions: Seq<NodeAction>) -> Option<RequestView> {
    if actions.len() == 0 {
        None
    } else {
        match actions[0] {
            NodeAction::Send { nonce, message } => Some(message@),
            NodeAction::Broadcast { nonces, message } => Some(message@),
            _ => None,
        }
    }
}

/// Whether an answer, if there is one, goes to the session with nonce
/// `nonce` alone.
pub open spec fn sent_to(actions: Seq<NodeAction>, nonce: u32) -> bool {
    actions.len() == 0 || (actions.len() == 1 && (actions[0] matches NodeAction::Send {
        nonce: to,
        message,
    } && to == nonce))
}

/// Whether an answer, if there is one, goes to the sessions with the nonces
/// `nonces`.
pub open spec fn broadcast_to(actions: Seq<NodeAction>, nonces: Seq<u32>) -> bool {
    actions.len() == 0 || (actions.len() == 1 && (actions[0] matches NodeAction::Broadcast {
        nonces: to,
        message,
    } && to@ == nonces))
}

/// Whether the answer to a message ends its session.
pub open spec fn turns_away(node: NodeView, message: PeerMessage) -> bool {
    match message {
        PeerMessage::Version(v) => lacks_services(node.state, v.service_flags),
        PeerMessage::Headers(headers) => match node.chain.headers.plan(headers@) {
            Err(HeaderSyncError::EmptyMessage) => !node.chain.headers_synced(),
            Err(_) => true,
            Ok(_) => false,
        },
        PeerMessage::Block(_) => node.state == NodeState::Behind,
        _ => false,
    }
}

/// The sessions after a message from one of them at time `now`: what a peer
/// says of itself is noted, its time as the offset from `now`, and makes its
/// session ready; a session that has ended is
/// dropped with every other closed one; a session whose message is answered
/// with the word to disconnect is closing.
pub open spec fn sessions_after(
    peers: Seq<ManagedPeer>,
    node: NodeView,
    event: PeerThreadMessage,
    now: u64,
) -> Seq<ManagedPeer> {
    let noted = match event.message {
        PeerMessage::Version(v) => with_state(
            with_services(
                with_offset(peers, event.nonce, spec_time_offset(v.timestamp, now)),
                event.nonce,
                v.service_flags,
            ),
            event.nonce,
            SessionState::Ready,
        ),
        PeerMessage::Disconnect(_) => open_sessions(
            with_state(peers, event.nonce, SessionState::Closed),
        ),
        _ => peers,
    };
    if turns_away(node, event.message) {
        with_state(noted, event.nonce, SessionState::Closing)
    } else {
        noted
    }
}

/// The sessions after those with the nonces `evictions` are told to
/// disconnect, in turn.
pub open spec fn sessions_evicted(peers: Seq<ManagedPeer>, evictions: Seq<u32>) -> Seq<ManagedPeer>
    decreases evictions.len(),
{
    if evictions.len() == 0 {
        peers
    } else {
        with_state(
            sessions_evicted(peers, evictions.drop_last()),
            evictions.last(),
            SessionState::Closing,
        )
    }
}

/// Whether `actions` hold the answer to a message from a session while the
/// sessions are `sessions`: what a peer says of itself, headers and blocks
/// are answered to their session, filter headers, filters and word of new
/// blocks to every ready session, and nothing else is answered.
pub open spec fn answer_ok(
    node: NodeView,
    sessions: Seq<ManagedPeer>,
    event: PeerThreadMessage,
    actions: Seq<NodeAction>,
) -> bool {
    match event.message {
        PeerMessage::Version(v) => actions.len() == 1 && sent_to(actions, event.nonce)
            && the_answer(actions) == Some(
            if lacks_services(node.state, v.service_flags) {
                RequestView::Disconnect
            } else {
                get_headers_view(node.on_version(v).chain)
            },
        ),
        PeerMessage::Headers(headers) => sent_to(actions, event.nonce) && headers_answer_ok(
            node,
            headers@,
            the_answer(actions),
        ),
        PeerMessage::FilterHeaders(cf_headers) => broadcast_to(actions, ready_nonces(sessions))
            && cf_headers_answer_ok(
            node,
            event.nonce,
            cf_headers.stop_hash@,
            claim_view(event.nonce, cf_headers),
            the_answer(actions),
        ),
        PeerMessage::Filter(filter) => broadcast_to(actions, ready_nonces(sessions))
            && filter_answer_ok(
            node,
            event.nonce,
            filter.block_hash@,
            filter.contents@,
            the_answer(actions),
        ),
        PeerMessage::Block(_) => sent_to(actions, event.nonce) && the_answer(actions) == (
        if node.state == NodeState::Behind {
            Some(RequestView::Disconnect)
        } else {
            None
        }),
        PeerMessage::NewBlocks(_) => broadcast_to(actions, ready_nonces(sessions)) && the_answer(
            actions,
        ) == (if node.state == NodeState::Behind {
            None
        } else {
            Some(get_headers_view(node.chain))
        }),
        _ => actions.len() == 0,
    }
}

/// The node and its sessions after the messages of a round were taken in
/// turn.
pub open spec fn round_after(
    node: NodeView,
    sessions: Seq<ManagedPeer>,
    events: Seq<PeerThreadMessage>,
    now: u64,
) -> (NodeView, Seq<ManagedPeer>)
    decreases events.len(),
{
    if events.len() == 0 {
        (node, sessions)
    } else {
        let (n, s) = round_after(node, sessions, events.drop_last(), now);
        let e = events.last();
        (
            n.after_message(e, now),
            sessions_evicted(
                sessions_after(s, n, e, now),
                n.on_message(e.nonce, e.message, now).evictions,
            ),
        )
    }
}

/// Whether `choice` is a choice the node may make when it looks for a peer:
/// the last peer of the white list while there is one; else a usable peer of
/// the catalogue, one that signals compact block filters where the node
/// prefers such and the catalogue has one; else the seeds.
pub open spec fn choice_ok(node: NodeView, now: u64, choice: PeerChoice) -> bool {
    if node.white_list.len() > 0 {
        choice == PeerChoice::Peer(node.white_list.last().addr, node.white_list.last().port)
    } else {
        match choice {
            PeerChoice::Bootstrap => forall|i: int|
                0 <= i < node.peers.len() ==> !(#[trigger] node.peers[i]).usable(now),
            PeerChoice::Peer(addr, port) => exists|i: int|
                0 <= i < node.peers.len() && (#[trigger] node.peers[i]).usable(now)
                    && node.peers[i].addr == addr && port == Some(node.peers[i].port) && (
                prefers_cpf(node, now) ==> node.peers[i].is_cpf(now)),
        }
    }
}

/// Whether `actions` and `sessions` are what looking for a peer with the
/// choice `choice` leaves: the seeds are asked; or a session with the chosen
/// peer is opened last, under a nonce no other session has, on the port
/// chosen or on the default one; or, where no fresh nonce was drawn, nothing.
pub open spec fn search_ok(
    node: NodeView,
    cleaned: Seq<ManagedPeer>,
    choice: PeerChoice,
    sessions: Seq<ManagedPeer>,
    actions: Seq<NodeAction>,
) -> bool {
    match choice {
        PeerChoice::Bootstrap => sessions == cleaned && actions.len() == 1 && actions[0]
            is Bootstrap,
        PeerChoice::Peer(addr, port) => {
            let p = match port {
                Some(p) => p,
                None => node.network.spec_default_port(),
            };
            ||| sessions == cleaned && actions.len() == 0
            ||| actions.len() == 1 && (actions[0] matches NodeAction::Connect {
                nonce,
                addr: a,
                port: q,
            } && a == addr && q == p && !has_nonce(cleaned, nonce) && sessions == cleaned.push(
                ManagedPeer {
                    nonce,
                    addr,
                    port: Some(p),
                    state: SessionState::Handshaking,
                    services: 0,
                    time_offset: 0,
                },
            ))
        },
    }
}

/// Whether `actions` hold the request for the block that has waited longest:
/// none where no block waits or no ready session serves blocks, else one to
/// a ready session whose peer serves blocks.
pub open spec fn block_request_ok(node: NodeView, sessions: Seq<ManagedPeer>, actions: Seq<NodeAction>) -> bool {
    if node.chain.queue.len() == 0 {
        actions.len() == 0
    } else {
        ||| actions.len() == 0 && forall|i: int|
            0 <= i < sessions.len() ==> !(#[trigger] sessions[i]).serves_blocks()
        ||| actions.len() == 1 && (actions[0] matches NodeAction::Send { nonce, message }
            && message@ == (RequestView::GetBlock { hash: node.chain.queue[0].hash })
            && exists|i: int|
            0 <= i < sessions.len() && (#[trigger] sessions[i]).nonce == nonce
                && sessions[i].serves_blocks())
    }
}

/// Whether `start`, `sessions` and `actions` are what the opening of a round
/// leaves of the node `node` and the sessions `before`: the phase has moved
/// on and closed sessions are dropped; while fewer sessions are ready than
/// the node wants a peer is looked for, else the application hears once that
/// the connections are met; and the block that has waited longest is asked
/// for.
#[verifier::opaque]
pub open spec fn opening_ok(
    node: NodeView,
    before: Seq<ManagedPeer>,
    now: u64,
    start: NodeView,
    sessions: Seq<ManagedPeer>,
    actions: Seq<NodeAction>,
) -> bool {
    let moved = node.advanced();
    let cleaned = open_sessions(before);
    if count_ready(cleaned) < moved.wanted_peers() {
        exists|choice: PeerChoice, k: int|
            0 <= k <= actions.len() && choice_ok(moved, now, choice) && #[trigger] search_ok(
                moved,
                cleaned,
                choice,
                sessions,
                actions.take(k),
            ) && block_request_ok(moved, sessions, actions.skip(k)) && start == moved.after_search(
                now,
                choice,
                count_ready(cleaned),
            ).after_block_request()
    } else {
        sessions == cleaned && block_request_ok(moved, sessions, actions) && start
            == moved.after_enough().after_block_request()
    }
}

/// The action at position `i` among the last `n` of `actions`.
pub open spec fn tail_at(actions: Seq<NodeAction>, n: int, i: int) -> NodeAction {
    actions[actions.len() - n + i]
}

/// Whether `actions` are what a message from a session is answered with:
/// the answer to the message, if there is one, then the word to disconnect
/// for each session the message has marked for eviction, in turn.
#[verifier::opaque]
pub open spec fn event_answered(
    node: NodeView,
    sessions: Seq<ManagedPeer>,
    event: PeerThreadMessage,
    now: u64,
    actions: Seq<NodeAction>,
) -> bool {
    let evictions = node.on_message(event.nonce, event.message, now).evictions;
    &&& actions.len() >= evictions.len()
    &&& answer_ok(node, sessions, event, actions.take(actions.len() - evictions.len()))
    &&& forall|i: int|
        0 <= i < evictions.len() ==> tells_to_disconnect(
            #[trigger] tail_at(actions, evictions.len() as int, i),
            evictions[i],
        )
}

/// Whether the actions between the cuts `i` and `i + 1` are what the message
/// with number `i` is answered with, by the node and the sessions as the
/// messages before it have left them.
pub open spec fn answered_at(
    node: NodeView,
    sessions: Seq<ManagedPeer>,
    events: Seq<PeerThreadMessage>,
    now: u64,
    actions: Seq<NodeAction>,
    cuts: Seq<int>,
    i: int,
) -> bool {
    let (n, s) = round_after(node, sessions, events.take(i), now);
    0 <= cuts[i] <= cuts[i + 1] <= actions.len() && event_answered(
        n,
        s,
        events[i],
        now,
        actions.subrange(cuts[i], cuts[i + 1]),
    )
}

/// Whether `actions`, cut at the positions `cuts`, are what the messages of
/// a round are answered with, one run of actions for each message, in turn.
pub open spec fn events_answered(
    node: NodeView,
    sessions: Seq<ManagedPeer>,
    events: Seq<PeerThreadMessage>,
    now: u64,
    actions: Seq<NodeAction>,
    cuts: Seq<int>,
) -> bool {
    &&& cuts.len() == events.len() + 1
    &&& cuts[0] == 0
    &&& cuts[events.len() as int] == actions.len()
    &&& forall|i: int|
        0 <= i < events.len() ==> #[trigger] answered_at(node, sessions, events, now, actions, cuts, i)
}

/// Whether a round that finds the node and the sessions as `node` and
/// `before` and is handed the messages `events` leaves them as `after` and
/// `sessions_after` and gives `actions`: the first `head` actions are what
/// the opening of the round asks for, the opening leaves the node and the
/// sessions as `start` and `sessions`, the messages are taken in turn from
/// there, and the other actions, cut at the positions `cuts`, are the
/// answers to the messages.
pub open spec fn round_ok(
    node: NodeView,
    before: Seq<ManagedPeer>,
    events: Seq<PeerThreadMessage>,
    now: u64,
    after: NodeView,
    sessions_after: Seq<ManagedPeer>,
    actions: Seq<NodeAction>,
    start: NodeView,
    sessions: Seq<ManagedPeer>,
    head: int,
    cuts: Seq<int>,
) -> bool {
    &&& 0 <= head <= actions.len()
    &&& opening_ok(node, before, now, start, sessions, actions.take(head))
    &&& (after, sessions_after) == round_after(start, sessions, events, now)
    &&& events_answered(start, sessions, events, now, actions.skip(head), cuts)
}

/// Whether an action tells the session with nonce `nonce` to disconnect.
pub open spec fn tells_to_disconnect(action: NodeAction, nonce: u32) -> bool {
    action matches NodeAction::Send { nonce: to, message } && to == nonce && message is Disconnect
}

/// A node that starts again from the headers an earlier node held, with the
/// anchor and the start of the filters that node had, holds the same chain of
/// headers and counts it as synced. Filter headers and filters are not
/// stored, so the later node holds none: where the earlier node had recorded
/// no filter header and knew of no block above its tip, the three predicates
/// on the sync give what they gave before.
pub proof fn lemma_restart(earlier: NodeView, later: NodeView, config: NodeConfig, network: Network)
    requires
        earlier.chain.inv(),
        starts_from(later, config, network, earlier.chain.headers.headers),
        later.chain.headers.anchor_height == earlier.chain.headers.anchor_height,
        later.chain.filter_base == earlier.chain.filter_base,
    ensures
        later.chain.headers.headers == earlier.chain.headers.headers,
        later.chain.headers.tip_height() == earlier.chain.headers.tip_height(),
        later.chain.headers_synced(),
        later.chain.persisted == earlier.chain.headers.headers.len(),
        earlier.chain.cf.entries.len() == 0 && earlier.chain.headers_synced() ==> {
            &&& later.chain.headers_synced() == earlier.chain.headers_synced()
            &&& later.chain.cf_headers_synced() == earlier.chain.cf_headers_synced()
            &&& later.chain.filters_synced() == earlier.chain.filters_synced()
        },
{
}

/// A frame that announces more than the largest payload is turned down as
/// soon as its envelope is there, whatever follows it. The session hears that
/// the peer is gone, the node warns the application once and changes nothing
/// else, and the session is dropped from the sessions.
pub proof fn lemma_oversized_frame(
    network: Network,
    buffer: Seq<u8>,
    node: NodeView,
    sessions: Seq<ManagedPeer>,
    nonce: u32,
    now: u64,
)
    requires
        buffer.len() >= ENVELOPE_LEN,
        buffer.subrange(0, 4) == network.spec_magic(),
        vstd::bytes::spec_u32_from_le_bytes(buffer.subrange(16, 20)) > MAX_MESSAGE_SIZE,
    ensures
        spec_next_frame(network, buffer) == FrameView::Rejected(FrameError::Oversized),
        (ReadStep::Rejected(ReadError::Frame(FrameError::Oversized))).spec_report() == Some(
            PeerMessage::Disconnect(Departure::Rejected(ReadError::Frame(FrameError::Oversized))),
        ),
        node.on_message(
            nonce,
            PeerMessage::Disconnect(Departure::Rejected(ReadError::Frame(FrameError::Oversized))),
            now,
        ) == node.say(NodeMessageView::Warning(Warning::Framing)),
        sessions_after(
            sessions,
            node,
            (PeerThreadMessage {
                nonce,
                message: PeerMessage::Disconnect(
                    Departure::Rejected(ReadError::Frame(FrameError::Oversized)),
                ),
            }),
            now,
        ) == open_sessions(with_state(sessions, nonce, SessionState::Closed)),
{
}

/// Whether a message from a peer may send the node back to the first phase:
/// word of new blocks, or headers that replace a part of the chain.
pub open spec fn may_revert(chain: ChainView, message: PeerMessage) -> bool {
    match message {
        PeerMessage::NewBlocks(_) => true,
        PeerMessage::Headers(headers) => reorganizes(chain.headers, headers@),
        _ => false,
    }
}

impl Node {
    /// Picks a peer that signals compact block filters from the catalogue.
    pub fn cpf_peer(&mut self, rng: &mut rand::rngs::StdRng, now: u64) -> (r: Option<
        (IpAddress, Option<u16>),
    >)
        requires
            old(self).wf(),
        ensures
            final(self).wf(),
            final(self)@ == old(self)@,
            r is None <==> forall|i: int|
                0 <= i < old(self)@.peers.len() ==> !(#[trigger] old(self)@.peers[i]).is_cpf(now),
            r matches Some(peer) ==> exists|i: int|
                0 <= i < old(self)@.peers.len() && (#[trigger] old(self)@.peers[i]).is_cpf(now)
                    && old(self)@.peers[i].addr == peer.0 && peer.1 == Some(
                    old(self)@.peers[i].port,
                ),
    {
        match self.peer_db.get_random_cpf_peer(rng, now) {
            Some(peer) => {
                let ghost i = choose|i: int|
                    0 <= i < self@.peers.len() && self@.peers[i] == peer;
                assert(self@.peers[i].is_cpf(now));
                Some((peer.addr, Some(peer.port)))
            },
            None => None,
        }
    }

    /// Picks any peer: the next of the white list while it lasts, then a
    /// peer of the catalogue, and where the catalogue has none to offer, the
    /// seeds.
    pub fn any_peer(&mut self, rng: &mut rand::rngs::StdRng, now: u64) -> (r: PeerChoice)
        requires
            old(self).wf(),
        ensures
            final(self).wf(),
            old(self)@.white_list.len() > 0 ==> r == PeerChoice::Peer(
                old(self)@.white_list.last().addr,
                old(self)@.white_list.last().port,
            ) && final(self)@ == (NodeView {
                white_list: old(self)@.white_list.drop_last(),
                outbox: old(self)@.outbox.push(
                    NodeMessageView::Dialog("Using a peer from the white list"@),
                ),
                ..old(self)@
            }),
            old(self)@.white_list.len() == 0 ==> {
                &&& r is Bootstrap <==> forall|i: int|
                    0 <= i < old(self)@.peers.len() ==> !(#[trigger] old(self)@.peers[i]).usable(
                        now,
                    )
                &&& r is Bootstrap ==> final(self)@ == old(self)@
                &&& r matches PeerChoice::Peer(addr, port) ==> exists|i: int|
                    0 <= i < old(self)@.peers.len() && (#[trigger] old(self)@.peers[i]).usable(
                        now,
                    ) && old(self)@.peers[i].addr == addr && port == Some(
                        old(self)@.peers[i].port,
                    )
                &&& r is Peer ==> final(self)@ == (NodeView {
                    outbox: old(self)@.outbox.push(
                        NodeMessageView::Dialog("Loaded peer from the database"@),
                    ),
                    ..old(self)@
                })
            },
    {
        match self.white_list.pop() {
            Some(peer) => {
                self.dialog.send_dialog("Using a peer from the white list".to_owned());
                return PeerChoice::Peer(peer.addr, peer.port);
            },
            None => {},
        }
        match self.peer_db.get_random_new(rng, now) {
            Some(peer) => {
                let ghost i = choose|i: int|
                    0 <= i < self@.peers.len() && self@.peers[i] == peer;
                assert(self@.peers[i].usable(now));
                self.dialog.send_dialog("Loaded peer from the database".to_owned());
                PeerChoice::Peer(peer.addr, Some(peer.port))
            },
            None => PeerChoice::Bootstrap,
        }
    }

    /// Picks the peer to connect to next. The white list comes first. Past
    /// the first phase, a node that goes on to filters prefers a peer that
    /// signals compact block filters. Then comes any peer of the catalogue,
    /// and last the seeds.
    pub fn next_peer(&mut self, rng: &mut rand::rngs::StdRng, now: u64) -> (r: PeerChoice)
        requires
            old(self).wf(),
        ensures
            final(self).wf(),
            choice_ok(old(self)@, now, r),
            final(self)@ == (NodeView {
                white_list: if old(self)@.white_list.len() > 0 {
                    old(self)@.white_list.drop_last()
                } else {
                    old(self)@.white_list
                },
                outbox: if old(self)@.white_list.len() > 0 {
                    old(self)@.outbox.push(
                        NodeMessageView::Dialog("Using a peer from the white list"@),
                    )
                } else if r is Peer && !prefers_cpf(old(self)@, now) {
                    old(self)@.outbox.push(NodeMessageView::Dialog("Loaded peer from the database"@))
                } else {
                    old(self)@.outbox
                },
                ..old(self)@
            }),
    {
        if self.white_list.len() == 0 && self.state != NodeState::Behind
            && self.filter_sync_policy == FilterSyncPolicy::Continue {
            match self.cpf_peer(rng, now) {
                Some(peer) => {
                    return PeerChoice::Peer(peer.0, peer.1);
                },
                None => {},
            }
        }
        self.any_peer(rng, now)
    }

    /// Takes the peers the seeds have named: they join the catalogue as
    /// peers that were never tried, on the network's default port, and
    /// one of them is picked to connect to. Seeds that name no peer leave the
    /// node without any, which ends it.
    pub fn bootstrap_peers(&mut self, new_peers: Vec<IpAddress>, rng: &mut rand::rngs::StdRng, now: u64) -> (r:
        Result<(IpAddress, Option<u16>), NodeError>)
        requires
            old(self).wf(),
        ensures
            final(self).wf(),
            r is Err <==> new_peers@.len() == 0,
            r matches Err(e) ==> e == NodeError::DnsFailure && final(self)@ == old(self)@,
            r matches Ok(peer) ==> new_peers@.contains(peer.0) && peer.1 is None,
            r is Ok ==> exists|order: Seq<IpAddress>|
                order.to_multiset() == new_peers@.to_multiset() && order[0] == r->Ok_0.0
                    && #[trigger] final(self)@.peers
                    == crate::peers::directory::spec_add_seeds(
                    old(self)@.peers,
                    old(self)@.peer_size,
                    order,
                    old(self)@.network.spec_default_port(),
                    now,
                ),
            final(self)@ == (NodeView { peers: final(self)@.peers, ..old(self)@ }),
            final(self)@.peers.len() >= old(self)@.peers.len(),
    {
        if new_peers.len() == 0 {
            return Err(NodeError::DnsFailure);
        }
        let mut new_peers = new_peers;
        let ghost named = new_peers@;
        shuffle(&mut new_peers, rng);
        proof {
            vstd::seq_lib::to_multiset_len(named);
            vstd::seq_lib::to_multiset_len(new_peers@);
            assert(new_peers@.len() > 0);
            assert(new_peers@.contains(new_peers@[0]));
            vstd::seq_lib::to_multiset_contains(new_peers@, new_peers@[0]);
            vstd::seq_lib::to_multiset_contains(named, new_peers@[0]);
            assert(named.contains(new_peers@[0]));
        }
        let first: IpAddress = new_peers[0];
        let port: u16 = self.network.default_port();
        self.peer_db.add_seeds(&new_peers, port, now);
        Ok((first, None))
    }

    /// Lets the handler of a message from a session run, notes in the map of
    /// sessions what the message says of its session, and gives the answer
    /// for the application to send, if there is one.
    fn answer(&mut self, node_map: &mut PeerMap, peer_thread: PeerThreadMessage, now: u64) -> (r: Vec<
        NodeAction,
    >)
        requires
            old(self).wf(),
            old(node_map).wf(),
        ensures
            final(self).wf(),
            final(node_map).wf(),
            final(self)@ == old(self)@.on_message(peer_thread.nonce, peer_thread.message, now),
            final(node_map)@ == sessions_after(old(node_map)@, old(self)@, peer_thread, now),
            answer_ok(old(self)@, old(node_map)@, peer_thread, r@),
            r@.len() <= 1,
            forall|i: int| 0 <= i < r@.len() ==> (#[trigger] r@[i]) is Send || r@[i] is Broadcast,
    {
        let nonce: u32 = peer_thread.nonce;
        let mut actions: Vec<NodeAction> = Vec::new();
        match peer_thread.message {
            PeerMessage::Version(version) => {
                node_map.set_offset(nonce, time_offset(version.timestamp, now));
                node_map.set_services(nonce, version.service_flags);
                node_map.set_state(nonce, SessionState::Ready);
                let response: MainThreadMessage = self.handle_version(version);
                match response {
                    MainThreadMessage::Disconnect => {
                        node_map.set_state(nonce, SessionState::Closing);
                    },
                    _ => {},
                }
                actions.push(NodeAction::Send { nonce, message: response });
                self.dialog.peer_version(nonce);
            },
            PeerMessage::Addr(addresses) => {
                self.handle_new_addrs(addresses, now);
            },
            PeerMessage::Headers(headers) => {
                match self.handle_headers(headers) {
                    Some(response) => {
                        match response {
                            MainThreadMessage::Disconnect => {
                                node_map.set_state(nonce, SessionState::Closing);
                            },
                            _ => {},
                        }
                        actions.push(NodeAction::Send { nonce, message: response });
                    },
                    None => {},
                }
            },
            PeerMessage::FilterHeaders(cf_headers) => {
                match self.handle_cf_headers(nonce, cf_headers) {
                    Some(response) => {
                        actions.push(
                            NodeAction::Broadcast { nonces: node_map.broadcast(), message: response },
                        );
                    },
                    None => {},
                }
            },
            PeerMessage::Filter(filter) => {
                match self.handle_filter(nonce, filter) {
                    Some(response) => {
                        actions.push(
                            NodeAction::Broadcast { nonces: node_map.broadcast(), message: response },
                        );
                    },
                    None => {},
                }
            },
            PeerMessage::Block(block) => {
                match self.handle_block(nonce, block) {
                    Some(response) => {
                        match response {
                            MainThreadMessage::Disconnect => {
                                node_map.set_state(nonce, SessionState::Closing);
                            },
                            _ => {},
                        }
                        actions.push(NodeAction::Send { nonce, message: response });
                    },
                    None => {},
                }
            },
            PeerMessage::NewBlocks(_blocks) => {
                match self.handle_inventory_blocks() {
                    Some(response) => {
                        actions.push(
                            NodeAction::Broadcast { nonces: node_map.broadcast(), message: response },
                        );
                    },
                    None => {},
                }
            },
            PeerMessage::Disconnect(why) => {
                node_map.set_state(nonce, SessionState::Closed);
                node_map.clean();
                match why {
                    Departure::Rejected(_) => {
                        self.dialog.send_warning(Warning::Framing);
                    },
                    _ => {},
                }
            },
            _ => {},
        }
        actions
    }

    /// Tells the sessions marked for eviction to disconnect.
    fn evict(&mut self, node_map: &mut PeerMap, actions: &mut Vec<NodeAction>)
        requires
            old(self).wf(),
            old(node_map).wf(),
            forall|i: int|
                0 <= i < old(actions)@.len() ==> (#[trigger] old(actions)@[i]) is Send || old(actions)@[i] is Broadcast,
        ensures
            final(self).wf(),
            final(node_map).wf(),
            final(self)@ == (NodeView { evictions: Seq::empty(), ..old(self)@ }),
            final(node_map)@ == sessions_evicted(old(node_map)@, old(self)@.evictions),
            final(actions)@.len() == old(actions)@.len() + old(self)@.evictions.len(),
            final(actions)@.take(old(actions)@.len() as int) == old(actions)@,
            forall|i: int|
                0 <= i < final(actions)@.len() ==> (#[trigger] final(actions)@[i]) is Send
                    || final(actions)@[i] is Broadcast,
            forall|i: int|
                0 <= i < old(self)@.evictions.len() ==> tells_to_disconnect(
                    #[trigger] final(actions)@[old(actions)@.len() + i],
                    old(self)@.evictions[i],
                ),
    {
        let evicted: Vec<u32> = self.drain_evictions();
        let ghost before = actions@;
        let ghost sessions = node_map@;
        assert(evicted@.take(0) =~= Seq::<u32>::empty());
        let mut i: usize = 0;
        while i < evicted.len()
            invariant
                i <= evicted@.len(),
                node_map.wf(),
                node_map@ == sessions_evicted(sessions, evicted@.take(i as int)),
                actions@.len() == before.len() + i,
                actions@.take(before.len() as int) == before,
                forall|k: int|
                    0 <= k < actions@.len() ==> (#[trigger] actions@[k]) is Send || actions@[k]
                        is Broadcast,
                forall|k: int|
                    0 <= k < i ==> tells_to_disconnect(
                        #[trigger] actions@[before.len() + k],
                        evicted@[k],
                    ),
            decreases evicted@.len() - i,
        {
            assert(evicted@.take(i + 1).drop_last() =~= evicted@.take(i as int));
            node_map.set_state(evicted[i], SessionState::Closing);
            actions.push(NodeAction::Send { nonce: evicted[i], message: MainThreadMessage::Disconnect });
            assert(actions@.take(before.len() as int) =~= before);
            i += 1;
        }
        assert(evicted@.take(i as int) =~= evicted@);
    }

    /// Takes one message from a session and says what the application must
    /// send in answer.
    ///
    /// What a peer says of itself is noted and answered to that peer, as are
    /// headers. Filter headers, filters, blocks and word of new blocks are
    /// answered to every ready session. A session that has ended is dropped.
    /// The sessions marked for eviction are told to disconnect. Then the
    /// phase moves on if the chain allows it. The phase moves back only on
    /// word of new blocks or on headers that replace a part of the chain.
    pub fn handle_peer_thread_message(
        &mut self,
        node_map: &mut PeerMap,
        peer_thread: PeerThreadMessage,
        now: u64,
    ) -> (r: Vec<NodeAction>)
        requires
            old(self).wf(),
            old(node_map).wf(),
        ensures
            final(self).wf(),
            final(node_map).wf(),
            final(self)@ == old(self)@.after_message(peer_thread, now),
            final(node_map)@ == sessions_evicted(
                sessions_after(old(node_map)@, old(self)@, peer_thread, now),
                old(self)@.on_message(peer_thread.nonce, peer_thread.message, now).evictions,
            ),
            event_answered(old(self)@, old(node_map)@, peer_thread, now, r@),
            final(self)@.evictions.len() == 0,
            forall|i: int| 0 <= i < r@.len() ==> (#[trigger] r@[i]) is Send || r@[i] is Broadcast,
            !may_revert(old(self)@.chain, peer_thread.message) ==> final(self)@.state.rank()
                >= old(self)@.state.rank(),
            may_revert(old(self)@.chain, peer_thread.message) ==> final(self)@.state.rank()
                >= old(self)@.state.rank() || final(self)@.state == NodeState::Behind
                || final(self)@.state == NodeState::HeadersSynced,
    {
        let mut actions: Vec<NodeAction> = self.answer(node_map, peer_thread, now);
        let ghost answer = actions@;
        let ghost evictions = self@.evictions;
        self.evict(node_map, &mut actions);
        proof {
            reveal(event_answered);
            assert(actions@.take(actions@.len() - evictions.len()) =~= answer);
            assert forall|i: int| 0 <= i < evictions.len() implies tells_to_disconnect(
                #[trigger] tail_at(actions@, evictions.len() as int, i),
                evictions[i],
            ) by {
                assert(tail_at(actions@, evictions.len() as int, i) == actions@[answer.len() + i]);
            }
        }
        self.advance_state();
        actions
    }

    /// Looks for a peer and says what the application must do to reach it.
    fn find_peer(&mut self, node_map: &mut PeerMap, rng: &mut rand::rngs::StdRng, now: u64) -> (r: Vec<
        NodeAction,
    >)
        requires
            old(self).wf(),
            old(node_map).wf(),
        ensures
            final(self).wf(),
            final(node_map).wf(),
            exists|choice: PeerChoice|
                choice_ok(old(self)@, now, choice) && #[trigger] search_ok(
                    old(self)@,
                    old(node_map)@,
                    choice,
                    final(node_map)@,
                    r@,
                ) && final(self)@ == old(self)@.after_search(
                    now,
                    choice,
                    count_ready(old(node_map)@),
                ),
    {
        let mut actions: Vec<NodeAction> = Vec::new();
        self.connections_met = false;
        self.dialog.required_peers(self.required_peers, node_map.live());
        self.dialog.send_dialog("Not connected to enough peers, finding one...".to_owned());
        self.dialog.send_warning(Warning::NotEnoughConnections);
        let ghost warned = self@;
        let choice: PeerChoice = self.next_peer(rng, now);
        match choice {
            PeerChoice::Peer(addr, port) => {
                let port: u16 = match port {
                    Some(p) => p,
                    None => self.network.default_port(),
                };
                match node_map.dispatch(addr, Some(port), rng) {
                    Some(nonce) => {
                        actions.push(NodeAction::Connect { nonce, addr, port });
                    },
                    None => {},
                }
            },
            PeerChoice::Bootstrap => {
                actions.push(NodeAction::Bootstrap);
            },
        }
        proof {
            assert(choice_ok(old(self)@, now, choice)) by {
                assert(prefers_cpf(warned, now) == prefers_cpf(old(self)@, now));
            }
            assert(prefers_cpf(warned, now) == prefers_cpf(old(self)@, now));
            assert(self@ == old(self)@.after_search(now, choice, count_ready(old(node_map)@)));
            assert(search_ok(old(self)@, old(node_map)@, choice, node_map@, actions@));
        }
        actions
    }

    /// Asks a ready session whose peer serves blocks for the block that has
    /// waited longest, if one waits.
    fn request_block(&mut self, node_map: &PeerMap, rng: &mut rand::rngs::StdRng) -> (r: Vec<
        NodeAction,
    >)
        requires
            old(self).wf(),
        ensures
            final(self).wf(),
            final(self)@ == old(self)@.after_block_request(),
            block_request_ok(old(self)@, node_map@, r@),
    {
        let mut actions: Vec<NodeAction> = Vec::new();
        match self.pop_block_queue() {
            Some(block_request) => {
                self.dialog.send_dialog("Sending block request to a random peer".to_owned());
                match node_map.send_random(rng) {
                    Some(nonce) => {
                        actions.push(NodeAction::Send { nonce, message: block_request });
                    },
                    None => {},
                }
            },
            None => {},
        }
        actions
    }

    /// Opens a round: the phase moves on if the chain allows it, closed
    /// sessions are dropped, a peer is looked for while too few sessions are
    /// ready, the application hears when enough are ready again, and the
    /// block that has waited longest is asked for.
    fn open_round(&mut self, node_map: &mut PeerMap, rng: &mut rand::rngs::StdRng, now: u64) -> (r: Vec<
        NodeAction,
    >)
        requires
            old(self).wf(),
            old(node_map).wf(),
        ensures
            final(self).wf(),
            final(node_map).wf(),
            opening_ok(old(self)@, old(node_map)@, now, final(self)@, final(node_map)@, r@),
    {
        self.advance_state();
        node_map.clean();
        let ghost moved = self@;
        let ghost cleaned = node_map@;
        proof {
            reveal(opening_ok);
        }
        if node_map.live() < self.next_required_peers() {
            let mut actions: Vec<NodeAction> = self.find_peer(node_map, rng, now);
            let ghost searched = self@;
            let ghost found = actions@;
            let mut more: Vec<NodeAction> = self.request_block(node_map, rng);
            let ghost asked = more@;
            actions.append(&mut more);
            proof {
                let choice = choose|choice: PeerChoice|
                    choice_ok(moved, now, choice) && #[trigger] search_ok(
                        moved,
                        cleaned,
                        choice,
                        node_map@,
                        found,
                    ) && searched == moved.after_search(now, choice, count_ready(cleaned));
                let k = found.len() as int;
                assert(actions@.take(k) =~= found);
                assert(actions@.skip(k) =~= asked);
                assert(block_request_ok(moved, node_map@, asked));
            }
            actions
        } else {
            if !self.connections_met {
                self.connections_met = true;
                self.dialog.send_data(NodeMessage::ConnectionsMet);
            }
            self.request_block(node_map, rng)
        }
    }

    /// One round of the node: the phase moves on if the chain allows it,
    /// closed sessions are dropped, a peer is looked for while too few are
    /// ready, the application hears when enough are ready again, the block
    /// that has waited longest is asked of some ready peer that serves
    /// blocks, and every message the sessions have passed on is taken in
    /// turn. Gives what the application must do before the next round: first
    /// what the opening of the round asks for, then the answers to the
    /// messages.
    pub fn run(
        &mut self,
        node_map: &mut PeerMap,
        events: Vec<PeerThreadMessage>,
        rng: &mut rand::rngs::StdRng,
        now: u64,
    ) -> (r: Vec<NodeAction>)
        requires
            old(self).wf(),
            old(node_map).wf(),
        ensures
            final(self).wf(),
            final(node_map).wf(),
            exists|start: NodeView, sessions: Seq<ManagedPeer>, head: int, cuts: Seq<int>|
                #[trigger] round_ok(
                    old(self)@,
                    old(node_map)@,
                    events@,
                    now,
                    final(self)@,
                    final(node_map)@,
                    r@,
                    start,
                    sessions,
                    head,
                    cuts,
                ),
    {
        let mut actions: Vec<NodeAction> = self.open_round(node_map, rng, now);
        let ghost start = self@;
        let ghost sessions = node_map@;
        let ghost opening = actions@;
        let ghost head = actions@.len() as int;
        let ghost all = events@;
        let mut events = events;
        let ghost mut done: int = 0;
        let ghost mut cuts: Seq<int> = seq![0int];
        proof {
            assert(all.take(0) =~= Seq::<PeerThreadMessage>::empty());
            assert(actions@.take(head) =~= opening);
        }
        while events.len() > 0
            invariant
                self.wf(),
                node_map.wf(),
                0 <= done <= all.len(),
                events@ == all.skip(done),
                0 <= head <= actions@.len(),
                actions@.take(head) == opening,
                (self@, node_map@) == round_after(start, sessions, all.take(done), now),
                events_answered(start, sessions, all.take(done), now, actions@.skip(head), cuts),
            decreases events@.len(),
        {
            let ghost before = actions@;
            let ghost node_before = self@;
            let ghost sessions_before = node_map@;
            let e: PeerThreadMessage = events.remove(0);
            let mut more: Vec<NodeAction> = self.handle_peer_thread_message(node_map, e, now);
            let ghost answer = more@;
            actions.append(&mut more);
            proof {
                let taken = all.take(done);
                let next = all.take(done + 1);
                assert(e == all[done]);
                assert(next.drop_last() =~= taken);
                assert(next.last() == e);
                assert(events@ =~= all.skip(done + 1));
                assert(actions@.take(head) =~= opening);
                let old_tail = before.skip(head);
                let new_tail = actions@.skip(head);
                let new_cuts = cuts.push(new_tail.len() as int);
                assert(new_tail.len() == old_tail.len() + answer.len());
                assert forall|i: int| 0 <= i < next.len() implies #[trigger] answered_at(
                    start,
                    sessions,
                    next,
                    now,
                    new_tail,
                    new_cuts,
                    i,
                ) by {
                    if i < done {
                        assert(answered_at(start, sessions, taken, now, old_tail, cuts, i));
                        assert(next.take(i) =~= taken.take(i));
                        assert(next[i] == taken[i]);
                        assert(new_cuts[i] == cuts[i]);
                        assert(new_cuts[i + 1] == cuts[i + 1]);
                        assert(new_tail.subrange(cuts[i], cuts[i + 1]) =~= old_tail.subrange(
                            cuts[i],
                            cuts[i + 1],
                        ));
                    } else {
                        assert(next.take(i) =~= taken);
                        assert(new_cuts[i] == old_tail.len());
                        assert(new_cuts[i + 1] == new_tail.len());
                        assert(new_tail.subrange(old_tail.len() as int, new_tail.len() as int)
                            =~= answer);
                    }
                }
                cuts = new_cuts;
                done = done + 1;
            }
        }
        proof {
            assert(all.take(done) =~= all);
            assert(opening_ok(
                old(self)@,
                old(node_map)@,
                now,
                start,
                sessions,
                actions@.take(head),
            ));
            assert(events_answered(start, sessions, all, now, actions@.skip(head), cuts));
            assert(round_ok(
                old(self)@,
                old(node_map)@,
                all,
                now,
                self@,
                node_map@,
                actions@,
                start,
                sessions,
                head,
                cuts,
            ));
        }
        actions
    }
}

/// Whether the node prefers a peer that signals compact block filters and
/// the catalogue has one to offer.
pub open spec fn prefers_cpf(node: NodeView, now: u64) -> bool {
    node.state != NodeState::Behind && node.policy == FilterSyncPolicy::Continue && exists|i: int|
        0 <= i < node.peers.len() && (#[trigger] node.peers[i]).is_cpf(now)
}

/// Whether a peer with these service flags is turned away in this phase:
/// after the first phase a peer must serve compact block filters and blocks.
pub open spec fn lacks_services(state: NodeState, flags: u64) -> bool {
    state != NodeState::Behind && !(spec_serves(flags, SERVICE_COMPACT_FILTERS) && spec_serves(
        flags,
        SERVICE_NETWORK,
    ))
}

/// The height a peer tells of, read as an unsigned number of 32 bits: a
/// negative height stands for the number with the same bits.
pub open spec fn told_height(version: RemoteVersion) -> u32 {
    spec_unsigned_height(version.height)
}

/// A height of 32 bits read as an unsigned number.
pub open spec fn spec_unsigned_height(height: i32) -> u32 {
    if height < 0 {
        (height + 0x1_0000_0000) as u32
    } else {
        height as u32
    }
}

/// Reads a height of 32 bits as an unsigned number.
pub fn unsigned_height(height: i32) -> (r: u32)
    ensures
        r == spec_unsigned_height(height),
{
    if height < 0 {
        let above: i32 = height - i32::MIN;
        let low: u32 = above as u32;
        low + 0x8000_0000u32
    } else {
        height as u32
    }
}

/// How far a peer's clock is ahead of this one: the time the peer tells of
/// less the time `now`, or the least offset where that is too low to hold.
pub open spec fn spec_time_offset(timestamp: i64, now: u64) -> i64 {
    if timestamp - now < i64::MIN {
        i64::MIN
    } else {
        (timestamp - now) as i64
    }
}

/// How far a peer's clock is ahead of this one.
pub fn time_offset(timestamp: i64, now: u64) -> (r: i64)
    ensures
        r == spec_time_offset(timestamp, now),
{
    let wide: i128 = timestamp as i128 - now as i128;
    if wide < i64::MIN as i128 {
        i64::MIN
    } else {
        wide as i64
    }
}

/// A peer's filter headers as a claim.
pub open spec fn claim_view(peer_id: u32, cf_headers: CFHeaders) -> AttestationView {
    AttestationView {
        peer: peer_id,
        prev: cf_headers.previous_filter_header@,
        hashes: cf_headers.filter_hashes.deep_view(),
    }
}

/// Whether the filter of the block at `height` ends a run: the block is the
/// last with a recorded filter header, or the last of a thousand counted
/// from the filter base.
pub open spec fn ends_filter_run(chain: ChainView, height: u32) -> bool {
    height == chain.cf_tip() || (height > chain.filter_base && (height - chain.filter_base) % (
    FILTER_BATCH_SIZE as int) == 0)
}

} // verus!
