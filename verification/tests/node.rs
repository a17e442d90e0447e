use kyoto::chain::chain::{Block, CFHeaders, CFilter, Transaction};
use kyoto::chain::checkpoints::HeaderCheckpoint;
use kyoto::chain::error::{BlockScanError, CFHeaderSyncError, CFilterSyncError, HeaderSyncError};
use kyoto::chain::header::Header;
use kyoto::client::messages::{ClientMessage, FilterSyncPolicy, NodeMessage, Progress, Warning};
use kyoto::network::Network;
use kyoto::node::channel_messages::{
    Departure, MainThreadMessage, PeerMessage, PeerThreadMessage, RemoteVersion,
};
use kyoto::node::config::NodeConfig;
use kyoto::node::error::{NodeError, PersistenceError};
use kyoto::node::node::{
    time_offset, unsigned_height, ClientStep, Node, NodeAction, NodeState, PeerChoice,
};
use kyoto::peers::peer::Peer;
use kyoto::peers::wire::read_message;
use kyoto::node::peer_map::{PeerMap, SessionState};
use kyoto::peers::address::{IpAddress, PeerAddress, TrustedPeer};
use kyoto::peers::directory::PeerStoreSizeConfig;

const EASY: u32 = 0x207f_ffff;
const FULL: u64 = 1 | 8 | 64;

fn rng(seed: u64) -> rand::rngs::StdRng {
    <rand::rngs::StdRng as rand::SeedableRng>::seed_from_u64(seed)
}

fn sha256d(data: &[u8]) -> [u8; 32] {
    let digest: bitcoin::hashes::sha256d::Hash = bitcoin::hashes::Hash::hash(data);
    bitcoin::hashes::Hash::to_byte_array(digest)
}

fn mine(prev: [u8; 32], time: u32, merkle_root: [u8; 32]) -> Header {
    let mut header =
        Header { version: 1, prev_blockhash: prev, merkle_root, time, bits: EASY, nonce: 0 };
    loop {
        if header.block_hash()[31] < 0x7f {
            return header;
        }
        header.nonce += 1;
    }
}

fn branch(prev: [u8; 32], start_time: u32, count: usize, salt: u8) -> Vec<Header> {
    let mut out = Vec::new();
    let mut prev = prev;
    for i in 0..count {
        let mut merkle_root = [salt; 32];
        merkle_root[1] = i as u8;
        let header = mine(prev, start_time + 600 * i as u32, merkle_root);
        prev = header.block_hash();
        out.push(header);
    }
    out
}

fn anchor() -> HeaderCheckpoint {
    HeaderCheckpoint::new(100, [7u8; 32])
}

fn script(tag: u8) -> Vec<u8> {
    vec![0x51, 0x20, tag, tag, tag, tag]
}

fn filter_for(block_hash: &[u8; 32], scripts: &[Vec<u8>]) -> Vec<u8> {
    let mut k0 = [0u8; 8];
    let mut k1 = [0u8; 8];
    k0.copy_from_slice(&block_hash[0..8]);
    k1.copy_from_slice(&block_hash[8..16]);
    let mut out: Vec<u8> = Vec::new();
    {
        let mut writer = bitcoin::bip158::GcsFilterWriter::new(
            &mut out,
            u64::from_le_bytes(k0),
            u64::from_le_bytes(k1),
            784931,
            19,
        );
        for s in scripts {
            writer.add_element(s);
        }
        writer.finish().unwrap();
    }
    out
}

fn config(required_peers: usize, policy: FilterSyncPolicy) -> NodeConfig {
    NodeConfig {
        required_peers,
        white_list: Vec::new(),
        scripts: vec![script(1)],
        header_checkpoint: Some(anchor()),
        filter_startpoint: None,
        target_peer_size: PeerStoreSizeConfig::Unbounded,
        filter_sync_policy: policy,
        reorg_window: 10,
    }
}

fn node(required_peers: usize, policy: FilterSyncPolicy, stored: Vec<Header>) -> Node {
    let mut node =
        Node::new_from_config(config(required_peers, policy), Network::Regtest, stored).unwrap();
    let _ = node.drain_messages();
    node
}

fn version(flags: u64, height: i32) -> RemoteVersion {
    RemoteVersion { version: 70016, service_flags: flags, timestamp: 1_700_000_000, height }
}

fn dialogs(messages: &[NodeMessage]) -> Vec<String> {
    messages
        .iter()
        .filter_map(|m| match m {
            NodeMessage::Dialog(s) => Some(s.clone()),
            _ => None,
        })
        .collect()
}

fn warnings(messages: &[NodeMessage]) -> Vec<Warning> {
    messages
        .iter()
        .filter_map(|m| match m {
            NodeMessage::Warning(w) => Some(*w),
            _ => None,
        })
        .collect()
}

/// A hash as it is written for people: last byte first, two digits each.
fn shown(hash: &[u8; 32]) -> String {
    hash.iter().rev().map(|b| format!("{:02x}", b)).collect()
}

fn is_disconnect(m: &Option<MainThreadMessage>) -> bool {
    matches!(m, Some(MainThreadMessage::Disconnect))
}

#[test]
fn new_node_starts_behind_and_says_from_where() {
    let mut node = Node::new(
        Network::Regtest,
        Vec::new(),
        vec![script(1)],
        Vec::new(),
        Some(anchor()),
        2,
    )
    .unwrap();
    assert_eq!(node.state(), NodeState::Behind);
    assert_eq!(node.height(), 100);
    assert_eq!(node.known_peers(), 0);
    assert_eq!(node.next_required_peers(), 1);
    let messages = node.drain_messages();
    assert_eq!(dialogs(&messages), vec!["Starting sync from 100".to_string()]);
    assert!(node.drain_messages().is_empty());
    assert!(node.drain_store_updates().is_empty());
    assert!(node.drain_evictions().is_empty());
}

#[test]
fn new_node_takes_up_stored_headers() {
    let stored = branch(anchor().hash, 1_000_000, 3, 1);
    let mut node = Node::new(
        Network::Regtest,
        Vec::new(),
        Vec::new(),
        stored.clone(),
        Some(anchor()),
        1,
    )
    .unwrap();
    assert_eq!(node.height(), 103);
    assert_eq!(node.chain().locators()[0], stored[2].block_hash());
    assert_eq!(dialogs(&node.drain_messages()), vec!["Starting sync from 103".to_string()]);
}

#[test]
fn new_node_rejects_a_corrupt_store() {
    let mut stored = branch(anchor().hash, 1_000_000, 3, 1);
    stored[1].time += 1;
    let r = Node::new(Network::Regtest, Vec::new(), Vec::new(), stored, Some(anchor()), 1);
    assert_eq!(r.err(), Some(NodeError::LoadError(PersistenceError::HeaderLoadError)));
    assert_eq!(
        NodeError::LoadError(PersistenceError::HeaderLoadError).message(),
        "the headers could not be loaded"
    );
    assert_eq!(NodeError::DnsFailure.message(), "the seeds named no peer");
}

#[test]
fn node_without_checkpoint_starts_at_the_first_block() {
    let node =
        Node::new(Network::Mainnet, Vec::new(), Vec::new(), Vec::new(), None, 1).unwrap();
    assert_eq!(node.height(), 0);
    let mut expected = [
        0x00, 0x00, 0x00, 0x00, 0x00, 0x19, 0xd6, 0x68, 0x9c, 0x08, 0x5a, 0xe1, 0x65, 0x83, 0x1e,
        0x93, 0x4f, 0xf7, 0x63, 0xae, 0x46, 0xa2, 0xa6, 0xc1, 0x72, 0xb3, 0xf1, 0xb6, 0x0a, 0x8c,
        0xe2, 0x6f,
    ];
    expected.reverse();
    assert_eq!(node.chain().locators(), vec![expected]);
    let testnet =
        Node::new(Network::Testnet, Vec::new(), Vec::new(), Vec::new(), None, 1).unwrap();
    assert_ne!(testnet.chain().locators(), vec![expected]);
}

#[test]
fn version_is_answered_with_a_request_for_headers() {
    let mut node = node(1, FilterSyncPolicy::Continue, Vec::new());
    // While behind, a peer without filters will do.
    match node.handle_version(version(1, 150)) {
        MainThreadMessage::GetHeaders(config) => {
            assert_eq!(config.locators, vec![anchor().hash]);
            assert_eq!(config.stop_hash, None);
        },
        other => panic!("unexpected {:?}", other),
    }
    assert_eq!(node.chain().best_known_height(), 150);
    assert!(!node.chain().is_synced());
    // A lower height does not lower the best known one.
    let _ = node.handle_version(version(FULL, 120));
    assert_eq!(node.chain().best_known_height(), 150);
    let _ = node.handle_version(version(FULL, 150));
    assert_eq!(node.chain().best_known_height(), 150);
    assert!(node.drain_messages().is_empty());
}

#[test]
fn peer_without_filters_is_turned_away_after_the_first_phase() {
    let mut node = node(1, FilterSyncPolicy::Continue, Vec::new());
    node.advance_state();
    assert_eq!(node.state(), NodeState::HeadersSynced);
    let _ = node.drain_messages();
    assert!(matches!(node.handle_version(version(1 | 8, 500)), MainThreadMessage::Disconnect));
    assert!(matches!(node.handle_version(version(64, 500)), MainThreadMessage::Disconnect));
    assert_eq!(node.chain().best_known_height(), 100);
    assert_eq!(
        warnings(&node.drain_messages()),
        vec![Warning::NoCompactFilters, Warning::NoCompactFilters]
    );
    assert!(matches!(node.handle_version(version(FULL, 500)), MainThreadMessage::GetHeaders(_)));
    assert_eq!(node.chain().best_known_height(), 500);
    assert_eq!(node.state(), NodeState::HeadersSynced);
}

#[test]
fn empty_headers_while_behind_end_the_session() {
    let mut node = node(1, FilterSyncPolicy::Continue, Vec::new());
    let _ = node.handle_version(version(FULL, 105));
    assert!(is_disconnect(&node.handle_headers(Vec::new())));
    assert!(node.drain_messages().is_empty());
    assert_eq!(node.state(), NodeState::Behind);
}

#[test]
fn empty_headers_when_synced_carry_the_sync_on() {
    let stored = branch(anchor().hash, 1_000_000, 3, 1);
    let mut node = node(1, FilterSyncPolicy::Continue, stored.clone());
    match node.handle_headers(Vec::new()) {
        Some(MainThreadMessage::GetFilterHeaders(range)) => {
            assert_eq!(range.start_height, 101);
            assert_eq!(range.stop_hash, stored[2].block_hash());
        },
        other => panic!("unexpected {:?}", other),
    }
    assert_eq!(node.height(), 103);
    assert!(node.drain_messages().is_empty());
}

#[test]
fn halted_node_asks_for_no_filter_headers() {
    let stored = branch(anchor().hash, 1_000_000, 3, 1);
    let mut node = node(1, FilterSyncPolicy::Halt, stored);
    assert!(node.handle_headers(Vec::new()).is_none());
    node.advance_state();
    assert_eq!(node.state(), NodeState::HeadersSynced);
    node.advance_state();
    assert_eq!(node.state(), NodeState::HeadersSynced);
    // Once the application says so the sync goes on.
    let mut map = PeerMap::new(Network::Regtest);
    assert!(matches!(
        node.handle_client_message(&mut map, ClientMessage::ContinueFilters),
        ClientStep::Done
    ));
    assert!(matches!(
        node.handle_headers(Vec::new()),
        Some(MainThreadMessage::GetFilterHeaders(_))
    ));
}

#[test]
fn halted_node_stays_at_headers_synced_until_told() {
    let mut node = node(1, FilterSyncPolicy::Halt, Vec::new());
    node.advance_state();
    assert_eq!(node.state(), NodeState::HeadersSynced);
    // Nothing is above the anchor, so filter headers are synced, but the halt holds.
    node.advance_state();
    assert_eq!(node.state(), NodeState::HeadersSynced);
    node.continue_filters();
    node.advance_state();
    assert_eq!(node.state(), NodeState::FilterHeadersSynced);
}

#[test]
fn headers_are_asked_for_until_the_best_height_is_reached() {
    let mut node = node(1, FilterSyncPolicy::Continue, Vec::new());
    let _ = node.handle_version(version(FULL, 105));
    let headers = branch(anchor().hash, 1_000_000, 5, 1);
    match node.handle_headers(headers[..3].to_vec()) {
        Some(MainThreadMessage::GetHeaders(config)) => {
            assert_eq!(config.locators[0], headers[2].block_hash());
            assert_eq!(config.locators.last(), Some(&anchor().hash));
        },
        other => panic!("unexpected {:?}", other),
    }
    node.advance_state();
    assert_eq!(node.state(), NodeState::Behind);
    assert!(matches!(
        node.handle_headers(headers[3..].to_vec()),
        Some(MainThreadMessage::GetFilterHeaders(_))
    ));
    node.advance_state();
    assert_eq!(node.state(), NodeState::HeadersSynced);
    assert_eq!(
        dialogs(&node.drain_messages()),
        vec!["Headers synced".to_string()]
    );
    let updates = node.drain_store_updates();
    assert_eq!(updates.len(), 1);
    assert_eq!(updates[0].rewind_to, 100);
    assert_eq!(updates[0].headers.len(), 5);
}

#[test]
fn rejected_headers_end_the_session_with_a_warning() {
    let mut node = node(1, FilterSyncPolicy::Continue, Vec::new());
    let floating = branch([0x55; 32], 1_000_000, 2, 1);
    assert!(is_disconnect(&node.handle_headers(floating)));
    assert_eq!(
        warnings(&node.drain_messages()),
        vec![Warning::HeaderSync(HeaderSyncError::FloatingHeaders)]
    );
    assert_eq!(node.height(), 100);
}

#[test]
fn reorg_sends_the_node_back() {
    let stored = branch(anchor().hash, 1_000_000, 4, 1);
    let mut node = node(1, FilterSyncPolicy::Continue, stored.clone());
    node.advance_state();
    assert_eq!(node.state(), NodeState::HeadersSynced);
    // Extending the tip keeps the phase.
    let more = branch(stored[3].block_hash(), 2_000_000, 1, 2);
    let _ = node.handle_headers(more);
    assert_eq!(node.state(), NodeState::HeadersSynced);
    // A longer branch from 102 replaces three blocks.
    let fork = branch(stored[1].block_hash(), 3_000_000, 4, 9);
    let _ = node.handle_headers(fork.clone());
    assert_eq!(node.state(), NodeState::Behind);
    assert_eq!(node.height(), 106);
    assert_eq!(node.chain().locators()[0], fork[3].block_hash());
}

#[test]
fn word_of_new_blocks_sends_the_node_back() {
    let mut node = node(1, FilterSyncPolicy::Continue, Vec::new());
    assert!(node.handle_inventory_blocks().is_none());
    assert_eq!(node.state(), NodeState::Behind);
    node.advance_state();
    node.advance_state();
    node.advance_state();
    node.advance_state();
    assert_eq!(node.state(), NodeState::TransactionsSynced);
    node.advance_state();
    assert_eq!(node.state(), NodeState::TransactionsSynced);
    match node.handle_inventory_blocks() {
        Some(MainThreadMessage::GetHeaders(config)) => {
            assert_eq!(config.locators, vec![anchor().hash]);
        },
        other => panic!("unexpected {:?}", other),
    }
    assert_eq!(node.state(), NodeState::Behind);
}

#[test]
fn phases_follow_one_another_and_end_with_synced() {
    let mut node = node(1, FilterSyncPolicy::Continue, Vec::new());
    let mut seen = vec![node.state()];
    for _ in 0..5 {
        node.advance_state();
        seen.push(node.state());
    }
    assert_eq!(
        seen,
        vec![
            NodeState::Behind,
            NodeState::HeadersSynced,
            NodeState::FilterHeadersSynced,
            NodeState::FiltersSynced,
            NodeState::TransactionsSynced,
            NodeState::TransactionsSynced,
        ]
    );
    let messages = node.drain_messages();
    assert_eq!(messages.len(), 4);
    assert_eq!(
        dialogs(&messages),
        vec![
            "Headers synced".to_string(),
            "CF Headers synced. Downloading block filters.".to_string(),
            "Filters synced".to_string(),
        ]
    );
    match &messages[3] {
        NodeMessage::Synced(update) => {
            assert_eq!(update.tip_height, 100);
            assert_eq!(update.tip_hash, anchor().hash);
        },
        other => panic!("unexpected {:?}", other),
    }
}

struct World {
    node: Node,
    headers: Vec<Header>,
    hashes: Vec<[u8; 32]>,
    filters: Vec<Vec<u8>>,
}

/// Three blocks above the anchor; the filter of block 102 holds script 1 and
/// the Merkle root of block 102 is that of one transaction with id `[0xa1; 32]`.
fn world(required_peers: usize) -> World {
    let h1 = mine(anchor().hash, 1_000_000, [1; 32]);
    let h2 = mine(h1.block_hash(), 1_000_600, [0xa1; 32]);
    let h3 = mine(h2.block_hash(), 1_001_200, [3; 32]);
    let headers = vec![h1, h2, h3];
    let mut filters = Vec::new();
    let mut hashes = Vec::new();
    for (i, h) in headers.iter().enumerate() {
        let inside = if i == 1 { script(1) } else { script(9) };
        let content = filter_for(&h.block_hash(), &[inside]);
        hashes.push(sha256d(&content));
        filters.push(content);
    }
    let mut node = node(required_peers, FilterSyncPolicy::Continue, headers.clone());
    node.advance_state();
    let _ = node.drain_messages();
    let _ = node.drain_store_updates();
    World { node, headers, hashes, filters }
}

fn cf_headers(w: &World) -> CFHeaders {
    CFHeaders {
        stop_hash: w.headers[2].block_hash(),
        previous_filter_header: [0u8; 32],
        filter_hashes: w.hashes.clone(),
    }
}

#[test]
fn outvoted_peer_is_evicted_with_a_warning() {
    let mut w = world(2);
    assert_eq!(w.node.next_required_peers(), 2);
    assert!(w.node.handle_cf_headers(11, cf_headers(&w)).is_none());
    let mut other = cf_headers(&w);
    other.filter_hashes[0] = [0xee; 32];
    assert!(w.node.handle_cf_headers(33, other).is_none());
    assert!(w.node.drain_evictions().is_empty());
    assert!(w.node.drain_messages().is_empty());
    match w.node.handle_cf_headers(22, cf_headers(&w)) {
        Some(MainThreadMessage::GetFilters(range)) => {
            assert_eq!(range.start_height, 101);
            assert_eq!(range.stop_hash, w.headers[2].block_hash());
        },
        other => panic!("unexpected {:?}", other),
    }
    assert_eq!(w.node.drain_evictions(), vec![33]);
    assert_eq!(warnings(&w.node.drain_messages()), vec![Warning::FilterHeaderMinority]);
    assert_eq!(w.node.chain().cf_header_count(), 3);
    assert_eq!(w.node.chain().filter_commitment_at(101).unwrap().filter_hash, w.hashes[0]);
    assert_eq!(w.node.chain().supporters_at(101), vec![11, 22]);
}

#[test]
fn rejected_filter_headers_evict_their_peer() {
    let mut w = world(1);
    let mut bad = cf_headers(&w);
    bad.stop_hash = [0x12; 32];
    assert!(w.node.handle_cf_headers(5, bad).is_none());
    assert_eq!(w.node.drain_evictions(), vec![5]);
    assert_eq!(
        warnings(&w.node.drain_messages()),
        vec![Warning::FilterHeaderSync(CFHeaderSyncError::UnknownStopHash)]
    );
    assert_eq!(w.node.chain().cf_header_count(), 0);
}

#[test]
fn filter_with_wrong_hash_evicts_its_peer_and_keeps_the_record() {
    let mut w = world(1);
    assert!(w.node.handle_cf_headers(1, cf_headers(&w)).is_some());
    let before = w.node.chain().filter_commitment_at(101).unwrap();
    let bad = CFilter { block_hash: w.headers[0].block_hash(), contents: w.filters[1].clone() };
    assert!(w.node.handle_filter(8, bad).is_none());
    assert_eq!(w.node.drain_evictions(), vec![8]);
    assert_eq!(
        warnings(&w.node.drain_messages()),
        vec![Warning::FilterSync(CFilterSyncError::MisalignedFilterHash)]
    );
    let after = w.node.chain().filter_commitment_at(101).unwrap();
    assert_eq!(before.filter_header, after.filter_header);
    assert_eq!(before.filter_hash, after.filter_hash);
    assert!(!w.node.chain().has_filter(101));
}

#[test]
fn sync_runs_from_headers_to_the_matching_block() {
    let mut w = world(1);
    assert_eq!(w.node.state(), NodeState::HeadersSynced);
    assert!(matches!(
        w.node.handle_cf_headers(1, cf_headers(&w)),
        Some(MainThreadMessage::GetFilters(_))
    ));
    w.node.advance_state();
    assert_eq!(w.node.state(), NodeState::FilterHeadersSynced);
    for i in 0..3 {
        let f = CFilter { block_hash: w.headers[i].block_hash(), contents: w.filters[i].clone() };
        // The last filter ends the run; nothing is missing afterwards.
        assert!(w.node.handle_filter(1, f).is_none());
    }
    w.node.advance_state();
    assert_eq!(w.node.state(), NodeState::FiltersSynced);
    // A block waits, so the last phase is not over.
    w.node.advance_state();
    assert_eq!(w.node.state(), NodeState::FiltersSynced);
    match w.node.pop_block_queue() {
        Some(MainThreadMessage::GetBlock(config)) => {
            assert_eq!(config.locator, w.headers[1].block_hash());
        },
        other => panic!("unexpected {:?}", other),
    }
    let block = Block {
        header: w.headers[1],
        txdata: vec![Transaction { txid: [0xa1; 32], inputs: Vec::new(), outputs: vec![script(1)] }],
    };
    assert!(w.node.handle_block(7, block).is_none());
    assert!(w.node.pop_block_queue().is_none());
    w.node.advance_state();
    assert_eq!(w.node.state(), NodeState::TransactionsSynced);
    let messages = w.node.drain_messages();
    let texts = dialogs(&messages);
    assert_eq!(
        texts,
        vec![
            "CF Headers synced. Downloading block filters.".to_string(),
            "Filters synced".to_string(),
            format!("Next block in queue: {}", shown(&w.headers[1].block_hash())),
        ]
    );
    let block_at = messages
        .iter()
        .position(|m| matches!(m, NodeMessage::Block(_)))
        .expect("the block is handed on");
    match &messages[block_at] {
        NodeMessage::Block(b) => {
            assert_eq!(b.height, 102);
            assert_eq!(b.hash, w.headers[1].block_hash());
            assert_eq!(b.transactions, vec![[0xa1; 32]]);
        },
        _ => unreachable!(),
    }
    match messages.last() {
        Some(NodeMessage::Synced(update)) => {
            assert_eq!(update.tip_height, 103);
            assert_eq!(update.tip_hash, w.headers[2].block_hash());
        },
        other => panic!("unexpected {:?}", other),
    }
}

#[test]
fn block_while_behind_ends_the_session() {
    let mut node = node(1, FilterSyncPolicy::Continue, Vec::new());
    let block = Block { header: mine([0; 32], 1, [0; 32]), txdata: Vec::new() };
    assert!(is_disconnect(&node.handle_block(7, block)));
    assert!(node.drain_messages().is_empty());
}

#[test]
fn block_nobody_asked_for_gives_a_warning() {
    let mut w = world(1);
    let block = Block { header: w.headers[0], txdata: Vec::new() };
    assert!(w.node.handle_block(7, block).is_none());
    assert_eq!(
        warnings(&w.node.drain_messages()),
        vec![Warning::BlockScan(BlockScanError::UnexpectedBlock)]
    );
    assert_eq!(w.node.drain_evictions(), vec![7]);
}

#[test]
fn progress_is_told_in_numbers_and_words() {
    let mut w = world(1);
    let _ = w.node.handle_version(version(FULL, 250));
    let _ = w.node.handle_cf_headers(1, cf_headers(&w));
    let f = CFilter { block_hash: w.headers[0].block_hash(), contents: w.filters[0].clone() };
    let _ = w.node.handle_filter(1, f);
    let _ = w.node.drain_messages();
    w.node.report_progress();
    let messages = w.node.drain_messages();
    assert_eq!(messages.len(), 2);
    match &messages[0] {
        NodeMessage::Progress(p) => assert_eq!(*p, Progress::new(3, 1, 250)),
        other => panic!("unexpected {:?}", other),
    }
    assert_eq!(
        dialogs(&messages),
        vec!["Headers (103/250) Compact Filter Headers (3/250) Filters (1/250)".to_string()]
    );
}

fn ip(last: u8) -> IpAddress {
    IpAddress::V4([10, 0, 0, last])
}

#[test]
fn white_list_comes_first() {
    let mut cfg = config(1, FilterSyncPolicy::Continue);
    cfg.white_list =
        vec![TrustedPeer::new(ip(1), Some(1111), FULL), TrustedPeer::new(ip(2), None, FULL)];
    let mut node = Node::new_from_config(cfg, Network::Signet, Vec::new()).unwrap();
    let _ = node.drain_messages();
    node.handle_new_addrs(vec![PeerAddress { addr: ip(9), port: 9, services: FULL }], 50);
    let mut r = rng(1);
    match node.next_peer(&mut r, 100) {
        PeerChoice::Peer(IpAddress::V4(a), port) => {
            assert_eq!(a, [10, 0, 0, 2]);
            assert_eq!(port, None);
        },
        other => panic!("unexpected {:?}", other),
    }
    match node.next_peer(&mut r, 100) {
        PeerChoice::Peer(IpAddress::V4(a), port) => {
            assert_eq!(a, [10, 0, 0, 1]);
            assert_eq!(port, Some(1111));
        },
        other => panic!("unexpected {:?}", other),
    }
    assert_eq!(
        dialogs(&node.drain_messages()),
        vec![
            "Using a peer from the white list".to_string(),
            "Using a peer from the white list".to_string(),
        ]
    );
    match node.next_peer(&mut r, 100) {
        PeerChoice::Peer(IpAddress::V4(a), port) => {
            assert_eq!(a, [10, 0, 0, 9]);
            assert_eq!(port, Some(9));
        },
        other => panic!("unexpected {:?}", other),
    }
    assert_eq!(
        dialogs(&node.drain_messages()),
        vec!["Loaded peer from the database".to_string()]
    );
}

#[test]
fn empty_catalogue_leads_to_the_seeds() {
    let mut node = node(1, FilterSyncPolicy::Continue, Vec::new());
    let mut r = rng(2);
    assert!(matches!(node.next_peer(&mut r, 100), PeerChoice::Bootstrap));
    assert!(node.drain_messages().is_empty());
    assert_eq!(
        node.bootstrap_peers(Vec::new(), &mut r, 100).err(),
        Some(NodeError::DnsFailure)
    );
    let seeds: Vec<IpAddress> = (1..=20u8).map(ip).collect();
    let (first, port) = node.bootstrap_peers(seeds, &mut r, 100).unwrap();
    assert_eq!(port, None);
    match first {
        IpAddress::V4(a) => {
            assert_eq!(&a[..3], &[10, 0, 0]);
            assert!((1..=20).contains(&a[3]));
        },
        other => panic!("unexpected {:?}", other),
    }
    assert_eq!(node.known_peers(), 20);
    // Every seed is now a peer that was never tried.
    for _ in 0..10 {
        assert!(matches!(node.next_peer(&mut r, 100), PeerChoice::Peer(_, Some(18444))));
    }
}

#[test]
fn seeds_are_shuffled() {
    let mut firsts = std::collections::BTreeSet::new();
    for seed in 0..40u64 {
        let mut node = node(1, FilterSyncPolicy::Continue, Vec::new());
        let mut r = rng(seed);
        let seeds: Vec<IpAddress> = (1..=8u8).map(ip).collect();
        match node.bootstrap_peers(seeds, &mut r, 1).unwrap().0 {
            IpAddress::V4(a) => {
                firsts.insert(a[3]);
            },
            _ => unreachable!(),
        }
        assert_eq!(node.known_peers(), 8);
    }
    assert!(firsts.len() > 1);
}

#[test]
fn filter_peers_are_preferred_after_the_first_phase() {
    let mut node = node(1, FilterSyncPolicy::Continue, Vec::new());
    let mut r = rng(3);
    let _ = node.bootstrap_peers(vec![ip(1), ip(2), ip(3)], &mut r, 1).unwrap();
    node.handle_new_addrs(
        vec![
            PeerAddress { addr: ip(7), port: 7, services: FULL },
            // No compact block filters: not taken.
            PeerAddress { addr: ip(8), port: 8, services: 1 },
        ],
        1,
    );
    assert_eq!(node.known_peers(), 4);
    node.advance_state();
    assert_eq!(node.state(), NodeState::HeadersSynced);
    for _ in 0..10 {
        match node.next_peer(&mut r, 100) {
            PeerChoice::Peer(IpAddress::V4(a), port) => {
                assert_eq!(a, [10, 0, 0, 7]);
                assert_eq!(port, Some(7));
            },
            other => panic!("unexpected {:?}", other),
        }
    }
}

#[test]
fn client_commands() {
    let mut w = world(1);
    let mut map = PeerMap::new(Network::Regtest);
    for n in 1..=3u32 {
        assert!(map.try_insert(n, ip(n as u8), None));
    }
    map.set_state(2, SessionState::Ready);
    map.set_state(3, SessionState::Ready);
    assert!(matches!(
        w.node.handle_client_message(&mut map, ClientMessage::AddScript(script(9))),
        ClientStep::Done
    ));
    match w.node.handle_client_message(&mut map, ClientMessage::Broadcast(vec![1, 2, 3])) {
        ClientStep::Tell(NodeAction::Broadcast {
            nonces,
            message: MainThreadMessage::SendTransaction(tx),
        }) => {
            assert_eq!(nonces, vec![2, 3]);
            assert_eq!(tx, vec![1, 2, 3]);
        },
        other => panic!("unexpected {:?}", other),
    }
    let _ = w.node.handle_cf_headers(1, cf_headers(&w));
    // Script 9 is in the filter of block 101.
    let f = CFilter { block_hash: w.headers[0].block_hash(), contents: w.filters[0].clone() };
    let _ = w.node.handle_filter(1, f);
    assert_eq!(w.node.chain().queue_len(), 1);
}

#[test]
fn shutdown_closes_the_sessions_and_hands_the_headers_to_the_store() {
    let mut node = node(1, FilterSyncPolicy::Continue, Vec::new());
    let mut map = PeerMap::new(Network::Regtest);
    for n in 1..=3u32 {
        assert!(map.try_insert(n, ip(n as u8), None));
    }
    map.set_state(2, SessionState::Ready);
    let _ = node.handle_version(version(FULL, 105));
    let headers = branch(anchor().hash, 1_000_000, 2, 1);
    let _ = node.handle_headers(headers);
    match node.handle_client_message(&mut map, ClientMessage::Shutdown) {
        ClientStep::Stop(NodeAction::Broadcast { nonces, message: MainThreadMessage::Disconnect }) => {
            assert_eq!(nonces, vec![1, 2, 3])
        },
        other => panic!("unexpected {:?}", other),
    }
    for n in 1..=3u32 {
        assert_eq!(map.get(n).unwrap().state, SessionState::Closing);
    }
    assert_eq!(map.live(), 0);
    let updates = node.drain_store_updates();
    assert_eq!(updates.len(), 1);
    assert_eq!(updates[0].rewind_to, 100);
    assert_eq!(updates[0].headers.len(), 2);
    assert_eq!(node.chain().persisted(), 2);
}

#[test]
fn stored_filters_are_handed_to_the_application() {
    let mut w = world(1);
    let _ = w.node.handle_cf_headers(1, cf_headers(&w));
    let _ = w.node.drain_messages();
    let f = CFilter { block_hash: w.headers[1].block_hash(), contents: w.filters[1].clone() };
    let _ = w.node.handle_filter(1, f);
    let messages = w.node.drain_messages();
    assert_eq!(messages.len(), 1);
    match &messages[0] {
        NodeMessage::IndexedFilter(filter) => {
            assert_eq!(filter.height(), 102);
            assert_eq!(filter.block_hash(), w.headers[1].block_hash());
            assert_eq!(filter.contains_any(&vec![script(1)]), Some(true));
            assert_eq!(filter.contains_any(&vec![script(7), script(1)]), Some(true));
            assert_eq!(filter.contains_any(&vec![script(7)]), Some(false));
            assert_eq!(filter.contains_any(&Vec::new()), Some(false));
        },
        other => panic!("unexpected {:?}", other),
    }
    // The same filter again is held already and not handed on twice.
    let f = CFilter { block_hash: w.headers[1].block_hash(), contents: w.filters[1].clone() };
    let _ = w.node.handle_filter(1, f);
    assert!(w.node.drain_messages().is_empty());
}

fn from_peer(nonce: u32, message: PeerMessage) -> PeerThreadMessage {
    PeerThreadMessage { nonce, message }
}

#[test]
fn round_looks_for_a_peer_and_answers_the_sessions() {
    let mut cfg = config(1, FilterSyncPolicy::Continue);
    cfg.white_list = vec![TrustedPeer::new(ip(1), None, FULL)];
    let mut node = Node::new_from_config(cfg, Network::Regtest, Vec::new()).unwrap();
    let mut map = PeerMap::new(Network::Regtest);
    let mut r = rng(4);
    let actions = node.run(&mut map, Vec::new(), &mut r, 10);
    // Nothing is above the anchor, so the first phase is over at once.
    assert_eq!(node.state(), NodeState::HeadersSynced);
    assert_eq!(actions.len(), 1);
    let nonce = match &actions[0] {
        NodeAction::Connect { nonce, addr: IpAddress::V4(a), port } => {
            assert_eq!(*a, [10, 0, 0, 1]);
            assert_eq!(*port, 18444);
            *nonce
        },
        other => panic!("unexpected {:?}", other),
    };
    assert_eq!(map.get(nonce).unwrap().state, SessionState::Handshaking);
    assert_eq!(map.live(), 0);
    assert!(warnings(&node.drain_messages()).contains(&Warning::NotEnoughConnections));
    // The peer tells of five more blocks.
    let events = vec![from_peer(nonce, PeerMessage::Version(version(FULL, 105)))];
    let actions = node.run(&mut map, events, &mut r, 11);
    assert_eq!(map.live(), 1);
    assert_eq!(map.get(nonce).unwrap().services, FULL);
    assert_eq!(map.get(nonce).unwrap().time_offset, 1_700_000_000 - 11);
    let sends: Vec<&NodeAction> =
        actions.iter().filter(|a| matches!(a, NodeAction::Send { .. })).collect();
    assert_eq!(sends.len(), 1);
    match sends[0] {
        NodeAction::Send { nonce: to, message: MainThreadMessage::GetHeaders(_) } => {
            assert_eq!(*to, nonce)
        },
        other => panic!("unexpected {:?}", other),
    }
    // The best known height rose, but only word of new blocks sends the node
    // back: with nothing above the anchor every later phase is over as well.
    assert_eq!(node.state(), NodeState::FiltersSynced);
    let headers = branch(anchor().hash, 1_000_000, 5, 1);
    let events = vec![
        from_peer(nonce, PeerMessage::NewBlocks(vec![[1; 32]])),
        from_peer(nonce, PeerMessage::Headers(headers)),
    ];
    let actions = node.run(&mut map, events, &mut r, 12);
    assert_eq!(node.height(), 105);
    assert_eq!(node.state(), NodeState::HeadersSynced);
    assert!(actions.iter().any(|a| matches!(
        a,
        NodeAction::Broadcast { message: MainThreadMessage::GetHeaders(_), .. }
    )));
    assert!(actions.iter().any(|a| matches!(
        a,
        NodeAction::Send { message: MainThreadMessage::GetFilterHeaders(_), .. }
    )));
    // The session ends.
    let events = vec![from_peer(nonce, PeerMessage::Disconnect(Departure::Closed))];
    let actions = node.run(&mut map, events, &mut r, 13);
    assert!(actions.is_empty());
    assert!(map.get(nonce).is_none());
    assert_eq!(map.live(), 0);
    // No peer is left to try: the seeds are next.
    let actions = node.run(&mut map, Vec::new(), &mut r, 14);
    assert!(matches!(actions[..], [NodeAction::Bootstrap]));
}

#[test]
fn application_hears_when_connections_are_met() {
    let mut node = node(1, FilterSyncPolicy::Continue, Vec::new());
    let mut map = PeerMap::new(Network::Regtest);
    let mut r = rng(9);
    assert!(map.try_insert(5, ip(5), None));
    let _ = node.run(&mut map, Vec::new(), &mut r, 1);
    let heard = node.drain_messages();
    assert!(warnings(&heard).contains(&Warning::NotEnoughConnections));
    assert!(!heard.iter().any(|m| matches!(m, NodeMessage::ConnectionsMet)));
    map.set_state(5, SessionState::Ready);
    let _ = node.run(&mut map, Vec::new(), &mut r, 2);
    let heard = node.drain_messages();
    assert_eq!(heard.iter().filter(|m| matches!(m, NodeMessage::ConnectionsMet)).count(), 1);
    assert!(warnings(&heard).is_empty());
    // Said once, until the connections are lost and met again.
    let _ = node.run(&mut map, Vec::new(), &mut r, 3);
    assert!(!node.drain_messages().iter().any(|m| matches!(m, NodeMessage::ConnectionsMet)));
    map.set_state(5, SessionState::Closed);
    let _ = node.run(&mut map, Vec::new(), &mut r, 4);
    assert!(warnings(&node.drain_messages()).contains(&Warning::NotEnoughConnections));
    assert!(map.try_insert(6, ip(6), None));
    map.set_state(6, SessionState::Ready);
    let _ = node.run(&mut map, Vec::new(), &mut r, 5);
    assert!(node.drain_messages().iter().any(|m| matches!(m, NodeMessage::ConnectionsMet)));
}

#[test]
fn evicted_sessions_are_told_to_disconnect() {
    let mut w = world(1);
    let mut map = PeerMap::new(Network::Regtest);
    assert!(map.try_insert(5, ip(5), None));
    map.set_state(5, SessionState::Ready);
    let mut bad = cf_headers(&w);
    bad.filter_hashes.clear();
    let actions =
        w.node.handle_peer_thread_message(&mut map, from_peer(5, PeerMessage::FilterHeaders(bad)), 1);
    assert_eq!(actions.len(), 1);
    assert!(matches!(
        actions[0],
        NodeAction::Send { nonce: 5, message: MainThreadMessage::Disconnect }
    ));
    assert_eq!(map.get(5).unwrap().state, SessionState::Closing);
    assert!(w.node.drain_evictions().is_empty());
    assert_eq!(
        warnings(&w.node.drain_messages()),
        vec![Warning::FilterHeaderSync(CFHeaderSyncError::EmptyMessage)]
    );
}

#[test]
fn negative_height_is_read_as_an_unsigned_number() {
    let mut node = node(1, FilterSyncPolicy::Continue, Vec::new());
    let _ = node.handle_version(version(FULL, 150));
    let _ = node.handle_version(version(FULL, -5));
    assert_eq!(node.chain().best_known_height(), u32::MAX - 4);
    assert!(!node.chain().is_synced());
    assert_eq!(unsigned_height(0), 0);
    assert_eq!(unsigned_height(i32::MAX), 0x7fff_ffff);
    assert_eq!(unsigned_height(-1), u32::MAX);
    assert_eq!(unsigned_height(i32::MIN), 0x8000_0000);
}

#[test]
fn time_offset_is_the_peers_time_less_ours() {
    assert_eq!(time_offset(10, 3), 7);
    assert_eq!(time_offset(3, 10), -7);
    assert_eq!(time_offset(0, 0), 0);
    assert_eq!(time_offset(i64::MAX, 0), i64::MAX);
    assert_eq!(time_offset(-1, i64::MAX as u64), i64::MIN);
    assert_eq!(time_offset(i64::MIN, 1), i64::MIN);
    assert_eq!(time_offset(0, u64::MAX), i64::MIN);
}

#[test]
fn node_starts_with_the_stored_tip_as_the_best_known_height() {
    let stored = branch(anchor().hash, 1_000_000, 3, 1);
    let node = Node::new(
        Network::Regtest,
        Vec::new(),
        vec![script(1), script(2), script(1)],
        stored,
        Some(anchor()),
        3,
    )
    .unwrap();
    assert_eq!(node.chain().best_known_height(), 103);
    assert_eq!(node.chain().filter_base(), 100);
    assert_eq!(node.chain().persisted(), 3);
    assert_eq!(node.chain().cf_header_count(), 0);
    assert!(node.chain().is_synced());
    assert!(!node.chain().is_cf_headers_synced());
    assert_eq!(node.next_required_peers(), 1);
}

#[test]
fn block_with_a_wrong_merkle_root_evicts_its_peer() {
    let mut w = world(1);
    let mut map = PeerMap::new(Network::Regtest);
    assert!(map.try_insert(5, ip(5), None));
    map.set_state(5, SessionState::Ready);
    let _ = w.node.handle_cf_headers(1, cf_headers(&w));
    let f = CFilter { block_hash: w.headers[1].block_hash(), contents: w.filters[1].clone() };
    let _ = w.node.handle_filter(1, f);
    assert_eq!(w.node.chain().queue_len(), 1);
    let _ = w.node.drain_messages();
    let block = Block {
        header: w.headers[1],
        txdata: vec![Transaction { txid: [0xa2; 32], inputs: Vec::new(), outputs: vec![script(1)] }],
    };
    let actions =
        w.node.handle_peer_thread_message(&mut map, from_peer(5, PeerMessage::Block(block)), 1);
    assert_eq!(actions.len(), 1);
    assert!(matches!(
        actions[0],
        NodeAction::Send { nonce: 5, message: MainThreadMessage::Disconnect }
    ));
    assert_eq!(map.get(5).unwrap().state, SessionState::Closing);
    assert_eq!(
        warnings(&w.node.drain_messages()),
        vec![Warning::BlockScan(BlockScanError::InvalidMerkleRoot)]
    );
    // The block still waits.
    assert_eq!(w.node.chain().queue_len(), 1);
}

#[test]
fn wrong_filter_for_a_held_filter_evicts_its_peer() {
    let mut w = world(1);
    let _ = w.node.handle_cf_headers(1, cf_headers(&w));
    let f = CFilter { block_hash: w.headers[0].block_hash(), contents: w.filters[0].clone() };
    assert!(w.node.handle_filter(1, f).is_none());
    let _ = w.node.drain_messages();
    let bad = CFilter { block_hash: w.headers[0].block_hash(), contents: w.filters[2].clone() };
    assert!(w.node.handle_filter(8, bad).is_none());
    assert_eq!(w.node.drain_evictions(), vec![8]);
    assert_eq!(
        warnings(&w.node.drain_messages()),
        vec![Warning::FilterSync(CFilterSyncError::MisalignedFilterHash)]
    );
    assert!(w.node.chain().has_filter(101));
    // The right filter once more is passed over in silence.
    let f = CFilter { block_hash: w.headers[0].block_hash(), contents: w.filters[0].clone() };
    assert!(w.node.handle_filter(9, f).is_none());
    assert!(w.node.drain_evictions().is_empty());
    assert!(w.node.drain_messages().is_empty());
}

#[test]
fn filter_that_ends_a_run_is_answered_with_filters_or_nothing() {
    // Filter headers are recorded for two of three blocks only.
    let mut w = world(1);
    let part = CFHeaders {
        stop_hash: w.headers[1].block_hash(),
        previous_filter_header: [0u8; 32],
        filter_hashes: w.hashes[..2].to_vec(),
    };
    let _ = w.node.handle_cf_headers(1, part);
    assert!(!w.node.chain().is_cf_headers_synced());
    // The filter of the last recorded block ends the run; the first is missing.
    let f = CFilter { block_hash: w.headers[1].block_hash(), contents: w.filters[1].clone() };
    match w.node.handle_filter(1, f) {
        Some(MainThreadMessage::GetFilters(range)) => {
            assert_eq!(range.start_height, 101);
            assert_eq!(range.stop_hash, w.headers[1].block_hash());
        },
        other => panic!("unexpected {:?}", other),
    }
    // A filter in the middle of a run is answered with nothing, and so is the
    // last filter once none is missing.
    let f = CFilter { block_hash: w.headers[0].block_hash(), contents: w.filters[0].clone() };
    assert!(w.node.handle_filter(1, f).is_none());
    assert!(w.node.drain_evictions().is_empty());
    assert!(warnings(&w.node.drain_messages()).is_empty());
}

#[test]
fn oversized_frame_ends_the_session_with_a_warning() {
    // A frame that announces forty mebibytes.
    let mut frame: Vec<u8> = vec![0xfa, 0xbf, 0xb5, 0xda];
    frame.extend_from_slice(b"block\0\0\0\0\0\0\0");
    frame.extend_from_slice(&(40u32 * 1024 * 1024).to_le_bytes());
    frame.extend_from_slice(&[0u8; 4]);
    let step = read_message(Network::Regtest, &frame);
    assert!(step.ends());
    assert!(!step.waits());
    assert_eq!(step.consumed(), 0);
    let heard = step.report().unwrap();
    let mut w = world(1);
    let mut map = PeerMap::new(Network::Regtest);
    assert!(map.try_insert(5, ip(5), None));
    assert!(map.try_insert(6, ip(6), None));
    map.set_state(5, SessionState::Ready);
    map.set_state(6, SessionState::Ready);
    let mut peer = Peer::new(5, ip(5), Some(1), Network::Signet);
    let step = peer.handle_peer_message(heard, 3);
    assert!(!Peer::goes_on(&step.result));
    let state = w.node.state();
    let height = w.node.height();
    let mut r = rng(1);
    let actions = w.node.run(&mut map, vec![step.forward.unwrap()], &mut r, 4);
    assert!(actions.is_empty());
    assert!(map.get(5).is_none());
    assert_eq!(map.get(6).unwrap().state, SessionState::Ready);
    assert_eq!(warnings(&w.node.drain_messages()), vec![Warning::Framing]);
    assert_eq!(w.node.state(), state);
    assert_eq!(w.node.height(), height);
    // A session that just ends gives no warning.
    let actions = w.node.run(
        &mut map,
        vec![from_peer(6, PeerMessage::Disconnect(Departure::TimedOut))],
        &mut r,
        5,
    );
    assert!(actions.is_empty());
    assert!(map.get(6).is_none());
    assert!(!warnings(&w.node.drain_messages()).contains(&Warning::Framing));
}

#[test]
fn any_peer_and_cpf_peer_pick_from_the_catalogue() {
    let mut node = node(1, FilterSyncPolicy::Continue, Vec::new());
    let mut r = rng(2);
    assert!(node.cpf_peer(&mut r, 100).is_none());
    assert!(matches!(node.any_peer(&mut r, 100), PeerChoice::Bootstrap));
    node.handle_new_addrs(vec![PeerAddress { addr: ip(3), port: 33, services: FULL }], 50);
    match node.cpf_peer(&mut r, 100) {
        Some((IpAddress::V4(a), port)) => {
            assert_eq!(a, [10, 0, 0, 3]);
            assert_eq!(port, Some(33));
        },
        other => panic!("unexpected {:?}", other),
    }
    assert!(matches!(node.any_peer(&mut r, 100), PeerChoice::Peer(_, Some(33))));
}

#[test]
fn round_tells_what_it_does_in_words() {
    let mut w = world(2);
    let mut map = PeerMap::new(Network::Regtest);
    assert!(map.try_insert(5, ip(5), None));
    map.set_state(5, SessionState::Ready);
    map.set_services(5, FULL);
    let _ = w.node.handle_cf_headers(1, cf_headers(&w));
    let _ = w.node.handle_cf_headers(2, cf_headers(&w));
    let f = CFilter { block_hash: w.headers[1].block_hash(), contents: w.filters[1].clone() };
    let _ = w.node.handle_filter(1, f);
    let _ = w.node.drain_messages();
    let mut r = rng(3);
    let events = vec![from_peer(5, PeerMessage::Version(version(FULL, 103)))];
    let actions = w.node.run(&mut map, events, &mut r, 20);
    let texts = dialogs(&w.node.drain_messages());
    assert_eq!(
        texts,
        vec![
            "CF Headers synced. Downloading block filters.".to_string(),
            "Required peers: 2, connected peers: 1".to_string(),
            "Not connected to enough peers, finding one...".to_string(),
            format!("Next block in queue: {}", shown(&w.headers[1].block_hash())),
            "Sending block request to a random peer".to_string(),
            "[Peer 5]: version".to_string(),
        ]
    );
    assert!(actions.iter().any(|a| matches!(
        a,
        NodeAction::Send { nonce: 5, message: MainThreadMessage::GetBlock(_) }
    )));
}
