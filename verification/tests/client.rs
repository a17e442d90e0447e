use kyoto::chain::checkpoints::HeaderCheckpoint;
use kyoto::client::builder::{
    ConnectionType, NodeBuilder, DEFAULT_MAX_CONNECTION_SECS, DEFAULT_RESPONSE_TIMEOUT_SECS,
};
use kyoto::client::dialog::Dialog;
use kyoto::client::messages::{FilterSyncPolicy, NodeMessage, Progress, Warning};
use kyoto::db::error::{
    PeerManagerError, SqlError, SqlInitializationError, StatelessPeerStoreError, StoreError,
    UnitPeerStoreError,
};
use kyoto::network::Network;
use kyoto::node::node::{NodeState, DEFAULT_REORG_WINDOW};
use kyoto::peers::address::{IpAddress, TrustedPeer};
use kyoto::peers::directory::{PeerRecord, PeerStoreSizeConfig};

fn peer(last: u8) -> TrustedPeer {
    TrustedPeer::new(IpAddress::V4([10, 0, 0, last]), None, 0)
}

fn last_byte(p: &TrustedPeer) -> u8 {
    match p.addr {
        IpAddress::V4(a) => a[3],
        IpAddress::V6(a) => a[15],
    }
}

#[test]
fn builder_starts_with_the_defaults() {
    let b = NodeBuilder::new(Network::Signet);
    assert_eq!(b.network, Network::Signet);
    assert_eq!(b.config.required_peers, 1);
    assert!(b.config.white_list.is_empty());
    assert!(b.config.scripts.is_empty());
    assert!(b.config.header_checkpoint.is_none());
    assert!(b.config.filter_startpoint.is_none());
    assert_eq!(b.config.target_peer_size, PeerStoreSizeConfig::Unbounded);
    assert_eq!(b.config.filter_sync_policy, FilterSyncPolicy::Continue);
    assert_eq!(b.config.reorg_window, DEFAULT_REORG_WINDOW);
    assert_eq!(DEFAULT_REORG_WINDOW, 2016);
    assert!(b.data_path.is_none());
    assert_eq!(b.connection_type, ConnectionType::Tcp);
    assert!(b.response_timeout.is_none());
    assert!(b.max_connection_time.is_none());
    assert_eq!(DEFAULT_RESPONSE_TIMEOUT_SECS, 5);
    assert_eq!(DEFAULT_MAX_CONNECTION_SECS, 2 * 60 * 60);
}

#[test]
fn builder_takes_each_setting() {
    let b = NodeBuilder::new(Network::Mainnet)
        .add_peers(vec![peer(1), peer(2)])
        .add_peer(peer(3))
        .add_scripts(vec![vec![1, 2, 3]])
        .add_data_dir(std::path::PathBuf::from("/tmp/light"))
        .num_required_peers(3)
        .peer_db_size(PeerStoreSizeConfig::Limit(50))
        .anchor_checkpoint(HeaderCheckpoint::new(170_000, [5; 32]))
        .set_connection_type(ConnectionType::Tor)
        .set_response_timeout(std::time::Duration::from_secs(9))
        .set_maximum_connection_time(std::time::Duration::from_secs(60))
        .halt_filter_download();
    let list: Vec<u8> = b.config.white_list.iter().map(last_byte).collect();
    assert_eq!(list, vec![1, 2, 3]);
    assert_eq!(b.config.scripts, vec![vec![1, 2, 3]]);
    assert_eq!(b.data_path, Some(std::path::PathBuf::from("/tmp/light")));
    assert_eq!(b.config.required_peers, 3);
    assert_eq!(b.config.target_peer_size, PeerStoreSizeConfig::Limit(50));
    assert_eq!(b.config.header_checkpoint.unwrap().height, 170_000);
    assert_eq!(b.connection_type, ConnectionType::Tor);
    assert_eq!(b.response_timeout, Some(std::time::Duration::from_secs(9)));
    assert_eq!(b.max_connection_time, Some(std::time::Duration::from_secs(60)));
    assert_eq!(b.config.filter_sync_policy, FilterSyncPolicy::Halt);
    // Peers given as a list replace the ones before.
    let b = b.add_peers(vec![peer(9)]);
    assert_eq!(b.config.white_list.iter().map(last_byte).collect::<Vec<u8>>(), vec![9]);
}

#[test]
fn filter_startpoint_implies_a_checkpoint() {
    let b = NodeBuilder::new(Network::Mainnet).filter_startpoint(170_000);
    assert_eq!(b.config.filter_startpoint, Some(170_000));
    let anchor = b.config.header_checkpoint.unwrap();
    assert_eq!(anchor.height, 0);
    assert_eq!(anchor.hash[31], 0);
    assert_eq!(anchor.hash[0], 0x6f);
    // A checkpoint that is set stays.
    let b = NodeBuilder::new(Network::Mainnet)
        .anchor_checkpoint(HeaderCheckpoint::new(100, [5; 32]))
        .filter_startpoint(170_000);
    assert_eq!(b.config.header_checkpoint.unwrap().height, 100);
    assert_eq!(b.config.filter_startpoint, Some(170_000));
}

#[test]
fn builder_builds_a_node() {
    let mut b = NodeBuilder::new(Network::Regtest)
        .add_peer(peer(1))
        .add_scripts(vec![vec![7]])
        .anchor_checkpoint(HeaderCheckpoint::new(100, [5; 32]))
        .filter_startpoint(120)
        .num_required_peers(2);
    let node = b.build_node(Vec::new()).unwrap();
    assert_eq!(node.state(), NodeState::Behind);
    assert_eq!(node.height(), 100);
    assert_eq!(node.next_required_peers(), 1);
    assert_eq!(node.chain().filter_base(), 120);
    assert_eq!(node.known_peers(), 0);
    // The settings were taken out of the builder.
    assert!(b.config.white_list.is_empty());
    assert!(b.config.scripts.is_empty());
    assert_eq!(b.network, Network::Regtest);
}

#[test]
fn builder_takes_up_stored_peers() {
    let record = |last: u8| PeerRecord {
        addr: IpAddress::V4([10, 0, 0, last]),
        port: 1,
        services: 64,
        last_seen: 0,
        tried: 0,
        banned_until: 0,
    };
    let mut b = NodeBuilder::new(Network::Regtest)
        .anchor_checkpoint(HeaderCheckpoint::new(100, [5; 32]))
        .peer_db_size(PeerStoreSizeConfig::Limit(2));
    let mut node =
        b.build_with_databases(vec![record(1), record(1), record(2), record(3)], Vec::new()).unwrap();
    assert_eq!(node.known_peers(), 2);
    let records = node.peer_records();
    assert_eq!(records.len(), 2);
    assert_eq!(records[1].tried, 0);
    node.mark_tried(&IpAddress::V4([10, 0, 0, 2]), 1, true, 77);
    let records = node.peer_records();
    assert_eq!((records[1].tried, records[1].last_seen), (1, 77));
    assert_eq!((records[0].tried, records[0].last_seen), (0, 0));
}

#[test]
fn dialog_keeps_messages_in_order() {
    let mut dialog = Dialog::new();
    dialog.send_dialog("one".to_string());
    dialog.send_warning(Warning::NotEnoughConnections);
    dialog.send_data(NodeMessage::ConnectionsMet);
    dialog.starting(0);
    let messages = dialog.drain();
    assert_eq!(messages.len(), 4);
    assert!(matches!(&messages[0], NodeMessage::Dialog(s) if s == "one"));
    assert!(matches!(&messages[1], NodeMessage::Warning(Warning::NotEnoughConnections)));
    assert!(matches!(&messages[2], NodeMessage::ConnectionsMet));
    assert!(matches!(&messages[3], NodeMessage::Dialog(s) if s == "Starting sync from 0"));
    assert!(dialog.drain().is_empty());
}

#[test]
fn chain_update_tells_numbers_and_words() {
    let mut dialog = Dialog::new();
    dialog.chain_update(170_100, 20, 3, 4_294_967_295);
    let messages = dialog.drain();
    assert_eq!(messages.len(), 2);
    match &messages[0] {
        NodeMessage::Progress(p) => {
            assert_eq!(*p, Progress { filter_headers: 20, filters: 3, tip_height: 4_294_967_295 })
        },
        other => panic!("unexpected {:?}", other),
    }
    match &messages[1] {
        NodeMessage::Dialog(s) => assert_eq!(
            s,
            "Headers (170100/4294967295) Compact Filter Headers (20/4294967295) Filters (3/4294967295)"
        ),
        other => panic!("unexpected {:?}", other),
    }
    dialog.chain_update(0, 0, 0, 10);
    match &dialog.drain()[1] {
        NodeMessage::Dialog(s) => {
            assert_eq!(s, "Headers (0/10) Compact Filter Headers (0/10) Filters (0/10)")
        },
        other => panic!("unexpected {:?}", other),
    }
}

#[test]
fn store_errors_say_what_failed() {
    assert_eq!(UnitPeerStoreError::NoPeers.to_string(), "no peers in unit database.");
    assert_eq!(StatelessPeerStoreError::NoPeers.to_string(), "no peers in the database.");
    assert_eq!(
        SqlError::Corruption.to_string(),
        "a consensus critical data structure is malformed."
    );
    assert_eq!(
        SqlError::StringConversion.to_string(),
        "a string could not be deserialized into a known datatype."
    );
}

#[test]
fn store_errors_carry_the_words_of_the_error_underneath() {
    let inner = rusqlite::Error::InvalidQuery.to_string();
    assert!(!inner.is_empty());
    let e = SqlError::from(rusqlite::Error::InvalidQuery);
    assert!(matches!(e, SqlError::SQL(_)));
    assert_eq!(
        e.to_string(),
        format!("reading or writing from the database failed: {}", inner)
    );
    let e = SqlInitializationError::from(rusqlite::Error::InvalidQuery);
    assert!(matches!(e, SqlInitializationError::SQL(_)));
    assert_eq!(
        e.to_string(),
        format!("reading or writing from the database failed: {}", inner)
    );
    let io = std::io::Error::new(std::io::ErrorKind::Other, "disk on fire");
    let e = SqlInitializationError::from(io);
    assert!(matches!(e, SqlInitializationError::IO(_)));
    assert_eq!(
        e.to_string(),
        "a file or directory could not be opened or created: disk on fire"
    );
}

#[test]
fn peer_manager_errors() {
    let dns: PeerManagerError<UnitPeerStoreError> = PeerManagerError::Dns;
    assert_eq!(dns.to_string(), "DNS servers failed to respond.");
    let db = PeerManagerError::from(UnitPeerStoreError::NoPeers);
    assert!(matches!(db, PeerManagerError::Database(UnitPeerStoreError::NoPeers)));
    assert_eq!(
        db.to_string(),
        "reading or writing from the database failed: no peers in unit database."
    );
    let db = PeerManagerError::from(StatelessPeerStoreError::NoPeers);
    assert!(matches!(db, PeerManagerError::Database(StatelessPeerStoreError::NoPeers)));
    assert_eq!(
        db.to_string(),
        "reading or writing from the database failed: no peers in the database."
    );
    let db = PeerManagerError::from(SqlError::Corruption);
    assert_eq!(
        db.to_string(),
        "reading or writing from the database failed: a consensus critical data structure is malformed."
    );
    assert_eq!(StoreError::text(&UnitPeerStoreError::NoPeers), "no peers in unit database.");
    assert_eq!(StoreError::text(&StatelessPeerStoreError::NoPeers), "no peers in the database.");
    assert_eq!(
        StoreError::text(&SqlError::StringConversion),
        "a string could not be deserialized into a known datatype."
    );
}

#[test]
fn sentences_of_the_round() {
    let mut dialog = Dialog::new();
    dialog.peer_version(4_000_000_000);
    dialog.required_peers(3, 0);
    let mut genesis = [
        0x00, 0x00, 0x00, 0x00, 0x00, 0x19, 0xd6, 0x68, 0x9c, 0x08, 0x5a, 0xe1, 0x65, 0x83, 0x1e,
        0x93, 0x4f, 0xf7, 0x63, 0xae, 0x46, 0xa2, 0xa6, 0xc1, 0x72, 0xb3, 0xf1, 0xb6, 0x0a, 0x8c,
        0xe2, 0x6f,
    ];
    genesis.reverse();
    dialog.next_block(&genesis);
    let texts: Vec<String> = dialog
        .drain()
        .into_iter()
        .filter_map(|m| match m {
            NodeMessage::Dialog(s) => Some(s),
            _ => None,
        })
        .collect();
    assert_eq!(
        texts,
        vec![
            "[Peer 4000000000]: version".to_string(),
            "Required peers: 3, connected peers: 0".to_string(),
            "Next block in queue: 000000000019d6689c085ae165831e934ff763ae46a2a6c172b3f1b60a8ce26f"
                .to_string(),
        ]
    );
}
