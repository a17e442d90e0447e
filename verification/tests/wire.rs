use bitcoin::p2p::message::{NetworkMessage, RawNetworkMessage};
use bitcoin::p2p::message_blockdata::{GetHeadersMessage, Inventory};
use bitcoin::p2p::message_filter::{CFHeaders, CFilter, GetCFHeaders, GetCFilters};
use bitcoin::p2p::message_network::VersionMessage;
use bitcoin::p2p::{Address, Magic, ServiceFlags};
use kyoto::chain::chain::FilterRange;
use kyoto::chain::header::Header;
use kyoto::network::Network;
use kyoto::node::channel_messages::PeerMessage;
use kyoto::peers::address::{unmap, IpAddress, RawAddress};
use kyoto::peers::framing::{encode_frame, Command, FrameError};
use kyoto::peers::peer::OutboundMessage;
use kyoto::peers::wire::{
    decode_cf_headers, decode_cfilter, decode_headers, decode_inventory, decode_message,
    decode_nonce, encode_compact_size, encode_filter_request, encode_get_block,
    encode_get_headers, encode_header, encode_message, frame_message, from_bits,
    read_compact_size, read_hash, read_header, read_message, to_bits, Decoded, ReadError,
    ReadStep, USER_AGENT,
};

fn from_array<T: bitcoin::hashes::Hash<Bytes = [u8; 32]>>(bytes: [u8; 32]) -> T {
    T::from_byte_array(bytes)
}

fn outside(h: &Header) -> bitcoin::block::Header {
    bitcoin::block::Header {
        version: bitcoin::block::Version::from_consensus(h.version),
        prev_blockhash: from_array(h.prev_blockhash),
        merkle_root: from_array(h.merkle_root),
        time: h.time,
        bits: bitcoin::CompactTarget::from_consensus(h.bits),
        nonce: h.nonce,
    }
}

fn header(seed: u8, version: i32) -> Header {
    Header {
        version,
        prev_blockhash: [seed; 32],
        merkle_root: [seed.wrapping_add(1); 32],
        time: 1_700_000_000 + seed as u32,
        bits: 0x1d00ffff,
        nonce: 0xdead_0000 + seed as u32,
    }
}

/// The payload the other implementation writes for a message.
fn payload_of(message: NetworkMessage) -> Vec<u8> {
    let raw = RawNetworkMessage::new(Magic::BITCOIN, message);
    bitcoin::consensus::serialize(&raw)[24..].to_vec()
}

#[test]
fn compact_size_takes_the_shortest_form() {
    assert_eq!(encode_compact_size(0), vec![0]);
    assert_eq!(encode_compact_size(252), vec![252]);
    assert_eq!(encode_compact_size(253), vec![0xfd, 253, 0]);
    assert_eq!(encode_compact_size(0xffff), vec![0xfd, 0xff, 0xff]);
    assert_eq!(encode_compact_size(0x1_0000), vec![0xfe, 0, 0, 1, 0]);
    assert_eq!(encode_compact_size(0xffff_ffff), vec![0xfe, 0xff, 0xff, 0xff, 0xff]);
    assert_eq!(encode_compact_size(0x1_0000_0000), vec![0xff, 0, 0, 0, 0, 1, 0, 0, 0]);
    assert_eq!(encode_compact_size(u64::MAX), vec![0xff; 9]);
    for n in [0u64, 1, 252, 253, 254, 0xffff, 0x1_0000, 0xffff_ffff, 0x1_0000_0000, u64::MAX] {
        let mut bytes = vec![7u8, 7];
        bytes.extend(encode_compact_size(n));
        let end = bytes.len();
        bytes.push(9);
        assert_eq!(read_compact_size(&bytes, 2), Some((n, end)));
        assert_eq!(
            encode_compact_size(n),
            bitcoin::consensus::serialize(&bitcoin::VarInt(n))
        );
    }
}

#[test]
fn compact_size_in_a_longer_form_is_rejected() {
    assert_eq!(read_compact_size(&[0xfd, 252, 0], 0), None);
    assert_eq!(read_compact_size(&[0xfe, 0xff, 0xff, 0, 0], 0), None);
    assert_eq!(read_compact_size(&[0xff, 0xff, 0xff, 0xff, 0xff, 0, 0, 0, 0], 0), None);
    assert_eq!(read_compact_size(&[0xfd, 253], 0), None);
    assert_eq!(read_compact_size(&[0xfe, 0, 0, 1], 0), None);
    assert_eq!(read_compact_size(&[0xff, 0, 0, 0, 0, 1, 0, 0], 0), None);
    assert_eq!(read_compact_size(&[], 0), None);
    assert_eq!(read_compact_size(&[1], 1), None);
    assert_eq!(read_compact_size(&[1], 5), None);
}

#[test]
fn signed_numbers_keep_their_bits() {
    assert_eq!(to_bits(0), 0);
    assert_eq!(to_bits(1), 1);
    assert_eq!(to_bits(-1), u32::MAX);
    assert_eq!(to_bits(i32::MIN), 0x8000_0000);
    assert_eq!(to_bits(i32::MAX), 0x7fff_ffff);
    assert_eq!(from_bits(u32::MAX), -1);
    assert_eq!(from_bits(0x8000_0000), i32::MIN);
    assert_eq!(from_bits(0x2000_0000), 0x2000_0000);
    for v in [0, 1, -1, 536870912, i32::MIN, i32::MAX, -77] {
        assert_eq!(from_bits(to_bits(v)), v);
    }
}

#[test]
fn header_is_written_as_the_other_implementation_writes_it() {
    for h in [header(1, 1), header(200, 0x2000_0000), header(3, -2)] {
        let bytes = encode_header(&h);
        assert_eq!(bytes.len(), 80);
        assert_eq!(bytes, bitcoin::consensus::serialize(&outside(&h)));
        let mut padded = vec![0xaa; 5];
        padded.extend_from_slice(&bytes);
        padded.push(0xbb);
        let back = read_header(&padded, 5);
        assert_eq!(back.version, h.version);
        assert_eq!(back.prev_blockhash, h.prev_blockhash);
        assert_eq!(back.merkle_root, h.merkle_root);
        assert_eq!((back.time, back.bits, back.nonce), (h.time, h.bits, h.nonce));
        assert_eq!(back.block_hash(), h.block_hash());
        assert_eq!(read_hash(&padded, 9), h.prev_blockhash);
    }
}

#[test]
fn headers_message_is_read() {
    let headers = vec![header(1, 1), header(2, 2), header(3, -3)];
    let payload = payload_of(NetworkMessage::Headers(headers.iter().map(outside).collect()));
    assert_eq!(payload.len(), 1 + 3 * 81);
    let back = decode_headers(&payload).unwrap();
    assert_eq!(back.len(), 3);
    for i in 0..3 {
        assert_eq!(back[i].block_hash(), headers[i].block_hash());
        assert_eq!(back[i].version, headers[i].version);
    }
    assert_eq!(decode_headers(&[0]).unwrap().len(), 0);
    match decode_message(Command::Headers, &payload) {
        Decoded::Message(PeerMessage::Headers(h)) => assert_eq!(h.len(), 3),
        other => panic!("unexpected {:?}", other),
    }
}

#[test]
fn headers_message_out_of_shape_is_rejected() {
    let headers = vec![header(1, 1), header(2, 2)];
    let payload = payload_of(NetworkMessage::Headers(headers.iter().map(outside).collect()));
    assert!(decode_headers(&payload[..payload.len() - 1]).is_none());
    let mut longer = payload.clone();
    longer.push(0);
    assert!(decode_headers(&longer).is_none());
    let mut counted = payload.clone();
    counted[0] = 3;
    assert!(decode_headers(&counted).is_none());
    // A header that claims to carry transactions.
    let mut with_txs = payload.clone();
    with_txs[81] = 1;
    assert!(decode_headers(&with_txs).is_none());
    let mut last = payload.clone();
    last[162] = 1;
    assert!(decode_headers(&last).is_none());
    assert!(decode_headers(&[]).is_none());
    assert!(matches!(decode_message(Command::Headers, &[]), Decoded::Malformed));
}

#[test]
fn filter_headers_message_is_read() {
    let message = CFHeaders {
        filter_type: 0,
        stop_hash: from_array([1; 32]),
        previous_filter_header: from_array([2; 32]),
        filter_hashes: vec![from_array([3; 32]), from_array([4; 32])],
    };
    let payload = payload_of(NetworkMessage::CFHeaders(message));
    let back = decode_cf_headers(&payload).unwrap();
    assert_eq!(back.stop_hash, [1; 32]);
    assert_eq!(back.previous_filter_header, [2; 32]);
    assert_eq!(back.filter_hashes, vec![[3; 32], [4; 32]]);
    assert!(decode_cf_headers(&payload[..payload.len() - 1]).is_none());
    let mut other_type = payload.clone();
    other_type[0] = 1;
    assert!(decode_cf_headers(&other_type).is_none());
    assert!(decode_cf_headers(&payload[..64]).is_none());
    let mut none = payload[..65].to_vec();
    none.push(0);
    assert!(decode_cf_headers(&none).unwrap().filter_hashes.is_empty());
    assert!(matches!(
        decode_message(Command::CFHeaders, &payload),
        Decoded::Message(PeerMessage::FilterHeaders(_))
    ));
}

#[test]
fn filter_message_is_read() {
    let content: Vec<u8> = (0..=255u8).chain(0..=9u8).collect();
    let message =
        CFilter { filter_type: 0, block_hash: from_array([5; 32]), filter: content.clone() };
    let payload = payload_of(NetworkMessage::CFilter(message));
    let back = decode_cfilter(&payload).unwrap();
    assert_eq!(back.block_hash, [5; 32]);
    assert_eq!(back.contents, content);
    assert!(decode_cfilter(&payload[..payload.len() - 1]).is_none());
    let mut longer = payload.clone();
    longer.push(0);
    assert!(decode_cfilter(&longer).is_none());
    let mut other_type = payload.clone();
    other_type[0] = 1;
    assert!(decode_cfilter(&other_type).is_none());
    let empty = payload_of(NetworkMessage::CFilter(CFilter {
        filter_type: 0,
        block_hash: from_array([5; 32]),
        filter: Vec::new(),
    }));
    assert!(decode_cfilter(&empty).unwrap().contents.is_empty());
}

#[test]
fn inventory_names_blocks() {
    let inventory = vec![
        Inventory::Transaction(from_array([1; 32])),
        Inventory::Block(from_array([2; 32])),
        Inventory::WitnessTransaction(from_array([3; 32])),
        Inventory::WitnessBlock(from_array([4; 32])),
        Inventory::CompactBlock(from_array([5; 32])),
    ];
    let payload = payload_of(NetworkMessage::Inv(inventory));
    assert_eq!(decode_inventory(&payload).unwrap(), vec![[2; 32], [4; 32]]);
    match decode_message(Command::Inv, &payload) {
        Decoded::Message(PeerMessage::NewBlocks(blocks)) => {
            assert_eq!(blocks, vec![[2; 32], [4; 32]])
        },
        other => panic!("unexpected {:?}", other),
    }
    let only_txs = payload_of(NetworkMessage::Inv(vec![Inventory::Transaction(from_array([1; 32]))]));
    assert!(decode_inventory(&only_txs).unwrap().is_empty());
    assert!(matches!(decode_message(Command::Inv, &only_txs), Decoded::Nothing));
    assert!(decode_inventory(&payload[..payload.len() - 1]).is_none());
    assert!(matches!(decode_message(Command::Inv, &payload[..9]), Decoded::Malformed));
}

#[test]
fn nonces_are_eight_bytes() {
    assert_eq!(decode_nonce(&[1, 0, 0, 0, 0, 0, 0, 0x80]), Some(0x8000_0000_0000_0001));
    assert_eq!(decode_nonce(&[1, 0, 0, 0, 0, 0, 0]), None);
    assert_eq!(decode_nonce(&[1, 0, 0, 0, 0, 0, 0, 0, 0]), None);
    let payload = payload_of(NetworkMessage::Ping(0x0102_0304_0506_0708));
    assert!(matches!(
        decode_message(Command::Ping, &payload),
        Decoded::Message(PeerMessage::Ping(0x0102_0304_0506_0708))
    ));
    assert!(matches!(
        decode_message(Command::Pong, &payload),
        Decoded::Message(PeerMessage::Pong(0x0102_0304_0506_0708))
    ));
    assert!(matches!(decode_message(Command::Ping, &[]), Decoded::Malformed));
}

#[test]
fn requests_are_written_as_the_other_implementation_writes_them() {
    let locators = vec![[1u8; 32], [2u8; 32], [3u8; 32]];
    let theirs = GetHeadersMessage {
        version: 70016,
        locator_hashes: locators.iter().map(|h| from_array(*h)).collect(),
        stop_hash: from_array([0; 32]),
    };
    assert_eq!(
        encode_get_headers(70016, &locators, &None),
        bitcoin::consensus::serialize(&theirs)
    );
    let theirs = GetHeadersMessage {
        version: 70016,
        locator_hashes: Vec::new(),
        stop_hash: from_array([9; 32]),
    };
    assert_eq!(
        encode_get_headers(70016, &Vec::new(), &Some([9; 32])),
        bitcoin::consensus::serialize(&theirs)
    );
    let theirs =
        GetCFHeaders { filter_type: 0, start_height: 170_001, stop_hash: from_array([7; 32]) };
    assert_eq!(encode_filter_request(170_001, &[7; 32]), bitcoin::consensus::serialize(&theirs));
    let theirs =
        GetCFilters { filter_type: 0, start_height: u32::MAX, stop_hash: from_array([8; 32]) };
    assert_eq!(encode_filter_request(u32::MAX, &[8; 32]), bitcoin::consensus::serialize(&theirs));
    let theirs = vec![Inventory::WitnessBlock(from_array([6; 32]))];
    assert_eq!(encode_get_block(&[6; 32]), bitcoin::consensus::serialize(&theirs));
    assert_eq!(decode_inventory(&encode_get_block(&[6; 32])).unwrap(), vec![[6; 32]]);
}

#[test]
fn messages_are_named_and_written() {
    let range = FilterRange { start_height: 5, stop_hash: [1; 32] };
    let cases: Vec<(OutboundMessage, Command, usize)> = vec![
        (OutboundMessage::Verack, Command::Verack, 0),
        (OutboundMessage::GetAddr, Command::GetAddr, 0),
        (OutboundMessage::Pong(7), Command::Pong, 8),
        (OutboundMessage::GetFilterHeaders(range), Command::GetCFHeaders, 37),
        (OutboundMessage::GetFilters(range), Command::GetCFilters, 37),
        (OutboundMessage::GetBlock([2; 32]), Command::GetData, 37),
        (
            OutboundMessage::Transaction(bitcoin::consensus::serialize(
                &block_with_two_transactions().txdata[0],
            )),
            Command::Tx,
            bitcoin::consensus::serialize(&block_with_two_transactions().txdata[0]).len(),
        ),
        (
            OutboundMessage::GetHeaders { locators: vec![[1; 32]], stop_hash: None },
            Command::GetHeaders,
            4 + 1 + 32 + 32,
        ),
    ];
    for (message, command, len) in cases {
        let (name, payload) = encode_message(&message);
        assert_eq!(name, command);
        assert_eq!(payload.len(), len);
        let frame = frame_message(Network::Signet, &message).unwrap();
        assert_eq!(frame, encode_frame(Network::Signet, command, &payload));
        // The other implementation reads the frame as the same message.
        let raw: RawNetworkMessage = bitcoin::consensus::deserialize(&frame).unwrap();
        assert_eq!(bitcoin::consensus::serialize(&raw), frame);
    }
    let (_, pong) = encode_message(&OutboundMessage::Pong(0x0102_0304_0506_0708));
    assert_eq!(pong, vec![8, 7, 6, 5, 4, 3, 2, 1]);
}

#[test]
fn version_says_what_the_node_is() {
    let message = OutboundMessage::Version {
        services: 73,
        timestamp: 1_700_000_000,
        nonce: 42,
        start_height: 170_000,
    };
    let (command, payload) = encode_message(&message);
    assert_eq!(command, Command::Version);
    let theirs: VersionMessage = bitcoin::consensus::deserialize(&payload).unwrap();
    assert_eq!(theirs.version, 70016);
    assert_eq!(theirs.services, ServiceFlags::from(73));
    assert_eq!(theirs.timestamp, 1_700_000_000);
    assert_eq!(theirs.nonce, 42);
    assert_eq!(theirs.user_agent, USER_AGENT);
    assert_eq!(theirs.start_height, 170_000);
    assert!(!theirs.relay);
    assert_eq!(theirs.sender.services, ServiceFlags::from(73));
    match decode_message(Command::Version, &payload) {
        Decoded::Message(PeerMessage::Version(v)) => {
            assert_eq!(v.version, 70016);
            assert_eq!(v.service_flags, 73);
            assert_eq!(v.timestamp, 1_700_000_000);
            assert_eq!(v.height, 170_000);
        },
        other => panic!("unexpected {:?}", other),
    }
    assert!(matches!(decode_message(Command::Version, &payload[..20]), Decoded::Malformed));
}

#[test]
fn addresses_are_read_in_both_forms() {
    let list = vec![
        (
            5u32,
            Address {
                services: ServiceFlags::from(73),
                address: [0, 0, 0, 0, 0, 0xffff, 0x1789, 0x3964],
                port: 38333,
            },
        ),
        (
            6u32,
            Address {
                services: ServiceFlags::from(1),
                address: [0x2001, 0xdb8, 0, 0, 0, 0, 0, 1],
                port: 8333,
            },
        ),
    ];
    let payload = payload_of(NetworkMessage::Addr(list));
    match decode_message(Command::Addr, &payload) {
        Decoded::Message(PeerMessage::Addr(peers)) => {
            assert_eq!(peers.len(), 2);
            assert!(matches!(peers[0].addr, IpAddress::V4([23, 137, 57, 100])));
            assert_eq!((peers[0].port, peers[0].services), (38333, 73));
            match peers[1].addr {
                IpAddress::V6(a) => {
                    assert_eq!(&a[..4], &[0x20, 0x01, 0x0d, 0xb8]);
                    assert_eq!(a[15], 1);
                },
                other => panic!("unexpected {:?}", other),
            }
            assert_eq!((peers[1].port, peers[1].services), (8333, 1));
        },
        other => panic!("unexpected {:?}", other),
    }
    assert!(matches!(decode_message(Command::Addr, &payload[..10]), Decoded::Malformed));
    let second = vec![
        bitcoin::p2p::address::AddrV2Message {
            time: 5,
            services: ServiceFlags::from(64),
            addr: bitcoin::p2p::address::AddrV2::Ipv4("1.2.3.4".parse().unwrap()),
            port: 7,
        },
        bitcoin::p2p::address::AddrV2Message {
            time: 5,
            services: ServiceFlags::from(64),
            addr: bitcoin::p2p::address::AddrV2::TorV3([9; 32]),
            port: 8,
        },
        bitcoin::p2p::address::AddrV2Message {
            time: 5,
            services: ServiceFlags::from(65),
            addr: bitcoin::p2p::address::AddrV2::Ipv6("1::2".parse().unwrap()),
            port: 9,
        },
    ];
    let payload = payload_of(NetworkMessage::AddrV2(second));
    match decode_message(Command::AddrV2, &payload) {
        Decoded::Message(PeerMessage::Addr(peers)) => {
            assert_eq!(peers.len(), 2);
            assert!(matches!(peers[0].addr, IpAddress::V4([1, 2, 3, 4])));
            assert_eq!((peers[0].port, peers[0].services), (7, 64));
            assert!(matches!(peers[1].addr, IpAddress::V6(_)));
            assert_eq!((peers[1].port, peers[1].services), (9, 65));
        },
        other => panic!("unexpected {:?}", other),
    }
}

#[test]
fn mapped_addresses_are_of_version_four() {
    let mut address = [0u8; 16];
    address[10] = 0xff;
    address[11] = 0xff;
    address[12..].copy_from_slice(&[10, 1, 2, 3]);
    let peer = unmap(&RawAddress { address, port: 5, services: 6 });
    assert!(matches!(peer.addr, IpAddress::V4([10, 1, 2, 3])));
    assert_eq!((peer.port, peer.services), (5, 6));
    address[0] = 1;
    assert!(matches!(unmap(&RawAddress { address, port: 5, services: 6 }).addr, IpAddress::V6(_)));
    address[0] = 0;
    address[11] = 0xfe;
    assert!(matches!(unmap(&RawAddress { address, port: 5, services: 6 }).addr, IpAddress::V6(_)));
    assert!(matches!(
        unmap(&RawAddress { address: [0; 16], port: 5, services: 6 }).addr,
        IpAddress::V6(_)
    ));
}

fn block_with_two_transactions() -> bitcoin::Block {
    let pay = |value: u64, script: Vec<u8>, spends: bitcoin::OutPoint| bitcoin::Transaction {
        version: bitcoin::transaction::Version::TWO,
        lock_time: bitcoin::absolute::LockTime::ZERO,
        input: vec![bitcoin::TxIn {
            previous_output: spends,
            script_sig: bitcoin::ScriptBuf::new(),
            sequence: bitcoin::Sequence::MAX,
            witness: bitcoin::Witness::new(),
        }],
        output: vec![bitcoin::TxOut {
            value: bitcoin::Amount::from_sat(value),
            script_pubkey: bitcoin::ScriptBuf::from_bytes(script),
        }],
    };
    let first = pay(50, vec![0x51], bitcoin::OutPoint::null());
    let second =
        pay(40, vec![0x00, 0x14, 7, 7], bitcoin::OutPoint { txid: first.compute_txid(), vout: 0 });
    let mut block = bitcoin::Block { header: outside(&header(9, 4)), txdata: vec![first, second] };
    block.header.merkle_root = block.compute_merkle_root().unwrap();
    block
}

#[test]
fn block_is_read_with_its_transactions() {
    let block = block_with_two_transactions();
    let payload = payload_of(NetworkMessage::Block(block.clone()));
    match decode_message(Command::Block, &payload) {
        Decoded::Message(PeerMessage::Block(b)) => {
            assert_eq!(
                b.header.block_hash(),
                bitcoin::hashes::Hash::to_byte_array(block.block_hash())
            );
            assert_eq!(b.txdata.len(), 2);
            for i in 0..2 {
                assert_eq!(
                    b.txdata[i].txid,
                    bitcoin::hashes::Hash::to_byte_array(block.txdata[i].compute_txid())
                );
            }
            assert_eq!(b.txdata[0].outputs, vec![vec![0x51]]);
            assert_eq!(b.txdata[1].outputs, vec![vec![0x00, 0x14, 7, 7]]);
            assert_eq!(b.txdata[1].inputs.len(), 1);
            assert_eq!(b.txdata[1].inputs[0].txid, b.txdata[0].txid);
            assert_eq!(b.txdata[1].inputs[0].vout, 0);
            assert_eq!(b.txdata[0].inputs[0].vout, u32::MAX);
        },
        other => panic!("unexpected {:?}", other),
    }
    assert!(matches!(decode_message(Command::Block, &payload[..79]), Decoded::Malformed));
    assert!(matches!(decode_message(Command::Block, &payload[..100]), Decoded::Malformed));
}

#[test]
fn requests_of_a_peer_mean_nothing_to_the_session() {
    for command in [
        Command::GetAddr,
        Command::GetHeaders,
        Command::GetCFHeaders,
        Command::GetCFilters,
        Command::GetData,
        Command::Tx,
    ] {
        assert!(matches!(decode_message(command, &[1, 2, 3]), Decoded::Nothing));
    }
    assert!(matches!(
        decode_message(Command::Verack, &[]),
        Decoded::Message(PeerMessage::Verack)
    ));
    assert!(matches!(decode_message(Command::Verack, &[0]), Decoded::Malformed));
}

#[test]
fn messages_are_read_off_the_bytes_of_a_peer() {
    let headers = vec![header(1, 1), header(2, 2)];
    let raw = RawNetworkMessage::new(
        Magic::SIGNET,
        NetworkMessage::Headers(headers.iter().map(outside).collect()),
    );
    let mut buffer = bitcoin::consensus::serialize(&raw);
    let first = buffer.len();
    buffer.extend(bitcoin::consensus::serialize(&RawNetworkMessage::new(
        Magic::SIGNET,
        NetworkMessage::SendHeaders,
    )));
    let second = buffer.len() - first;
    buffer.extend(bitcoin::consensus::serialize(&RawNetworkMessage::new(
        Magic::SIGNET,
        NetworkMessage::GetAddr,
    )));
    buffer.extend(bitcoin::consensus::serialize(&RawNetworkMessage::new(
        Magic::SIGNET,
        NetworkMessage::Ping(3),
    )));
    assert!(matches!(
        read_message(Network::Signet, &buffer[..first - 1].to_vec()),
        ReadStep::Incomplete
    ));
    match read_message(Network::Signet, &buffer) {
        ReadStep::Message { message: PeerMessage::Headers(h), consumed } => {
            assert_eq!(h.len(), 2);
            assert_eq!(consumed, first);
        },
        other => panic!("unexpected {:?}", other),
    }
    buffer.drain(..first);
    // A message this node does not know, then one that means nothing to it.
    match read_message(Network::Signet, &buffer) {
        ReadStep::Skipped { consumed } => assert_eq!(consumed, second),
        other => panic!("unexpected {:?}", other),
    }
    buffer.drain(..second);
    match read_message(Network::Signet, &buffer) {
        ReadStep::Skipped { consumed } => assert_eq!(consumed, 24),
        other => panic!("unexpected {:?}", other),
    }
    buffer.drain(..24);
    match read_message(Network::Signet, &buffer) {
        ReadStep::Message { message: PeerMessage::Ping(3), consumed } => {
            assert_eq!(consumed, 32)
        },
        other => panic!("unexpected {:?}", other),
    }
    assert!(matches!(
        read_message(Network::Mainnet, &buffer),
        ReadStep::Rejected(ReadError::Frame(FrameError::BadMagic))
    ));
}

#[test]
fn payload_that_is_not_its_message_ends_the_session() {
    let frame = encode_frame(Network::Signet, Command::Headers, &vec![2, 0, 0]);
    assert!(matches!(
        read_message(Network::Signet, &frame),
        ReadStep::Rejected(ReadError::Malformed)
    ));
    let mut oversized = encode_frame(Network::Signet, Command::Block, &Vec::new());
    oversized[16..20].copy_from_slice(&(40u32 * 1024 * 1024).to_le_bytes());
    assert!(matches!(
        read_message(Network::Signet, &oversized),
        ReadStep::Rejected(ReadError::Frame(FrameError::Oversized))
    ));
}
