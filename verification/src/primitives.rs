//! The calls this library makes into the `bitcoin` and `rand` crates, and the
//! few into the standard library that come without a contract.
//!
//! Every function here is believed, not proved: its body makes the call and
//! turns values of one side into values of the other, and its contract
//! restates what the outside crate documents.

use vstd::prelude::*;

use crate::chain::chain::{txs_view, OutPoint, Transaction, TransactionView};
use crate::chain::header::{Hash256, Header};
use crate::node::channel_messages::RemoteVersion;
use crate::peers::address::RawAddress;
use crate::network::Network;

verus! {

/// The largest filter, in bytes, that is handed to the membership test. No
/// larger payload fits in one message.
pub const MAX_FILTER_LEN: usize = 0x0200_0000;

/// The largest retarget mantissa this library submits at exponent 30.
pub const MAX_MANTISSA_AT_30: u32 = 0x0003_77ae;

/// The block hash `bitcoin::block::Header::block_hash` gives for a header with
/// these six fields.
pub uninterp spec fn spec_block_hash(
    version: i32,
    prev_blockhash: Seq<u8>,
    merkle_root: Seq<u8>,
    time: u32,
    bits: u32,
    nonce: u32,
) -> Seq<u8>;

/// Calls `bitcoin::block::Header::block_hash` on the header with the same
/// fields. The result is a function of the fields alone.
#[verifier::external_body]
pub(crate) fn block_hash(h: &Header) -> (r: Hash256)
    ensures
        r@ == spec_block_hash(h.version, h.prev_blockhash@, h.merkle_root@, h.time, h.bits, h.nonce),
{
    let header = bitcoin::block::Header {
        version: bitcoin::block::Version::from_consensus(h.version),
        prev_blockhash: bitcoin::hashes::Hash::from_byte_array(h.prev_blockhash),
        merkle_root: bitcoin::hashes::Hash::from_byte_array(h.merkle_root),
        time: h.time,
        bits: bitcoin::CompactTarget::from_consensus(h.bits),
        nonce: h.nonce,
    };
    bitcoin::hashes::Hash::to_byte_array(header.block_hash())
}

/// Whether `bitcoin::Target::is_met_by` accepts the block hash for the target
/// that the compact value `bits` encodes.
pub uninterp spec fn spec_target_met(bits: u32, block_hash: Seq<u8>) -> bool;

/// Calls `bitcoin::Target::is_met_by` on the target decoded from `bits`: the
/// hash, read as a number, does not exceed the target.
#[verifier::external_body]
pub(crate) fn target_met(bits: u32, block_hash: &Hash256) -> (r: bool)
    ensures
        r == spec_target_met(bits, block_hash@),
{
    let target = bitcoin::Target::from_compact(bitcoin::CompactTarget::from_consensus(bits));
    target.is_met_by(bitcoin::hashes::Hash::from_byte_array(*block_hash))
}

/// The work `bitcoin::Target::to_work` assigns to a block mined at the compact
/// target `bits`, as a number below two to the power of 256.
pub uninterp spec fn spec_block_work(bits: u32) -> nat;

/// Calls `bitcoin::Target::to_work` on the target decoded from `bits` and
/// hands the 256-bit result back as its upper and lower halves.
#[verifier::external_body]
pub(crate) fn block_work(bits: u32) -> (r: (u128, u128))
    ensures
        r.0 as nat * 0x1_0000_0000_0000_0000_0000_0000_0000_0000nat + r.1 as nat == spec_block_work(bits),
{
    let target = bitcoin::Target::from_compact(bitcoin::CompactTarget::from_consensus(bits));
    let bytes = target.to_work().to_be_bytes();
    let mut upper = [0u8; 16];
    let mut lower = [0u8; 16];
    upper.copy_from_slice(&bytes[..16]);
    lower.copy_from_slice(&bytes[16..]);
    (u128::from_be_bytes(upper), u128::from_be_bytes(lower))
}

/// Whether the target that `bits` encodes is at most the highest target
/// `bitcoin::params::Params` allows on the network.
pub uninterp spec fn spec_target_allowed(network: Network, bits: u32) -> bool;

/// Compares the target decoded from `bits` with the field
/// `max_attainable_target` of `bitcoin::params::Params::new` for the network,
/// by the order of `bitcoin::Target`.
#[verifier::external_body]
pub(crate) fn target_allowed(network: Network, bits: u32) -> (r: bool)
    ensures
        r == spec_target_allowed(network, bits),
{
    let params = bitcoin::params::Params::new(match network {
        Network::Mainnet => bitcoin::Network::Bitcoin,
        Network::Testnet => bitcoin::Network::Testnet,
        Network::Signet => bitcoin::Network::Signet,
        Network::Regtest => bitcoin::Network::Regtest,
    });
    let target = bitcoin::Target::from_compact(bitcoin::CompactTarget::from_consensus(bits));
    params.max_attainable_target.ge(&target)
}

/// The compact target `bitcoin::CompactTarget::from_next_work_required`
/// computes for the block that opens a new difficulty period.
pub uninterp spec fn spec_next_bits(network: Network, last_bits: u32, timespan: u64) -> u32;

/// Whether multiplying the target that `bits` encodes by the longest timespan
/// the retarget rule admits stays below two to the power of 256.
pub open spec fn retarget_in_range(bits: u32) -> bool {
    let exponent = bits / 0x0100_0000;
    let mantissa = bits % 0x0100_0000;
    exponent <= 29 || (exponent == 30 && mantissa <= MAX_MANTISSA_AT_30)
}

/// Calls `bitcoin::CompactTarget::from_next_work_required` with the
/// parameters of `network`. The outside function multiplies the old target by
/// the clamped timespan in 256 bits and stops the program when that product
/// does not fit, so larger targets are kept out.
#[verifier::external_body]
pub(crate) fn next_bits(network: Network, last_bits: u32, timespan: u64) -> (r: u32)
    requires
        retarget_in_range(last_bits),
    ensures
        r == spec_next_bits(network, last_bits, timespan),
{
    let params = bitcoin::params::Params::new(match network {
        Network::Mainnet => bitcoin::Network::Bitcoin,
        Network::Testnet => bitcoin::Network::Testnet,
        Network::Signet => bitcoin::Network::Signet,
        Network::Regtest => bitcoin::Network::Regtest,
    });
    let last = bitcoin::CompactTarget::from_consensus(last_bits);
    bitcoin::CompactTarget::from_next_work_required(last, timespan, params).to_consensus()
}

/// The double SHA-256 digest of `data`, as `bitcoin::hashes::sha256d` computes it.
pub uninterp spec fn spec_sha256d(data: Seq<u8>) -> Seq<u8>;

/// Calls `bitcoin::hashes::sha256d::Hash::hash`.
#[verifier::external_body]
pub(crate) fn sha256d(data: &[u8]) -> (r: Hash256)
    ensures
        r@ == spec_sha256d(data@),
{
    let digest: bitcoin::hashes::sha256d::Hash = bitcoin::hashes::Hash::hash(data);
    bitcoin::hashes::Hash::to_byte_array(digest)
}

/// What `bitcoin::bip158::BlockFilter::match_any` answers for a filter, the
/// hash of its block and a list of scripts: `None` where the filter cannot be
/// read to its end.
pub uninterp spec fn spec_filter_match(
    content: Seq<u8>,
    block_hash: Seq<u8>,
    scripts: Seq<Seq<u8>>,
) -> Option<bool>;

/// Whether the element count that opens a filter is small enough for the
/// outside membership test, which multiplies it by a constant in 64 bits.
pub open spec fn filter_count_in_range(content: Seq<u8>) -> bool {
    content.len() >= 9 && content[0] == 0xFF ==> content[6] == 0 && content[7] == 0 && content[8]
        == 0
}

/// Calls `bitcoin::bip158::BlockFilter::match_any`. The outside function adds
/// decoded differences in 64 bits, so the filter's length and its leading
/// element count are bounded.
#[verifier::external_body]
pub(crate) fn filter_match_any(content: &Vec<u8>, block_hash: &Hash256, scripts: &Vec<Vec<u8>>) -> (r:
    Option<bool>)
    requires
        content@.len() <= MAX_FILTER_LEN,
        filter_count_in_range(content@),
    ensures
        r == spec_filter_match(content@, block_hash@, scripts.deep_view()),
{
    let filter = bitcoin::bip158::BlockFilter::new(content.as_slice());
    let hash: bitcoin::BlockHash = bitcoin::hashes::Hash::from_byte_array(*block_hash);
    filter.match_any(&hash, scripts.iter().map(|s| s.as_slice())).ok()
}

/// The Merkle root `bitcoin::merkle_tree::calculate_root` computes over a
/// list of transaction ids.
pub uninterp spec fn spec_merkle_root(txids: Seq<Seq<u8>>) -> Option<Seq<u8>>;

/// Calls `bitcoin::merkle_tree::calculate_root`, which has no root for an
/// empty list and one for every other.
#[verifier::external_body]
pub(crate) fn merkle_root(txids: &Vec<Hash256>) -> (r: Option<Hash256>)
    ensures
        r is Some <==> txids@.len() > 0,
        r is Some ==> spec_merkle_root(txids.deep_view()) == Some(r->0@),
        r is None ==> spec_merkle_root(txids.deep_view()) is None,
{
    let nodes = txids.iter().map(|t| -> bitcoin::TxMerkleNode { bitcoin::hashes::Hash::from_byte_array(*t) });
    bitcoin::merkle_tree::calculate_root(nodes).map(|root| bitcoin::hashes::Hash::to_byte_array(root))
}

/// `rand::rngs::StdRng`, carried through as an opaque value.
#[verifier::external_type_specification]
#[verifier::external_body]
pub struct ExStdRng(rand::rngs::StdRng);

/// Calls `rand::Rng::gen_range` on `0..bound`, which yields some number of
/// that range and stops the program on an empty range.
#[verifier::external_body]
pub(crate) fn random_below(rng: &mut rand::rngs::StdRng, bound: usize) -> (r: usize)
    requires
        bound > 0,
    ensures
        r < bound,
{
    rand::Rng::gen_range(rng, 0..bound)
}

/// Calls `rand::RngCore::next_u32`, which yields some 32-bit number.
#[verifier::external_body]
pub(crate) fn random_u32(rng: &mut rand::rngs::StdRng) -> u32 {
    rand::RngCore::next_u32(rng)
}

/// Calls `rand::seq::SliceRandom::shuffle`, which swaps elements of the
/// slice among themselves: the same elements are there afterwards, each as
/// often as before.
#[verifier::external_body]
pub(crate) fn shuffle<T>(items: &mut Vec<T>, rng: &mut rand::rngs::StdRng)
    ensures
        final(items)@.to_multiset() == old(items)@.to_multiset(),
{
    rand::seq::SliceRandom::shuffle(items.as_mut_slice(), rng)
}

/// The hash of the first block of a network, as
/// `bitcoin::constants::genesis_block` builds it.
pub uninterp spec fn spec_genesis_hash(network: Network) -> Seq<u8>;

/// Builds the first block of the network with
/// `bitcoin::constants::genesis_block` and returns its block hash.
#[verifier::external_body]
pub(crate) fn genesis_hash(network: Network) -> (r: Hash256)
    ensures
        r@ == spec_genesis_hash(network),
{
    let block = bitcoin::constants::genesis_block(match network {
        Network::Mainnet => bitcoin::Network::Bitcoin,
        Network::Testnet => bitcoin::Network::Testnet,
        Network::Signet => bitcoin::Network::Signet,
        Network::Regtest => bitcoin::Network::Regtest,
    });
    bitcoin::hashes::Hash::to_byte_array(block.block_hash())
}

/// The ten digits.
pub open spec fn digit(d: nat) -> char {
    seq!['0', '1', '2', '3', '4', '5', '6', '7', '8', '9'][d as int]
}

/// A number in decimal notation, without leading zeros.
pub open spec fn spec_decimal(n: nat) -> Seq<char>
    decreases n,
{
    if n < 10 {
        seq![digit(n)]
    } else {
        spec_decimal(n / 10).push(digit(n % 10))
    }
}

/// Calls `ToString::to_string` on a `u64`, which writes the number in
/// decimal notation.
#[verifier::external_body]
pub(crate) fn decimal(n: u64) -> (r: String)
    ensures
        r@ == spec_decimal(n as nat),
{
    n.to_string()
}

/// The digit of `n`, a number below sixteen, in hexadecimal notation.
pub open spec fn hex_digit(n: int) -> char {
    "0123456789abcdef"@[n]
}

/// A block hash as it is written for people: its bytes from the last to the
/// first, each as two hexadecimal digits in lower case.
pub open spec fn spec_hash_text(hash: Seq<u8>) -> Seq<char> {
    Seq::new(
        2 * hash.len(),
        |i: int|
            if i % 2 == 0 {
                hex_digit(hash[hash.len() - 1 - i / 2] as int / 16)
            } else {
                hex_digit(hash[hash.len() - 1 - i / 2] as int % 16)
            },
    )
}

/// Calls `to_string` on the `bitcoin::BlockHash` of these bytes, which
/// writes them in reverse order in hexadecimal notation, in lower case.
#[verifier::external_body]
pub(crate) fn hash_text(hash: &Hash256) -> (r: String)
    ensures
        r@ == spec_hash_text(hash@),
{
    let hash: bitcoin::BlockHash = bitcoin::hashes::Hash::from_byte_array(*hash);
    hash.to_string()
}

/// Calls `String::push_str`, which appends `tail` to the string.
#[verifier::external_body]
pub(crate) fn append(text: &mut String, tail: &str)
    ensures
        final(text)@ == old(text)@ + tail@,
{
    text.push_str(tail)
}

/// `std::path::PathBuf`, carried through as an opaque value.
#[verifier::external_type_specification]
#[verifier::external_body]
pub struct ExPathBuf(std::path::PathBuf);

/// The payload `bitcoin::consensus::serialize` gives for the version message
/// that `bitcoin::p2p::message_network::VersionMessage::new` makes of these
/// values, with the protocol version set to `version`. The receiver and the
/// sender are each given by their services, the eight groups of their
/// address and their port.
pub uninterp spec fn spec_version_payload(
    version: u32,
    services: u64,
    timestamp: i64,
    receiver_services: u64,
    receiver_address: Seq<u16>,
    receiver_port: u16,
    sender_services: u64,
    sender_address: Seq<u16>,
    sender_port: u16,
    nonce: u64,
    user_agent: Seq<char>,
    start_height: i32,
) -> Seq<u8>;

/// Builds a version message with
/// `bitcoin::p2p::message_network::VersionMessage::new`, which asks for no
/// relayed transactions, and writes it with `bitcoin::consensus::serialize`.
#[verifier::external_body]
pub(crate) fn version_payload(
    version: u32,
    services: u64,
    timestamp: i64,
    receiver_services: u64,
    receiver_address: &[u16; 8],
    receiver_port: u16,
    sender_services: u64,
    sender_address: &[u16; 8],
    sender_port: u16,
    nonce: u64,
    user_agent: &str,
    start_height: i32,
) -> (r: Vec<u8>)
    ensures
        r@ == spec_version_payload(
            version,
            services,
            timestamp,
            receiver_services,
            receiver_address@,
            receiver_port,
            sender_services,
            sender_address@,
            sender_port,
            nonce,
            user_agent@,
            start_height,
        ),
{
    let to = bitcoin::p2p::Address { services: receiver_services.into(), address: *receiver_address, port: receiver_port };
    let from = bitcoin::p2p::Address { services: sender_services.into(), address: *sender_address, port: sender_port };
    let mut message = bitcoin::p2p::message_network::VersionMessage::new(
        services.into(), timestamp, to, from, nonce, user_agent.to_string(), start_height,
    );
    message.version = version;
    bitcoin::consensus::serialize(&message)
}

/// What `bitcoin::consensus::deserialize` reads of a version message: the
/// protocol version, the services, the time and the height the peer tells
/// of, or nothing where the payload is no version message.
pub uninterp spec fn spec_decode_version(payload: Seq<u8>) -> Option<RemoteVersion>;

/// Reads a version message with `bitcoin::consensus::deserialize`.
#[verifier::external_body]
pub(crate) fn decode_version(payload: &[u8]) -> (r: Option<RemoteVersion>)
    ensures
        r == spec_decode_version(payload@),
{
    let m: bitcoin::p2p::message_network::VersionMessage = bitcoin::consensus::deserialize(payload).ok()?;
    Some(RemoteVersion {
        version: m.version,
        service_flags: m.services.to_u64(),
        timestamp: m.timestamp,
        height: m.start_height,
    })
}

/// The addresses `bitcoin::consensus::deserialize` reads of an address
/// message, each with its sixteen bytes, its port and its services.
pub uninterp spec fn spec_decode_addr(payload: Seq<u8>) -> Option<Seq<RawAddress>>;

/// Reads an address message with `bitcoin::consensus::deserialize`.
#[verifier::external_body]
pub(crate) fn decode_addr(payload: &[u8]) -> (r: Option<Vec<RawAddress>>)
    ensures
        r is Some <==> spec_decode_addr(payload@) is Some,
        r matches Some(list) ==> spec_decode_addr(payload@) == Some(list@),
{
    let list: Vec<(u32, bitcoin::p2p::Address)> = bitcoin::consensus::deserialize(payload).ok()?;
    Some(list.iter().map(|(_, a)| RawAddress {
        address: a.address.map(|s| s.to_be_bytes()).concat().try_into().unwrap_or([0u8; 16]),
        port: a.port,
        services: a.services.to_u64(),
    }).collect())
}

/// The transactions `bitcoin::consensus::deserialize` reads of a block, each
/// with the id `bitcoin::Transaction::compute_txid` gives it, the outputs it
/// spends and the scripts of the outputs it makes.
pub uninterp spec fn spec_block_transactions(payload: Seq<u8>) -> Option<Seq<TransactionView>>;

/// Reads a block with `bitcoin::consensus::deserialize` and hands out its
/// transactions.
#[verifier::external_body]
pub(crate) fn block_transactions(payload: &[u8]) -> (r: Option<Vec<Transaction>>)
    ensures
        r is Some <==> spec_block_transactions(payload@) is Some,
        r matches Some(txs) ==> spec_block_transactions(payload@) == Some(txs_view(txs@)),
{
    let block: bitcoin::Block = bitcoin::consensus::deserialize(payload).ok()?;
    Some(block.txdata.iter().map(|tx| Transaction {
        txid: bitcoin::hashes::Hash::to_byte_array(tx.compute_txid()),
        inputs: tx.input.iter().map(|i| OutPoint {
            txid: bitcoin::hashes::Hash::to_byte_array(i.previous_output.txid),
            vout: i.previous_output.vout,
        }).collect(),
        outputs: tx.output.iter().map(|o| o.script_pubkey.to_bytes()).collect(),
    }).collect())
}

/// The addresses `bitcoin::consensus::deserialize` reads of an address
/// message of the second form: an address of version 4 or 6 with its port
/// and its services, nothing for an address of another kind.
pub uninterp spec fn spec_decode_addrv2(payload: Seq<u8>) -> Option<Seq<Option<RawAddress>>>;

/// Reads an address message of the second form with
/// `bitcoin::consensus::deserialize`.
#[verifier::external_body]
pub(crate) fn decode_addrv2(payload: &[u8]) -> (r: Option<Vec<Option<RawAddress>>>)
    ensures
        r is Some <==> spec_decode_addrv2(payload@) is Some,
        r matches Some(list) ==> spec_decode_addrv2(payload@) == Some(list@),
{
    let list: Vec<bitcoin::p2p::address::AddrV2Message> = bitcoin::consensus::deserialize(payload).ok()?;
    Some(list.iter().map(|m| match m.addr {
        bitcoin::p2p::address::AddrV2::Ipv4(ip) => Some(ip.to_ipv6_mapped().octets()),
        bitcoin::p2p::address::AddrV2::Ipv6(ip) => Some(ip.octets()),
        _ => None,
    }.map(|address| RawAddress { address, port: m.port, services: m.services.to_u64() })).collect())
}

} // verus!
