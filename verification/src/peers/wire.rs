//! The payloads of the messages this node reads and writes, as bytes.

use vstd::bytes::{
    spec_u16_from_le_bytes, spec_u16_to_le_bytes, spec_u32_from_le_bytes, spec_u32_to_le_bytes,
    spec_u64_from_le_bytes, spec_u64_to_le_bytes, u16_from_le_bytes, u16_to_le_bytes,
    u32_from_le_bytes, u32_to_le_bytes, u64_from_le_bytes, u64_to_le_bytes,
};
use vstd::prelude::*;
use vstd::slice::slice_subrange;

use crate::chain::chain::{txs_view, Block, CFHeaders, CFilter, Transaction};
use crate::chain::header::{Hash256, Header};
use crate::network::Network;
use crate::node::channel_messages::{Departure, PeerMessage};
use crate::peers::address::{spec_unmap, unmap, PeerAddress, RawAddress};
use crate::peers::framing::{
    encode_frame, next_frame, push_all, spec_frame, spec_next_frame, Command, FrameError,
    FrameStep, FrameView, command_name, MAX_MESSAGE_SIZE,
};
use crate::peers::peer::OutboundMessage;
use crate::primitives::{
    block_transactions, decode_addr, decode_addrv2, decode_version, spec_block_transactions,
    spec_decode_addr, spec_decode_addrv2, spec_decode_version, spec_version_payload,
    version_payload,
};

verus! {

/// The number of bytes of a header on the wire.
pub const HEADER_BYTES: usize = 80;

/// A number in the compact form that opens every list on the wire: one byte
/// below 253, else a marker byte and two, four or eight bytes, lowest first,
/// in the shortest form that holds the number.
pub open spec fn spec_compact_size(n: u64) -> Seq<u8> {
    if n < 0xFD {
        seq![n as u8]
    } else if n <= 0xFFFF {
        seq![0xFDu8] + spec_u16_to_le_bytes(n as u16)
    } else if n <= 0xFFFF_FFFF {
        seq![0xFEu8] + spec_u32_to_le_bytes(n as u32)
    } else {
        seq![0xFFu8] + spec_u64_to_le_bytes(n)
    }
}

/// The compact number that stands at position `at`, with the position after
/// it. A number that is not in its shortest form is none.
pub open spec fn spec_read_compact_size(bytes: Seq<u8>, at: int) -> Option<(u64, int)> {
    if at < 0 || at >= bytes.len() {
        None
    } else if bytes[at] < 0xFD {
        Some((bytes[at] as u64, at + 1))
    } else if bytes[at] == 0xFD {
        if at + 3 > bytes.len() || spec_u16_from_le_bytes(bytes.subrange(at + 1, at + 3)) < 0xFD {
            None
        } else {
            Some((spec_u16_from_le_bytes(bytes.subrange(at + 1, at + 3)) as u64, at + 3))
        }
    } else if bytes[at] == 0xFE {
        if at + 5 > bytes.len() || spec_u32_from_le_bytes(bytes.subrange(at + 1, at + 5))
            <= 0xFFFF {
            None
        } else {
            Some((spec_u32_from_le_bytes(bytes.subrange(at + 1, at + 5)) as u64, at + 5))
        }
    } else {
        if at + 9 > bytes.len() || spec_u64_from_le_bytes(bytes.subrange(at + 1, at + 9))
            <= 0xFFFF_FFFF {
            None
        } else {
            Some((spec_u64_from_le_bytes(bytes.subrange(at + 1, at + 9)), at + 9))
        }
    }
}

/// The compact number that stands at position `at`, where there is one.
pub open spec fn count_at(bytes: Seq<u8>, at: int) -> int {
    match spec_read_compact_size(bytes, at) {
        Some((n, _)) => n as int,
        None => 0,
    }
}

/// The position after the compact number at position `at`, where there is
/// one.
pub open spec fn after_count(bytes: Seq<u8>, at: int) -> int {
    match spec_read_compact_size(bytes, at) {
        Some((_, k)) => k,
        None => at,
    }
}

/// Writes a number in compact form.
pub fn encode_compact_size(n: u64) -> (r: Vec<u8>)
    ensures
        r@ == spec_compact_size(n),
        1 <= r@.len() <= 9,
{
    let mut out: Vec<u8> = Vec::new();
    if n < 0xFD {
        out.push(n as u8);
    } else if n <= 0xFFFF {
        out.push(0xFD);
        let tail: Vec<u8> = u16_to_le_bytes(n as u16);
        push_all(&mut out, tail.as_slice());
    } else if n <= 0xFFFF_FFFF {
        out.push(0xFE);
        let tail: Vec<u8> = u32_to_le_bytes(n as u32);
        push_all(&mut out, tail.as_slice());
    } else {
        out.push(0xFF);
        let tail: Vec<u8> = u64_to_le_bytes(n);
        push_all(&mut out, tail.as_slice());
    }
    assert(out@ =~= spec_compact_size(n));
    out
}

/// Reads the compact number at position `at`.
pub fn read_compact_size(bytes: &[u8], at: usize) -> (r: Option<(u64, usize)>)
    ensures
        r is Some <==> spec_read_compact_size(bytes@, at as int) is Some,
        r matches Some((n, next)) ==> spec_read_compact_size(bytes@, at as int) == Some(
            (n, next as int),
        ) && at < next <= bytes@.len() && next <= at + 9,
{
    if at >= bytes.len() {
        return None;
    }
    let first: u8 = bytes[at];
    if first < 0xFD {
        Some((first as u64, at + 1))
    } else if first == 0xFD {
        if bytes.len() - at < 3 {
            return None;
        }
        let v: u16 = u16_from_le_bytes(slice_subrange(bytes, at + 1, at + 3));
        if v < 0xFD {
            None
        } else {
            Some((v as u64, at + 3))
        }
    } else if first == 0xFE {
        if bytes.len() - at < 5 {
            return None;
        }
        let v: u32 = u32_from_le_bytes(slice_subrange(bytes, at + 1, at + 5));
        if v <= 0xFFFF {
            None
        } else {
            Some((v as u64, at + 5))
        }
    } else {
        if bytes.len() - at < 9 {
            return None;
        }
        let v: u64 = u64_from_le_bytes(slice_subrange(bytes, at + 1, at + 9));
        if v <= 0xFFFF_FFFF {
            None
        } else {
            Some((v, at + 9))
        }
    }
}

/// A number written in compact form is read back as the same number,
/// whatever follows it.
pub proof fn lemma_compact_size_round_trip(n: u64, rest: Seq<u8>)
    ensures
        spec_read_compact_size(spec_compact_size(n) + rest, 0) == Some(
            (n, spec_compact_size(n).len() as int),
        ),
{
    vstd::bytes::lemma_auto_spec_u16_to_from_le_bytes();
    vstd::bytes::lemma_auto_spec_u32_to_from_le_bytes();
    vstd::bytes::lemma_auto_spec_u64_to_from_le_bytes();
    let all = spec_compact_size(n) + rest;
    if n < 0xFD {
    } else if n <= 0xFFFF {
        assert(all.subrange(1, 3) =~= spec_u16_to_le_bytes(n as u16));
    } else if n <= 0xFFFF_FFFF {
        assert(all.subrange(1, 5) =~= spec_u32_to_le_bytes(n as u32));
    } else {
        assert(all.subrange(1, 9) =~= spec_u64_to_le_bytes(n));
    }
}

/// A signed 32-bit number as the unsigned number with the same bits.
pub open spec fn i32_bits(v: i32) -> u32 {
    if v >= 0 {
        v as u32
    } else {
        (v + 0x1_0000_0000) as u32
    }
}

/// An unsigned 32-bit number as the signed number with the same bits.
pub open spec fn bits_i32(u: u32) -> i32 {
    if u < 0x8000_0000 {
        u as i32
    } else {
        (u - 0x1_0000_0000) as i32
    }
}

/// A signed 32-bit number as the unsigned number with the same bits.
pub fn to_bits(v: i32) -> (r: u32)
    ensures
        r == i32_bits(v),
        bits_i32(r) == v,
{
    if v >= 0 {
        v as u32
    } else {
        (v as i64 + 0x1_0000_0000) as u32
    }
}

/// An unsigned 32-bit number as the signed number with the same bits.
pub fn from_bits(u: u32) -> (r: i32)
    ensures
        r == bits_i32(u),
        i32_bits(r) == u,
{
    if u < 0x8000_0000 {
        u as i32
    } else {
        (u as i64 - 0x1_0000_0000) as i32
    }
}

/// The eighty bytes of a header on the wire: version, hash of the block
/// before, Merkle root, time, target and nonce, numbers lowest byte first.
pub open spec fn spec_header_bytes(h: Header) -> Seq<u8> {
    spec_u32_to_le_bytes(i32_bits(h.version)) + h.prev_blockhash@ + h.merkle_root@
        + spec_u32_to_le_bytes(h.time) + spec_u32_to_le_bytes(h.bits) + spec_u32_to_le_bytes(
        h.nonce,
    )
}

/// Writes a header in its wire form.
pub fn encode_header(h: &Header) -> (r: Vec<u8>)
    ensures
        r@ == spec_header_bytes(*h),
        r@.len() == HEADER_BYTES,
{
    let mut out: Vec<u8> = Vec::new();
    let version: Vec<u8> = u32_to_le_bytes(to_bits(h.version));
    push_all(&mut out, version.as_slice());
    push_all(&mut out, h.prev_blockhash.as_slice());
    push_all(&mut out, h.merkle_root.as_slice());
    let time: Vec<u8> = u32_to_le_bytes(h.time);
    push_all(&mut out, time.as_slice());
    let bits: Vec<u8> = u32_to_le_bytes(h.bits);
    push_all(&mut out, bits.as_slice());
    let nonce: Vec<u8> = u32_to_le_bytes(h.nonce);
    push_all(&mut out, nonce.as_slice());
    assert(out@ =~= spec_header_bytes(*h));
    out
}

/// The thirty-two bytes from position `at` on.
pub fn read_hash(bytes: &[u8], at: usize) -> (r: Hash256)
    requires
        at + 32 <= bytes@.len(),
    ensures
        r@ == bytes@.subrange(at as int, at + 32),
{
    let total: usize = bytes.len();
    let mut out: Hash256 = [0u8; 32];
    let mut i: usize = 0;
    while i < 32
        invariant
            i <= 32,
            at + 32 <= bytes@.len(),
            total == bytes@.len(),
            forall|j: int| 0 <= j < i ==> out@[j] == bytes@[at + j],
        decreases 32 - i,
    {
        out[i] = bytes[at + i];
        i += 1;
    }
    assert(out@ =~= bytes@.subrange(at as int, at + 32));
    out
}

/// Reads the header that stands at position `at`.
pub fn read_header(bytes: &[u8], at: usize) -> (r: Header)
    requires
        at + HEADER_BYTES <= bytes@.len(),
    ensures
        spec_header_bytes(r) == bytes@.subrange(at as int, at + HEADER_BYTES),
{
    let total: usize = bytes.len();
    let version: u32 = u32_from_le_bytes(slice_subrange(bytes, at, at + 4));
    let prev_blockhash: Hash256 = read_hash(bytes, at + 4);
    let merkle_root: Hash256 = read_hash(bytes, at + 36);
    let time: u32 = u32_from_le_bytes(slice_subrange(bytes, at + 68, at + 72));
    let bits: u32 = u32_from_le_bytes(slice_subrange(bytes, at + 72, at + 76));
    let nonce: u32 = u32_from_le_bytes(slice_subrange(bytes, at + 76, at + 80));
    let h = Header { version: from_bits(version), prev_blockhash, merkle_root, time, bits, nonce };
    proof {
        vstd::bytes::lemma_auto_spec_u32_to_from_le_bytes();
        let part = bytes@.subrange(at as int, at + HEADER_BYTES);
        assert(spec_u32_to_le_bytes(version) == bytes@.subrange(at as int, at + 4));
        assert(spec_u32_to_le_bytes(time) == bytes@.subrange(at + 68, at + 72));
        assert(spec_u32_to_le_bytes(bits) == bytes@.subrange(at + 72, at + 76));
        assert(spec_u32_to_le_bytes(nonce) == bytes@.subrange(at + 76, at + 80));
        assert(spec_header_bytes(h) =~= part);
    }
    h
}

/// A header that was written is read back as the same header: the same
/// version, hashes, time, target and nonce.
pub proof fn lemma_header_round_trip(h: Header, other: Header)
    requires
        spec_header_bytes(h) == spec_header_bytes(other),
    ensures
        h.version == other.version,
        h.prev_blockhash@ == other.prev_blockhash@,
        h.merkle_root@ == other.merkle_root@,
        h.time == other.time,
        h.bits == other.bits,
        h.nonce == other.nonce,
{
    vstd::bytes::lemma_auto_spec_u32_to_from_le_bytes();
    let a = spec_header_bytes(h);
    let b = spec_header_bytes(other);
    assert(a.subrange(0, 4) =~= spec_u32_to_le_bytes(i32_bits(h.version)));
    assert(b.subrange(0, 4) =~= spec_u32_to_le_bytes(i32_bits(other.version)));
    assert(spec_u32_from_le_bytes(spec_u32_to_le_bytes(i32_bits(h.version))) == i32_bits(
        h.version,
    ));
    assert(spec_u32_from_le_bytes(spec_u32_to_le_bytes(i32_bits(other.version))) == i32_bits(
        other.version,
    ));
    assert(i32_bits(h.version) == i32_bits(other.version));
    assert(a.subrange(4, 36) =~= h.prev_blockhash@);
    assert(b.subrange(4, 36) =~= other.prev_blockhash@);
    assert(a.subrange(36, 68) =~= h.merkle_root@);
    assert(b.subrange(36, 68) =~= other.merkle_root@);
    assert(a.subrange(68, 72) =~= spec_u32_to_le_bytes(h.time));
    assert(b.subrange(68, 72) =~= spec_u32_to_le_bytes(other.time));
    assert(spec_u32_from_le_bytes(spec_u32_to_le_bytes(h.time)) == h.time);
    assert(spec_u32_from_le_bytes(spec_u32_to_le_bytes(other.time)) == other.time);
    assert(a.subrange(72, 76) =~= spec_u32_to_le_bytes(h.bits));
    assert(b.subrange(72, 76) =~= spec_u32_to_le_bytes(other.bits));
    assert(spec_u32_from_le_bytes(spec_u32_to_le_bytes(h.bits)) == h.bits);
    assert(spec_u32_from_le_bytes(spec_u32_to_le_bytes(other.bits)) == other.bits);
    assert(a.subrange(76, 80) =~= spec_u32_to_le_bytes(h.nonce));
    assert(b.subrange(76, 80) =~= spec_u32_to_le_bytes(other.nonce));
    assert(spec_u32_from_le_bytes(spec_u32_to_le_bytes(h.nonce)) == h.nonce);
    assert(spec_u32_from_le_bytes(spec_u32_to_le_bytes(other.nonce)) == other.nonce);
}

/// The number of bytes a header takes in a list of headers: the header and
/// a count of transactions, which is zero.
pub const HEADER_RECORD: usize = 81;

/// The number of bytes of an entry of an inventory: its kind and a hash.
pub const INVENTORY_RECORD: usize = 36;

/// The kind of an inventory entry that names a block.
pub const INVENTORY_BLOCK: u32 = 2;

/// The kind of an inventory entry that names a block with witness data.
pub const INVENTORY_WITNESS_BLOCK: u32 = 0x4000_0002;

/// The byte at position `at + step * i + offset`.
pub open spec fn byte_of(payload: Seq<u8>, at: int, step: int, i: int, offset: int) -> u8 {
    payload[at + step * i + offset]
}

/// The `len` bytes of the record with number `i`, where records of `step`
/// bytes begin at position `at`.
pub open spec fn record(payload: Seq<u8>, at: int, step: int, i: int, len: int) -> Seq<u8> {
    payload.subrange(at + step * i, at + step * i + len)
}

/// Whether a payload has the form of a list of headers: a compact count,
/// then for each header its eighty bytes and a zero byte, and nothing more.
pub open spec fn headers_shape(payload: Seq<u8>) -> bool {
    spec_read_compact_size(payload, 0) matches Some((n, k)) && payload.len() == k + HEADER_RECORD
        * n && forall|i: int|
        0 <= i < n ==> #[trigger] byte_of(payload, k, HEADER_RECORD as int, i, 80) == 0
}

/// Whether `headers` are the headers a payload holds, in order.
pub open spec fn headers_match(payload: Seq<u8>, headers: Seq<Header>) -> bool {
    spec_read_compact_size(payload, 0) matches Some((n, k)) && n == headers.len() && forall|
        i: int,
    |
        0 <= i < headers.len() ==> spec_header_bytes(#[trigger] headers[i]) == record(
            payload,
            k,
            HEADER_RECORD as int,
            i,
            HEADER_BYTES as int,
        )
}

/// Reads a list of headers.
#[verifier::loop_isolation(false)]
pub fn decode_headers(payload: &[u8]) -> (r: Option<Vec<Header>>)
    ensures
        r is Some <==> headers_shape(payload@),
        r matches Some(headers) ==> headers_match(payload@, headers@),
{
    let total: usize = payload.len();
    let (count, start): (u64, usize) = match read_compact_size(payload, 0) {
        Some(p) => p,
        None => {
            return None;
        },
    };
    let room: usize = total - start;
    if room % HEADER_RECORD != 0 || (room / HEADER_RECORD) as u64 != count {
        return None;
    }
    let n: usize = room / HEADER_RECORD;
    let mut out: Vec<Header> = Vec::new();
    let mut i: usize = 0;
    while i < n
        invariant
            i <= n,
            total == payload@.len(),
            start + HEADER_RECORD * n == total,
            out@.len() == i,
            forall|j: int|
                0 <= j < i ==> #[trigger] byte_of(payload@, start as int, HEADER_RECORD as int, j, 80)
                    == 0,
            forall|j: int|
                0 <= j < i ==> spec_header_bytes(#[trigger] out@[j]) == record(
                    payload@,
                    start as int,
                    HEADER_RECORD as int,
                    j,
                    HEADER_BYTES as int,
                ),
        decreases n - i,
    {
        let at: usize = start + HEADER_RECORD * i;
        if payload[at + 80] != 0 {
            assert(byte_of(payload@, start as int, HEADER_RECORD as int, i as int, 80) != 0);
            return None;
        }
        out.push(read_header(payload, at));
        i += 1;
    }
    Some(out)
}

/// A peer's filter headers as a mathematical value.
pub struct CFHeadersView {
    pub stop_hash: Seq<u8>,
    pub previous_filter_header: Seq<u8>,
    pub filter_hashes: Seq<Seq<u8>>,
}

/// Whether a payload has the form of an answer with filter headers: the
/// filter type, which is zero, the hash of the last block, the filter header
/// before the first, a compact count and as many hashes, and nothing more.
pub open spec fn cf_headers_shape(payload: Seq<u8>) -> bool {
    payload.len() >= 65 && payload[0] == 0 && (spec_read_compact_size(payload, 65) matches Some(
        (n, k),
    ) && payload.len() == k + 32 * n)
}

/// The filter headers a payload of that form holds.
pub open spec fn spec_cf_headers(payload: Seq<u8>) -> CFHeadersView {
    let (n, k) = spec_read_compact_size(payload, 65)->0;
    CFHeadersView {
        stop_hash: payload.subrange(1, 33),
        previous_filter_header: payload.subrange(33, 65),
        filter_hashes: Seq::new(n as nat, |i: int| record(payload, k, 32, i, 32)),
    }
}

/// Reads an answer with filter headers.
pub fn decode_cf_headers(payload: &[u8]) -> (r: Option<crate::chain::chain::CFHeaders>)
    ensures
        r is Some <==> cf_headers_shape(payload@),
        r matches Some(m) ==> (CFHeadersView {
            stop_hash: m.stop_hash@,
            previous_filter_header: m.previous_filter_header@,
            filter_hashes: m.filter_hashes.deep_view(),
        }) == spec_cf_headers(payload@),
{
    let total: usize = payload.len();
    if total < 65 || payload[0] != 0 {
        return None;
    }
    let (count, start): (u64, usize) = match read_compact_size(payload, 65) {
        Some(p) => p,
        None => {
            return None;
        },
    };
    let room: usize = total - start;
    if room % 32 != 0 || (room / 32) as u64 != count {
        return None;
    }
    let n: usize = room / 32;
    let stop_hash: Hash256 = read_hash(payload, 1);
    let previous_filter_header: Hash256 = read_hash(payload, 33);
    let mut hashes: Vec<Hash256> = Vec::new();
    let mut i: usize = 0;
    while i < n
        invariant
            i <= n,
            total == payload@.len(),
            start + 32 * n == total,
            hashes@.len() == i,
            forall|j: int| 0 <= j < i ==> (#[trigger] hashes@[j])@ == record(payload@, start as int, 32, j, 32),
        decreases n - i,
    {
        hashes.push(read_hash(payload, start + 32 * i));
        i += 1;
    }
    proof {
        let want = spec_cf_headers(payload@).filter_hashes;
        assert(hashes.deep_view().len() == hashes@.len());
        assert forall|j: int| 0 <= j < n implies hashes.deep_view()[j] == want[j] by {
            assert(hashes.deep_view()[j] == hashes@[j]@);
        }
        assert(hashes.deep_view() =~= want);
    }
    Some(crate::chain::chain::CFHeaders { stop_hash, previous_filter_header, filter_hashes: hashes })
}

/// Whether a payload has the form of an answer with a filter: the filter
/// type, which is zero, the hash of the block, a compact length and as many
/// bytes, and nothing more.
pub open spec fn cfilter_shape(payload: Seq<u8>) -> bool {
    payload.len() >= 33 && payload[0] == 0 && (spec_read_compact_size(payload, 33) matches Some(
        (n, k),
    ) && payload.len() == k + n)
}

/// Reads an answer with a filter.
pub fn decode_cfilter(payload: &[u8]) -> (r: Option<crate::chain::chain::CFilter>)
    ensures
        r is Some <==> cfilter_shape(payload@),
        r matches Some(m) ==> m.block_hash@ == payload@.subrange(1, 33) && m.contents@
            == payload@.subrange(after_count(payload@, 33), payload@.len() as int),
{
    let total: usize = payload.len();
    if total < 33 || payload[0] != 0 {
        return None;
    }
    let (count, start): (u64, usize) = match read_compact_size(payload, 33) {
        Some(p) => p,
        None => {
            return None;
        },
    };
    if (total - start) as u64 != count {
        return None;
    }
    let block_hash: Hash256 = read_hash(payload, 1);
    let contents: Vec<u8> = crate::peers::framing::copy_range(payload, start, total);
    Some(crate::chain::chain::CFilter { block_hash, contents })
}

/// Whether the inventory entry with number `i` names a block.
pub open spec fn names_block(payload: Seq<u8>, k: int, i: int) -> bool {
    let kind = spec_u32_from_le_bytes(record(payload, k, INVENTORY_RECORD as int, i, 4));
    kind == INVENTORY_BLOCK || kind == INVENTORY_WITNESS_BLOCK
}

/// The hashes of the blocks the first `upto` entries of an inventory name,
/// in order.
pub open spec fn inventory_blocks(payload: Seq<u8>, k: int, upto: int) -> Seq<Seq<u8>>
    decreases upto,
{
    if upto <= 0 {
        Seq::empty()
    } else if names_block(payload, k, upto - 1) {
        inventory_blocks(payload, k, upto - 1).push(
            payload.subrange(
                k + INVENTORY_RECORD * (upto - 1) + 4,
                k + INVENTORY_RECORD * (upto - 1) + 36,
            ),
        )
    } else {
        inventory_blocks(payload, k, upto - 1)
    }
}

/// Whether a payload has the form of an inventory: a compact count and as
/// many entries of thirty-six bytes, and nothing more.
pub open spec fn inventory_shape(payload: Seq<u8>) -> bool {
    spec_read_compact_size(payload, 0) matches Some((n, k)) && payload.len() == k
        + INVENTORY_RECORD * n
}

/// Reads an inventory and gives the hashes of the blocks it names.
pub fn decode_inventory(payload: &[u8]) -> (r: Option<Vec<Hash256>>)
    ensures
        r is Some <==> inventory_shape(payload@),
        r matches Some(blocks) ==> blocks.deep_view() == inventory_blocks(
            payload@,
            after_count(payload@, 0),
            count_at(payload@, 0),
        ),
{
    let total: usize = payload.len();
    let (count, start): (u64, usize) = match read_compact_size(payload, 0) {
        Some(p) => p,
        None => {
            return None;
        },
    };
    let room: usize = total - start;
    if room % INVENTORY_RECORD != 0 || (room / INVENTORY_RECORD) as u64 != count {
        return None;
    }
    let n: usize = room / INVENTORY_RECORD;
    let mut out: Vec<Hash256> = Vec::new();
    let mut i: usize = 0;
    while i < n
        invariant
            i <= n,
            total == payload@.len(),
            start + INVENTORY_RECORD * n == total,
            out.deep_view() == inventory_blocks(payload@, start as int, i as int),
        decreases n - i,
    {
        let at: usize = start + INVENTORY_RECORD * i;
        let kind: u32 = u32_from_le_bytes(slice_subrange(payload, at, at + 4));
        let ghost before = out.deep_view();
        assert(before.len() == out@.len());
        if kind == INVENTORY_BLOCK || kind == INVENTORY_WITNESS_BLOCK {
            out.push(read_hash(payload, at + 4));
            proof {
                let hash = payload@.subrange(at + 4, at + 36);
                assert(out.deep_view().len() == out@.len());
                assert forall|j: int| 0 <= j < out@.len() implies out.deep_view()[j]
                    == before.push(hash)[j] by {
                    assert(out.deep_view()[j] == out@[j]@);
                    if j < before.len() {
                        assert(before[j] == out@[j]@);
                    }
                }
                assert(out.deep_view() =~= before.push(hash));
            }
        }
        i += 1;
    }
    Some(out)
}

/// Reads the nonce of a ping or a pong: eight bytes, lowest first.
pub fn decode_nonce(payload: &[u8]) -> (r: Option<u64>)
    ensures
        r is Some <==> payload@.len() == 8,
        r matches Some(n) ==> n == spec_u64_from_le_bytes(payload@) && spec_u64_to_le_bytes(n)
            == payload@,
{
    if payload.len() != 8 {
        return None;
    }
    proof {
        vstd::bytes::lemma_auto_spec_u64_to_from_le_bytes();
    }
    Some(u64_from_le_bytes(payload))
}

/// The bytes of a list of hashes, one after the other.
pub open spec fn concat_hashes(hashes: Seq<Seq<u8>>) -> Seq<u8>
    decreases hashes.len(),
{
    if hashes.len() == 0 {
        Seq::empty()
    } else {
        concat_hashes(hashes.drop_last()) + hashes.last()
    }
}

/// The payload of a request for headers: the protocol version, the compact
/// count of locators, the locators, and the hash to stop at or zeros.
pub open spec fn spec_get_headers(version: u32, locators: Seq<Seq<u8>>, stop_hash: Option<Seq<u8>>) -> Seq<
    u8,
> {
    spec_u32_to_le_bytes(version) + spec_compact_size(locators.len() as u64) + concat_hashes(
        locators,
    ) + (match stop_hash {
        Some(h) => h,
        None => Seq::new(32, |i: int| 0u8),
    })
}

/// Writes a request for headers.
pub fn encode_get_headers(version: u32, locators: &Vec<Hash256>, stop_hash: &Option<Hash256>) -> (r: Vec<
    u8,
>)
    ensures
        r@ == spec_get_headers(
            version,
            locators.deep_view(),
            match stop_hash {
                Some(h) => Some(h@),
                None => None,
            },
        ),
{
    let mut out: Vec<u8> = u32_to_le_bytes(version);
    let count: Vec<u8> = encode_compact_size(locators.len() as u64);
    push_all(&mut out, count.as_slice());
    let ghost head = out@;
    let ghost all = locators.deep_view();
    assert(all.len() == locators@.len());
    assert(all.take(0) =~= Seq::<Seq<u8>>::empty());
    let mut i: usize = 0;
    while i < locators.len()
        invariant
            i <= locators@.len(),
            all == locators.deep_view(),
            all.len() == locators@.len(),
            out@ == head + concat_hashes(all.take(i as int)),
        decreases locators@.len() - i,
    {
        assert(all.take(i + 1).drop_last() =~= all.take(i as int));
        assert(all.take(i + 1).last() == locators@[i as int]@);
        push_all(&mut out, locators[i].as_slice());
        i += 1;
    }
    assert(all.take(i as int) =~= all);
    match stop_hash {
        Some(h) => {
            push_all(&mut out, h.as_slice());
        },
        None => {
            let zeros: Hash256 = [0u8; 32];
            assert(zeros@ =~= Seq::new(32, |i: int| 0u8));
            push_all(&mut out, zeros.as_slice());
        },
    }
    out
}

/// The payload of a request for the filter headers or the filters of a run
/// of blocks: the filter type, which is zero, the height of the first block
/// and the hash of the last.
pub open spec fn spec_filter_request(start_height: u32, stop_hash: Seq<u8>) -> Seq<u8> {
    seq![0u8] + spec_u32_to_le_bytes(start_height) + stop_hash
}

/// Writes a request for filter headers or filters.
pub fn encode_filter_request(start_height: u32, stop_hash: &Hash256) -> (r: Vec<u8>)
    ensures
        r@ == spec_filter_request(start_height, stop_hash@),
        r@.len() == 37,
{
    let mut out: Vec<u8> = Vec::new();
    out.push(0);
    let height: Vec<u8> = u32_to_le_bytes(start_height);
    push_all(&mut out, height.as_slice());
    push_all(&mut out, stop_hash.as_slice());
    assert(out@ =~= spec_filter_request(start_height, stop_hash@));
    out
}

/// The payload of a request for one block with its witness data: a count of
/// one, the kind of the entry and the hash of the block.
pub open spec fn spec_get_block(hash: Seq<u8>) -> Seq<u8> {
    seq![1u8] + spec_u32_to_le_bytes(INVENTORY_WITNESS_BLOCK) + hash
}

/// Writes a request for one block.
pub fn encode_get_block(hash: &Hash256) -> (r: Vec<u8>)
    ensures
        r@ == spec_get_block(hash@),
        r@.len() == 37,
{
    let mut out: Vec<u8> = Vec::new();
    out.push(1);
    let kind: Vec<u8> = u32_to_le_bytes(INVENTORY_WITNESS_BLOCK);
    push_all(&mut out, kind.as_slice());
    push_all(&mut out, hash.as_slice());
    assert(out@ =~= spec_get_block(hash@));
    out
}

/// A request for one block is an inventory that names that block.
pub proof fn lemma_get_block_names_it(hash: Seq<u8>)
    requires
        hash.len() == 32,
    ensures
        inventory_shape(spec_get_block(hash)),
        inventory_blocks(spec_get_block(hash), 1, 1) == seq![hash],
{
    vstd::bytes::lemma_auto_spec_u32_to_from_le_bytes();
    let p = spec_get_block(hash);
    assert(p.subrange(1, 5) =~= spec_u32_to_le_bytes(INVENTORY_WITNESS_BLOCK));
    assert(record(p, 1, INVENTORY_RECORD as int, 0, 4) =~= p.subrange(1, 5));
    assert(p.subrange(5, 37) =~= hash);
    assert(names_block(p, 1, 0));
    assert(inventory_blocks(p, 1, 0) =~= Seq::<Seq<u8>>::empty());
    assert(inventory_blocks(p, 1, 1) =~= seq![hash]);
}

/// What this node calls itself in its version message.
pub const USER_AGENT: &'static str = "/kyoto:0.1.0/";

/// What a payload holds for the session.
#[derive(Debug)]
pub enum Decoded {
    /// A message for the session.
    Message(PeerMessage),
    /// A message in good order that means nothing to the session.
    Nothing,
    /// Bytes that are not the message the envelope names.
    Malformed,
}

/// Whether `peers` are the peers `list` stands for, in order.
pub open spec fn addresses_match(list: Seq<RawAddress>, peers: Seq<PeerAddress>) -> bool {
    peers.len() == list.len() && forall|i: int|
        0 <= i < list.len() ==> (#[trigger] peers[i]).addr@ == spec_unmap(list[i].address@)
            && peers[i].port == list[i].port && peers[i].services == list[i].services
}

/// The addresses of `list` that are of version 4 or 6, in order.
pub open spec fn known_addresses(list: Seq<Option<RawAddress>>) -> Seq<RawAddress>
    decreases list.len(),
{
    if list.len() == 0 {
        Seq::empty()
    } else if list.last() is Some {
        known_addresses(list.drop_last()).push(list.last()->0)
    } else {
        known_addresses(list.drop_last())
    }
}

/// Whether `d` is what the payload of the message `command` holds for the
/// session. The node's own kinds of request mean nothing to it, nor do a
/// transaction and an inventory that names no block.
pub open spec fn decoded_ok(command: Command, payload: Seq<u8>, d: Decoded) -> bool {
    match command {
        Command::Version => match spec_decode_version(payload) {
            Some(v) => d matches Decoded::Message(PeerMessage::Version(w)) && w == v,
            None => d is Malformed,
        },
        Command::Verack => if payload.len() == 0 {
            d matches Decoded::Message(PeerMessage::Verack)
        } else {
            d is Malformed
        },
        Command::Addr => match spec_decode_addr(payload) {
            Some(list) => d matches Decoded::Message(PeerMessage::Addr(peers)) && addresses_match(
                list,
                peers@,
            ),
            None => d is Malformed,
        },
        Command::AddrV2 => match spec_decode_addrv2(payload) {
            Some(list) => d matches Decoded::Message(PeerMessage::Addr(peers)) && addresses_match(
                known_addresses(list),
                peers@,
            ),
            None => d is Malformed,
        },
        Command::Headers => if headers_shape(payload) {
            d matches Decoded::Message(PeerMessage::Headers(headers)) && headers_match(
                payload,
                headers@,
            )
        } else {
            d is Malformed
        },
        Command::CFHeaders => if cf_headers_shape(payload) {
            d matches Decoded::Message(PeerMessage::FilterHeaders(m)) && (CFHeadersView {
                stop_hash: m.stop_hash@,
                previous_filter_header: m.previous_filter_header@,
                filter_hashes: m.filter_hashes.deep_view(),
            }) == spec_cf_headers(payload)
        } else {
            d is Malformed
        },
        Command::CFilter => if cfilter_shape(payload) {
            d matches Decoded::Message(PeerMessage::Filter(m)) && m.block_hash@
                == payload.subrange(1, 33) && m.contents@ == payload.subrange(
                after_count(payload, 33),
                payload.len() as int,
            )
        } else {
            d is Malformed
        },
        Command::Block => if payload.len() >= HEADER_BYTES && spec_block_transactions(payload)
            is Some {
            d matches Decoded::Message(PeerMessage::Block(b)) && spec_header_bytes(b.header)
                == payload.subrange(0, HEADER_BYTES as int) && Some(txs_view(b.txdata@))
                == spec_block_transactions(payload)
        } else {
            d is Malformed
        },
        Command::Inv => if inventory_shape(payload) {
            let blocks = inventory_blocks(payload, after_count(payload, 0), count_at(payload, 0));
            if blocks.len() == 0 {
                d is Nothing
            } else {
                d matches Decoded::Message(PeerMessage::NewBlocks(hashes)) && hashes.deep_view()
                    == blocks
            }
        } else {
            d is Malformed
        },
        Command::Ping => if payload.len() == 8 {
            d matches Decoded::Message(PeerMessage::Ping(n)) && n == spec_u64_from_le_bytes(
                payload,
            )
        } else {
            d is Malformed
        },
        Command::Pong => if payload.len() == 8 {
            d matches Decoded::Message(PeerMessage::Pong(n)) && n == spec_u64_from_le_bytes(
                payload,
            )
        } else {
            d is Malformed
        },
        _ => d is Nothing,
    }
}

/// The peers a list of addresses stands for.
fn unmap_all(list: &Vec<RawAddress>) -> (r: Vec<PeerAddress>)
    ensures
        addresses_match(list@, r@),
{
    let mut out: Vec<PeerAddress> = Vec::new();
    let mut i: usize = 0;
    while i < list.len()
        invariant
            i <= list@.len(),
            addresses_match(list@.take(i as int), out@),
        decreases list@.len() - i,
    {
        out.push(unmap(&list[i]));
        proof {
            let done = list@.take(i + 1);
            assert forall|j: int| 0 <= j < done.len() implies (#[trigger] out@[j]).addr@
                == spec_unmap(done[j].address@) && out@[j].port == done[j].port
                && out@[j].services == done[j].services by {
                if j < i {
                    assert(list@.take(i as int)[j] == done[j]);
                }
            }
        }
        i += 1;
    }
    assert(list@.take(i as int) =~= list@);
    out
}

/// The addresses of version 4 or 6 among `list`, in order.
fn known_of(list: &Vec<Option<RawAddress>>) -> (r: Vec<RawAddress>)
    ensures
        r@ == known_addresses(list@),
{
    let mut out: Vec<RawAddress> = Vec::new();
    let mut i: usize = 0;
    assert(list@.take(0) =~= Seq::<Option<RawAddress>>::empty());
    while i < list.len()
        invariant
            i <= list@.len(),
            out@ == known_addresses(list@.take(i as int)),
        decreases list@.len() - i,
    {
        assert(list@.take(i + 1).drop_last() =~= list@.take(i as int));
        match list[i] {
            Some(a) => {
                out.push(a);
            },
            None => {},
        }
        i += 1;
    }
    assert(list@.take(i as int) =~= list@);
    out
}

/// Reads the payload of a message by the name in its envelope.
pub fn decode_message(command: Command, payload: &[u8]) -> (r: Decoded)
    ensures
        decoded_ok(command, payload@, r),
{
    match command {
        Command::Version => match decode_version(payload) {
            Some(v) => Decoded::Message(PeerMessage::Version(v)),
            None => Decoded::Malformed,
        },
        Command::Verack => if payload.len() == 0 {
            Decoded::Message(PeerMessage::Verack)
        } else {
            Decoded::Malformed
        },
        Command::Addr => match decode_addr(payload) {
            Some(list) => Decoded::Message(PeerMessage::Addr(unmap_all(&list))),
            None => Decoded::Malformed,
        },
        Command::AddrV2 => match decode_addrv2(payload) {
            Some(list) => {
                let known: Vec<RawAddress> = known_of(&list);
                Decoded::Message(PeerMessage::Addr(unmap_all(&known)))
            },
            None => Decoded::Malformed,
        },
        Command::Headers => match decode_headers(payload) {
            Some(headers) => Decoded::Message(PeerMessage::Headers(headers)),
            None => Decoded::Malformed,
        },
        Command::CFHeaders => match decode_cf_headers(payload) {
            Some(m) => Decoded::Message(PeerMessage::FilterHeaders(m)),
            None => Decoded::Malformed,
        },
        Command::CFilter => match decode_cfilter(payload) {
            Some(m) => Decoded::Message(PeerMessage::Filter(m)),
            None => Decoded::Malformed,
        },
        Command::Block => {
            if payload.len() < HEADER_BYTES {
                return Decoded::Malformed;
            }
            match block_transactions(payload) {
                Some(txdata) => {
                    let header: Header = read_header(payload, 0);
                    Decoded::Message(PeerMessage::Block(Block { header, txdata }))
                },
                None => Decoded::Malformed,
            }
        },
        Command::Inv => match decode_inventory(payload) {
            Some(blocks) => {
                assert(blocks.deep_view().len() == blocks@.len());
                if blocks.len() == 0 {
                    Decoded::Nothing
                } else {
                    Decoded::Message(PeerMessage::NewBlocks(blocks))
                }
            },
            None => Decoded::Malformed,
        },
        Command::Ping => match decode_nonce(payload) {
            Some(n) => Decoded::Message(PeerMessage::Ping(n)),
            None => Decoded::Malformed,
        },
        Command::Pong => match decode_nonce(payload) {
            Some(n) => Decoded::Message(PeerMessage::Pong(n)),
            None => Decoded::Malformed,
        },
        _ => Decoded::Nothing,
    }
}

/// The address that names no host: eight groups of zero.
pub open spec fn unspecified_address() -> Seq<u16> {
    seq![0u16, 0u16, 0u16, 0u16, 0u16, 0u16, 0u16, 0u16]
}

/// The name and the payload of a message to a peer. A version message names
/// no host and no port for either side, no services for the receiver, and
/// the services of this node for the sender.
pub open spec fn spec_encode_message(message: OutboundMessage) -> (Command, Seq<u8>) {
    match message {
        OutboundMessage::Version { services, timestamp, nonce, start_height } => (
            Command::Version,
            spec_version_payload(
                crate::peers::peer::PROTOCOL_VERSION,
                services,
                timestamp,
                0,
                unspecified_address(),
                0,
                services,
                unspecified_address(),
                0,
                nonce,
                USER_AGENT@,
                start_height,
            ),
        ),
        OutboundMessage::Verack => (Command::Verack, Seq::empty()),
        OutboundMessage::Pong(nonce) => (Command::Pong, spec_u64_to_le_bytes(nonce)),
        OutboundMessage::GetAddr => (Command::GetAddr, Seq::empty()),
        OutboundMessage::GetHeaders { locators, stop_hash } => (
            Command::GetHeaders,
            spec_get_headers(
                crate::peers::peer::PROTOCOL_VERSION,
                locators.deep_view(),
                match stop_hash {
                    Some(h) => Some(h@),
                    None => None,
                },
            ),
        ),
        OutboundMessage::GetFilterHeaders(range) => (
            Command::GetCFHeaders,
            spec_filter_request(range.start_height, range.stop_hash@),
        ),
        OutboundMessage::GetFilters(range) => (
            Command::GetCFilters,
            spec_filter_request(range.start_height, range.stop_hash@),
        ),
        OutboundMessage::GetBlock(hash) => (Command::GetData, spec_get_block(hash@)),
        OutboundMessage::Transaction(bytes) => (Command::Tx, bytes@),
    }
}

/// Writes the payload of a message to a peer and names the message.
pub fn encode_message(message: &OutboundMessage) -> (r: (Command, Vec<u8>))
    ensures
        (r.0, r.1@) == spec_encode_message(*message),
{
    match message {
        OutboundMessage::Version { services, timestamp, nonce, start_height } => {
            let nowhere: [u16; 8] = [0, 0, 0, 0, 0, 0, 0, 0];
            assert(nowhere@ =~= unspecified_address());
            (
                Command::Version,
                version_payload(
                    crate::peers::peer::PROTOCOL_VERSION,
                    *services,
                    *timestamp,
                    0,
                    &nowhere,
                    0,
                    *services,
                    &nowhere,
                    0,
                    *nonce,
                    USER_AGENT,
                    *start_height,
                ),
            )
        },
        OutboundMessage::Verack => (Command::Verack, Vec::new()),
        OutboundMessage::Pong(nonce) => (Command::Pong, u64_to_le_bytes(*nonce)),
        OutboundMessage::GetAddr => (Command::GetAddr, Vec::new()),
        OutboundMessage::GetHeaders { locators, stop_hash } => (
            Command::GetHeaders,
            encode_get_headers(crate::peers::peer::PROTOCOL_VERSION, locators, stop_hash),
        ),
        OutboundMessage::GetFilterHeaders(range) => (
            Command::GetCFHeaders,
            encode_filter_request(range.start_height, &range.stop_hash),
        ),
        OutboundMessage::GetFilters(range) => (
            Command::GetCFilters,
            encode_filter_request(range.start_height, &range.stop_hash),
        ),
        OutboundMessage::GetBlock(hash) => (Command::GetData, encode_get_block(hash)),
        OutboundMessage::Transaction(bytes) => (
            Command::Tx,
            crate::peers::framing::copy_range(bytes.as_slice(), 0, bytes.len()),
        ),
    }
}

/// Writes a message to a peer as a frame, unless its payload is larger than
/// a frame may hold.
pub fn frame_message(network: Network, message: &OutboundMessage) -> (r: Option<Vec<u8>>)
    ensures
        r is Some <==> spec_encode_message(*message).1.len() <= MAX_MESSAGE_SIZE,
        r matches Some(frame) ==> frame@ == spec_frame(
            network,
            command_name(spec_encode_message(*message).0),
            spec_encode_message(*message).1,
        ),
{
    let (command, payload): (Command, Vec<u8>) = encode_message(message);
    if payload.len() > MAX_MESSAGE_SIZE as usize {
        None
    } else {
        Some(encode_frame(network, command, &payload))
    }
}

/// Why the bytes a peer sent end the session.
#[derive(Debug, Clone, Copy, PartialEq, Eq, Structural)]
pub enum ReadError {
    /// The envelope is not in order.
    Frame(FrameError),
    /// The payload is not the message the envelope names.
    Malformed,
}

/// What the bytes received so far hold for the session.
#[derive(Debug)]
pub enum ReadStep {
    /// Not yet a whole frame.
    Incomplete,
    /// A message for the session and the number of bytes it took.
    Message { message: PeerMessage, consumed: usize },
    /// A frame to pass over and the number of bytes it took.
    Skipped { consumed: usize },
    /// Bytes that end the session.
    Rejected(ReadError),
}

impl ReadStep {
    /// The number of bytes the step has dealt with.
    pub open spec fn spec_consumed(self) -> usize {
        match self {
            ReadStep::Message { message, consumed } => consumed,
            ReadStep::Skipped { consumed } => consumed,
            _ => 0,
        }
    }

    /// What the session hears of the step: the message that was read; word
    /// that the peer is gone, with the reason, where its bytes are turned
    /// down; nothing otherwise.
    pub open spec fn spec_report(self) -> Option<PeerMessage> {
        match self {
            ReadStep::Message { message, consumed } => Some(message),
            ReadStep::Rejected(e) => Some(PeerMessage::Disconnect(Departure::Rejected(e))),
            _ => None,
        }
    }

    /// The number of bytes the step has dealt with.
    pub fn consumed(&self) -> (r: usize)
        ensures
            r == self.spec_consumed(),
    {
        match self {
            ReadStep::Message { message: _, consumed } => *consumed,
            ReadStep::Skipped { consumed } => *consumed,
            _ => 0,
        }
    }

    /// Whether the reading waits for more bytes.
    pub fn waits(&self) -> (r: bool)
        ensures
            r == (self is Incomplete),
    {
        match self {
            ReadStep::Incomplete => true,
            _ => false,
        }
    }

    /// Whether the reading ends here.
    pub fn ends(&self) -> (r: bool)
        ensures
            r == (self is Rejected),
    {
        match self {
            ReadStep::Rejected(_) => true,
            _ => false,
        }
    }

    /// What the session hears of the step.
    pub fn report(self) -> (r: Option<PeerMessage>)
        ensures
            r == self.spec_report(),
    {
        match self {
            ReadStep::Message { message, consumed: _ } => Some(message),
            ReadStep::Rejected(e) => Some(PeerMessage::Disconnect(Departure::Rejected(e))),
            _ => None,
        }
    }
}

/// Looks at the bytes received so far and reads the first message off them
/// if its frame is whole. A frame that is not in order and a payload that is
/// not the message its envelope names end the session. A message this node
/// does not know and one that means nothing to the session are passed over.
pub fn read_message(network: Network, buffer: &Vec<u8>) -> (r: ReadStep)
    ensures
        match spec_next_frame(network, buffer@) {
            FrameView::Incomplete => r is Incomplete,
            FrameView::Rejected(e) => r == ReadStep::Rejected(ReadError::Frame(e)),
            FrameView::Skipped { consumed } => r == (ReadStep::Skipped {
                consumed: consumed as usize,
            }),
            FrameView::Message { command, payload, consumed } => match r {
                ReadStep::Message { message, consumed: c } => c == consumed && decoded_ok(
                    command,
                    payload,
                    Decoded::Message(message),
                ),
                ReadStep::Skipped { consumed: c } => c == consumed && decoded_ok(
                    command,
                    payload,
                    Decoded::Nothing,
                ),
                ReadStep::Rejected(e) => e == ReadError::Malformed && decoded_ok(
                    command,
                    payload,
                    Decoded::Malformed,
                ),
                ReadStep::Incomplete => false,
            },
        },
{
    match next_frame(network, buffer) {
        FrameStep::Incomplete => ReadStep::Incomplete,
        FrameStep::Rejected(e) => ReadStep::Rejected(ReadError::Frame(e)),
        FrameStep::Skipped { consumed } => ReadStep::Skipped { consumed },
        FrameStep::Message { command, payload, consumed } => {
            match decode_message(command, payload.as_slice()) {
                Decoded::Message(message) => ReadStep::Message { message, consumed },
                Decoded::Nothing => ReadStep::Skipped { consumed },
                Decoded::Malformed => ReadStep::Rejected(ReadError::Malformed),
            }
        },
    }
}

} // verus!
