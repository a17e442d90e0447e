//! The envelope every message travels in: four bytes that name the network,
//! twelve that name the message, the length of the payload in four bytes, the
//! first four bytes of the payload's double SHA-256, and the payload.

use vstd::bytes::{spec_u32_from_le_bytes, spec_u32_to_le_bytes, u32_from_le_bytes, u32_to_le_bytes};
use vstd::prelude::*;
use vstd::slice::slice_subrange;

use crate::chain::header::Hash256;
use crate::network::Network;
use crate::primitives::{sha256d, spec_sha256d};

verus! {

/// The largest payload a peer may send, in bytes: 32 MiB.
pub const MAX_MESSAGE_SIZE: u32 = 0x0200_0000;

/// The length of the envelope before the payload.
pub const ENVELOPE_LEN: usize = 24;

/// Why a frame ends the session.
#[derive(Debug, Clone, Copy, PartialEq, Eq, Structural)]
pub enum FrameError {
    /// The frame does not open with the bytes of the network.
    BadMagic,
    /// The frame announces a payload beyond the largest allowed.
    Oversized,
    /// The payload does not hash to the checksum of the envelope.
    BadChecksum,
}

/// The messages this node reads or writes.
#[derive(Debug, Clone, Copy, PartialEq, Eq, Structural)]
pub enum Command {
    Version,
    Verack,
    Addr,
    AddrV2,
    Headers,
    CFHeaders,
    CFilter,
    Block,
    Inv,
    Ping,
    Pong,
    GetAddr,
    GetHeaders,
    GetCFHeaders,
    GetCFilters,
    GetData,
    Tx,
}

/// The name of a message in the envelope: its letters, then zeros up to
/// twelve bytes.
pub open spec fn command_name(c: Command) -> Seq<u8> {
    match c {
        Command::Version => seq![0x76u8, 0x65, 0x72, 0x73, 0x69, 0x6f, 0x6e, 0, 0, 0, 0, 0],
        Command::Verack => seq![0x76u8, 0x65, 0x72, 0x61, 0x63, 0x6b, 0, 0, 0, 0, 0, 0],
        Command::Addr => seq![0x61u8, 0x64, 0x64, 0x72, 0, 0, 0, 0, 0, 0, 0, 0],
        Command::AddrV2 => seq![0x61u8, 0x64, 0x64, 0x72, 0x76, 0x32, 0, 0, 0, 0, 0, 0],
        Command::Headers => seq![0x68u8, 0x65, 0x61, 0x64, 0x65, 0x72, 0x73, 0, 0, 0, 0, 0],
        Command::CFHeaders => seq![0x63u8, 0x66, 0x68, 0x65, 0x61, 0x64, 0x65, 0x72, 0x73, 0, 0, 0],
        Command::CFilter => seq![0x63u8, 0x66, 0x69, 0x6c, 0x74, 0x65, 0x72, 0, 0, 0, 0, 0],
        Command::Block => seq![0x62u8, 0x6c, 0x6f, 0x63, 0x6b, 0, 0, 0, 0, 0, 0, 0],
        Command::Inv => seq![0x69u8, 0x6e, 0x76, 0, 0, 0, 0, 0, 0, 0, 0, 0],
        Command::Ping => seq![0x70u8, 0x69, 0x6e, 0x67, 0, 0, 0, 0, 0, 0, 0, 0],
        Command::Pong => seq![0x70u8, 0x6f, 0x6e, 0x67, 0, 0, 0, 0, 0, 0, 0, 0],
        Command::GetAddr => seq![0x67u8, 0x65, 0x74, 0x61, 0x64, 0x64, 0x72, 0, 0, 0, 0, 0],
        Command::GetHeaders => seq![
            0x67u8,
            0x65,
            0x74,
            0x68,
            0x65,
            0x61,
            0x64,
            0x65,
            0x72,
            0x73,
            0,
            0,
        ],
        Command::GetCFHeaders => seq![
            0x67u8,
            0x65,
            0x74,
            0x63,
            0x66,
            0x68,
            0x65,
            0x61,
            0x64,
            0x65,
            0x72,
            0x73,
        ],
        Command::GetCFilters => seq![
            0x67u8,
            0x65,
            0x74,
            0x63,
            0x66,
            0x69,
            0x6c,
            0x74,
            0x65,
            0x72,
            0x73,
            0,
        ],
        Command::GetData => seq![0x67u8, 0x65, 0x74, 0x64, 0x61, 0x74, 0x61, 0, 0, 0, 0, 0],
        Command::Tx => seq![0x74u8, 0x78, 0, 0, 0, 0, 0, 0, 0, 0, 0, 0],
    }
}

/// The message a name in the envelope stands for, if this node knows it.
pub open spec fn spec_parse_command(name: Seq<u8>) -> Option<Command> {
    if name == command_name(Command::Version) {
        Some(Command::Version)
    } else if name == command_name(Command::Verack) {
        Some(Command::Verack)
    } else if name == command_name(Command::Addr) {
        Some(Command::Addr)
    } else if name == command_name(Command::AddrV2) {
        Some(Command::AddrV2)
    } else if name == command_name(Command::Headers) {
        Some(Command::Headers)
    } else if name == command_name(Command::CFHeaders) {
        Some(Command::CFHeaders)
    } else if name == command_name(Command::CFilter) {
        Some(Command::CFilter)
    } else if name == command_name(Command::Block) {
        Some(Command::Block)
    } else if name == command_name(Command::Inv) {
        Some(Command::Inv)
    } else if name == command_name(Command::Ping) {
        Some(Command::Ping)
    } else if name == command_name(Command::Pong) {
        Some(Command::Pong)
    } else if name == command_name(Command::GetAddr) {
        Some(Command::GetAddr)
    } else if name == command_name(Command::GetHeaders) {
        Some(Command::GetHeaders)
    } else if name == command_name(Command::GetCFHeaders) {
        Some(Command::GetCFHeaders)
    } else if name == command_name(Command::GetCFilters) {
        Some(Command::GetCFilters)
    } else if name == command_name(Command::GetData) {
        Some(Command::GetData)
    } else if name == command_name(Command::Tx) {
        Some(Command::Tx)
    } else {
        None
    }
}

/// The twelve bytes that name a message in the envelope.
pub fn command_bytes(c: Command) -> (r: [u8; 12])
    ensures
        r@ == command_name(c),
{
    let r: [u8; 12] = match c {
        Command::Version => [0x76, 0x65, 0x72, 0x73, 0x69, 0x6f, 0x6e, 0, 0, 0, 0, 0],
        Command::Verack => [0x76, 0x65, 0x72, 0x61, 0x63, 0x6b, 0, 0, 0, 0, 0, 0],
        Command::Addr => [0x61, 0x64, 0x64, 0x72, 0, 0, 0, 0, 0, 0, 0, 0],
        Command::AddrV2 => [0x61, 0x64, 0x64, 0x72, 0x76, 0x32, 0, 0, 0, 0, 0, 0],
        Command::Headers => [0x68, 0x65, 0x61, 0x64, 0x65, 0x72, 0x73, 0, 0, 0, 0, 0],
        Command::CFHeaders => [0x63, 0x66, 0x68, 0x65, 0x61, 0x64, 0x65, 0x72, 0x73, 0, 0, 0],
        Command::CFilter => [0x63, 0x66, 0x69, 0x6c, 0x74, 0x65, 0x72, 0, 0, 0, 0, 0],
        Command::Block => [0x62, 0x6c, 0x6f, 0x63, 0x6b, 0, 0, 0, 0, 0, 0, 0],
        Command::Inv => [0x69, 0x6e, 0x76, 0, 0, 0, 0, 0, 0, 0, 0, 0],
        Command::Ping => [0x70, 0x69, 0x6e, 0x67, 0, 0, 0, 0, 0, 0, 0, 0],
        Command::Pong => [0x70, 0x6f, 0x6e, 0x67, 0, 0, 0, 0, 0, 0, 0, 0],
        Command::GetAddr => [0x67, 0x65, 0x74, 0x61, 0x64, 0x64, 0x72, 0, 0, 0, 0, 0],
        Command::GetHeaders => [0x67, 0x65, 0x74, 0x68, 0x65, 0x61, 0x64, 0x65, 0x72, 0x73, 0, 0],
        Command::GetCFHeaders => [
            0x67,
            0x65,
            0x74,
            0x63,
            0x66,
            0x68,
            0x65,
            0x61,
            0x64,
            0x65,
            0x72,
            0x73,
        ],
        Command::GetCFilters => [0x67, 0x65, 0x74, 0x63, 0x66, 0x69, 0x6c, 0x74, 0x65, 0x72, 0x73, 0],
        Command::GetData => [0x67, 0x65, 0x74, 0x64, 0x61, 0x74, 0x61, 0, 0, 0, 0, 0],
        Command::Tx => [0x74, 0x78, 0, 0, 0, 0, 0, 0, 0, 0, 0, 0],
    };
    assert(r@ =~= command_name(c));
    r
}

/// Whether twelve bytes are the name of `c`.
fn names(name: &[u8; 12], c: Command) -> (r: bool)
    ensures
        r == (name@ == command_name(c)),
{
    let other: [u8; 12] = command_bytes(c);
    let mut i: usize = 0;
    while i < 12
        invariant
            i <= 12,
            other@ == command_name(c),
            forall|j: int| 0 <= j < i ==> name@[j] == other@[j],
        decreases 12 - i,
    {
        if name[i] != other[i] {
            return false;
        }
        i += 1;
    }
    assert(name@ =~= other@);
    true
}

/// The message a name in the envelope stands for, if this node knows it.
pub fn parse_command(name: &[u8; 12]) -> (r: Option<Command>)
    ensures
        r == spec_parse_command(name@),
{
    if names(name, Command::Version) {
        Some(Command::Version)
    } else if names(name, Command::Verack) {
        Some(Command::Verack)
    } else if names(name, Command::Addr) {
        Some(Command::Addr)
    } else if names(name, Command::AddrV2) {
        Some(Command::AddrV2)
    } else if names(name, Command::Headers) {
        Some(Command::Headers)
    } else if names(name, Command::CFHeaders) {
        Some(Command::CFHeaders)
    } else if names(name, Command::CFilter) {
        Some(Command::CFilter)
    } else if names(name, Command::Block) {
        Some(Command::Block)
    } else if names(name, Command::Inv) {
        Some(Command::Inv)
    } else if names(name, Command::Ping) {
        Some(Command::Ping)
    } else if names(name, Command::Pong) {
        Some(Command::Pong)
    } else if names(name, Command::GetAddr) {
        Some(Command::GetAddr)
    } else if names(name, Command::GetHeaders) {
        Some(Command::GetHeaders)
    } else if names(name, Command::GetCFHeaders) {
        Some(Command::GetCFHeaders)
    } else if names(name, Command::GetCFilters) {
        Some(Command::GetCFilters)
    } else if names(name, Command::GetData) {
        Some(Command::GetData)
    } else if names(name, Command::Tx) {
        Some(Command::Tx)
    } else {
        None
    }
}

/// The bytes of a frame: the envelope, then the payload.
pub open spec fn spec_frame(network: Network, name: Seq<u8>, payload: Seq<u8>) -> Seq<u8> {
    network.spec_magic() + name + spec_u32_to_le_bytes(payload.len() as u32) + spec_sha256d(
        payload,
    ).take(4) + payload
}

/// What the bytes received so far hold.
pub enum FrameView {
    /// Not yet a whole frame.
    Incomplete,
    /// A whole frame with a message this node knows: the message, its payload
    /// and the number of bytes the frame takes.
    Message { command: Command, payload: Seq<u8>, consumed: nat },
    /// A whole frame with a message this node does not know, to be passed
    /// over: the number of bytes the frame takes.
    Skipped { consumed: nat },
    /// A frame that ends the session.
    Rejected(FrameError),
}

/// What the bytes received so far hold. The envelope is judged as soon as it
/// is there: the network first, then the announced length, and once the
/// payload is there, the checksum.
pub open spec fn spec_next_frame(network: Network, buffer: Seq<u8>) -> FrameView {
    if buffer.len() < ENVELOPE_LEN {
        FrameView::Incomplete
    } else if buffer.subrange(0, 4) != network.spec_magic() {
        FrameView::Rejected(FrameError::BadMagic)
    } else {
        let len = spec_u32_from_le_bytes(buffer.subrange(16, 20));
        let end = ENVELOPE_LEN + len;
        if len > MAX_MESSAGE_SIZE {
            FrameView::Rejected(FrameError::Oversized)
        } else if buffer.len() < end {
            FrameView::Incomplete
        } else if spec_sha256d(buffer.subrange(ENVELOPE_LEN as int, end)).take(4)
            != buffer.subrange(20, 24) {
            FrameView::Rejected(FrameError::BadChecksum)
        } else {
            match spec_parse_command(buffer.subrange(4, 16)) {
                Some(command) => FrameView::Message {
                    command,
                    payload: buffer.subrange(ENVELOPE_LEN as int, end),
                    consumed: end as nat,
                },
                None => FrameView::Skipped { consumed: end as nat },
            }
        }
    }
}

/// What the bytes received so far hold.
#[derive(Debug)]
pub enum FrameStep {
    Incomplete,
    Message { command: Command, payload: Vec<u8>, consumed: usize },
    Skipped { consumed: usize },
    Rejected(FrameError),
}

impl View for FrameStep {
    type V = FrameView;

    open spec fn view(&self) -> FrameView {
        match self {
            FrameStep::Incomplete => FrameView::Incomplete,
            FrameStep::Message { command, payload, consumed } => FrameView::Message {
                command: *command,
                payload: payload@,
                consumed: *consumed as nat,
            },
            FrameStep::Skipped { consumed } => FrameView::Skipped { consumed: *consumed as nat },
            FrameStep::Rejected(e) => FrameView::Rejected(*e),
        }
    }
}

/// Appends `bytes` to `out`.
pub fn push_all(out: &mut Vec<u8>, bytes: &[u8])
    ensures
        final(out)@ == old(out)@ + bytes@,
{
    let mut i: usize = 0;
    while i < bytes.len()
        invariant
            i <= bytes@.len(),
            out@ == old(out)@ + bytes@.take(i as int),
        decreases bytes@.len() - i,
    {
        out.push(bytes[i]);
        assert(out@ =~= old(out)@ + bytes@.take(i + 1));
        i += 1;
    }
    assert(bytes@.take(i as int) =~= bytes@);
}

/// A copy of the bytes from position `from` up to position `to`.
pub fn copy_range(bytes: &[u8], from: usize, to: usize) -> (r: Vec<u8>)
    requires
        from <= to <= bytes@.len(),
    ensures
        r@ == bytes@.subrange(from as int, to as int),
{
    let mut out: Vec<u8> = Vec::new();
    push_all(&mut out, slice_subrange(bytes, from, to));
    assert(out@ =~= bytes@.subrange(from as int, to as int));
    out
}

/// Puts a payload into its envelope.
pub fn encode_frame(network: Network, command: Command, payload: &Vec<u8>) -> (r: Vec<u8>)
    requires
        payload@.len() <= MAX_MESSAGE_SIZE,
    ensures
        r@ == spec_frame(network, command_name(command), payload@),
{
    let mut out: Vec<u8> = Vec::new();
    let magic: [u8; 4] = network.magic();
    push_all(&mut out, magic.as_slice());
    let name: [u8; 12] = command_bytes(command);
    push_all(&mut out, name.as_slice());
    let len: Vec<u8> = u32_to_le_bytes(payload.len() as u32);
    push_all(&mut out, len.as_slice());
    let digest: Hash256 = sha256d(payload.as_slice());
    push_all(&mut out, slice_subrange(digest.as_slice(), 0, 4));
    push_all(&mut out, payload.as_slice());
    assert(out@ =~= spec_frame(network, command_name(command), payload@));
    out
}

/// Looks at the bytes received so far and takes the first frame off them if
/// it is whole. A frame of another network, one that announces more than the
/// largest payload, and one whose payload does not match its checksum end the
/// session. A message this node does not know is passed over.
#[verifier::loop_isolation(false)]
pub fn next_frame(network: Network, buffer: &Vec<u8>) -> (r: FrameStep)
    ensures
        r@ == spec_next_frame(network, buffer@),
{
    if buffer.len() < ENVELOPE_LEN {
        return FrameStep::Incomplete;
    }
    let bytes: &[u8] = buffer.as_slice();
    let magic: [u8; 4] = network.magic();
    let mut i: usize = 0;
    while i < 4
        invariant
            i <= 4,
            bytes@ == buffer@,
            bytes@.len() >= ENVELOPE_LEN,
            magic@ == network.spec_magic(),
            forall|j: int| 0 <= j < i ==> bytes@[j] == magic@[j],
        decreases 4 - i,
    {
        if bytes[i] != magic[i] {
            assert(buffer@.subrange(0, 4)[i as int] != network.spec_magic()[i as int]);
            return FrameStep::Rejected(FrameError::BadMagic);
        }
        i += 1;
    }
    assert(buffer@.subrange(0, 4) =~= network.spec_magic());
    let len: u32 = u32_from_le_bytes(slice_subrange(bytes, 16, 20));
    if len > MAX_MESSAGE_SIZE {
        return FrameStep::Rejected(FrameError::Oversized);
    }
    let end: usize = ENVELOPE_LEN + len as usize;
    if buffer.len() < end {
        return FrameStep::Incomplete;
    }
    let payload: Vec<u8> = copy_range(bytes, ENVELOPE_LEN, end);
    let digest: Hash256 = sha256d(payload.as_slice());
    let mut k: usize = 0;
    while k < 4
        invariant
            k <= 4,
            bytes@ == buffer@,
            bytes@.len() >= ENVELOPE_LEN,
            forall|j: int| 0 <= j < k ==> digest@[j] == bytes@[20 + j],
        decreases 4 - k,
    {
        if digest[k] != bytes[20 + k] {
            assert(digest@.take(4)[k as int] != buffer@.subrange(20, 24)[k as int]);
            return FrameStep::Rejected(FrameError::BadChecksum);
        }
        k += 1;
    }
    assert(digest@.take(4) =~= buffer@.subrange(20, 24));
    let mut name: [u8; 12] = [0u8; 12];
    let mut n: usize = 0;
    while n < 12
        invariant
            n <= 12,
            bytes@ == buffer@,
            bytes@.len() >= ENVELOPE_LEN,
            forall|j: int| 0 <= j < n ==> name@[j] == bytes@[4 + j],
        decreases 12 - n,
    {
        name[n] = bytes[4 + n];
        n += 1;
    }
    assert(name@ =~= buffer@.subrange(4, 16));
    match parse_command(&name) {
        Some(command) => FrameStep::Message { command, payload, consumed: end },
        None => FrameStep::Skipped { consumed: end },
    }
}

/// A frame that was put together for this network is taken apart again as
/// the same message with the same payload, whatever follows it.
pub proof fn lemma_frame_round_trip(network: Network, command: Command, payload: Seq<u8>, rest: Seq<u8>)
    requires
        payload.len() <= MAX_MESSAGE_SIZE,
        spec_sha256d(payload).len() == 32,
    ensures
        spec_next_frame(network, spec_frame(network, command_name(command), payload) + rest)
            == (FrameView::Message {
            command,
            payload,
            consumed: (ENVELOPE_LEN + payload.len()) as nat,
        }),
{
    vstd::bytes::lemma_auto_spec_u32_to_from_le_bytes();
    let name = command_name(command);
    let frame = spec_frame(network, name, payload);
    let buffer = frame + rest;
    let len_bytes = spec_u32_to_le_bytes(payload.len() as u32);
    assert(network.spec_magic().len() == 4);
    assert(name.len() == 12);
    assert(len_bytes.len() == 4);
    assert(buffer.subrange(0, 4) =~= network.spec_magic());
    assert(buffer.subrange(4, 16) =~= name);
    assert(buffer.subrange(16, 20) =~= len_bytes);
    assert(buffer.subrange(20, 24) =~= spec_sha256d(payload).take(4));
    assert(buffer.subrange(24, 24 + payload.len() as int) =~= payload);
    assert(spec_parse_command(name) == Some(command)) by {
        lemma_names_differ();
    }
}

/// No two messages have the same name.
pub proof fn lemma_names_differ()
    ensures
        forall|a: Command, b: Command| a != b ==> #[trigger] command_name(a) != #[trigger] command_name(b),
{
    assert forall|a: Command, b: Command| a != b implies #[trigger] command_name(a)
        != #[trigger] command_name(b) by {
        let x = command_name(a);
        let y = command_name(b);
        if x == y {
            assert(x[0] == y[0]);
            assert(x[1] == y[1]);
            assert(x[2] == y[2]);
            assert(x[3] == y[3]);
            assert(x[4] == y[4]);
            assert(x[5] == y[5]);
            assert(x[6] == y[6]);
            assert(x[11] == y[11]);
        }
    }
}

} // verus!
