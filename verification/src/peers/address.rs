//! Network addresses and service flags as plain values.

use vstd::prelude::*;


verus! {

/// The peer serves the complete block chain.
pub const SERVICE_NETWORK: u64 = 1;

/// The peer serves witness data.
pub const SERVICE_WITNESS: u64 = 8;

/// The peer serves compact block filters.
pub const SERVICE_COMPACT_FILTERS: u64 = 64;

/// An internet address, version 4 or 6.
#[derive(Clone, Copy, Debug)]
pub enum IpAddress {
    V4([u8; 4]),
    V6([u8; 16]),
}

/// An internet address as a mathematical value.
pub enum IpView {
    V4(Seq<u8>),
    V6(Seq<u8>),
}

impl View for IpAddress {
    type V = IpView;

    open spec fn view(&self) -> IpView {
        match self {
            IpAddress::V4(b) => IpView::V4(b@),
            IpAddress::V6(b) => IpView::V6(b@),
        }
    }
}

/// Whether two addresses are the same.
#[verifier::loop_isolation(false)]
pub fn ip_eq(a: &IpAddress, b: &IpAddress) -> (r: bool)
    ensures
        r == (a@ == b@),
{
    match (a, b) {
        (IpAddress::V4(x), IpAddress::V4(y)) => {
            let same: bool = x[0] == y[0] && x[1] == y[1] && x[2] == y[2] && x[3] == y[3];
            if same {
                assert(x@ =~= y@);
            }
            same
        },
        (IpAddress::V6(x), IpAddress::V6(y)) => {
            let mut i: usize = 0;
            while i < 16
                invariant
                    i <= 16,
                    forall|j: int| 0 <= j < i ==> x@[j] == y@[j],
                decreases 16 - i,
            {
                if x[i] != y[i] {
                    return false;
                }
                i += 1;
            }
            assert(x@ =~= y@);
            true
        },
        _ => false,
    }
}

/// Whether every service of `wanted` is among `flags`.
pub open spec fn spec_serves(flags: u64, wanted: u64) -> bool {
    (flags | wanted) == flags
}

/// Whether a peer with service flags `flags` offers every service of
/// `wanted`.
pub fn serves(flags: u64, wanted: u64) -> (r: bool)
    ensures
        r == spec_serves(flags, wanted),
{
    (flags | wanted) == flags
}

/// An address as it travels: sixteen bytes, a version 4 address in the last
/// four behind ten zeros and two bytes of ones.
#[derive(Clone, Copy, Debug)]
pub struct RawAddress {
    pub address: [u8; 16],
    pub port: u16,
    pub services: u64,
}

/// Whether sixteen bytes hold a version 4 address.
pub open spec fn is_mapped(address: Seq<u8>) -> bool {
    (forall|i: int| 0 <= i < 10 ==> address[i] == 0) && address[10] == 0xFF && address[11] == 0xFF
}

/// The address sixteen bytes stand for.
pub open spec fn spec_unmap(address: Seq<u8>) -> IpView {
    if is_mapped(address) {
        IpView::V4(address.subrange(12, 16))
    } else {
        IpView::V6(address)
    }
}

/// An address as it travels, as the address it stands for.
pub fn unmap(raw: &RawAddress) -> (r: PeerAddress)
    ensures
        r.addr@ == spec_unmap(raw.address@),
        r.port == raw.port,
        r.services == raw.services,
{
    let a: [u8; 16] = raw.address;
    let mut zeros: bool = true;
    let mut i: usize = 0;
    while i < 10
        invariant
            i <= 10,
            zeros == forall|j: int| 0 <= j < i ==> a@[j] == 0,
        decreases 10 - i,
    {
        if a[i] != 0 {
            zeros = false;
        }
        i += 1;
    }
    if zeros && a[10] == 0xFF && a[11] == 0xFF {
        let v4: [u8; 4] = [a[12], a[13], a[14], a[15]];
        assert(v4@ =~= a@.subrange(12, 16));
        PeerAddress { addr: IpAddress::V4(v4), port: raw.port, services: raw.services }
    } else {
        PeerAddress { addr: IpAddress::V6(a), port: raw.port, services: raw.services }
    }
}

/// A peer another peer has told of.
#[derive(Clone, Copy, Debug)]
pub struct PeerAddress {
    pub addr: IpAddress,
    pub port: u16,
    pub services: u64,
}

/// A peer the application trusts and wants tried first.
#[derive(Clone, Copy, Debug)]
pub struct TrustedPeer {
    pub addr: IpAddress,
    pub port: Option<u16>,
    pub services: u64,
}

impl TrustedPeer {
    /// A trusted peer at `addr`, on `port` or on the default one of the
    /// network, with the services it is known to offer.
    pub fn new(addr: IpAddress, port: Option<u16>, services: u64) -> (r: TrustedPeer)
        ensures
            r.addr == addr,
            r.port == port,
            r.services == services,
    {
        TrustedPeer { addr, port, services }
    }
}

} // verus!
