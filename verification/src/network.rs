//! The networks a node can follow.

use vstd::prelude::*;

verus! {

/// Which chain the node follows.
#[derive(Clone, Copy, Debug, PartialEq, Eq, Structural)]
pub enum Network {
    Mainnet,
    Testnet,
    Signet,
    Regtest,
}

impl Network {
    /// The four bytes that open every message on this network.
    pub open spec fn spec_magic(self) -> Seq<u8> {
        match self {
            Network::Mainnet => seq![0xF9u8, 0xBEu8, 0xB4u8, 0xD9u8],
            Network::Testnet => seq![0x0Bu8, 0x11u8, 0x09u8, 0x07u8],
            Network::Signet => seq![0x0Au8, 0x03u8, 0xCFu8, 0x40u8],
            Network::Regtest => seq![0xFAu8, 0xBFu8, 0xB5u8, 0xDAu8],
        }
    }

    /// Whether blocks on this network may fall back to the minimum difficulty
    /// between two retarget heights.
    pub open spec fn spec_allows_min_difficulty(self) -> bool {
        self == Network::Testnet || self == Network::Regtest
    }

    /// Whether the difficulty never changes on this network.
    pub open spec fn spec_no_retargeting(self) -> bool {
        self == Network::Regtest
    }

    /// The port peers of this network listen on unless they say otherwise.
    pub open spec fn spec_default_port(self) -> u16 {
        match self {
            Network::Mainnet => 8333,
            Network::Testnet => 18333,
            Network::Signet => 38333,
            Network::Regtest => 18444,
        }
    }

    /// The four bytes that open every message on this network.
    pub fn magic(self) -> (r: [u8; 4])
        ensures
            r@ == self.spec_magic(),
    {
        let r: [u8; 4] = match self {
            Network::Mainnet => [0xF9, 0xBE, 0xB4, 0xD9],
            Network::Testnet => [0x0B, 0x11, 0x09, 0x07],
            Network::Signet => [0x0A, 0x03, 0xCF, 0x40],
            Network::Regtest => [0xFA, 0xBF, 0xB5, 0xDA],
        };
        assert(r@ =~= self.spec_magic());
        r
    }

    /// The port peers of this network listen on unless they say otherwise.
    pub fn default_port(self) -> (r: u16)
        ensures
            r == self.spec_default_port(),
    {
        match self {
            Network::Mainnet => 8333,
            Network::Testnet => 18333,
            Network::Signet => 38333,
            Network::Regtest => 18444,
        }
    }

    pub fn allows_min_difficulty(self) -> (r: bool)
        ensures
            r == self.spec_allows_min_difficulty(),
    {
        match self {
            Network::Testnet | Network::Regtest => true,
            _ => false,
        }
    }

    pub fn no_retargeting(self) -> (r: bool)
        ensures
            r == self.spec_no_retargeting(),
    {
        match self {
            Network::Regtest => true,
            _ => false,
        }
    }
}

} // verus!
