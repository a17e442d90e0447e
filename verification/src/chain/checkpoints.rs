//! Trusted points of the chain from which a node starts.

use vstd::prelude::*;

use crate::chain::header::Hash256;
use crate::network::Network;
use crate::primitives::{genesis_hash, spec_genesis_hash};

verus! {

/// A block the node takes on trust: its height and its hash.
#[derive(Clone, Copy, Debug)]
pub struct HeaderCheckpoint {
    pub height: u32,
    pub hash: Hash256,
}

impl HeaderCheckpoint {
    /// A checkpoint at `height` with the given block hash.
    pub fn new(height: u32, hash: Hash256) -> (r: HeaderCheckpoint)
        ensures
            r.height == height,
            r.hash == hash,
    {
        HeaderCheckpoint { height, hash }
    }

    /// Whether position `i` of `table` is the checkpoint closest to `height`
    /// from below: it does not exceed `height`, no other entry that does not
    /// exceed `height` is higher, and among equally high ones it comes first.
    pub open spec fn is_closest_below(table: Seq<HeaderCheckpoint>, height: u32, i: int) -> bool {
        &&& 0 <= i < table.len()
        &&& table[i].height <= height
        &&& forall|j: int|
            0 <= j < table.len() && (#[trigger] table[j]).height <= height ==> table[j].height
                <= table[i].height
        &&& forall|j: int| 0 <= j < i ==> (#[trigger] table[j]).height != table[i].height
    }

    /// The checkpoints that come with the library for a network: its first
    /// block.
    pub open spec fn spec_known(network: Network) -> Seq<(u32, Seq<u8>)> {
        seq![(0u32, spec_genesis_hash(network))]
    }

    /// Whether `c` is the checkpoint that comes with the library for
    /// `network` and is nearest to `height` without exceeding it.
    pub open spec fn is_closest_known(network: Network, height: u32, c: HeaderCheckpoint) -> bool {
        exists|i: int|
            0 <= i < Self::spec_known(network).len() && c.height == (#[trigger] Self::spec_known(
                network,
            )[i]).0 && c.hash@ == Self::spec_known(network)[i].1 && c.height <= height && forall|
                j: int,
            |
                0 <= j < Self::spec_known(network).len() && (#[trigger] Self::spec_known(
                    network,
                )[j]).0 <= height ==> Self::spec_known(network)[j].0 <= c.height
    }

    /// The checkpoints that come with the library for a network.
    pub fn known(network: Network) -> (r: Vec<HeaderCheckpoint>)
        ensures
            r@.len() == Self::spec_known(network).len(),
            forall|i: int|
                0 <= i < r@.len() ==> (#[trigger] r@[i]).height == Self::spec_known(network)[i].0
                    && r@[i].hash@ == Self::spec_known(network)[i].1,
    {
        let mut table: Vec<HeaderCheckpoint> = Vec::new();
        table.push(HeaderCheckpoint { height: 0, hash: genesis_hash(network) });
        table
    }

    /// The checkpoint that comes with the library for `network` and is
    /// nearest to `height` without exceeding it.
    pub fn closest_checkpoint_below_height(height: u32, network: Network) -> (r: HeaderCheckpoint)
        ensures
            Self::is_closest_known(network, height, r),
    {
        let table: Vec<HeaderCheckpoint> = Self::known(network);
        assert(table@[0].height == 0);
        match Self::closest_below(&table, height) {
            Some(c) => {
                let ghost i = choose|i: int|
                    Self::is_closest_below(table@, height, i) && table@[i] == c;
                assert(Self::spec_known(network)[i].0 == c.height);
                assert forall|j: int|
                    0 <= j < Self::spec_known(network).len() && (#[trigger] Self::spec_known(
                        network,
                    )[j]).0 <= height implies Self::spec_known(network)[j].0 <= c.height by {
                    assert(table@[j].height <= height);
                }
                c
            },
            None => table[0],
        }
    }

    /// The checkpoint of `table` that is nearest to `height` without
    /// exceeding it, or `None` when every entry lies above `height`.
    pub fn closest_below(table: &Vec<HeaderCheckpoint>, height: u32) -> (r: Option<
        HeaderCheckpoint,
    >)
        ensures
            r is None <==> forall|j: int| 0 <= j < table@.len() ==> (#[trigger] table@[j]).height > height,
            r is Some ==> exists|i: int|
                Self::is_closest_below(table@, height, i) && table@[i] == r->0,
    {
        let mut best: Option<usize> = None;
        let mut k: usize = 0;
        while k < table.len()
            invariant
                k <= table@.len(),
                best is None <==> forall|j: int| 0 <= j < k ==> (#[trigger] table@[j]).height > height,
                best is Some ==> {
                    let b = best->0 as int;
                    &&& b < k
                    &&& table@[b].height <= height
                    &&& forall|j: int|
                        0 <= j < k && (#[trigger] table@[j]).height <= height ==> table@[j].height
                            <= table@[b].height
                    &&& forall|j: int| 0 <= j < b ==> (#[trigger] table@[j]).height != table@[b].height
                },
            decreases table@.len() - k,
        {
            if table[k].height <= height {
                match best {
                    None => {
                        best = Some(k);
                    },
                    Some(b) => {
                        if table[k].height > table[b].height {
                            best = Some(k);
                        }
                    },
                }
            }
            k += 1;
        }
        match best {
            None => None,
            Some(b) => {
                assert(Self::is_closest_below(table@, height, b as int));
                Some(table[b])
            },
        }
    }
}

} // verus!
