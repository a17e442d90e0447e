//! Block headers as plain values.

use vstd::prelude::*;

use crate::primitives::{block_hash, spec_block_hash};

verus! {

/// A 32-byte hash in the byte order used on the wire.
pub type Hash256 = [u8; 32];

/// The six consensus fields of a block header.
#[derive(Clone, Copy, Debug)]
pub struct Header {
    pub version: i32,
    pub prev_blockhash: Hash256,
    pub merkle_root: Hash256,
    pub time: u32,
    pub bits: u32,
    pub nonce: u32,
}

impl Header {
    /// The hash that identifies this header.
    pub open spec fn spec_hash(&self) -> Seq<u8> {
        spec_block_hash(
            self.version,
            self.prev_blockhash@,
            self.merkle_root@,
            self.time,
            self.bits,
            self.nonce,
        )
    }

    /// Computes the block hash of this header.
    pub fn block_hash(&self) -> (r: Hash256)
        ensures
            r@ == self.spec_hash(),
    {
        block_hash(self)
    }
}

/// Byte-wise equality of two hashes.
pub fn hash_eq(a: &Hash256, b: &Hash256) -> (r: bool)
    ensures
        r == (a@ == b@),
{
    let mut i: usize = 0;
    while i < 32
        invariant
            i <= 32,
            forall|j: int| 0 <= j < i ==> a@[j] == b@[j],
        decreases 32 - i,
    {
        if a[i] != b[i] {
            return false;
        }
        i += 1;
    }
    assert(a@ =~= b@);
    true
}

} // verus!
