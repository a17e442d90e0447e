//! Cumulative proof of work, wide enough for any chain that fits in memory.

use vstd::prelude::*;

use crate::chain::header::Header;
use crate::primitives::{block_work, spec_block_work};

verus! {

/// Two to the power of 128.
pub open spec fn pow128() -> nat {
    0x1_0000_0000_0000_0000_0000_0000_0000_0000nat
}

/// Two to the power of 256.
pub open spec fn pow256() -> nat {
    0x1_0000_0000_0000_0000_0000_0000_0000_0000_0000_0000_0000_0000_0000_0000_0000_0000nat
}

/// The work of a run of headers: the sum of the work of each.
pub open spec fn seq_work(headers: Seq<Header>) -> nat
    decreases headers.len(),
{
    if headers.len() == 0 {
        0
    } else {
        seq_work(headers.drop_last()) + spec_block_work(headers.last().bits)
    }
}

/// A sum of block work in three 128-bit limbs.
#[derive(Clone, Copy, Debug)]
pub struct ChainWork {
    top: u128,
    mid: u128,
    low: u128,
}

impl ChainWork {
    /// The number this sum stands for.
    pub closed spec fn value(&self) -> nat {
        self.top as nat * pow256() + self.mid as nat * pow128() + self.low as nat
    }

    /// Whether one more block can be added without the top limb running out.
    pub closed spec fn has_room(&self) -> bool {
        self.top < u128::MAX
    }

    /// A sum below `count` blocks' worth of work leaves room for more as long
    /// as `count` fits in 64 bits.
    pub proof fn lemma_room(&self, count: nat)
        requires
            self.value() <= count * pow256(),
            count <= u64::MAX,
        ensures
            self.has_room(),
    {
        if self.top >= u128::MAX {
            assert(self.value() >= u128::MAX as nat * pow256());
            assert(count * pow256() <= u64::MAX as nat * pow256()) by (nonlinear_arith)
                requires
                    count <= u64::MAX,
            ;
        }
    }

    /// No work at all.
    pub fn zero() -> (r: ChainWork)
        ensures
            r.value() == 0,
    {
        ChainWork { top: 0, mid: 0, low: 0 }
    }

    /// Adds the work of one block mined at the compact target `bits`.
    pub fn add_block(&self, bits: u32) -> (r: ChainWork)
        requires
            self.has_room(),
        ensures
            r.value() == self.value() + spec_block_work(bits),
            spec_block_work(bits) < pow256(),
    {
        let (upper, lower): (u128, u128) = block_work(bits);
        let (low, carry_low): (u128, u128) = if self.low > u128::MAX - lower {
            (self.low - (u128::MAX - lower) - 1, 1)
        } else {
            (self.low + lower, 0)
        };
        let (mid_a, carry_a): (u128, u128) = if self.mid > u128::MAX - upper {
            (self.mid - (u128::MAX - upper) - 1, 1)
        } else {
            (self.mid + upper, 0)
        };
        let (mid, carry_b): (u128, u128) = if mid_a > u128::MAX - carry_low {
            (mid_a - (u128::MAX - carry_low) - 1, 1)
        } else {
            (mid_a + carry_low, 0)
        };
        assert(carry_a + carry_b <= 1);
        let top: u128 = self.top + carry_a + carry_b;
        ChainWork { top, mid, low }
    }

    /// Whether this sum is strictly greater than `other`.
    pub fn exceeds(&self, other: &ChainWork) -> (r: bool)
        ensures
            r == (self.value() > other.value()),
    {
        if self.top != other.top {
            self.top > other.top
        } else if self.mid != other.mid {
            self.mid > other.mid
        } else {
            self.low > other.low
        }
    }
}

/// Appending one header adds its work.
pub proof fn lemma_seq_work_push(headers: Seq<Header>, h: Header)
    ensures
        seq_work(headers.push(h)) == seq_work(headers) + spec_block_work(h.bits),
{
    assert(headers.push(h).drop_last() =~= headers);
}

} // verus!
