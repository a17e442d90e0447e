//! The three rules a header must pass before it joins the chain.

use vstd::prelude::*;

use crate::chain::error::HeaderSyncError;
use crate::chain::header::{Hash256, Header};
use crate::network::Network;
use crate::primitives::{
    next_bits, retarget_in_range, spec_next_bits, spec_target_allowed, spec_target_met,
    target_allowed, target_met, MAX_MANTISSA_AT_30,
};

verus! {

/// Number of blocks between two difficulty changes.
pub const RETARGET_INTERVAL: u64 = 2016;

/// Number of earlier blocks whose median time a header must exceed.
pub const MEDIAN_TIME_SPAN: usize = 11;

/// The headers a batch is judged against: the first `base_len` headers of the
/// chain followed by the new ones.
pub open spec fn candidate(base: Seq<Header>, base_len: int, rest: Seq<Header>) -> Seq<Header> {
    base.take(base_len) + rest
}

/// How many of `times` lie strictly below `t`.
pub open spec fn count_below(times: Seq<u32>, t: u32) -> nat
    decreases times.len(),
{
    if times.len() == 0 {
        0
    } else {
        count_below(times.drop_last(), t) + if times.last() < t {
            1nat
        } else {
            0nat
        }
    }
}

/// How many of `times` lie at or below `t`.
pub open spec fn count_at_most(times: Seq<u32>, t: u32) -> nat
    decreases times.len(),
{
    if times.len() == 0 {
        0
    } else {
        count_at_most(times.drop_last(), t) + if times.last() <= t {
            1nat
        } else {
            0nat
        }
    }
}

/// `m` is the median of `times`: the value at position `len / 2` once they
/// are put in order.
pub open spec fn is_median(times: Seq<u32>, m: u32) -> bool {
    count_below(times, m) <= times.len() / 2 < count_at_most(times, m)
}

/// Whether `t` is later than the median of `times`. An empty list holds
/// nothing to exceed.
pub open spec fn exceeds_median(times: Seq<u32>, t: u32) -> bool {
    times.len() > 0 ==> count_below(times, t) > times.len() / 2
}

/// The times of the up to eleven headers before position `i`.
pub open spec fn times_before(cand: Seq<Header>, i: int) -> Seq<u32> {
    let n = if i < MEDIAN_TIME_SPAN as int {
        i
    } else {
        MEDIAN_TIME_SPAN as int
    };
    Seq::new(n as nat, |j: int| cand[i - n + j].time)
}

/// Seconds from `start` to `end`, zero when `end` is the earlier.
pub open spec fn timespan(start: u32, end: u32) -> u64 {
    if end >= start {
        (end - start) as u64
    } else {
        0
    }
}

/// The proof of work rule: the header's hash meets the target it declares.
pub open spec fn work_ok(h: Header) -> bool {
    spec_target_met(h.bits, h.spec_hash())
}

/// The target rule for the header at position `i`, whose height is
/// `anchor_height + 1 + i`. The declared target is never above the highest
/// the network allows. On a height that opens a difficulty period it is the
/// one computed from the period before, as far as this chain holds that
/// period. On every other height of a network without the minimum difficulty
/// exception it is that of the block before.
pub open spec fn bits_ok(network: Network, anchor_height: nat, cand: Seq<Header>, i: int) -> bool {
    let height = anchor_height + 1 + i;
    if !spec_target_allowed(network, cand[i].bits) {
        false
    } else if network.spec_no_retargeting() {
        true
    } else if height % (RETARGET_INTERVAL as int) == 0 {
        i >= RETARGET_INTERVAL as int ==> retarget_in_range(cand[i - 1].bits) && cand[i].bits
            == spec_next_bits(
            network,
            cand[i - 1].bits,
            timespan(cand[i - RETARGET_INTERVAL as int].time, cand[i - 1].time),
        )
    } else {
        !network.spec_allows_min_difficulty() && i >= 1 ==> cand[i].bits == cand[i - 1].bits
    }
}

/// The time rule: the header is later than the median of the eleven before it.
pub open spec fn time_ok(cand: Seq<Header>, i: int) -> bool {
    exceeds_median(times_before(cand, i), cand[i].time)
}

/// The first rule the header at position `i` breaks, if any.
pub open spec fn header_fault(
    network: Network,
    anchor_height: nat,
    cand: Seq<Header>,
    i: int,
) -> Option<HeaderSyncError> {
    if !work_ok(cand[i]) {
        Some(HeaderSyncError::InvalidHeaderWork)
    } else if !bits_ok(network, anchor_height, cand, i) {
        Some(HeaderSyncError::InvalidBits)
    } else if !time_ok(cand, i) {
        Some(HeaderSyncError::InvalidHeaderTimes)
    } else {
        None
    }
}

/// The first fault among the headers from position `from` on, if any.
pub open spec fn first_fault(
    network: Network,
    anchor_height: nat,
    cand: Seq<Header>,
    from: int,
) -> Option<HeaderSyncError>
    decreases cand.len() - from,
{
    if from < 0 || from >= cand.len() {
        None
    } else {
        match header_fault(network, anchor_height, cand, from) {
            Some(e) => Some(e),
            None => first_fault(network, anchor_height, cand, from + 1),
        }
    }
}

/// A time is later than the median exactly when more than half of the
/// times lie strictly below it.
pub proof fn lemma_exceeds_median(times: Seq<u32>, m: u32, t: u32)
    requires
        times.len() > 0,
        is_median(times, m),
    ensures
        exceeds_median(times, t) <==> t > m,
{
    lemma_counts(times, m, t);
}

proof fn lemma_counts(times: Seq<u32>, m: u32, t: u32)
    ensures
        t > m ==> count_below(times, t) >= count_at_most(times, m),
        t <= m ==> count_below(times, t) <= count_below(times, m),
    decreases times.len(),
{
    if times.len() > 0 {
        lemma_counts(times.drop_last(), m, t);
    }
}

/// Reads position `j` of the candidate.
pub fn candidate_at(base: &Vec<Header>, base_len: usize, rest: &Vec<Header>, j: usize) -> (h: Header)
    requires
        base_len <= base@.len(),
        j < base_len + rest@.len(),
    ensures
        h == candidate(base@, base_len as int, rest@)[j as int],
{
    if j < base_len {
        base[j]
    } else {
        rest[j - base_len]
    }
}

/// Counts how many of the up to eleven headers before position `i` are
/// earlier than `t`, and says whether `t` exceeds their median.
pub fn check_time(base: &Vec<Header>, base_len: usize, rest: &Vec<Header>, i: usize) -> (r: bool)
    requires
        base_len <= base@.len(),
        i < base_len + rest@.len(),
    ensures
        r == time_ok(candidate(base@, base_len as int, rest@), i as int),
{
    let n: usize = if i < MEDIAN_TIME_SPAN {
        i
    } else {
        MEDIAN_TIME_SPAN
    };
    if n == 0 {
        return true;
    }
    let t: u32 = candidate_at(base, base_len, rest, i).time;
    let ghost cand = candidate(base@, base_len as int, rest@);
    let ghost times = times_before(cand, i as int);
    let mut below: usize = 0;
    let mut j: usize = 0;
    while j < n
        invariant
            j <= n,
            n <= MEDIAN_TIME_SPAN,
            n <= i,
            base_len <= base@.len(),
            i < base_len + rest@.len(),
            cand == candidate(base@, base_len as int, rest@),
            times == times_before(cand, i as int),
            times.len() == n,
            below == count_below(times.take(j as int), t),
            below <= j,
        decreases n - j,
    {
        let earlier: Header = candidate_at(base, base_len, rest, i - n + j);
        assert(times.take(j + 1).drop_last() =~= times.take(j as int));
        assert(times.take(j + 1).last() == earlier.time);
        if earlier.time < t {
            below += 1;
        }
        j += 1;
    }
    assert(times.take(n as int) =~= times);
    below > n / 2
}

/// Checks the target rule for the header at position `i`.
pub fn check_bits(
    network: Network,
    anchor_height: u32,
    base: &Vec<Header>,
    base_len: usize,
    rest: &Vec<Header>,
    i: usize,
) -> (r: bool)
    requires
        base_len <= base@.len(),
        i < base_len + rest@.len(),
        anchor_height + base_len + rest@.len() <= u32::MAX,
    ensures
        r == bits_ok(network, anchor_height as nat, candidate(base@, base_len as int, rest@), i as int),
{
    let header: Header = candidate_at(base, base_len, rest, i);
    if !target_allowed(network, header.bits) {
        return false;
    }
    if network.no_retargeting() {
        return true;
    }
    let height: u64 = anchor_height as u64 + 1 + i as u64;
    if height % RETARGET_INTERVAL == 0 {
        if i < RETARGET_INTERVAL as usize {
            return true;
        }
        let last: Header = candidate_at(base, base_len, rest, i - 1);
        let first: Header = candidate_at(base, base_len, rest, i - RETARGET_INTERVAL as usize);
        if !retarget_allowed(last.bits) {
            return false;
        }
        let span: u64 = if last.time >= first.time {
            (last.time - first.time) as u64
        } else {
            0
        };
        header.bits == next_bits(network, last.bits, span)
    } else {
        if network.allows_min_difficulty() || i < 1 {
            return true;
        }
        let last: Header = candidate_at(base, base_len, rest, i - 1);
        header.bits == last.bits
    }
}

/// Whether a compact target is small enough to be retargeted from.
pub fn retarget_allowed(bits: u32) -> (r: bool)
    ensures
        r == retarget_in_range(bits),
{
    let exponent: u32 = bits / 0x0100_0000;
    let mantissa: u32 = bits % 0x0100_0000;
    exponent <= 29 || (exponent == 30 && mantissa <= MAX_MANTISSA_AT_30)
}

/// Checks the three rules for the header at position `i`, whose hash is
/// `hash`, and names the first one it breaks.
pub fn check_header(
    network: Network,
    anchor_height: u32,
    base: &Vec<Header>,
    base_len: usize,
    rest: &Vec<Header>,
    i: usize,
    hash: &Hash256,
) -> (r: Option<HeaderSyncError>)
    requires
        base_len <= base@.len(),
        i < base_len + rest@.len(),
        anchor_height + base_len + rest@.len() <= u32::MAX,
        hash@ == candidate(base@, base_len as int, rest@)[i as int].spec_hash(),
    ensures
        r == header_fault(
            network,
            anchor_height as nat,
            candidate(base@, base_len as int, rest@),
            i as int,
        ),
{
    let header: Header = candidate_at(base, base_len, rest, i);
    if !target_met(header.bits, hash) {
        Some(HeaderSyncError::InvalidHeaderWork)
    } else if !check_bits(network, anchor_height, base, base_len, rest, i) {
        Some(HeaderSyncError::InvalidBits)
    } else if !check_time(base, base_len, rest, i) {
        Some(HeaderSyncError::InvalidHeaderTimes)
    } else {
        None
    }
}

} // verus!
