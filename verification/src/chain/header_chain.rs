//! The chain of validated headers above the anchor.

use vstd::prelude::*;

use crate::chain::checkpoints::HeaderCheckpoint;
use crate::chain::error::{HeaderPersistenceError, HeaderSyncError};
use crate::chain::header::{hash_eq, Hash256, Header};
use crate::chain::validate::{candidate, check_header, first_fault, header_fault};
use crate::chain::work::{lemma_seq_work_push, pow256, seq_work, ChainWork};
use crate::network::Network;

verus! {

/// What a batch of headers did to the chain.
#[derive(Clone, Copy, Debug, PartialEq, Eq, Structural)]
pub enum HeaderSyncOutcome {
    /// Every header of the batch was in the chain already.
    Unchanged,
    /// The chain was cut back to `fork_height` and the headers of the batch
    /// from position `from` on were put on top. Where `fork_height` is the
    /// old tip nothing was cut.
    Adopted { fork_height: u32, from: usize },
}

/// Whether each header of the batch names the hash of the one before it.
pub open spec fn batch_linked(batch: Seq<Header>) -> bool {
    forall|i: int, j: int|
        0 <= i && j == i + 1 && j < batch.len() ==> (#[trigger] batch[j]).prev_blockhash@
            == (#[trigger] batch[i]).spec_hash()
}

/// The chain as a mathematical value.
pub struct HeaderChainView {
    pub network: Network,
    pub anchor_height: nat,
    pub anchor_hash: Seq<u8>,
    pub headers: Seq<Header>,
    pub reorg_window: nat,
}

impl HeaderChainView {
    /// The height of the last header, or of the anchor when there is none.
    pub open spec fn tip_height(self) -> nat {
        self.anchor_height + self.headers.len()
    }

    /// The header at `height`, for heights above the anchor up to the tip.
    pub open spec fn header_at(self, height: int) -> Header {
        self.headers[height - self.anchor_height - 1]
    }

    /// The block hash at `height`, for heights from the anchor up to the tip.
    pub open spec fn hash_at(self, height: int) -> Seq<u8> {
        if height == self.anchor_height {
            self.anchor_hash
        } else {
            self.header_at(height).spec_hash()
        }
    }

    /// Every header names the hash of the block one below it, the lowest one
    /// the hash of the anchor.
    pub open spec fn linked(self) -> bool {
        &&& self.headers.len() > 0 ==> self.headers[0].prev_blockhash@ == self.anchor_hash
        &&& batch_linked(self.headers)
    }

    /// The lowest height a batch may build on.
    pub open spec fn window_floor(self) -> int {
        if self.tip_height() - self.reorg_window > self.anchor_height {
            self.tip_height() - self.reorg_window
        } else {
            self.anchor_height as int
        }
    }

    /// The highest height from `h` down to `low` whose block hash is `prev`.
    pub open spec fn find_from(self, prev: Seq<u8>, h: int, low: int) -> Option<int>
        decreases h - low + 1,
    {
        if h < low {
            None
        } else if self.hash_at(h) == prev {
            Some(h)
        } else {
            self.find_from(prev, h - 1, low)
        }
    }

    /// The highest height of the chain whose block hash is `hash`.
    pub open spec fn height_of(self, hash: Seq<u8>) -> Option<int> {
        self.find_from(hash, self.tip_height() as int, self.anchor_height as int)
    }

    /// The highest height inside the reorganisation window whose block hash
    /// is `prev`: where a batch that names `prev` first builds on.
    pub open spec fn find_attach(self, prev: Seq<u8>) -> Option<int> {
        self.find_from(prev, self.tip_height() as int, self.window_floor())
    }

    /// How many headers of the batch, counted from position `k` on, repeat
    /// the blocks the chain holds above `attach`, added to `k`.
    pub open spec fn shared_len(self, attach: int, batch: Seq<Header>, k: int) -> int
        decreases batch.len() - k,
    {
        if 0 <= k < batch.len() && attach + 1 + k <= self.tip_height() && self.hash_at(
            attach + 1 + k,
        ) == batch[k].spec_hash() {
            self.shared_len(attach, batch, k + 1)
        } else {
            k
        }
    }

    /// What a batch does to the chain, or why it is turned down.
    pub open spec fn plan(self, batch: Seq<Header>) -> Result<HeaderSyncOutcome, HeaderSyncError> {
        if batch.len() == 0 {
            Err(HeaderSyncError::EmptyMessage)
        } else if !batch_linked(batch) {
            Err(HeaderSyncError::HeadersNotConnected)
        } else {
            match self.find_attach(batch[0].prev_blockhash@) {
                None => Err(HeaderSyncError::FloatingHeaders),
                Some(attach) => {
                    let k = self.shared_len(attach, batch, 0);
                    let fork = attach + k;
                    let idx = fork - self.anchor_height;
                    let cand = candidate(self.headers, idx, batch.skip(k));
                    if k == batch.len() {
                        Ok(HeaderSyncOutcome::Unchanged)
                    } else if self.anchor_height + cand.len() > u32::MAX {
                        Err(HeaderSyncError::ChainTooLong)
                    } else {
                        match first_fault(self.network, self.anchor_height, cand, idx) {
                            Some(e) => Err(e),
                            None => {
                                if fork < self.tip_height() && seq_work(batch.skip(k)) <= seq_work(
                                    self.headers.skip(idx),
                                ) {
                                    Err(HeaderSyncError::LessWorkFork)
                                } else {
                                    Ok(
                                        HeaderSyncOutcome::Adopted {
                                            fork_height: fork as u32,
                                            from: k as usize,
                                        },
                                    )
                                }
                            },
                        }
                    }
                },
            }
        }
    }

    /// The chain after the batch.
    pub open spec fn after(self, batch: Seq<Header>) -> HeaderChainView {
        match self.plan(batch) {
            Ok(HeaderSyncOutcome::Adopted { fork_height, from }) => HeaderChainView {
                headers: candidate(
                    self.headers,
                    fork_height - self.anchor_height,
                    batch.skip(from as int),
                ),
                ..self
            },
            _ => self,
        }
    }
}

impl HeaderChainView {
    /// In a linked chain the header at every height above the anchor names
    /// the hash of the block one below it.
    pub proof fn lemma_prev_hash(self, height: int)
        requires
            self.linked(),
            self.anchor_height < height <= self.tip_height(),
        ensures
            self.header_at(height).prev_blockhash@ == self.hash_at(height - 1),
    {
        let j = height - self.anchor_height - 1;
        if j > 0 {
            assert(self.headers[j].prev_blockhash@ == self.headers[j - 1].spec_hash());
        }
    }

    /// A height found by the search lies between the bounds and holds the
    /// hash looked for.
    pub proof fn lemma_find_from(self, prev: Seq<u8>, h: int, low: int)
        ensures
            self.find_from(prev, h, low) matches Some(a) ==> low <= a <= h && self.hash_at(a)
                == prev,
        decreases h - low + 1,
    {
        if h >= low && self.hash_at(h) != prev {
            self.lemma_find_from(prev, h - 1, low);
        }
    }

    /// The shared run ends inside the batch and inside the chain, and every
    /// header in it repeats the chain's block at its height.
    pub proof fn lemma_shared_len(self, attach: int, batch: Seq<Header>, k: int)
        requires
            0 <= k <= batch.len(),
            attach + k <= self.tip_height(),
        ensures
            k <= self.shared_len(attach, batch, k) <= batch.len(),
            attach + self.shared_len(attach, batch, k) <= self.tip_height(),
            forall|j: int|
                k <= j < self.shared_len(attach, batch, k) ==> self.hash_at(attach + 1 + j)
                    == (#[trigger] batch[j]).spec_hash(),
        decreases batch.len() - k,
    {
        if 0 <= k < batch.len() && attach + 1 + k <= self.tip_height() && self.hash_at(
            attach + 1 + k,
        ) == batch[k].spec_hash() {
            self.lemma_shared_len(attach, batch, k + 1);
        }
    }

    /// Cutting a linked chain at the fork and putting the new headers of a
    /// linked batch on top gives a linked chain.
    pub proof fn lemma_adopt_linked(self, batch: Seq<Header>, attach: int, k: int)
        requires
            self.linked(),
            batch_linked(batch),
            batch.len() > 0,
            self.find_attach(batch[0].prev_blockhash@) == Some(attach),
            k == self.shared_len(attach, batch, 0),
            k < batch.len(),
        ensures
            self.anchor_height <= attach + k <= self.tip_height(),
            (HeaderChainView {
                headers: candidate(self.headers, attach + k - self.anchor_height, batch.skip(k)),
                ..self
            }).linked(),
    {
        self.lemma_find_from(
            batch[0].prev_blockhash@,
            self.tip_height() as int,
            self.window_floor(),
        );
        self.lemma_shared_len(attach, batch, 0);
        let idx = attach + k - self.anchor_height;
        let cand = candidate(self.headers, idx, batch.skip(k));
        assert(cand[idx] == batch[k]);
        if idx == 0 {
            assert(attach + k == self.anchor_height);
            if k > 0 {
                assert(batch[k].prev_blockhash@ == batch[k - 1].spec_hash());
            }
        } else {
            assert(cand[0] == self.headers[0]);
        }
        assert forall|i: int, j: int| 0 <= i && j == i + 1 && j < cand.len() implies (
        #[trigger] cand[j]).prev_blockhash@ == (#[trigger] cand[i]).spec_hash() by {
            if j < idx {
                assert(cand[j] == self.headers[j]);
                assert(cand[i] == self.headers[i]);
            } else if j == idx {
                assert(cand[i] == self.headers[i]);
                assert(self.hash_at(attach + k) == self.headers[i].spec_hash());
                if k > 0 {
                    assert(batch[k].prev_blockhash@ == batch[k - 1].spec_hash());
                }
            } else {
                assert(cand[j] == batch[k + (j - idx)]);
                assert(cand[i] == batch[k + (i - idx)]);
            }
        }
    }
}

impl HeaderChainView {
    /// The heights a locator names, highest first: the tip, then steps back of
    /// 1, 1, 1, 1, 1, 2, 4, 8 and so on while they stay above the anchor, and
    /// last the anchor. `offset` is the distance from the tip reached so far,
    /// `count` the number of heights given out and `step` the next step.
    pub open spec fn locator_heights_from(self, offset: nat, count: nat, step: nat) -> Seq<int>
        decreases
            (if offset < self.headers.len() {
                self.headers.len() - offset
            } else {
                0
            }),
    {
        if offset >= self.headers.len() || step == 0 {
            seq![self.anchor_height as int]
        } else {
            seq![self.tip_height() - offset] + self.locator_heights_from(
                offset + step,
                count + 1,
                if count >= 4 {
                    2 * step
                } else {
                    step
                },
            )
        }
    }

    /// The heights a locator names.
    pub open spec fn locator_heights(self) -> Seq<int> {
        self.locator_heights_from(0, 0, 1)
    }

    /// The block hashes a locator holds: those at the locator heights.
    pub open spec fn locators(self) -> Seq<Seq<u8>> {
        self.locator_heights().map_values(|h: int| self.hash_at(h))
    }

    /// The chain that stored headers give, or why they give none.
    pub open spec fn loaded(
        network: Network,
        anchor_height: nat,
        anchor_hash: Seq<u8>,
        stored: Seq<Header>,
        reorg_window: nat,
    ) -> Result<HeaderChainView, HeaderPersistenceError> {
        let v = HeaderChainView {
            network,
            anchor_height,
            anchor_hash,
            headers: stored,
            reorg_window,
        };
        if anchor_height + stored.len() > u32::MAX {
            Err(HeaderPersistenceError::TooManyHeaders)
        } else if !v.linked() {
            Err(HeaderPersistenceError::Corruption)
        } else {
            Ok(v)
        }
    }

    /// Every locator height lies between the anchor and the tip, the first
    /// is the tip and the last is the anchor.
    pub proof fn lemma_locator_heights(self, offset: nat, count: nat, step: nat)
        requires
            offset <= self.headers.len(),
            step >= 1,
        ensures
            self.locator_heights_from(offset, count, step).len() >= 1,
            self.locator_heights_from(offset, count, step)[0] == self.tip_height() - offset,
            self.locator_heights_from(offset, count, step).last() == self.anchor_height,
            forall|i: int|
                0 <= i < self.locator_heights_from(offset, count, step).len()
                    ==> self.anchor_height <= (#[trigger] self.locator_heights_from(
                    offset,
                    count,
                    step,
                )[i]) <= self.tip_height(),
        decreases self.headers.len() - offset,
    {
        if offset >= self.headers.len() {
        } else {
            let next_step = if count >= 4 {
                2 * step
            } else {
                step
            };
            let rest = self.locator_heights_from(offset + step, count + 1, next_step);
            if offset + step <= self.headers.len() {
                self.lemma_locator_heights(offset + step, count + 1, next_step);
            } else {
                assert(rest =~= seq![self.anchor_height as int]);
            }
            let all = self.locator_heights_from(offset, count, step);
            assert(all =~= seq![self.tip_height() - offset] + rest);
            assert forall|i: int| 0 <= i < all.len() implies self.anchor_height <= (
            #[trigger] all[i]) <= self.tip_height() by {
                if i > 0 {
                    assert(all[i] == rest[i - 1]);
                }
            }
            assert(all.last() == rest.last());
        }
    }
}

impl HeaderChainView {
    /// An adopted batch forks inside the chain, carries the tip above the
    /// fork and leaves the chain linked.
    pub proof fn lemma_adopted(self, batch: Seq<Header>)
        requires
            self.linked(),
            self.tip_height() <= u32::MAX,
            self.plan(batch) is Ok,
            self.plan(batch)->Ok_0 is Adopted,
        ensures
            self.anchor_height <= self.plan(batch)->Ok_0->fork_height <= self.tip_height(),
            self.plan(batch)->Ok_0->fork_height < self.after(batch).tip_height() <= u32::MAX,
            self.plan(batch)->Ok_0->from < batch.len(),
            self.after(batch).headers == candidate(
                self.headers,
                self.plan(batch)->Ok_0->fork_height - self.anchor_height,
                batch.skip(self.plan(batch)->Ok_0->from as int),
            ),
            self.after(batch).linked(),
            self.after(batch).anchor_height == self.anchor_height,
            self.after(batch).anchor_hash == self.anchor_hash,
    {
        let attach = self.find_attach(batch[0].prev_blockhash@)->0;
        self.lemma_find_from(
            batch[0].prev_blockhash@,
            self.tip_height() as int,
            self.window_floor(),
        );
        self.lemma_shared_len(attach, batch, 0);
        let k = self.shared_len(attach, batch, 0);
        self.lemma_adopt_linked(batch, attach, k);
        assert((attach + k) as u32 == attach + k);
        assert(k as usize == k);
    }

    /// At and below the fork, an adopted batch leaves every block as it was.
    pub proof fn lemma_after_keeps(self, batch: Seq<Header>, h: int)
        requires
            self.linked(),
            self.tip_height() <= u32::MAX,
            self.plan(batch) is Ok,
            self.plan(batch)->Ok_0 is Adopted,
            self.anchor_height <= h <= self.plan(batch)->Ok_0->fork_height,
        ensures
            self.after(batch).hash_at(h) == self.hash_at(h),
    {
        self.lemma_adopted(batch);
        let fork = self.plan(batch)->Ok_0->fork_height;
        let cand = self.after(batch).headers;
        if h > self.anchor_height {
            assert(cand[h - self.anchor_height - 1] == self.headers[h - self.anchor_height - 1]);
        }
    }
}

impl HeaderChainView {
    /// No two heights of the chain hold the same block hash.
    pub open spec fn distinct(self) -> bool {
        forall|a: int, b: int|
            self.anchor_height <= a < b <= self.tip_height() ==> #[trigger] self.hash_at(a)
                != #[trigger] self.hash_at(b)
    }

    /// The search finds nothing exactly when no height between the bounds
    /// holds the hash looked for.
    pub proof fn lemma_find_from_none(self, prev: Seq<u8>, h: int, low: int)
        ensures
            self.find_from(prev, h, low) is None <==> forall|x: int|
                low <= x <= h ==> #[trigger] self.hash_at(x) != prev,
        decreases h - low + 1,
    {
        if h >= low {
            self.lemma_find_from_none(prev, h - 1, low);
            if self.hash_at(h) != prev {
                assert forall|x: int| low <= x <= h && (forall|y: int|
                    low <= y <= h - 1 ==> #[trigger] self.hash_at(y) != prev) implies #[trigger] self.hash_at(
                    x,
                ) != prev by {
                    if x < h {
                        assert(self.hash_at(x) != prev);
                    }
                }
            }
        }
    }

    /// Where every header of the batch from position `k` on repeats the
    /// chain's block at its height, the shared run reaches the end of the
    /// batch.
    pub proof fn lemma_shared_all(self, attach: int, batch: Seq<Header>, k: int)
        requires
            0 <= k <= batch.len(),
            forall|j: int|
                k <= j < batch.len() ==> self.repeats(attach, #[trigger] batch[j], j),
        ensures
            self.shared_len(attach, batch, k) == batch.len(),
        decreases batch.len() - k,
    {
        if k < batch.len() {
            assert(self.repeats(attach, batch[k], k));
            assert forall|j: int| k + 1 <= j < batch.len() implies self.repeats(
                attach,
                #[trigger] batch[j],
                j,
            ) by {}
            self.lemma_shared_all(attach, batch, k + 1);
        }
    }

    /// Whether the header at position `j` of a batch repeats the block the
    /// chain holds `j + 1` blocks above `attach`.
    pub open spec fn repeats(self, attach: int, header: Header, j: int) -> bool {
        attach + 1 + j <= self.tip_height() && self.hash_at(attach + 1 + j) == header.spec_hash()
    }

    /// Headers that were stored from a linked chain give that chain again
    /// when they are taken up.
    pub proof fn lemma_reload(self)
        requires
            self.linked(),
            self.tip_height() <= u32::MAX,
        ensures
            HeaderChainView::loaded(
                self.network,
                self.anchor_height,
                self.anchor_hash,
                self.headers,
                self.reorg_window,
            ) == Ok::<HeaderChainView, HeaderPersistenceError>(self),
    {
    }

    /// The locators of a chain begin with the hash of its tip and end with
    /// the hash of its anchor: a peer that answers them sends headers above
    /// the tip and none at or below it.
    pub proof fn lemma_locators_span(self)
        ensures
            self.locators().len() >= 1,
            self.locators()[0] == self.hash_at(self.tip_height() as int),
            self.locators().last() == self.anchor_hash,
    {
        self.lemma_locator_heights(0, 0, 1);
    }

    /// A linked batch is turned down as floating exactly when no block from
    /// the floor of the reorganisation window up to the tip has the hash its
    /// first header builds on. The floor lies as many blocks below the tip as
    /// the window is long, or at the anchor if that is higher: a branch that
    /// forks that many blocks below the tip is judged, and one that forks one
    /// block lower is not.
    pub proof fn lemma_reorg_window(self, batch: Seq<Header>)
        requires
            batch.len() > 0,
            batch_linked(batch),
        ensures
            self.plan(batch) == Err::<HeaderSyncOutcome, HeaderSyncError>(
                HeaderSyncError::FloatingHeaders,
            ) <==> forall|h: int|
                self.window_floor() <= h <= self.tip_height() ==> #[trigger] self.hash_at(h)
                    != batch[0].prev_blockhash@,
            self.window_floor() == (if self.tip_height() - self.reorg_window
                > self.anchor_height {
                self.tip_height() - self.reorg_window
            } else {
                self.anchor_height as int
            }),
    {
        let prev = batch[0].prev_blockhash@;
        self.lemma_find_from_none(prev, self.tip_height() as int, self.window_floor());
        match self.find_attach(prev) {
            None => {},
            Some(attach) => {
                let k = self.shared_len(attach, batch, 0);
                let idx = attach + k - self.anchor_height;
                let cand = candidate(self.headers, idx, batch.skip(k));
                lemma_fault_not_floating(self.network, self.anchor_height, cand, idx);
            },
        }
    }

    /// Taking the same batch a second time changes nothing: where no two
    /// heights of the chain hold the same block hash after the first time,
    /// the second time finds every header in place or turns the batch down,
    /// and the chain stays as the first time left it.
    pub proof fn lemma_sync_twice(self, batch: Seq<Header>)
        requires
            self.linked(),
            self.tip_height() <= u32::MAX,
            self.after(batch).distinct(),
        ensures
            self.after(batch).plan(batch) is Err || self.after(batch).plan(batch) == Ok::<
                HeaderSyncOutcome,
                HeaderSyncError,
            >(HeaderSyncOutcome::Unchanged),
            self.after(batch).after(batch) == self.after(batch),
            self.plan(batch) is Ok ==> self.after(batch).plan(batch) is Ok
                || self.after(batch).plan(batch) == Err::<HeaderSyncOutcome, HeaderSyncError>(
                HeaderSyncError::FloatingHeaders,
            ),
    {
        let w = self.after(batch);
        match self.plan(batch) {
            Ok(HeaderSyncOutcome::Adopted { fork_height, from }) => {
                self.lemma_adopted(batch);
                let prev = batch[0].prev_blockhash@;
                let a = self.find_attach(prev)->0;
                self.lemma_find_from(prev, self.tip_height() as int, self.window_floor());
                self.lemma_shared_len(a, batch, 0);
                let k = self.shared_len(a, batch, 0);
                assert(from == k);
                assert(fork_height == a + k);
                self.lemma_after_keeps(batch, a);
                match w.find_attach(prev) {
                    None => {},
                    Some(b) => {
                        w.lemma_find_from(prev, w.tip_height() as int, w.window_floor());
                        if a < b {
                            assert(w.hash_at(a) != w.hash_at(b));
                        } else if b < a {
                            assert(w.hash_at(b) != w.hash_at(a));
                        }
                        assert(a == b);
                        assert forall|j: int| 0 <= j < batch.len() implies w.repeats(
                            a,
                            #[trigger] batch[j],
                            j,
                        ) by {
                            if j < k {
                                self.lemma_after_keeps(batch, a + 1 + j);
                            } else {
                                assert(w.header_at(a + 1 + j) == batch[j]);
                            }
                        }
                        w.lemma_shared_all(a, batch, 0);
                    },
                }
            },
            _ => {},
        }
    }
}

/// A fault of a header is never that the batch floats.
pub proof fn lemma_fault_not_floating(network: Network, anchor_height: nat, cand: Seq<Header>, from: int)
    ensures
        first_fault(network, anchor_height, cand, from) != Some(HeaderSyncError::FloatingHeaders),
    decreases cand.len() - from,
{
    if 0 <= from < cand.len() {
        if header_fault(network, anchor_height, cand, from) is None {
            lemma_fault_not_floating(network, anchor_height, cand, from + 1);
        }
    }
}

/// The validated headers above an anchor, with their hashes.
pub struct HeaderChain {
    network: Network,
    anchor: HeaderCheckpoint,
    headers: Vec<Header>,
    hashes: Vec<Hash256>,
    reorg_window: u32,
}

impl View for HeaderChain {
    type V = HeaderChainView;

    closed spec fn view(&self) -> HeaderChainView {
        HeaderChainView {
            network: self.network,
            anchor_height: self.anchor.height as nat,
            anchor_hash: self.anchor.hash@,
            headers: self.headers@,
            reorg_window: self.reorg_window as nat,
        }
    }
}

impl HeaderChain {
    /// The invariant of the chain: the headers are linked, the stored hashes
    /// are theirs, and the tip's height fits in 32 bits.
    pub closed spec fn wf(&self) -> bool {
        &&& self.hashes@.len() == self.headers@.len()
        &&& self.anchor.height + self.headers@.len() <= u32::MAX
        &&& forall|i: int|
            0 <= i < self.headers@.len() ==> (#[trigger] self.hashes@[i])@
                == self.headers@[i].spec_hash()
        &&& self@.linked()
    }

    /// In a well-formed chain every header names the hash of the block below
    /// it, the lowest one the hash of the anchor, and the tip's height fits
    /// in 32 bits.
    pub proof fn lemma_linked(&self)
        requires
            self.wf(),
        ensures
            self@.linked(),
            self@.tip_height() <= u32::MAX,
    {
    }

    /// A chain that holds the anchor alone.
    pub fn new(network: Network, anchor: HeaderCheckpoint, reorg_window: u32) -> (r: HeaderChain)
        ensures
            r.wf(),
            r@.network == network,
            r@.anchor_height == anchor.height,
            r@.anchor_hash == anchor.hash@,
            r@.headers.len() == 0,
            r@.reorg_window == reorg_window,
    {
        HeaderChain { network, anchor, headers: Vec::new(), hashes: Vec::new(), reorg_window }
    }

    /// The network whose rules the chain applies.
    pub fn network(&self) -> (r: Network)
        ensures
            r == self@.network,
    {
        self.network
    }

    /// The anchor the chain was started from.
    pub fn anchor(&self) -> (r: HeaderCheckpoint)
        ensures
            r.height == self@.anchor_height,
            r.hash@ == self@.anchor_hash,
    {
        self.anchor
    }

    /// How many blocks a competing branch may replace.
    pub fn reorg_window(&self) -> (r: u32)
        ensures
            r == self@.reorg_window,
    {
        self.reorg_window
    }

    /// The number of headers above the anchor.
    pub fn len(&self) -> (r: usize)
        ensures
            r == self@.headers.len(),
    {
        self.headers.len()
    }

    /// The height of the tip.
    pub fn height(&self) -> (r: u32)
        requires
            self.wf(),
        ensures
            r == self@.tip_height(),
    {
        self.anchor.height + self.headers.len() as u32
    }

    /// The block hash of the tip.
    pub fn tip_hash(&self) -> (r: Hash256)
        requires
            self.wf(),
        ensures
            r@ == self@.hash_at(self@.tip_height() as int),
    {
        if self.hashes.len() == 0 {
            self.anchor.hash
        } else {
            self.hashes[self.hashes.len() - 1]
        }
    }

    /// The block hash at `height`, if the chain reaches it.
    pub fn hash_at(&self, height: u32) -> (r: Option<Hash256>)
        requires
            self.wf(),
        ensures
            r is Some <==> self@.anchor_height <= height <= self@.tip_height(),
            r is Some ==> r->0@ == self@.hash_at(height as int),
    {
        if height < self.anchor.height {
            None
        } else if height == self.anchor.height {
            Some(self.anchor.hash)
        } else {
            let i: usize = (height - self.anchor.height - 1) as usize;
            if i < self.hashes.len() {
                Some(self.hashes[i])
            } else {
                None
            }
        }
    }

    /// The header at `height`, if the chain holds one there.
    pub fn header_at(&self, height: u32) -> (r: Option<Header>)
        requires
            self.wf(),
        ensures
            r is Some <==> self@.anchor_height < height <= self@.tip_height(),
            r is Some ==> r->0 == self@.header_at(height as int),
    {
        if height <= self.anchor.height {
            None
        } else {
            let i: usize = (height - self.anchor.height - 1) as usize;
            if i < self.headers.len() {
                Some(self.headers[i])
            } else {
                None
            }
        }
    }

    /// The highest height whose block hash is `hash`, if there is one.
    pub fn height_of(&self, hash: &Hash256) -> (r: Option<u32>)
        requires
            self.wf(),
        ensures
            r is Some <==> self@.height_of(hash@) is Some,
            r is Some ==> r->0 == self@.height_of(hash@)->0,
            r is Some ==> self@.anchor_height <= r->0 <= self@.tip_height() && self@.hash_at(
                r->0 as int,
            ) == hash@,
    {
        let mut i: usize = self.hashes.len();
        while i > 0
            invariant
                self.wf(),
                i <= self.hashes@.len(),
                self@.height_of(hash@) == self@.find_from(
                    hash@,
                    self@.anchor_height + i,
                    self@.anchor_height as int,
                ),
            decreases i,
        {
            if hash_eq(&self.hashes[i - 1], hash) {
                return Some(self.anchor.height + i as u32);
            }
            i -= 1;
        }
        assert(self@.find_from(hash@, self@.anchor_height - 1, self@.anchor_height as int) is None);
        if hash_eq(&self.anchor.hash, hash) {
            Some(self.anchor.height)
        } else {
            None
        }
    }
}

impl HeaderChain {
    /// Looks for the highest block inside the reorganisation window whose
    /// hash is `prev`.
    fn find_attach(&self, prev: &Hash256) -> (r: Option<u32>)
        requires
            self.wf(),
        ensures
            r is Some <==> self@.find_attach(prev@) is Some,
            r is Some ==> r->0 == self@.find_attach(prev@)->0,
            r is Some ==> self@.anchor_height <= r->0 <= self@.tip_height(),
    {
        let tip: u32 = self.height();
        let floor: u32 = if tip - self.anchor.height > self.reorg_window {
            tip - self.reorg_window
        } else {
            self.anchor.height
        };
        let mut h: u32 = tip;
        while h > floor
            invariant
                self.wf(),
                tip == self@.tip_height(),
                floor == self@.window_floor(),
                floor <= h <= tip,
                self@.find_attach(prev@) == self@.find_from(prev@, h as int, floor as int),
            decreases h - floor,
        {
            let i: usize = (h - self.anchor.height - 1) as usize;
            if hash_eq(&self.hashes[i], prev) {
                return Some(h);
            }
            h -= 1;
        }
        let at_floor: Hash256 = if floor == self.anchor.height {
            self.anchor.hash
        } else {
            self.hashes[(floor - self.anchor.height - 1) as usize]
        };
        assert(self@.find_from(prev@, floor - 1, floor as int) is None);
        if hash_eq(&at_floor, prev) {
            Some(floor)
        } else {
            None
        }
    }

    /// Counts how many leading headers of the batch repeat the blocks above
    /// `attach`.
    fn shared_prefix(&self, attach: u32, batch: &Vec<Header>, hashes: &Vec<Hash256>) -> (k: usize)
        requires
            self.wf(),
            self@.anchor_height <= attach <= self@.tip_height(),
            hashes_of(hashes@, batch@),
        ensures
            k == self@.shared_len(attach as int, batch@, 0),
            k <= batch@.len(),
            attach + k <= self@.tip_height(),
    {
        let first: usize = (attach - self.anchor.height) as usize;
        let mut k: usize = 0;
        while k < batch.len()
            invariant
                self.wf(),
                hashes_of(hashes@, batch@),
                first == attach - self@.anchor_height,
                k <= batch@.len(),
                first + k <= self.hashes@.len(),
                self@.shared_len(attach as int, batch@, 0) == self@.shared_len(
                    attach as int,
                    batch@,
                    k as int,
                ),
            decreases batch@.len() - k,
        {
            if first + k >= self.hashes.len() {
                return k;
            }
            if !hash_eq(&self.hashes[first + k], &hashes[k]) {
                return k;
            }
            k += 1;
        }
        k
    }

    /// Takes a batch of headers from a peer.
    ///
    /// The batch must be linked in itself and build on a block inside the
    /// reorganisation window. Headers the chain holds already are passed
    /// over. The others are checked one by one against the proof of work, the
    /// retarget and the time rule. Where they leave the tip in place they are
    /// appended; where they compete with a part of the chain they replace it
    /// if they hold more work. A rejected batch leaves the chain as it was.
    #[verifier::loop_isolation(false)]
    pub fn sync(&mut self, batch: &Vec<Header>) -> (r: Result<HeaderSyncOutcome, HeaderSyncError>)
        requires
            old(self).wf(),
        ensures
            final(self).wf(),
            r == old(self)@.plan(batch@),
            final(self)@ == old(self)@.after(batch@),
    {
        if batch.len() == 0 {
            return Err(HeaderSyncError::EmptyMessage);
        }
        let hashes: Vec<Hash256> = match hash_batch(batch) {
            None => {
                return Err(HeaderSyncError::HeadersNotConnected);
            },
            Some(h) => h,
        };
        let attach: u32 = match self.find_attach(&batch[0].prev_blockhash) {
            None => {
                return Err(HeaderSyncError::FloatingHeaders);
            },
            Some(a) => a,
        };
        let k: usize = self.shared_prefix(attach, batch, &hashes);
        if k == batch.len() {
            return Ok(HeaderSyncOutcome::Unchanged);
        }
        let fork_height: u32 = attach + k as u32;
        let fork_idx: usize = (fork_height - self.anchor.height) as usize;
        let rest: Vec<Header> = tail(batch, k);
        let rest_hashes: Vec<Hash256> = tail(&hashes, k);
        let ghost start = self@;
        let ghost cand = candidate(start.headers, fork_idx as int, rest@);
        if rest.len() > (u32::MAX - fork_height) as usize {
            return Err(HeaderSyncError::ChainTooLong);
        }
        let mut i: usize = fork_idx;
        while i < fork_idx + rest.len()
            invariant
                self.wf(),
                self@ == start,
                fork_idx <= self.headers@.len(),
                fork_idx <= i <= fork_idx + rest@.len(),
                start.anchor_height + fork_idx + rest@.len() <= u32::MAX,
                cand == candidate(start.headers, fork_idx as int, rest@),
                hashes_of(rest_hashes@, rest@),
                first_fault(start.network, start.anchor_height, cand, fork_idx as int)
                    == first_fault(start.network, start.anchor_height, cand, i as int),
            decreases fork_idx + rest@.len() - i,
        {
            assert(cand[i as int] == rest@[i - fork_idx]);
            match check_header(
                self.network,
                self.anchor.height,
                &self.headers,
                fork_idx,
                &rest,
                i,
                &rest_hashes[i - fork_idx],
            ) {
                Some(e) => {
                    return Err(e);
                },
                None => {},
            }
            i += 1;
        }
        if fork_idx < self.headers.len() {
            let ours: ChainWork = work_from(&self.headers, fork_idx);
            let theirs: ChainWork = work_from(&rest, 0);
            assert(rest@.skip(0) =~= rest@);
            if !theirs.exceeds(&ours) {
                return Err(HeaderSyncError::LessWorkFork);
            }
        }
        self.headers.truncate(fork_idx);
        self.hashes.truncate(fork_idx);
        let mut j: usize = 0;
        while j < rest.len()
            invariant
                j <= rest@.len(),
                hashes_of(rest_hashes@, rest@),
                self.network == start.network,
                self.anchor.height == start.anchor_height,
                self.anchor.hash@ == start.anchor_hash,
                self.reorg_window == start.reorg_window,
                self.headers@ == start.headers.take(fork_idx as int) + rest@.take(j as int),
                hashes_of(self.hashes@, self.headers@),
            decreases rest@.len() - j,
        {
            self.headers.push(rest[j]);
            self.hashes.push(rest_hashes[j]);
            assert(rest@.take(j + 1) =~= rest@.take(j as int).push(rest@[j as int]));
            assert(self.headers@ =~= start.headers.take(fork_idx as int) + rest@.take(j + 1));
            j += 1;
        }
        proof {
            assert(rest@.take(j as int) =~= rest@);
            start.lemma_adopt_linked(batch@, attach as int, k as int);
            assert(self@ == start.after(batch@));
        }
        Ok(HeaderSyncOutcome::Adopted { fork_height, from: k })
    }
}

/// The elements of `v` from position `from` on.
pub fn tail<T: Copy>(v: &Vec<T>, from: usize) -> (r: Vec<T>)
    requires
        from <= v@.len(),
    ensures
        r@ == v@.skip(from as int),
{
    let mut out: Vec<T> = Vec::new();
    let mut i: usize = from;
    while i < v.len()
        invariant
            from <= i <= v@.len(),
            out@ == v@.subrange(from as int, i as int),
        decreases v@.len() - i,
    {
        out.push(v[i]);
        assert(out@ =~= v@.subrange(from as int, i + 1));
        i += 1;
    }
    assert(out@ =~= v@.skip(from as int));
    out
}

impl HeaderChain {
    /// Takes up the headers that a store holds for this anchor. They are
    /// accepted when they chain up from the anchor and fit below the largest
    /// height; the rules of proof of work were applied before they were
    /// stored and are not applied again.
    pub fn load(
        network: Network,
        anchor: HeaderCheckpoint,
        stored: Vec<Header>,
        reorg_window: u32,
    ) -> (r: Result<HeaderChain, HeaderPersistenceError>)
        ensures
            r matches Ok(c) ==> c.wf() && Ok::<HeaderChainView, HeaderPersistenceError>(c@)
                == HeaderChainView::loaded(
                network,
                anchor.height as nat,
                anchor.hash@,
                stored@,
                reorg_window as nat,
            ),
            r matches Err(e) ==> Err::<HeaderChainView, HeaderPersistenceError>(e)
                == HeaderChainView::loaded(
                network,
                anchor.height as nat,
                anchor.hash@,
                stored@,
                reorg_window as nat,
            ),
    {
        if stored.len() > (u32::MAX - anchor.height) as usize {
            return Err(HeaderPersistenceError::TooManyHeaders);
        }
        let hashes: Vec<Hash256> = match hash_batch(&stored) {
            None => {
                return Err(HeaderPersistenceError::Corruption);
            },
            Some(h) => h,
        };
        if stored.len() > 0 {
            if !hash_eq(&stored[0].prev_blockhash, &anchor.hash) {
                return Err(HeaderPersistenceError::Corruption);
            }
        }
        Ok(HeaderChain { network, anchor, headers: stored, hashes, reorg_window })
    }

    /// The headers above the anchor, lowest first: what a store keeps.
    pub fn stored_headers(&self) -> (r: Vec<Header>)
        ensures
            r@ == self@.headers,
    {
        tail(&self.headers, 0)
    }

    /// The block hashes that tell a peer where this chain stands: the tip
    /// first, then ever sparser blocks below it, the anchor last.
    pub fn locators(&self) -> (r: Vec<Hash256>)
        requires
            self.wf(),
        ensures
            r.deep_view() == self@.locators(),
    {
        let n: usize = self.hashes.len();
        let mut out: Vec<Hash256> = Vec::new();
        let mut offset: u64 = 0;
        let mut count: u64 = 0;
        let mut step: u64 = 1;
        let ghost mut heights: Seq<int> = Seq::empty();
        while offset < n as u64
            invariant
                self.wf(),
                n == self.headers@.len(),
                offset <= count * 0x1_0000_0000,
                count <= offset,
                1 <= step <= offset + 1,
                offset <= u32::MAX as u64 + 1 + u32::MAX as u64,
                self@.locator_heights() == heights + self@.locator_heights_from(
                    offset as nat,
                    count as nat,
                    step as nat,
                ),
                out@.len() == heights.len(),
                forall|i: int|
                    0 <= i < heights.len() ==> (#[trigger] out@[i])@ == self@.hash_at(heights[i]),
            decreases
                (if offset < n {
                    n - offset
                } else {
                    0
                }),
        {
            out.push(self.hashes[n - 1 - offset as usize]);
            proof {
                let next_step = if count >= 4 {
                    2 * step
                } else {
                    step as int
                };
                assert(heights + (seq![self@.tip_height() - offset]
                    + self@.locator_heights_from(
                    (offset + step) as nat,
                    (count + 1) as nat,
                    next_step as nat,
                )) =~= heights.push(self@.tip_height() - offset) + self@.locator_heights_from(
                    (offset + step) as nat,
                    (count + 1) as nat,
                    next_step as nat,
                ));
                heights = heights.push(self@.tip_height() - offset);
            }
            offset = offset + step;
            if count >= 4 {
                step = 2 * step;
            }
            count = count + 1;
        }
        out.push(self.anchor.hash);
        proof {
            assert(self@.locator_heights() =~= heights.push(self@.anchor_height as int));
            let all = self@.locator_heights();
            assert forall|i: int| 0 <= i < all.len() implies (#[trigger] out@[i])@
                == self@.hash_at(all[i]) by {
                if i < heights.len() {
                    assert(all[i] == heights[i]);
                }
            }
            assert(out.deep_view().len() == out@.len());
            assert forall|i: int| 0 <= i < all.len() implies out.deep_view()[i]
                == self@.locators()[i] by {
                assert(out.deep_view()[i] == out@[i]@);
            }
            assert(out.deep_view() =~= self@.locators());
        }
        out
    }
}

/// The hashes of the headers of a batch, or `None` where some header does
/// not name the hash of the one before it.
pub fn hash_batch(batch: &Vec<Header>) -> (r: Option<Vec<Hash256>>)
    ensures
        r is Some <==> batch_linked(batch@),
        r is Some ==> hashes_of(r->0@, batch@),
{
    let mut hashes: Vec<Hash256> = Vec::new();
    let mut i: usize = 0;
    while i < batch.len()
        invariant
            i <= batch@.len(),
            hashes_of(hashes@, batch@.take(i as int)),
            batch_linked(batch@.take(i as int)),
        decreases batch@.len() - i,
    {
        let h: Hash256 = batch[i].block_hash();
        if i > 0 {
            if !hash_eq(&batch[i].prev_blockhash, &hashes[i - 1]) {
                assert(batch@.take(i as int)[i - 1] == batch@[i - 1]);
                assert(batch@[i as int].prev_blockhash@ != batch@[i - 1].spec_hash());
                assert(!batch_linked(batch@));
                return None;
            }
        }
        hashes.push(h);
        proof {
            let done = batch@.take(i as int);
            let next = batch@.take(i + 1);
            assert forall|a: int, b: int| 0 <= a && b == a + 1 && b < next.len() implies (
            #[trigger] next[b]).prev_blockhash@ == (#[trigger] next[a]).spec_hash() by {
                if b < i {
                    assert(done[b] == next[b]);
                    assert(done[a] == next[a]);
                } else {
                    assert(done[a] == next[a]);
                }
            }
            assert forall|j: int| 0 <= j < next.len() implies (#[trigger] hashes@[j])@
                == next[j].spec_hash() by {
                if j < i {
                    assert(done[j] == next[j]);
                }
            }
        }
        i += 1;
    }
    assert(batch@.take(i as int) =~= batch@);
    Some(hashes)
}

/// `hashes` holds the block hash of each header of `headers`, in order.
pub open spec fn hashes_of(hashes: Seq<Hash256>, headers: Seq<Header>) -> bool {
    &&& hashes.len() == headers.len()
    &&& forall|i: int| 0 <= i < headers.len() ==> (#[trigger] hashes[i])@ == headers[i].spec_hash()
}

/// The sum of the work of the headers from position `from` on.
pub fn work_from(headers: &Vec<Header>, from: usize) -> (w: ChainWork)
    requires
        from <= headers@.len(),
    ensures
        w.value() == seq_work(headers@.skip(from as int)),
{
    let mut acc: ChainWork = ChainWork::zero();
    let mut j: usize = from;
    assert(headers@.subrange(from as int, from as int).len() == 0);
    while j < headers.len()
        invariant
            from <= j <= headers@.len(),
            acc.value() == seq_work(headers@.subrange(from as int, j as int)),
            acc.value() <= (j - from) * pow256(),
        decreases headers@.len() - j,
    {
        proof {
            acc.lemma_room((j - from) as nat);
            lemma_seq_work_push(headers@.subrange(from as int, j as int), headers@[j as int]);
            assert(headers@.subrange(from as int, j + 1) =~= headers@.subrange(
                from as int,
                j as int,
            ).push(headers@[j as int]));
        }
        let ghost before = acc.value();
        acc = acc.add_block(headers[j].bits);
        assert(acc.value() <= (j + 1 - from) * pow256()) by (nonlinear_arith)
            requires
                acc.value() < before + pow256(),
                before <= (j - from) * pow256(),
        ;
        j += 1;
    }
    assert(headers@.subrange(from as int, j as int) =~= headers@.skip(from as int));
    acc
}

} // verus!
