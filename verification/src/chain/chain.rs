//! Everything the node knows about the block chain: headers, filter headers,
//! filters and the blocks still to fetch.

use vstd::prelude::*;

use crate::chain::cfheaders::{
    Attestation, AttestationView, CFHeaderSyncOutcome, CommitmentView, FilterCommitment,
    FilterHeaderChain, FilterHeaderChainView, OutcomeView,
};
use crate::chain::checkpoints::HeaderCheckpoint;
use crate::chain::error::{
    BlockScanError, CFHeaderSyncError, CFilterSyncError, HeaderPersistenceError, HeaderSyncError,
};
use crate::chain::header::{hash_eq, Hash256, Header};
use crate::chain::header_chain::{tail, HeaderChain, HeaderChainView, HeaderSyncOutcome};
use crate::network::Network;
use crate::primitives::{
    filter_count_in_range, filter_match_any, merkle_root, sha256d, spec_filter_match,
    spec_merkle_root, spec_sha256d, MAX_FILTER_LEN,
};

verus! {

/// The largest number of filter headers asked for at once.
pub const CF_HEADER_BATCH_SIZE: u32 = 2000;

/// The largest number of filters asked for at once.
pub const FILTER_BATCH_SIZE: u32 = 1000;

/// A peer's answer to a request for filter headers.
#[derive(Debug)]
pub struct CFHeaders {
    pub stop_hash: Hash256,
    pub previous_filter_header: Hash256,
    pub filter_hashes: Vec<Hash256>,
}

/// A peer's answer to a request for filters: one filter and its block.
#[derive(Debug)]
pub struct CFilter {
    pub block_hash: Hash256,
    pub contents: Vec<u8>,
}

/// An output of a transaction, named by the transaction and its position.
#[derive(Clone, Copy, Debug)]
pub struct OutPoint {
    pub txid: Hash256,
    pub vout: u32,
}

/// What the chain reads of a transaction: its id, the outputs it spends and
/// the scripts of the outputs it makes.
#[derive(Debug)]
pub struct Transaction {
    pub txid: Hash256,
    pub inputs: Vec<OutPoint>,
    pub outputs: Vec<Vec<u8>>,
}

/// A block as the chain reads it.
#[derive(Debug)]
pub struct Block {
    pub header: Header,
    pub txdata: Vec<Transaction>,
}

/// A block whose filter matched and that is still to be fetched.
#[derive(Clone, Copy, Debug)]
pub struct QueuedBlock {
    pub height: u32,
    pub hash: Hash256,
}

/// A queued block as a mathematical value.
pub struct QueuedView {
    pub height: nat,
    pub hash: Seq<u8>,
}

impl View for QueuedBlock {
    type V = QueuedView;

    open spec fn view(&self) -> QueuedView {
        QueuedView { height: self.height as nat, hash: self.hash@ }
    }
}

/// An outpoint as a mathematical value.
pub struct OutPointView {
    pub txid: Seq<u8>,
    pub vout: u32,
}

impl View for OutPoint {
    type V = OutPointView;

    open spec fn view(&self) -> OutPointView {
        OutPointView { txid: self.txid@, vout: self.vout }
    }
}

/// A transaction as a mathematical value.
pub struct TransactionView {
    pub txid: Seq<u8>,
    pub inputs: Seq<OutPointView>,
    pub outputs: Seq<Seq<u8>>,
}

/// The views of a list of outpoints.
pub open spec fn outpoints_view(points: Seq<OutPoint>) -> Seq<OutPointView> {
    points.map_values(|o: OutPoint| o@)
}

impl View for Transaction {
    type V = TransactionView;

    open spec fn view(&self) -> TransactionView {
        TransactionView {
            txid: self.txid@,
            inputs: outpoints_view(self.inputs@),
            outputs: self.outputs.deep_view(),
        }
    }
}

/// The views of a list of transactions.
pub open spec fn txs_view(txs: Seq<Transaction>) -> Seq<TransactionView> {
    txs.map_values(|t: Transaction| t@)
}

/// The ids of a list of transactions.
pub open spec fn txids_of(txs: Seq<TransactionView>) -> Seq<Seq<u8>> {
    txs.map_values(|t: TransactionView| t.txid)
}

/// What the node tells the client about a fetched block: its place in the
/// chain and the ids of the transactions that concern the client.
#[derive(Debug)]
pub struct IndexedBlock {
    pub height: u32,
    pub hash: Hash256,
    pub transactions: Vec<Hash256>,
}

/// A filter that was checked against its recorded hash, with its block.
#[derive(Debug)]
pub struct IndexedFilter {
    height: u32,
    block_hash: Hash256,
    contents: Vec<u8>,
}

impl IndexedFilter {
    /// The height of the block.
    pub closed spec fn spec_height(&self) -> u32 {
        self.height
    }

    /// The hash of the block.
    pub closed spec fn spec_block_hash(&self) -> Seq<u8> {
        self.block_hash@
    }

    /// The bytes of the filter.
    pub closed spec fn spec_contents(&self) -> Seq<u8> {
        self.contents@
    }

    /// A filter of the block at `height` with hash `block_hash`.
    pub fn new(height: u32, block_hash: Hash256, contents: Vec<u8>) -> (r: IndexedFilter)
        ensures
            r.spec_height() == height,
            r.spec_block_hash() == block_hash@,
            r.spec_contents() == contents@,
    {
        IndexedFilter { height, block_hash, contents }
    }

    /// The height of the block.
    pub fn height(&self) -> (r: u32)
        ensures
            r == self.spec_height(),
    {
        self.height
    }

    /// The hash of the block.
    pub fn block_hash(&self) -> (r: Hash256)
        ensures
            r@ == self.spec_block_hash(),
    {
        self.block_hash
    }

    /// The bytes of the filter.
    pub fn contents(&self) -> (r: Vec<u8>)
        ensures
            r@ == self.spec_contents(),
    {
        let r = crate::chain::header_chain::tail(&self.contents, 0);
        assert(r@ =~= self.contents@);
        r
    }

    /// Whether the filter holds one of `scripts`, or `None` where the filter
    /// cannot be read.
    pub fn contains_any(&self, scripts: &Vec<Vec<u8>>) -> (r: Option<bool>)
        ensures
            r == filter_reading(self.spec_contents(), self.spec_block_hash(), scripts.deep_view()),
    {
        read_filter(&self.contents, &self.block_hash, scripts)
    }
}

/// What a filter says of a list of scripts: whether it holds one of them, or
/// `None` where it cannot be read, because it is longer than a message can
/// be, because the number of elements it opens with is out of range, or
/// because it ends too early.
pub open spec fn filter_reading(content: Seq<u8>, block_hash: Seq<u8>, scripts: Seq<Seq<u8>>) -> Option<
    bool,
> {
    if content.len() <= MAX_FILTER_LEN && filter_count_in_range(content) {
        spec_filter_match(content, block_hash, scripts)
    } else {
        None
    }
}

/// Reads a filter for a list of scripts.
pub fn read_filter(content: &Vec<u8>, block_hash: &Hash256, scripts: &Vec<Vec<u8>>) -> (r: Option<bool>)
    ensures
        r == filter_reading(content@, block_hash@, scripts.deep_view()),
{
    if content.len() > MAX_FILTER_LEN || !filter_count_ok(content) {
        None
    } else {
        filter_match_any(content, block_hash, scripts)
    }
}

/// What a filter did to the chain.
#[derive(Clone, Copy, Debug, PartialEq, Eq, Structural)]
pub enum FilterSyncOutcome {
    /// The filter of this block was held already.
    AlreadyHeld,
    /// The filter was checked and stored. `matched` says whether it can be
    /// read and holds one of the watched scripts.
    Stored { height: u32, matched: bool },
}

/// Whether the transaction pays to one of `scripts`.
pub open spec fn pays_watched(tx: TransactionView, scripts: Seq<Seq<u8>>) -> bool {
    exists|o: int| 0 <= o < tx.outputs.len() && scripts.contains(#[trigger] tx.outputs[o])
}

/// Whether the transaction spends one of `watched`.
pub open spec fn spends_watched(tx: TransactionView, watched: Seq<OutPointView>) -> bool {
    exists|i: int| 0 <= i < tx.inputs.len() && watched.contains(#[trigger] tx.inputs[i])
}

/// The outpoints among the first `upto` outputs of the transaction that pay
/// to one of `scripts`, in order. Outputs beyond the range of an output index
/// are passed over.
pub open spec fn paid_outpoints(tx: TransactionView, scripts: Seq<Seq<u8>>, upto: int) -> Seq<
    OutPointView,
>
    decreases upto,
{
    if upto <= 0 {
        Seq::empty()
    } else if upto - 1 <= u32::MAX && scripts.contains(tx.outputs[upto - 1]) {
        paid_outpoints(tx, scripts, upto - 1).push(
            OutPointView { txid: tx.txid, vout: (upto - 1) as u32 },
        )
    } else {
        paid_outpoints(tx, scripts, upto - 1)
    }
}

/// Goes through transactions in order. A transaction concerns the client
/// when it pays to a watched script or spends an outpoint that is watched by
/// then. Gives the ids of those transactions and the outpoints watched at
/// the end.
pub open spec fn scan_txs(
    txs: Seq<TransactionView>,
    scripts: Seq<Seq<u8>>,
    watched: Seq<OutPointView>,
) -> (Seq<Seq<u8>>, Seq<OutPointView>)
    decreases txs.len(),
{
    if txs.len() == 0 {
        (Seq::empty(), watched)
    } else {
        let (found, w) = scan_txs(txs.drop_last(), scripts, watched);
        let tx = txs.last();
        let hit = pays_watched(tx, scripts) || spends_watched(tx, w);
        (
            if hit {
                found.push(tx.txid)
            } else {
                found
            },
            w + paid_outpoints(tx, scripts, tx.outputs.len() as int),
        )
    }
}

/// Whether a block at `height` or with hash `hash` is queued.
pub open spec fn queue_has(queue: Seq<QueuedView>, height: nat, hash: Seq<u8>) -> bool {
    exists|i: int|
        0 <= i < queue.len() && ((#[trigger] queue[i]).height == height || queue[i].hash == hash)
}

/// The position of the first queued block with hash `hash`, from position
/// `from` on.
pub open spec fn queue_position(queue: Seq<QueuedView>, hash: Seq<u8>, from: int) -> Option<int>
    decreases queue.len() - from,
{
    if from < 0 || from >= queue.len() {
        None
    } else if queue[from].hash == hash {
        Some(from)
    } else {
        queue_position(queue, hash, from + 1)
    }
}

/// A request for the filter headers or the filters of a run of blocks.
#[derive(Clone, Copy, Debug)]
pub struct FilterRange {
    pub start_height: u32,
    pub stop_hash: Hash256,
}

/// What the header store must do to hold the chain again: cut back to
/// `rewind_to`, then append `headers`.
#[derive(Debug)]
pub struct StoreUpdate {
    pub rewind_to: u32,
    pub headers: Vec<Header>,
}

/// The chain as a mathematical value.
pub struct ChainView {
    pub headers: HeaderChainView,
    pub cf: FilterHeaderChainView,
    pub filter_base: nat,
    pub filters: Seq<Option<Seq<u8>>>,
    pub queue: Seq<QueuedView>,
    pub scripts: Seq<Seq<u8>>,
    pub watched: Seq<OutPointView>,
    pub best_known_height: nat,
    pub persisted: nat,
}

impl ChainView {
    /// The height of the highest block with a recorded filter header.
    pub open spec fn cf_tip(self) -> nat {
        self.filter_base + self.cf.entries.len()
    }

    /// The height at which a request for filter headers stops: the tip, or
    /// the last of `batch` blocks above the recorded ones if that is lower.
    pub open spec fn cf_stop(self, batch: nat) -> nat {
        if self.headers.tip_height() - (self.cf_tip() + 1) >= batch {
            self.cf_tip() + batch
        } else {
            self.headers.tip_height()
        }
    }

    /// The height at which a request for filters from `start` on stops: the
    /// last recorded filter header, or the last of `batch` blocks from
    /// `start` on if that is lower.
    pub open spec fn filter_stop(self, start: nat, batch: nat) -> nat {
        if self.cf_tip() - start >= batch {
            (start + batch - 1) as nat
        } else {
            self.cf_tip()
        }
    }

    /// Headers are synced once the tip has reached the best height any peer
    /// has told of.
    pub open spec fn headers_synced(self) -> bool {
        self.headers.tip_height() >= self.best_known_height
    }

    /// Filter headers are synced once every block above the filter base up to
    /// the tip has one.
    pub open spec fn cf_headers_synced(self) -> bool {
        self.cf_tip() >= self.headers.tip_height()
    }

    /// Whether the filter of every block with a filter header is held.
    pub open spec fn all_filters_present(self) -> bool {
        forall|i: int| 0 <= i < self.filters.len() ==> (#[trigger] self.filters[i]) is Some
    }

    /// Filters are synced once filter headers are and every filter is held.
    pub open spec fn filters_synced(self) -> bool {
        self.cf_headers_synced() && self.all_filters_present()
    }

    /// Every filter held hashes to the filter hash recorded for its block.
    pub open spec fn filters_match(self) -> bool {
        forall|i: int|
            0 <= i < self.filters.len() ==> ((#[trigger] self.filters[i]) matches Some(bytes)
                ==> spec_sha256d(bytes) == self.cf.entries[i].hash)
    }

    /// No block is queued twice, and every queued block is a block of the
    /// chain above the filter base.
    pub open spec fn queue_ok(self) -> bool {
        &&& forall|i: int, j: int|
            0 <= i < j < self.queue.len() ==> (#[trigger] self.queue[i]).height
                != (#[trigger] self.queue[j]).height && self.queue[i].hash != self.queue[j].hash
        &&& forall|i: int|
            0 <= i < self.queue.len() ==> self.filter_base < (#[trigger] self.queue[i]).height
                <= self.headers.tip_height() && self.queue[i].hash == self.headers.hash_at(
                self.queue[i].height as int,
            )
    }

    /// The invariant that ties the parts of the chain together.
    pub open spec fn inv(self) -> bool {
        &&& self.headers.linked()
        &&& self.headers.tip_height() <= u32::MAX
        &&& self.cf.inv()
        &&& self.headers.anchor_height <= self.filter_base
        &&& self.filters.len() == self.cf.entries.len()
        &&& self.cf.entries.len() == 0 || self.cf_tip() <= self.headers.tip_height()
        &&& self.filters_match()
        &&& self.queue_ok()
        &&& self.persisted <= self.headers.headers.len()
        &&& self.scripts.no_duplicates()
    }
}

/// The scripts of a list without its repeats: every script stands where it
/// stands first.
pub open spec fn distinct_scripts(scripts: Seq<Seq<u8>>) -> Seq<Seq<u8>>
    decreases scripts.len(),
{
    if scripts.len() == 0 {
        Seq::empty()
    } else {
        let head = distinct_scripts(scripts.drop_last());
        if head.contains(scripts.last()) {
            head
        } else {
            head.push(scripts.last())
        }
    }
}

/// Adds a script to a list unless the list holds it.
pub fn keep_script(list: &mut Vec<Vec<u8>>, script: Vec<u8>)
    requires
        old(list).deep_view().no_duplicates(),
    ensures
        final(list).deep_view().no_duplicates(),
        final(list).deep_view() == (if old(list).deep_view().contains(script@) {
            old(list).deep_view()
        } else {
            old(list).deep_view().push(script@)
        }),
{
    let ghost before = list.deep_view();
    assert(before.len() == list@.len());
    let mut i: usize = 0;
    while i < list.len()
        invariant
            i <= list@.len(),
            before == list.deep_view(),
            before == old(list).deep_view(),
            before.no_duplicates(),
            before.len() == list@.len(),
            forall|j: int| 0 <= j < i ==> before[j] != script@,
        decreases list@.len() - i,
    {
        assert(before[i as int] == list@[i as int]@);
        if bytes_eq(&list[i], &script) {
            assert(before.contains(script@));
            return ;
        }
        i += 1;
    }
    assert(!before.contains(script@));
    list.push(script);
    proof {
        assert(list.deep_view().len() == list@.len());
        assert forall|j: int| 0 <= j < list@.len() implies (#[trigger] list.deep_view()[j])
            == before.push(script@)[j] by {
            assert(list.deep_view()[j] == list@[j]@);
            if j < before.len() {
                assert(before[j] == old(list)@[j]@);
            }
        }
        assert(list.deep_view() =~= before.push(script@));
        assert forall|a: int, b: int|
            0 <= a < before.len() + 1 && 0 <= b < before.len() + 1 && a != b implies before.push(
            script@,
        )[a] != before.push(script@)[b] by {
            if a < before.len() && b < before.len() {
            } else if a < before.len() {
                assert(before.contains(before[a]));
            } else {
                assert(before.contains(before[b]));
            }
        }
    }
}

/// The scripts of a list without its repeats.
pub fn keep_scripts(scripts: &Vec<Vec<u8>>) -> (r: Vec<Vec<u8>>)
    ensures
        r.deep_view() == distinct_scripts(scripts.deep_view()),
        r.deep_view().no_duplicates(),
{
    let ghost all = scripts.deep_view();
    assert(all.len() == scripts@.len());
    let mut kept: Vec<Vec<u8>> = Vec::new();
    assert(kept.deep_view() =~= Seq::<Seq<u8>>::empty());
    assert(all.take(0) =~= Seq::<Seq<u8>>::empty());
    let mut i: usize = 0;
    while i < scripts.len()
        invariant
            i <= scripts@.len(),
            all == scripts.deep_view(),
            all.len() == scripts@.len(),
            kept.deep_view() == distinct_scripts(all.take(i as int)),
            kept.deep_view().no_duplicates(),
        decreases scripts@.len() - i,
    {
        let script: Vec<u8> = crate::chain::header_chain::tail(&scripts[i], 0);
        assert(script@ =~= scripts@[i as int]@);
        assert(all[i as int] == scripts@[i as int]@);
        assert(all.take(i + 1).drop_last() =~= all.take(i as int));
        assert(all.take(i + 1).last() == script@);
        keep_script(&mut kept, script);
        i += 1;
    }
    assert(all.take(i as int) =~= all);
    kept
}

/// The queued blocks at or below `fork`, in their order.
pub open spec fn kept_queue(queue: Seq<QueuedView>, fork: nat) -> Seq<QueuedView>
    decreases queue.len(),
{
    if queue.len() == 0 {
        Seq::empty()
    } else if queue.last().height <= fork {
        kept_queue(queue.drop_last(), fork).push(queue.last())
    } else {
        kept_queue(queue.drop_last(), fork)
    }
}

/// Every block kept is a block of the queue at or below `fork`, and blocks
/// kept come in the order they had in the queue.
pub proof fn lemma_kept_queue(queue: Seq<QueuedView>, fork: nat)
    ensures
        forall|k: int|
            0 <= k < kept_queue(queue, fork).len() ==> exists|i: int|
                0 <= i < queue.len() && queue[i] == (#[trigger] kept_queue(queue, fork)[k])
                    && queue[i].height <= fork,
        forall|k1: int, k2: int|
            0 <= k1 < k2 < kept_queue(queue, fork).len() ==> exists|i1: int, i2: int|
                0 <= i1 < i2 < queue.len() && queue[i1] == (#[trigger] kept_queue(queue, fork)[k1])
                    && queue[i2] == (#[trigger] kept_queue(queue, fork)[k2]),
    decreases queue.len(),
{
    if queue.len() > 0 {
        let head = queue.drop_last();
        lemma_kept_queue(head, fork);
        let kept = kept_queue(queue, fork);
        let kept_head = kept_queue(head, fork);
        assert forall|k: int| 0 <= k < kept.len() implies exists|i: int|
            0 <= i < queue.len() && queue[i] == (#[trigger] kept[k]) && queue[i].height
                <= fork by {
            if k < kept_head.len() {
                assert(kept[k] == kept_head[k]);
                let i = choose|i: int|
                    0 <= i < head.len() && head[i] == kept_head[k] && head[i].height <= fork;
                assert(queue[i] == head[i]);
            } else {
                assert(queue[queue.len() - 1] == kept[k]);
            }
        }
        assert forall|k1: int, k2: int| 0 <= k1 < k2 < kept.len() implies exists|i1: int, i2: int|
            0 <= i1 < i2 < queue.len() && queue[i1] == (#[trigger] kept[k1]) && queue[i2] == (
            #[trigger] kept[k2]) by {
            if k2 < kept_head.len() {
                assert(kept[k1] == kept_head[k1]);
                assert(kept[k2] == kept_head[k2]);
                let (i1, i2) = choose|i1: int, i2: int|
                    0 <= i1 < i2 < head.len() && head[i1] == kept_head[k1] && head[i2]
                        == kept_head[k2];
                assert(queue[i1] == head[i1]);
                assert(queue[i2] == head[i2]);
            } else {
                assert(kept[k1] == kept_head[k1]);
                let i1 = choose|i: int|
                    0 <= i < head.len() && head[i] == kept_head[k1] && head[i].height <= fork;
                assert(queue[i1] == head[i1]);
                assert(queue[queue.len() - 1] == kept[k2]);
            }
        }
    }
}

impl ChainView {
    /// How many commitments stay when the chain is cut back to `fork`.
    pub open spec fn kept_commitments(self, fork: nat) -> nat {
        if fork <= self.filter_base {
            0
        } else if fork - self.filter_base < self.cf.entries.len() {
            (fork - self.filter_base) as nat
        } else {
            self.cf.entries.len()
        }
    }

    /// What a reorganisation at `fork` leaves of the data above it: filter
    /// headers, filters and queued blocks above `fork` are dropped, open
    /// claims lapse, and the store is known to agree up to `fork` at most.
    pub open spec fn cut_to(self, fork: nat) -> ChainView {
        let keep = self.kept_commitments(fork) as int;
        ChainView {
            cf: FilterHeaderChainView {
                entries: self.cf.entries.take(keep),
                supporters: self.cf.supporters.take(keep),
                pending: Seq::empty(),
                ..self.cf
            },
            filters: self.filters.take(keep),
            queue: kept_queue(self.queue, fork),
            persisted: if self.persisted > fork - self.headers.anchor_height {
                (fork - self.headers.anchor_height) as nat
            } else {
                self.persisted
            },
            ..self
        }
    }

    /// The chain after a batch of headers.
    pub open spec fn after_headers(self, batch: Seq<Header>) -> ChainView {
        match self.headers.plan(batch) {
            Ok(HeaderSyncOutcome::Adopted { fork_height, from }) => {
                let cut = if fork_height < self.headers.tip_height() {
                    self.cut_to(fork_height as nat)
                } else {
                    self
                };
                ChainView { headers: self.headers.after(batch), ..cut }
            },
            _ => self,
        }
    }

    /// What the store holds after an update, if it held `stored` before.
    pub open spec fn store_after(self, stored: Seq<Header>, rewind_to: nat, appended: Seq<Header>) -> Seq<
        Header,
    > {
        stored.take(rewind_to - self.headers.anchor_height) + appended
    }
}

impl ChainView {
    /// Whether the filter hashes recorded from height `first` on are `hashes`.
    pub open spec fn recorded_agrees(self, first: int, hashes: Seq<Seq<u8>>) -> bool {
        forall|i: int|
            0 <= i < hashes.len() ==> self.cf.entries[first - self.filter_base - 1 + i].hash
                == #[trigger] hashes[i]
    }

    /// Whether an answer that stops at height `stop` and holds `len` filter
    /// hashes covers exactly the blocks that follow the recorded ones.
    pub open spec fn continues_cf(self, stop: int, len: nat) -> bool {
        stop - len == self.cf_tip()
    }

    /// What a peer's filter headers do, or why they are turned down. An
    /// answer must stop at a block of this chain. One that covers the blocks
    /// that follow the recorded ones is a claim for the quorum. One that
    /// covers recorded blocks is compared with the record.
    pub open spec fn plan_cf_headers(self, stop_hash: Seq<u8>, claim: AttestationView) -> Result<
        OutcomeView,
        CFHeaderSyncError,
    > {
        if claim.hashes.len() == 0 {
            Err(CFHeaderSyncError::EmptyMessage)
        } else {
            match self.headers.height_of(stop_hash) {
                None => Err(CFHeaderSyncError::UnknownStopHash),
                Some(stop) => {
                    let first = stop - claim.hashes.len() + 1;
                    if self.continues_cf(stop, claim.hashes.len()) {
                        self.cf.plan(claim)
                    } else if first > self.filter_base && stop <= self.cf_tip() {
                        if self.recorded_agrees(first, claim.hashes) {
                            Ok(OutcomeView::Waiting)
                        } else {
                            Err(CFHeaderSyncError::HeaderMismatch)
                        }
                    } else {
                        Err(CFHeaderSyncError::UnknownStopHash)
                    }
                },
            }
        }
    }

    /// The chain after a peer's filter headers: a claim for the quorum is
    /// taken by the chain of filter headers, and every commitment it records
    /// gets an empty place for its filter.
    pub open spec fn after_cf_headers(self, stop_hash: Seq<u8>, claim: AttestationView) -> ChainView {
        if claim.hashes.len() > 0 && self.headers.height_of(stop_hash) is Some
            && self.continues_cf(self.headers.height_of(stop_hash)->0, claim.hashes.len()) {
            let cf = self.cf.after(claim);
            ChainView {
                cf,
                filters: self.filters + Seq::new(
                    (cf.entries.len() - self.cf.entries.len()) as nat,
                    |i: int| None::<Seq<u8>>,
                ),
                ..self
            }
        } else {
            self
        }
    }

    /// What a filter does, or why it is turned down. A filter must belong to
    /// a block with a recorded filter header, and its bytes must hash to the
    /// recorded filter hash, whether or not the filter of that block is held
    /// already. A filter that passes and is not held is stored; one that
    /// cannot be read shows no watched script.
    pub open spec fn plan_filter(self, block_hash: Seq<u8>, content: Seq<u8>) -> Result<
        FilterSyncOutcome,
        CFilterSyncError,
    > {
        match self.headers.height_of(block_hash) {
            None => Err(CFilterSyncError::UnrequestedFilter),
            Some(h) => {
                let idx = h - self.filter_base - 1;
                if h <= self.filter_base || h > self.cf_tip() {
                    Err(CFilterSyncError::UnrequestedFilter)
                } else if spec_sha256d(content) != self.cf.entries[idx].hash {
                    Err(CFilterSyncError::MisalignedFilterHash)
                } else if self.filters[idx] is Some {
                    Ok(FilterSyncOutcome::AlreadyHeld)
                } else {
                    Ok(
                        FilterSyncOutcome::Stored {
                            height: h as u32,
                            matched: filter_reading(content, block_hash, self.scripts) == Some(
                                true,
                            ),
                        },
                    )
                }
            },
        }
    }

    /// The chain after a filter: a filter that is stored takes its place, and
    /// its block joins the queue at the end if the filter matched and the
    /// block is not queued.
    pub open spec fn after_filter(self, block_hash: Seq<u8>, content: Seq<u8>) -> ChainView {
        match self.plan_filter(block_hash, content) {
            Ok(FilterSyncOutcome::Stored { height, matched }) => ChainView {
                filters: self.filters.update(height - self.filter_base - 1, Some(content)),
                queue: if matched && !queue_has(self.queue, height as nat, block_hash) {
                    self.queue.push(QueuedView { height: height as nat, hash: block_hash })
                } else {
                    self.queue
                },
                ..self
            },
            _ => self,
        }
    }

    /// What a block does, or why it is turned down: it must be queued and its
    /// transactions must hash to the Merkle root of its header.
    pub open spec fn plan_block(self, header: Header, txs: Seq<TransactionView>) -> Result<
        (nat, Seq<Seq<u8>>),
        BlockScanError,
    > {
        match queue_position(self.queue, header.spec_hash(), 0) {
            None => Err(BlockScanError::UnexpectedBlock),
            Some(p) => {
                if spec_merkle_root(txids_of(txs)) != Some(header.merkle_root@) {
                    Err(BlockScanError::InvalidMerkleRoot)
                } else {
                    Ok((self.queue[p].height, scan_txs(txs, self.scripts, self.watched).0))
                }
            },
        }
    }

    /// The chain after a block: an accepted block leaves the queue and the
    /// outpoints it pays to watched scripts are watched from then on.
    pub open spec fn after_block(self, header: Header, txs: Seq<TransactionView>) -> ChainView {
        match self.plan_block(header, txs) {
            Ok(_) => ChainView {
                queue: self.queue.remove(queue_position(self.queue, header.spec_hash(), 0)->0),
                watched: scan_txs(txs, self.scripts, self.watched).1,
                ..self
            },
            Err(_) => self,
        }
    }
}

/// A position found in the queue lies in it, at or after `from`, and holds
/// the hash looked for.
pub proof fn lemma_queue_position(queue: Seq<QueuedView>, hash: Seq<u8>, from: int)
    ensures
        queue_position(queue, hash, from) matches Some(p) ==> from <= p < queue.len()
            && queue[p].hash == hash,
    decreases queue.len() - from,
{
    if 0 <= from < queue.len() && queue[from].hash != hash {
        lemma_queue_position(queue, hash, from + 1);
    }
}

impl ChainView {
    /// Taking the same batch of headers a second time changes nothing, the
    /// mark of what the store holds included: nothing is written twice.
    pub proof fn lemma_headers_twice(self, batch: Seq<Header>)
        requires
            self.inv(),
            self.after_headers(batch).headers.distinct(),
        ensures
            self.after_headers(batch).after_headers(batch) == self.after_headers(batch),
    {
        let w = self.after_headers(batch);
        assert(w.headers == self.headers.after(batch));
        self.headers.lemma_sync_twice(batch);
    }

    /// A store that agrees with the chain up to the mark holds the whole
    /// chain after the update the chain hands out: it is cut back to the mark
    /// and the headers above it are appended.
    pub proof fn lemma_store_update(self, stored: Seq<Header>)
        requires
            self.persisted <= self.headers.headers.len(),
            self.persisted <= stored.len(),
            stored.take(self.persisted as int) == self.headers.headers.take(self.persisted as int),
        ensures
            self.store_after(
                stored,
                self.headers.anchor_height + self.persisted,
                self.headers.headers.skip(self.persisted as int),
            ) == self.headers.headers,
    {
        assert(self.headers.headers.take(self.persisted as int) + self.headers.headers.skip(
            self.persisted as int,
        ) =~= self.headers.headers);
    }
}

impl Chain {
    /// Every header above the anchor names the hash of the block one below
    /// it.
    pub proof fn lemma_prev_hash(&self, height: int)
        requires
            self.wf(),
            self@.headers.anchor_height < height <= self@.headers.tip_height(),
        ensures
            self@.headers.header_at(height).prev_blockhash@ == self@.headers.hash_at(height - 1),
            self@.headers.hash_at(self@.headers.anchor_height as int)
                == self@.headers.anchor_hash,
    {
        self@.headers.lemma_prev_hash(height);
    }

    /// Every recorded filter header names at least a quorum of distinct
    /// peers that claimed it.
    pub proof fn lemma_recorded_by_quorum(&self, i: int)
        requires
            self.wf(),
            0 <= i < self@.cf.entries.len(),
        ensures
            self@.cf.supporters[i].no_duplicates(),
            self@.cf.supporters[i].len() >= self@.cf.quorum,
            self@.cf.quorum >= 1,
    {
    }

    /// Every filter held hashes to the filter hash recorded at its height.
    pub proof fn lemma_filter_matches(&self, i: int)
        requires
            self.wf(),
            0 <= i < self@.filters.len(),
            self@.filters[i] is Some,
        ensures
            spec_sha256d(self@.filters[i]->0) == self@.cf.entries[i].hash,
    {
    }

    /// No script is watched twice.
    pub proof fn lemma_scripts_unique(&self, i: int, j: int)
        requires
            self.wf(),
            0 <= i < j < self@.scripts.len(),
        ensures
            self@.scripts[i] != self@.scripts[j],
    {
    }

    /// No block is queued twice.
    pub proof fn lemma_queue_unique(&self, i: int, j: int)
        requires
            self.wf(),
            0 <= i < j < self@.queue.len(),
        ensures
            self@.queue[i].hash != self@.queue[j].hash,
            self@.queue[i].height != self@.queue[j].height,
    {
    }
}

/// The validated chain with everything indexed by it.
pub struct Chain {
    headers: HeaderChain,
    cf_headers: FilterHeaderChain,
    filter_base: u32,
    filters: Vec<Option<Vec<u8>>>,
    present: usize,
    queue: Vec<QueuedBlock>,
    scripts: Vec<Vec<u8>>,
    watched: Vec<OutPoint>,
    best_known_height: u32,
    persisted: usize,
}

/// The views of the filters held.
pub open spec fn filters_view(filters: Seq<Option<Vec<u8>>>) -> Seq<Option<Seq<u8>>> {
    filters.map_values(
        |f: Option<Vec<u8>>|
            match f {
                Some(bytes) => Some(bytes@),
                None => None,
            },
    )
}

/// The views of the queued blocks.
pub open spec fn queue_view(queue: Seq<QueuedBlock>) -> Seq<QueuedView> {
    queue.map_values(|q: QueuedBlock| q@)
}

impl View for Chain {
    type V = ChainView;

    closed spec fn view(&self) -> ChainView {
        ChainView {
            headers: self.headers@,
            cf: self.cf_headers@,
            filter_base: self.filter_base as nat,
            filters: filters_view(self.filters@),
            queue: queue_view(self.queue@),
            scripts: self.scripts.deep_view(),
            watched: outpoints_view(self.watched@),
            best_known_height: self.best_known_height as nat,
            persisted: self.persisted as nat,
        }
    }
}

impl Chain {
    /// The invariant of the chain.
    pub closed spec fn wf(&self) -> bool {
        &&& self.headers.wf()
        &&& self.cf_headers.wf()
        &&& self@.inv()
        &&& self.present <= self.filters@.len()
        &&& forall|i: int| 0 <= i < self.present ==> (#[trigger] self.filters@[i]) is Some
        &&& self.present < self.filters@.len() ==> self.filters@[self.present as int] is None
    }

    /// A well-formed chain meets the invariant that ties its parts together.
    pub proof fn lemma_inv(&self)
        requires
            self.wf(),
        ensures
            self@.inv(),
    {
    }

    /// A chain made of headers taken up from the store. Filters are synced
    /// above `filter_start` or above the anchor, whichever is higher, and
    /// filter headers are settled by `quorum` peers. A script that is named
    /// more than once is watched once.
    pub fn new(
        headers: HeaderChain,
        scripts: Vec<Vec<u8>>,
        filter_start: Option<u32>,
        quorum: usize,
    ) -> (r: Chain)
        requires
            headers.wf(),
        ensures
            r.wf(),
            r@.headers == headers@,
            r@.scripts == distinct_scripts(scripts.deep_view()),
            r@.filter_base == (match filter_start {
                Some(s) if s > headers@.anchor_height => s as nat,
                _ => headers@.anchor_height,
            }),
            r@.cf.entries.len() == 0,
            r@.cf.pending.len() == 0,
            r@.cf.quorum == (if quorum == 0 {
                1nat
            } else {
                quorum as nat
            }),
            r@.queue.len() == 0,
            r@.watched.len() == 0,
            r@.best_known_height == headers@.tip_height(),
            r@.persisted == headers@.headers.len(),
    {
        let anchor: HeaderCheckpoint = headers.anchor();
        let base: u32 = match filter_start {
            Some(s) => if s > anchor.height {
                s
            } else {
                anchor.height
            },
            None => anchor.height,
        };
        let tip: u32 = headers.height();
        let persisted: usize = headers.len();
        let scripts: Vec<Vec<u8>> = keep_scripts(&scripts);
        proof {
            headers.lemma_linked();
        }
        Chain {
            headers,
            cf_headers: FilterHeaderChain::new(quorum),
            filter_base: base,
            filters: Vec::new(),
            present: 0,
            queue: Vec::new(),
            scripts,
            watched: Vec::new(),
            best_known_height: tip,
            persisted,
        }
    }

    /// The height of the tip.
    pub fn height(&self) -> (r: u32)
        requires
            self.wf(),
        ensures
            r == self@.headers.tip_height(),
    {
        self.headers.height()
    }

    /// The block hash of the tip.
    pub fn tip_hash(&self) -> (r: Hash256)
        requires
            self.wf(),
        ensures
            r@ == self@.headers.hash_at(self@.headers.tip_height() as int),
    {
        self.headers.tip_hash()
    }

    /// The height above which filters are synced.
    pub fn filter_base(&self) -> (r: u32)
        ensures
            r == self@.filter_base,
    {
        self.filter_base
    }

    /// The height of the highest block with a recorded filter header.
    pub fn cf_tip(&self) -> (r: u32)
        requires
            self.wf(),
        ensures
            r == self@.cf_tip(),
    {
        self.filter_base + self.cf_headers.len() as u32
    }

    /// The best height any peer has told of.
    pub fn best_known_height(&self) -> (r: u32)
        ensures
            r == self@.best_known_height,
    {
        self.best_known_height
    }

    /// Notes the best height a peer has told of.
    pub fn set_best_known_height(&mut self, height: u32)
        requires
            old(self).wf(),
        ensures
            final(self).wf(),
            final(self)@ == (ChainView { best_known_height: height as nat, ..old(self)@ }),
    {
        self.best_known_height = height;
    }

    /// Adds a script to watch for. A script that is watched already is not
    /// added again.
    pub fn add_script(&mut self, script: Vec<u8>)
        requires
            old(self).wf(),
        ensures
            final(self).wf(),
            old(self)@.scripts.contains(script@) ==> final(self)@ == old(self)@,
            !old(self)@.scripts.contains(script@) ==> final(self)@ == (ChainView {
                scripts: old(self)@.scripts.push(script@),
                ..old(self)@
            }),
    {
        keep_script(&mut self.scripts, script);
    }

    /// Whether headers are synced.
    pub fn is_synced(&self) -> (r: bool)
        requires
            self.wf(),
        ensures
            r == self@.headers_synced(),
    {
        self.headers.height() >= self.best_known_height
    }

    /// Whether filter headers are synced.
    pub fn is_cf_headers_synced(&self) -> (r: bool)
        requires
            self.wf(),
        ensures
            r == self@.cf_headers_synced(),
    {
        self.filter_base as u64 + self.cf_headers.len() as u64 >= self.headers.height() as u64
    }

    /// Whether filters are synced.
    pub fn is_filters_synced(&self) -> (r: bool)
        requires
            self.wf(),
        ensures
            r == self@.filters_synced(),
    {
        proof {
            if self.present == self.filters@.len() {
                assert forall|i: int| 0 <= i < self@.filters.len() implies (
                #[trigger] self@.filters[i]) is Some by {
                    assert(self.filters@[i] is Some);
                }
            } else {
                assert(self@.filters[self.present as int] is None);
            }
        }
        self.is_cf_headers_synced() && self.present == self.filters.len()
    }

    /// Whether no block waits to be fetched.
    pub fn block_queue_empty(&self) -> (r: bool)
        ensures
            r == (self@.queue.len() == 0),
    {
        self.queue.len() == 0
    }

    /// The block to fetch next: the one that has waited longest.
    pub fn next_block(&self) -> (r: Option<Hash256>)
        ensures
            r is Some <==> self@.queue.len() > 0,
            r is Some ==> r->0@ == self@.queue[0].hash,
    {
        if self.queue.len() > 0 {
            assert(self@.queue[0] == self.queue@[0]@);
            Some(self.queue[0].hash)
        } else {
            None
        }
    }

    /// The locators that tell a peer where this chain stands.
    pub fn locators(&self) -> (r: Vec<Hash256>)
        requires
            self.wf(),
        ensures
            r.deep_view() == self@.headers.locators(),
    {
        self.headers.locators()
    }
}

impl Chain {
    /// Takes a batch of headers from a peer: see `HeaderChain::sync`. Where
    /// the batch replaces a part of the chain, the filter headers, filters
    /// and queued blocks above the fork are dropped with it.
    #[verifier::loop_isolation(false)]
    pub fn sync_chain(&mut self, batch: Vec<Header>) -> (r: Result<
        HeaderSyncOutcome,
        HeaderSyncError,
    >)
        requires
            old(self).wf(),
        ensures
            final(self).wf(),
            r == old(self)@.headers.plan(batch@),
            final(self)@ == old(self)@.after_headers(batch@),
    {
        let ghost start = self@;
        let old_tip: u32 = self.headers.height();
        let anchor_height: u32 = self.headers.anchor().height;
        let r = self.headers.sync(&batch);
        let fork: u32 = match r {
            Ok(HeaderSyncOutcome::Adopted { fork_height, from }) => fork_height,
            _ => {
                return r;
            },
        };
        proof {
            self.headers.lemma_linked();
            start.headers.lemma_adopted(batch@);
        }
        if fork == old_tip {
            proof {
                assert forall|i: int| 0 <= i < self@.queue.len() implies start.filter_base < (
                #[trigger] self@.queue[i]).height <= self@.headers.tip_height()
                    && self@.queue[i].hash == self@.headers.hash_at(
                    self@.queue[i].height as int,
                ) by {
                    start.headers.lemma_after_keeps(batch@, self@.queue[i].height as int);
                }
            }
            return r;
        }
        let keep: usize = if fork <= self.filter_base {
            0
        } else if ((fork - self.filter_base) as usize) < self.cf_headers.len() {
            (fork - self.filter_base) as usize
        } else {
            self.cf_headers.len()
        };
        self.cf_headers.truncate(keep);
        self.filters.truncate(keep);
        if self.present > keep {
            self.present = keep;
        }
        if self.persisted > (fork - anchor_height) as usize {
            self.persisted = (fork - anchor_height) as usize;
        }
        let ghost old_queue = start.queue;
        let mut kept: Vec<QueuedBlock> = Vec::new();
        let mut i: usize = 0;
        while i < self.queue.len()
            invariant
                i <= self.queue@.len(),
                queue_view(self.queue@) == old_queue,
                queue_view(kept@) == kept_queue(old_queue.take(i as int), fork as nat),
            decreases self.queue@.len() - i,
        {
            assert(old_queue.take(i + 1).drop_last() =~= old_queue.take(i as int));
            assert(old_queue.take(i + 1).last() == self.queue@[i as int]@);
            if self.queue[i].height <= fork {
                kept.push(self.queue[i]);
                assert(queue_view(kept@) =~= kept_queue(old_queue.take(i as int), fork as nat).push(
                    self.queue@[i as int]@,
                ));
            }
            i += 1;
        }
        assert(old_queue.take(i as int) =~= old_queue);
        self.queue = kept;
        proof {
            let done = self@;
            assert(done.filters =~= start.filters.take(keep as int));
            assert(done.cf.entries =~= start.cf.entries.take(keep as int));
            assert(done.cf.supporters =~= start.cf.supporters.take(keep as int));
            assert(done.cf.pending =~= Seq::<AttestationView>::empty());
            assert(done.cf == start.cut_to(fork as nat).cf);
            assert(done == start.after_headers(batch@));
            lemma_kept_queue(old_queue, fork as nat);
            assert forall|a: int, b: int| 0 <= a < b < done.queue.len() implies (
            #[trigger] done.queue[a]).height != (#[trigger] done.queue[b]).height
                && done.queue[a].hash != done.queue[b].hash by {
                let (i1, i2) = choose|i1: int, i2: int|
                    0 <= i1 < i2 < old_queue.len() && old_queue[i1] == done.queue[a]
                        && old_queue[i2] == done.queue[b];
            }
            assert forall|a: int| 0 <= a < done.queue.len() implies start.filter_base < (
            #[trigger] done.queue[a]).height <= done.headers.tip_height() && done.queue[a].hash
                == done.headers.hash_at(done.queue[a].height as int) by {
                let i1 = choose|i: int|
                    0 <= i < old_queue.len() && old_queue[i] == done.queue[a]
                        && old_queue[i].height <= fork;
                start.headers.lemma_after_keeps(batch@, done.queue[a].height as int);
            }
            assert forall|a: int| 0 <= a < done.filters.len() implies ((
            #[trigger] done.filters[a]) matches Some(bytes) ==> spec_sha256d(bytes)
                == done.cf.entries[a].hash) by {
                assert(done.filters[a] == start.filters[a]);
                assert(done.cf.entries[a] == start.cf.entries[a]);
            }
        }
        r
    }

    /// Hands out what the header store must do to hold the chain, and takes
    /// it as done.
    pub fn flush_to_disk(&mut self) -> (r: StoreUpdate)
        requires
            old(self).wf(),
        ensures
            final(self).wf(),
            r.rewind_to == old(self)@.headers.anchor_height + old(self)@.persisted,
            r.headers@ == old(self)@.headers.headers.skip(old(self)@.persisted as int),
            final(self)@ == (ChainView {
                persisted: old(self)@.headers.headers.len(),
                ..old(self)@
            }),
    {
        proof {
            self.headers.lemma_linked();
        }
        let all: Vec<Header> = self.headers.stored_headers();
        let update = StoreUpdate {
            rewind_to: self.headers.anchor().height + self.persisted as u32,
            headers: tail(&all, self.persisted),
        };
        self.persisted = self.headers.len();
        update
    }

    /// The next run of filter headers to ask for, if any is missing: from the
    /// block above the last recorded one up to the tip, two thousand at most.
    pub fn next_cf_header_message(&self) -> (r: Option<FilterRange>)
        requires
            self.wf(),
        ensures
            r is None <==> self@.cf_headers_synced(),
            r matches Some(range) ==> range.start_height == self@.cf_tip() + 1
                && range.stop_hash@ == self@.headers.hash_at(
                self@.cf_stop(CF_HEADER_BATCH_SIZE as nat) as int,
            ),
    {
        if self.is_cf_headers_synced() {
            return None;
        }
        let tip: u32 = self.headers.height();
        let start: u32 = self.filter_base + self.cf_headers.len() as u32 + 1;
        let stop: u32 = if tip - start >= CF_HEADER_BATCH_SIZE {
            start + CF_HEADER_BATCH_SIZE - 1
        } else {
            tip
        };
        match self.headers.hash_at(stop) {
            Some(stop_hash) => Some(FilterRange { start_height: start, stop_hash }),
            None => None,
        }
    }

    /// The next run of filters to ask for, if any is missing: from the lowest
    /// block whose filter is missing up to the last recorded filter header, a
    /// thousand at most.
    pub fn next_filter_message(&self) -> (r: Option<FilterRange>)
        requires
            self.wf(),
        ensures
            r is None <==> self@.all_filters_present(),
            r matches Some(range) ==> {
                let k = range.start_height - self@.filter_base - 1;
                &&& 0 <= k < self@.filters.len()
                &&& self@.filters[k] is None
                &&& forall|i: int| 0 <= i < k ==> (#[trigger] self@.filters[i]) is Some
                &&& range.stop_hash@ == self@.headers.hash_at(
                    self@.filter_stop(range.start_height as nat, FILTER_BATCH_SIZE as nat) as int,
                )
            },
    {
        proof {
            if self.present == self.filters@.len() {
                assert forall|i: int| 0 <= i < self@.filters.len() implies (
                #[trigger] self@.filters[i]) is Some by {
                    assert(self.filters@[i] is Some);
                }
            } else {
                assert(self@.filters[self.present as int] is None);
            }
            assert forall|i: int| 0 <= i < self.present implies (#[trigger] self@.filters[i])
                is Some by {
                assert(self.filters@[i] is Some);
            }
        }
        if self.present == self.filters.len() {
            return None;
        }
        let cf_tip: u32 = self.filter_base + self.cf_headers.len() as u32;
        let start: u32 = self.filter_base + self.present as u32 + 1;
        let stop: u32 = if cf_tip - start >= FILTER_BATCH_SIZE {
            start + FILTER_BATCH_SIZE - 1
        } else {
            cf_tip
        };
        match self.headers.hash_at(stop) {
            Some(stop_hash) => Some(FilterRange { start_height: start, stop_hash }),
            None => None,
        }
    }
}

impl Chain {
    /// Takes a peer's answer to a request for filter headers.
    #[verifier::loop_isolation(false)]
    pub fn sync_cf_headers(&mut self, peer_id: u32, cf_headers: CFHeaders) -> (r: Result<
        CFHeaderSyncOutcome,
        CFHeaderSyncError,
    >)
        requires
            old(self).wf(),
        ensures
            final(self).wf(),
            r matches Ok(o) ==> Ok::<OutcomeView, CFHeaderSyncError>(o@)
                == old(self)@.plan_cf_headers(
                cf_headers.stop_hash@,
                AttestationView {
                    peer: peer_id,
                    prev: cf_headers.previous_filter_header@,
                    hashes: cf_headers.filter_hashes.deep_view(),
                },
            ),
            r matches Err(e) ==> Err::<OutcomeView, CFHeaderSyncError>(e)
                == old(self)@.plan_cf_headers(
                cf_headers.stop_hash@,
                AttestationView {
                    peer: peer_id,
                    prev: cf_headers.previous_filter_header@,
                    hashes: cf_headers.filter_hashes.deep_view(),
                },
            ),
            final(self)@ == old(self)@.after_cf_headers(
                cf_headers.stop_hash@,
                AttestationView {
                    peer: peer_id,
                    prev: cf_headers.previous_filter_header@,
                    hashes: cf_headers.filter_hashes.deep_view(),
                },
            ),
    {
        let ghost start = self@;
        let ghost claim = AttestationView {
            peer: peer_id,
            prev: cf_headers.previous_filter_header@,
            hashes: cf_headers.filter_hashes.deep_view(),
        };
        let n: usize = cf_headers.filter_hashes.len();
        assert(claim.hashes.len() == n);
        if n == 0 {
            return Err(CFHeaderSyncError::EmptyMessage);
        }
        let stop: u32 = match self.headers.height_of(&cf_headers.stop_hash) {
            None => {
                return Err(CFHeaderSyncError::UnknownStopHash);
            },
            Some(h) => h,
        };
        let cf_tip: u32 = self.filter_base + self.cf_headers.len() as u32;
        if stop > cf_tip && (stop - cf_tip) as usize == n {
            let old_len: usize = self.cf_headers.len();
            let r = self.cf_headers.attest(
                Attestation {
                    peer: peer_id,
                    prev_header: cf_headers.previous_filter_header,
                    hashes: cf_headers.filter_hashes,
                },
            );
            proof {
                crate::chain::cfheaders::lemma_chain_commitments(claim.prev, claim.hashes);
            }
            let new_len: usize = self.cf_headers.len();
            let ghost old_filters = self.filters@;
            let ghost pre = *self;
            while self.filters.len() < new_len
                invariant
                    *self == (Chain { filters: self.filters, ..pre }),
                    old_len <= self.filters@.len() <= new_len,
                    self.filters@ =~= old_filters + Seq::new(
                        (self.filters@.len() - old_len) as nat,
                        |i: int| None::<Vec<u8>>,
                    ),
                decreases new_len - self.filters@.len(),
            {
                self.filters.push(None);
            }
            proof {
                let done = self@;
                assert(done.filters =~= start.filters + Seq::new(
                    (new_len - old_len) as nat,
                    |i: int| None::<Seq<u8>>,
                ));
                assert(done == start.after_cf_headers(cf_headers.stop_hash@, claim));
                assert forall|a: int| 0 <= a < done.filters.len() implies ((
                #[trigger] done.filters[a]) matches Some(bytes) ==> spec_sha256d(bytes)
                    == done.cf.entries[a].hash) by {
                    if a < old_len {
                        assert(done.filters[a] == start.filters[a]);
                        assert(done.cf.entries[a] == start.cf.entries[a]);
                    }
                }
                assert forall|i: int| 0 <= i < self.present implies (#[trigger] self.filters@[i])
                    is Some by {
                    assert(self.filters@[i] == old_filters[i]);
                }
            }
            return r;
        }
        if stop <= cf_tip && stop > self.filter_base && (stop - self.filter_base) as usize >= n {
            let first_idx: usize = (stop - self.filter_base) as usize - n;
            let ghost first = stop - n + 1;
            let mut i: usize = 0;
            while i < n
                invariant
                    i <= n,
                    forall|j: int|
                        0 <= j < i ==> start.cf.entries[first - start.filter_base - 1 + j].hash
                            == #[trigger] claim.hashes[j],
                decreases n - i,
            {
                let recorded: FilterCommitment = match self.cf_headers.get(first_idx + i) {
                    Some(c) => c,
                    None => {
                        return Err(CFHeaderSyncError::UnknownStopHash);
                    },
                };
                assert(claim.hashes[i as int] == cf_headers.filter_hashes@[i as int]@);
                if !hash_eq(&recorded.filter_hash, &cf_headers.filter_hashes[i]) {
                    return Err(CFHeaderSyncError::HeaderMismatch);
                }
                i += 1;
            }
            return Ok(CFHeaderSyncOutcome::Waiting);
        }
        Err(CFHeaderSyncError::UnknownStopHash)
    }

    /// Whether a block at `height` or with hash `hash` is queued.
    fn queue_holds(&self, height: u32, hash: &Hash256) -> (r: bool)
        ensures
            r == queue_has(self@.queue, height as nat, hash@),
    {
        let mut i: usize = 0;
        while i < self.queue.len()
            invariant
                i <= self.queue@.len(),
                forall|j: int|
                    0 <= j < i ==> !((#[trigger] self@.queue[j]).height == height
                        || self@.queue[j].hash == hash@),
            decreases self.queue@.len() - i,
        {
            assert(self@.queue[i as int] == self.queue@[i as int]@);
            if self.queue[i].height == height || hash_eq(&self.queue[i].hash, hash) {
                return true;
            }
            i += 1;
        }
        false
    }

    /// Takes a filter from a peer. A filter whose bytes do not hash to the
    /// recorded filter hash is turned down and the record stays as it is.
    #[verifier::loop_isolation(false)]
    pub fn sync_filter(&mut self, filter: CFilter) -> (r: Result<FilterSyncOutcome, CFilterSyncError>)
        requires
            old(self).wf(),
        ensures
            final(self).wf(),
            r == old(self)@.plan_filter(filter.block_hash@, filter.contents@),
            final(self)@ == old(self)@.after_filter(filter.block_hash@, filter.contents@),
            r is Err ==> final(self)@ == old(self)@,
    {
        let ghost start = self@;
        let h: u32 = match self.headers.height_of(&filter.block_hash) {
            None => {
                return Err(CFilterSyncError::UnrequestedFilter);
            },
            Some(h) => h,
        };
        let cf_tip: u32 = self.filter_base + self.cf_headers.len() as u32;
        if h <= self.filter_base || h > cf_tip {
            return Err(CFilterSyncError::UnrequestedFilter);
        }
        let idx: usize = (h - self.filter_base - 1) as usize;
        let digest: Hash256 = sha256d(filter.contents.as_slice());
        let recorded: FilterCommitment = match self.cf_headers.get(idx) {
            Some(c) => c,
            None => {
                return Err(CFilterSyncError::UnrequestedFilter);
            },
        };
        if !hash_eq(&digest, &recorded.filter_hash) {
            return Err(CFilterSyncError::MisalignedFilterHash);
        }
        assert(start.filters[idx as int] is Some <==> self.filters@[idx as int] is Some);
        if self.filters[idx].is_some() {
            return Ok(FilterSyncOutcome::AlreadyHeld);
        }
        let matched: bool = match read_filter(&filter.contents, &filter.block_hash, &self.scripts) {
            Some(m) => m,
            None => false,
        };
        if matched && !self.queue_holds(h, &filter.block_hash) {
            self.queue.push(QueuedBlock { height: h, hash: filter.block_hash });
            assert(self@.queue =~= start.queue.push(
                QueuedView { height: h as nat, hash: filter.block_hash@ },
            ));
        }
        let ghost content = filter.contents@;
        self.filters.set(idx, Some(filter.contents));
        assert(self@.filters =~= start.filters.update(idx as int, Some(content)));
        let ghost pre = *self;
        while self.present < self.filters.len() && self.filters[self.present].is_some()
            invariant
                *self == (Chain { present: self.present, ..pre }),
                self.present <= self.filters@.len(),
                forall|i: int| 0 <= i < self.present ==> (#[trigger] self.filters@[i]) is Some,
            decreases self.filters@.len() - self.present,
        {
            self.present += 1;
        }
        proof {
            let done = self@;
            assert(done == start.after_filter(filter.block_hash@, content));
            assert forall|a: int| 0 <= a < done.filters.len() implies ((
            #[trigger] done.filters[a]) matches Some(bytes) ==> spec_sha256d(bytes)
                == done.cf.entries[a].hash) by {
                if a != idx {
                    assert(done.filters[a] == start.filters[a]);
                }
            }
            assert forall|a: int, b: int| 0 <= a < b < done.queue.len() implies (
            #[trigger] done.queue[a]).height != (#[trigger] done.queue[b]).height
                && done.queue[a].hash != done.queue[b].hash by {
                if b < start.queue.len() {
                } else {
                    assert(done.queue[a] == start.queue[a]);
                }
            }
        }
        Ok(FilterSyncOutcome::Stored { height: h, matched })
    }
}

/// Whether the element count that opens a filter is in the range the
/// membership test takes.
pub fn filter_count_ok(content: &Vec<u8>) -> (r: bool)
    ensures
        r == filter_count_in_range(content@),
{
    if content.len() >= 9 && content[0] == 0xFF {
        content[6] == 0 && content[7] == 0 && content[8] == 0
    } else {
        true
    }
}

/// Whether `script` is one of `scripts`.
pub fn script_watched(scripts: &Vec<Vec<u8>>, script: &Vec<u8>) -> (r: bool)
    ensures
        r == scripts.deep_view().contains(script@),
{
    let ghost all = scripts.deep_view();
    assert(all.len() == scripts@.len());
    let mut i: usize = 0;
    while i < scripts.len()
        invariant
            i <= scripts@.len(),
            all == scripts.deep_view(),
            all.len() == scripts@.len(),
            forall|j: int| 0 <= j < i ==> all[j] != script@,
        decreases scripts@.len() - i,
    {
        assert(all[i as int] == scripts@[i as int]@);
        if bytes_eq(&scripts[i], script) {
            assert(all.contains(script@));
            return true;
        }
        i += 1;
    }
    false
}

/// Whether `point` is one of `watched`.
pub fn outpoint_watched(watched: &Vec<OutPoint>, point: &OutPoint) -> (r: bool)
    ensures
        r == outpoints_view(watched@).contains(point@),
{
    let ghost all = outpoints_view(watched@);
    let mut i: usize = 0;
    while i < watched.len()
        invariant
            i <= watched@.len(),
            all == outpoints_view(watched@),
            forall|j: int| 0 <= j < i ==> all[j] != point@,
        decreases watched@.len() - i,
    {
        assert(all[i as int] == watched@[i as int]@);
        if watched[i].vout == point.vout && hash_eq(&watched[i].txid, &point.txid) {
            assert(all[i as int] == point@);
            assert(all.contains(point@));
            return true;
        }
        i += 1;
    }
    false
}

/// Judges one transaction and watches the outpoints it pays to watched
/// scripts.
pub fn scan_tx(tx: &Transaction, scripts: &Vec<Vec<u8>>, watched: &mut Vec<OutPoint>) -> (hit: bool)
    ensures
        hit == (pays_watched(tx@, scripts.deep_view()) || spends_watched(
            tx@,
            outpoints_view(old(watched)@),
        )),
        outpoints_view(final(watched)@) == outpoints_view(old(watched)@) + paid_outpoints(
            tx@,
            scripts.deep_view(),
            tx@.outputs.len() as int,
        ),
{
    let ghost before = outpoints_view(watched@);
    let ghost txv = tx@;
    let ghost sv = scripts.deep_view();
    let mut spends: bool = false;
    let mut i: usize = 0;
    while i < tx.inputs.len()
        invariant
            i <= tx.inputs@.len(),
            txv == tx@,
            before == outpoints_view(watched@),
            spends == exists|j: int| 0 <= j < i && before.contains(#[trigger] txv.inputs[j]),
        decreases tx.inputs@.len() - i,
    {
        assert(txv.inputs[i as int] == tx.inputs@[i as int]@);
        if outpoint_watched(watched, &tx.inputs[i]) {
            spends = true;
        }
        i += 1;
    }
    assert(txv.outputs.len() == tx.outputs@.len());
    let mut pays: bool = false;
    let mut o: usize = 0;
    while o < tx.outputs.len()
        invariant
            o <= tx.outputs@.len(),
            txv == tx@,
            sv == scripts.deep_view(),
            txv.outputs.len() == tx.outputs@.len(),
            pays == exists|j: int| 0 <= j < o && sv.contains(#[trigger] txv.outputs[j]),
            outpoints_view(watched@) == before + paid_outpoints(txv, sv, o as int),
        decreases tx.outputs@.len() - o,
    {
        assert(txv.outputs[o as int] == tx.outputs@[o as int]@);
        if script_watched(scripts, &tx.outputs[o]) {
            pays = true;
            if o <= u32::MAX as usize {
                let ghost prior = outpoints_view(watched@);
                watched.push(OutPoint { txid: tx.txid, vout: o as u32 });
                assert(outpoints_view(watched@) =~= prior.push(
                    OutPointView { txid: txv.txid, vout: o as u32 },
                ));
                assert(outpoints_view(watched@) =~= before + paid_outpoints(txv, sv, o + 1));
            }
        }
        o += 1;
    }
    pays || spends
}

impl Chain {
    /// Looks for the first queued block with hash `hash`.
    fn queue_find(&self, hash: &Hash256) -> (r: Option<usize>)
        ensures
            r is Some <==> queue_position(self@.queue, hash@, 0) is Some,
            r is Some ==> r->0 == queue_position(self@.queue, hash@, 0)->0,
            r is Some ==> r->0 < self@.queue.len(),
    {
        let mut i: usize = 0;
        while i < self.queue.len()
            invariant
                i <= self.queue@.len(),
                queue_position(self@.queue, hash@, 0) == queue_position(
                    self@.queue,
                    hash@,
                    i as int,
                ),
            decreases self.queue@.len() - i,
        {
            assert(self@.queue[i as int] == self.queue@[i as int]@);
            if hash_eq(&self.queue[i].hash, hash) {
                return Some(i);
            }
            i += 1;
        }
        None
    }

    /// Takes a fetched block. The block must be one of the queued ones and
    /// its transactions must hash to the Merkle root of its header. It then
    /// leaves the queue, and the transactions that pay to a watched script or
    /// spend a watched outpoint are handed back.
    #[verifier::loop_isolation(false)]
    pub fn scan_block(&mut self, block: &Block) -> (r: Result<IndexedBlock, BlockScanError>)
        requires
            old(self).wf(),
        ensures
            final(self).wf(),
            r matches Ok(b) ==> Ok::<(nat, Seq<Seq<u8>>), BlockScanError>(
                (b.height as nat, b.transactions.deep_view()),
            ) == old(self)@.plan_block(block.header, txs_view(block.txdata@)) && b.hash@
                == block.header.spec_hash(),
            r matches Err(e) ==> Err::<(nat, Seq<Seq<u8>>), BlockScanError>(e)
                == old(self)@.plan_block(block.header, txs_view(block.txdata@)),
            final(self)@ == old(self)@.after_block(block.header, txs_view(block.txdata@)),
    {
        let ghost start = self@;
        let ghost txs = txs_view(block.txdata@);
        let hash: Hash256 = block.header.block_hash();
        let at: usize = match self.queue_find(&hash) {
            None => {
                return Err(BlockScanError::UnexpectedBlock);
            },
            Some(p) => p,
        };
        let mut txids: Vec<Hash256> = Vec::new();
        let mut i: usize = 0;
        while i < block.txdata.len()
            invariant
                i <= block.txdata@.len(),
                txids@.len() == i,
                forall|j: int| 0 <= j < i ==> (#[trigger] txids@[j])@ == txs[j].txid,
            decreases block.txdata@.len() - i,
        {
            assert(txs[i as int] == block.txdata@[i as int]@);
            txids.push(block.txdata[i].txid);
            i += 1;
        }
        proof {
            assert(txids.deep_view().len() == txids@.len());
            assert forall|j: int| 0 <= j < txids@.len() implies txids.deep_view()[j] == txids_of(
                txs,
            )[j] by {
                assert(txids.deep_view()[j] == txids@[j]@);
            }
            assert(txids.deep_view() =~= txids_of(txs));
        }
        let root_ok: bool = match merkle_root(&txids) {
            Some(root) => hash_eq(&root, &block.header.merkle_root),
            None => false,
        };
        if !root_ok {
            return Err(BlockScanError::InvalidMerkleRoot);
        }
        let mut found: Vec<Hash256> = Vec::new();
        let ghost pre = *self;
        let mut k: usize = 0;
        while k < block.txdata.len()
            invariant
                *self == (Chain { watched: self.watched, ..pre }),
                k <= block.txdata@.len(),
                txs == txs_view(block.txdata@),
                found.deep_view() == scan_txs(txs.take(k as int), start.scripts, start.watched).0,
                outpoints_view(self.watched@) == scan_txs(
                    txs.take(k as int),
                    start.scripts,
                    start.watched,
                ).1,
            decreases block.txdata@.len() - k,
        {
            assert(txs.take(k + 1).drop_last() =~= txs.take(k as int));
            assert(txs.take(k + 1).last() == block.txdata@[k as int]@);
            let ghost found_before = found.deep_view();
            assert(found_before.len() == found@.len());
            let hit: bool = scan_tx(&block.txdata[k], &self.scripts, &mut self.watched);
            if hit {
                found.push(block.txdata[k].txid);
                proof {
                    assert(found.deep_view().len() == found@.len());
                    assert forall|j: int| 0 <= j < found@.len() implies found.deep_view()[j]
                        == found_before.push(txs[k as int].txid)[j] by {
                        assert(found.deep_view()[j] == found@[j]@);
                        if j < found_before.len() {
                            assert(found_before[j] == found@[j]@);
                        }
                    }
                    assert(found.deep_view() =~= found_before.push(txs[k as int].txid));
                }
            }
            k += 1;
        }
        assert(txs.take(k as int) =~= txs);
        let entry: QueuedBlock = self.queue.remove(at);
        proof {
            let done = self@;
            lemma_queue_position(start.queue, block.header.spec_hash(), 0);
            assert(start.queue[at as int] == entry@);
            assert(done.queue =~= start.queue.remove(at as int));
            assert(done == start.after_block(block.header, txs));
            assert forall|a: int, b: int| 0 <= a < b < done.queue.len() implies (
            #[trigger] done.queue[a]).height != (#[trigger] done.queue[b]).height
                && done.queue[a].hash != done.queue[b].hash by {
                let a0 = if a < at {
                    a
                } else {
                    a + 1
                };
                let b0 = if b < at {
                    b
                } else {
                    b + 1
                };
                assert(done.queue[a] == start.queue[a0]);
                assert(done.queue[b] == start.queue[b0]);
            }
            assert forall|a: int| 0 <= a < done.queue.len() implies start.filter_base < (
            #[trigger] done.queue[a]).height <= done.headers.tip_height() && done.queue[a].hash
                == done.headers.hash_at(done.queue[a].height as int) by {
                let a0 = if a < at {
                    a
                } else {
                    a + 1
                };
                assert(done.queue[a] == start.queue[a0]);
            }
        }
        Ok(IndexedBlock { height: entry.height, hash, transactions: found })
    }
}

impl Chain {
    /// The chain of headers.
    pub fn headers(&self) -> (r: &HeaderChain)
        ensures
            r@ == self@.headers,
            self.wf() ==> r.wf(),
    {
        &self.headers
    }

    /// The number of filter headers recorded.
    pub fn cf_header_count(&self) -> (r: usize)
        ensures
            r == self@.cf.entries.len(),
    {
        self.cf_headers.len()
    }

    /// The number of claims about filter headers that wait for a quorum.
    pub fn pending_claims(&self) -> (r: usize)
        ensures
            r == self@.cf.pending.len(),
    {
        self.cf_headers.pending_len()
    }

    /// What is recorded for the block at `height`, if anything.
    pub fn filter_commitment_at(&self, height: u32) -> (r: Option<FilterCommitment>)
        requires
            self.wf(),
        ensures
            r is Some <==> self@.filter_base < height <= self@.cf_tip(),
            r is Some ==> r->0@ == self@.cf.entries[height - self@.filter_base - 1],
    {
        if height <= self.filter_base {
            None
        } else {
            self.cf_headers.get((height - self.filter_base - 1) as usize)
        }
    }

    /// The peers recorded for the filter header of the block at `height`.
    pub fn supporters_at(&self, height: u32) -> (r: Vec<u32>)
        requires
            self.wf(),
        ensures
            self@.filter_base < height <= self@.cf_tip() ==> r@ == self@.cf.supporters[height
                - self@.filter_base - 1],
            !(self@.filter_base < height <= self@.cf_tip()) ==> r@.len() == 0,
    {
        if height <= self.filter_base {
            Vec::new()
        } else {
            self.cf_headers.supporters_of((height - self.filter_base - 1) as usize)
        }
    }

    /// Whether the filter of the block at `height` is held.
    pub fn has_filter(&self, height: u32) -> (r: bool)
        requires
            self.wf(),
        ensures
            r == (self@.filter_base < height <= self@.cf_tip() && self@.filters[height
                - self@.filter_base - 1] is Some),
    {
        if height <= self.filter_base {
            return false;
        }
        let idx: usize = (height - self.filter_base - 1) as usize;
        if idx < self.filters.len() {
            assert(self@.filters[idx as int] is Some <==> self.filters@[idx as int] is Some);
            self.filters[idx].is_some()
        } else {
            false
        }
    }

    /// The number of filters that are held without a gap from the filter
    /// base on.
    pub fn filters_in_row(&self) -> (r: usize)
        requires
            self.wf(),
        ensures
            r <= self@.filters.len(),
            forall|i: int| 0 <= i < r ==> (#[trigger] self@.filters[i]) is Some,
            r < self@.filters.len() ==> self@.filters[r as int] is None,
    {
        proof {
            assert forall|i: int| 0 <= i < self.present implies (#[trigger] self@.filters[i])
                is Some by {
                assert(self.filters@[i] is Some);
            }
            if self.present < self.filters@.len() {
                assert(self@.filters[self.present as int] is None);
            }
        }
        self.present
    }

    /// The number of blocks that wait to be fetched.
    pub fn queue_len(&self) -> (r: usize)
        ensures
            r == self@.queue.len(),
    {
        self.queue.len()
    }

    /// The number of headers the store is known to hold.
    pub fn persisted(&self) -> (r: usize)
        ensures
            r == self@.persisted,
    {
        self.persisted
    }
}

/// Byte-wise equality of two byte strings.
pub fn bytes_eq(a: &Vec<u8>, b: &Vec<u8>) -> (r: bool)
    ensures
        r == (a@ == b@),
{
    if a.len() != b.len() {
        return false;
    }
    let mut i: usize = 0;
    while i < a.len()
        invariant
            i <= a@.len(),
            a@.len() == b@.len(),
            forall|j: int| 0 <= j < i ==> a@[j] == b@[j],
        decreases a@.len() - i,
    {
        if a[i] != b[i] {
            return false;
        }
        i += 1;
    }
    assert(a@ =~= b@);
    true
}

} // verus!
