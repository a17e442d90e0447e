//! The chain of filter headers, settled by a quorum of peers.

use vstd::prelude::*;

use crate::chain::error::CFHeaderSyncError;
use crate::chain::header::{hash_eq, Hash256};
use crate::chain::header_chain::tail;
use crate::primitives::{sha256d, spec_sha256d};

verus! {

/// What is recorded for one block: its filter header and its filter hash.
#[derive(Clone, Copy, Debug)]
pub struct FilterCommitment {
    pub filter_header: Hash256,
    pub filter_hash: Hash256,
}

/// A recorded commitment as a mathematical value.
pub struct CommitmentView {
    pub header: Seq<u8>,
    pub hash: Seq<u8>,
}

impl View for FilterCommitment {
    type V = CommitmentView;

    open spec fn view(&self) -> CommitmentView {
        CommitmentView { header: self.filter_header@, hash: self.filter_hash@ }
    }
}

/// One peer's claim about the next run of filter hashes.
#[derive(Debug)]
pub struct Attestation {
    pub peer: u32,
    pub prev_header: Hash256,
    pub hashes: Vec<Hash256>,
}

/// A claim as a mathematical value.
pub struct AttestationView {
    pub peer: u32,
    pub prev: Seq<u8>,
    pub hashes: Seq<Seq<u8>>,
}

impl View for Attestation {
    type V = AttestationView;

    open spec fn view(&self) -> AttestationView {
        AttestationView {
            peer: self.peer,
            prev: self.prev_header@,
            hashes: self.hashes.deep_view(),
        }
    }
}

/// Two claims say the same: the same previous filter header and the same
/// filter hashes.
pub open spec fn same_claim(a: AttestationView, b: AttestationView) -> bool {
    a.prev == b.prev && a.hashes == b.hashes
}

/// The peers of `round` that make the claim `claim`, in the order they spoke.
pub open spec fn backers(round: Seq<AttestationView>, claim: AttestationView) -> Seq<u32>
    decreases round.len(),
{
    if round.len() == 0 {
        Seq::empty()
    } else if same_claim(round.last(), claim) {
        backers(round.drop_last(), claim).push(round.last().peer)
    } else {
        backers(round.drop_last(), claim)
    }
}

/// The peers of `round` that claim something else than `claim`.
pub open spec fn dissenters(round: Seq<AttestationView>, claim: AttestationView) -> Seq<u32>
    decreases round.len(),
{
    if round.len() == 0 {
        Seq::empty()
    } else if !same_claim(round.last(), claim) {
        dissenters(round.drop_last(), claim).push(round.last().peer)
    } else {
        dissenters(round.drop_last(), claim)
    }
}

/// Whether `peer` has spoken in `round`.
pub open spec fn has_peer(round: Seq<AttestationView>, peer: u32) -> bool {
    exists|i: int| 0 <= i < round.len() && (#[trigger] round[i]).peer == peer
}

/// Whether some other claim of `round` has at least as many backers as
/// `claim`.
pub open spec fn contested(round: Seq<AttestationView>, claim: AttestationView) -> bool {
    exists|i: int|
        0 <= i < round.len() && !same_claim(#[trigger] round[i], claim) && backers(
            round,
            round[i],
        ).len() >= backers(round, claim).len()
}

/// Whether `claim` is settled: a quorum backs it and no other claim has as
/// many backers.
pub open spec fn settled(round: Seq<AttestationView>, claim: AttestationView, quorum: nat) -> bool {
    backers(round, claim).len() >= quorum && !contested(round, claim)
}

/// No two claims of `round` come from the same peer.
pub open spec fn distinct_peers(round: Seq<AttestationView>) -> bool {
    forall|i: int, j: int|
        0 <= i < j < round.len() ==> (#[trigger] round[i]).peer != (#[trigger] round[j]).peer
}

/// The commitments that follow from filter hashes: each filter header is the
/// double SHA-256 of its filter hash followed by the filter header before it,
/// the first one built on `prev`.
pub open spec fn chain_commitments(prev: Seq<u8>, hashes: Seq<Seq<u8>>) -> Seq<CommitmentView>
    decreases hashes.len(),
{
    if hashes.len() == 0 {
        Seq::empty()
    } else {
        let before = chain_commitments(prev, hashes.drop_last());
        let p = if before.len() == 0 {
            prev
        } else {
            before.last().header
        };
        before.push(CommitmentView { header: spec_sha256d(hashes.last() + p), hash: hashes.last() })
    }
}

/// The filter header of a block: the double SHA-256 of its filter hash
/// followed by the filter header of the block before it.
pub fn next_filter_header(filter_hash: &Hash256, previous: &Hash256) -> (r: Hash256)
    ensures
        r@ == spec_sha256d(filter_hash@ + previous@),
{
    let mut data: Vec<u8> = Vec::new();
    let mut i: usize = 0;
    while i < 32
        invariant
            i <= 32,
            data@ == filter_hash@.take(i as int),
        decreases 32 - i,
    {
        data.push(filter_hash[i]);
        assert(data@ =~= filter_hash@.take(i + 1));
        i += 1;
    }
    assert(filter_hash@.take(32) =~= filter_hash@);
    let mut j: usize = 0;
    while j < 32
        invariant
            j <= 32,
            data@ == filter_hash@ + previous@.take(j as int),
        decreases 32 - j,
    {
        data.push(previous[j]);
        assert(data@ =~= filter_hash@ + previous@.take(j + 1));
        j += 1;
    }
    assert(previous@.take(32) =~= previous@);
    sha256d(data.as_slice())
}

/// What a claim did to the chain of filter headers.
#[derive(Debug)]
pub enum CFHeaderSyncOutcome {
    /// The claim was noted, or its peer had spoken already. More peers are
    /// needed before anything is recorded.
    Waiting,
    /// The claim was settled and recorded. `minority` are the peers that had
    /// claimed otherwise.
    Accepted { minority: Vec<u32> },
}

/// An outcome as a mathematical value.
pub enum OutcomeView {
    Waiting,
    Accepted { minority: Seq<u32> },
}

impl View for CFHeaderSyncOutcome {
    type V = OutcomeView;

    open spec fn view(&self) -> OutcomeView {
        match self {
            CFHeaderSyncOutcome::Waiting => OutcomeView::Waiting,
            CFHeaderSyncOutcome::Accepted { minority } => OutcomeView::Accepted {
                minority: minority@,
            },
        }
    }
}

/// The chain of filter headers as a mathematical value.
pub struct FilterHeaderChainView {
    pub quorum: nat,
    pub entries: Seq<CommitmentView>,
    pub supporters: Seq<Seq<u32>>,
    pub pending: Seq<AttestationView>,
}

impl FilterHeaderChainView {
    /// The claims still open when a claim over `len` blocks comes in: claims
    /// over another number of blocks were made for an older tip and lapse.
    pub open spec fn open_round(self, len: nat) -> Seq<AttestationView> {
        if self.pending.len() > 0 && self.pending[0].hashes.len() != len {
            Seq::empty()
        } else {
            self.pending
        }
    }

    /// The open claims with `claim` added.
    pub open spec fn round_with(self, claim: AttestationView) -> Seq<AttestationView> {
        self.open_round(claim.hashes.len()).push(claim)
    }

    /// What a claim does, or why it is turned down.
    pub open spec fn plan(self, claim: AttestationView) -> Result<OutcomeView, CFHeaderSyncError> {
        if claim.hashes.len() == 0 {
            Err(CFHeaderSyncError::EmptyMessage)
        } else if self.entries.len() > 0 && claim.prev != self.entries.last().header {
            Err(CFHeaderSyncError::PrevHeaderMismatch)
        } else if has_peer(self.open_round(claim.hashes.len()), claim.peer) {
            Ok(OutcomeView::Waiting)
        } else if settled(self.round_with(claim), claim, self.quorum) {
            Ok(OutcomeView::Accepted { minority: dissenters(self.round_with(claim), claim) })
        } else {
            Ok(OutcomeView::Waiting)
        }
    }

    /// The chain of filter headers after a claim.
    pub open spec fn after(self, claim: AttestationView) -> FilterHeaderChainView {
        match self.plan(claim) {
            Err(_) => self,
            Ok(OutcomeView::Waiting) => {
                if has_peer(self.open_round(claim.hashes.len()), claim.peer) {
                    FilterHeaderChainView {
                        pending: self.open_round(claim.hashes.len()),
                        ..self
                    }
                } else {
                    FilterHeaderChainView { pending: self.round_with(claim), ..self }
                }
            },
            Ok(OutcomeView::Accepted { .. }) => FilterHeaderChainView {
                entries: self.entries + chain_commitments(claim.prev, claim.hashes),
                supporters: self.supporters + Seq::new(
                    claim.hashes.len(),
                    |i: int| backers(self.round_with(claim), claim),
                ),
                pending: Seq::empty(),
                ..self
            },
        }
    }

    /// Every filter header is the double SHA-256 of its filter hash followed
    /// by the filter header one block below.
    pub open spec fn chained(self) -> bool {
        forall|i: int, j: int|
            0 <= i && j == i + 1 && j < self.entries.len() ==> (#[trigger] self.entries[j]).header
                == spec_sha256d(self.entries[j].hash + (#[trigger] self.entries[i]).header)
    }

    /// Every recorded commitment names at least a quorum of distinct peers
    /// that claimed it.
    pub open spec fn attested(self) -> bool {
        &&& self.supporters.len() == self.entries.len()
        &&& forall|i: int|
            0 <= i < self.supporters.len() ==> (#[trigger] self.supporters[i]).no_duplicates()
                && self.supporters[i].len() >= self.quorum
    }

    /// The open claims come from distinct peers and cover the same number of
    /// blocks.
    pub open spec fn round_ok(self) -> bool {
        &&& distinct_peers(self.pending)
        &&& forall|i: int|
            0 <= i < self.pending.len() ==> (#[trigger] self.pending[i]).hashes.len()
                == self.pending[0].hashes.len()
    }

    /// The invariant of the chain of filter headers.
    pub open spec fn inv(self) -> bool {
        &&& self.quorum >= 1
        &&& self.chained()
        &&& self.attested()
        &&& self.round_ok()
    }
}

/// The backers and the dissenters of a round are its peers, split in two.
pub proof fn lemma_backers_in_round(round: Seq<AttestationView>, claim: AttestationView)
    ensures
        backers(round, claim).len() + dissenters(round, claim).len() == round.len(),
        forall|k: int|
            0 <= k < backers(round, claim).len() ==> exists|i: int|
                0 <= i < round.len() && (#[trigger] round[i]).peer == #[trigger] backers(
                    round,
                    claim,
                )[k],
    decreases round.len(),
{
    if round.len() > 0 {
        let head = round.drop_last();
        lemma_backers_in_round(head, claim);
        let b = backers(round, claim);
        assert forall|k: int| 0 <= k < b.len() implies exists|i: int|
            0 <= i < round.len() && (#[trigger] round[i]).peer == #[trigger] b[k] by {
            if k < backers(head, claim).len() {
                let i = choose|i: int|
                    0 <= i < head.len() && (#[trigger] head[i]).peer == backers(head, claim)[k];
                assert(round[i] == head[i]);
            } else {
                assert(round[round.len() - 1].peer == b[k]);
            }
        }
    }
}

/// Where no two claims come from the same peer, no peer backs a claim twice.
pub proof fn lemma_backers_distinct(round: Seq<AttestationView>, claim: AttestationView)
    requires
        distinct_peers(round),
    ensures
        backers(round, claim).no_duplicates(),
    decreases round.len(),
{
    if round.len() > 0 {
        let head = round.drop_last();
        assert(distinct_peers(head)) by {
            assert forall|i: int, j: int| 0 <= i < j < head.len() implies (#[trigger] head[i]).peer
                != (#[trigger] head[j]).peer by {
                assert(head[i] == round[i]);
                assert(head[j] == round[j]);
            }
        }
        lemma_backers_distinct(head, claim);
        lemma_backers_in_round(head, claim);
        if same_claim(round.last(), claim) {
            let b = backers(head, claim);
            assert forall|k: int| 0 <= k < b.len() implies b[k] != round.last().peer by {
                let i = choose|i: int| 0 <= i < head.len() && (#[trigger] head[i]).peer == b[k];
                assert(head[i] == round[i]);
                assert(round[i].peer != round[round.len() - 1].peer);
            }
        }
    }
}

/// Byte-wise equality of two lists of hashes.
pub fn hashes_eq(a: &Vec<Hash256>, b: &Vec<Hash256>) -> (r: bool)
    ensures
        r == (a.deep_view() == b.deep_view()),
{
    if a.len() != b.len() {
        assert(a.deep_view().len() != b.deep_view().len());
        return false;
    }
    let mut i: usize = 0;
    while i < a.len()
        invariant
            i <= a@.len(),
            a@.len() == b@.len(),
            forall|j: int| 0 <= j < i ==> a@[j]@ == b@[j]@,
        decreases a@.len() - i,
    {
        if !hash_eq(&a[i], &b[i]) {
            assert(a.deep_view()[i as int] == a@[i as int]@);
            assert(b.deep_view()[i as int] == b@[i as int]@);
            return false;
        }
        i += 1;
    }
    assert(a.deep_view() =~= b.deep_view()) by {
        assert forall|j: int| 0 <= j < a.deep_view().len() implies a.deep_view()[j]
            == b.deep_view()[j] by {
            assert(a.deep_view()[j] == a@[j]@);
            assert(b.deep_view()[j] == b@[j]@);
        }
    }
    true
}

/// Whether two claims say the same.
pub fn claims_agree(a: &Attestation, b: &Attestation) -> (r: bool)
    ensures
        r == same_claim(a@, b@),
{
    hash_eq(&a.prev_header, &b.prev_header) && hashes_eq(&a.hashes, &b.hashes)
}

/// The views of a list of claims.
pub open spec fn round_view(round: Seq<Attestation>) -> Seq<AttestationView> {
    round.map_values(|a: Attestation| a@)
}

/// The views of a list of commitments.
pub open spec fn entries_view(entries: Seq<FilterCommitment>) -> Seq<CommitmentView> {
    entries.map_values(|c: FilterCommitment| c@)
}

/// Splits the peers of a round into those that make `claim` and the others.
pub fn split_round(round: &Vec<Attestation>, claim: &Attestation) -> (r: (Vec<u32>, Vec<u32>))
    ensures
        r.0@ == backers(round_view(round@), claim@),
        r.1@ == dissenters(round_view(round@), claim@),
{
    let mut yes: Vec<u32> = Vec::new();
    let mut no: Vec<u32> = Vec::new();
    let ghost full = round_view(round@);
    let mut i: usize = 0;
    while i < round.len()
        invariant
            i <= round@.len(),
            full == round_view(round@),
            yes@ == backers(full.take(i as int), claim@),
            no@ == dissenters(full.take(i as int), claim@),
        decreases round@.len() - i,
    {
        assert(full.take(i + 1).drop_last() =~= full.take(i as int));
        assert(full.take(i + 1).last() == round@[i as int]@);
        if claims_agree(&round[i], claim) {
            yes.push(round[i].peer);
        } else {
            no.push(round[i].peer);
        }
        i += 1;
    }
    assert(full.take(i as int) =~= full);
    (yes, no)
}

/// Whether some other claim of the round has at least `votes` backers.
pub fn is_contested(round: &Vec<Attestation>, claim: &Attestation, votes: usize) -> (r: bool)
    requires
        votes == backers(round_view(round@), claim@).len(),
    ensures
        r == contested(round_view(round@), claim@),
{
    let ghost full = round_view(round@);
    let mut i: usize = 0;
    while i < round.len()
        invariant
            i <= round@.len(),
            full == round_view(round@),
            votes == backers(full, claim@).len(),
            forall|j: int|
                0 <= j < i ==> !(!same_claim(#[trigger] full[j], claim@) && backers(
                    full,
                    full[j],
                ).len() >= backers(full, claim@).len()),
        decreases round@.len() - i,
    {
        assert(full[i as int] == round@[i as int]@);
        if !claims_agree(&round[i], claim) {
            let (theirs, _others): (Vec<u32>, Vec<u32>) = split_round(round, &round[i]);
            if theirs.len() >= votes {
                return true;
            }
        }
        i += 1;
    }
    false
}

/// Whether `peer` has a claim in the round.
pub fn round_has_peer(round: &Vec<Attestation>, peer: u32) -> (r: bool)
    ensures
        r == has_peer(round_view(round@), peer),
{
    let mut i: usize = 0;
    while i < round.len()
        invariant
            i <= round@.len(),
            forall|j: int| 0 <= j < i ==> (#[trigger] round_view(round@)[j]).peer != peer,
        decreases round@.len() - i,
    {
        if round[i].peer == peer {
            assert(round_view(round@)[i as int].peer == peer);
            return true;
        }
        i += 1;
    }
    false
}

/// The commitments that follow from `n` filter hashes are `n`, each keeps its
/// filter hash, and each filter header is built on the one before it.
pub proof fn lemma_chain_commitments(prev: Seq<u8>, hashes: Seq<Seq<u8>>)
    ensures
        chain_commitments(prev, hashes).len() == hashes.len(),
        forall|i: int|
            0 <= i < hashes.len() ==> (#[trigger] chain_commitments(prev, hashes)[i]).hash
                == hashes[i],
        hashes.len() > 0 ==> chain_commitments(prev, hashes)[0].header == spec_sha256d(
            hashes[0] + prev,
        ),
        forall|i: int, j: int|
            0 <= i && j == i + 1 && j < hashes.len() ==> (#[trigger] chain_commitments(
                prev,
                hashes,
            )[j]).header == spec_sha256d(
                hashes[j] + (#[trigger] chain_commitments(prev, hashes)[i]).header,
            ),
    decreases hashes.len(),
{
    if hashes.len() > 0 {
        let head = hashes.drop_last();
        lemma_chain_commitments(prev, head);
        let before = chain_commitments(prev, head);
        let all = chain_commitments(prev, hashes);
        assert forall|i: int| 0 <= i < hashes.len() implies (#[trigger] all[i]).hash
            == hashes[i] by {
            if i < head.len() {
                assert(all[i] == before[i]);
                assert(head[i] == hashes[i]);
            }
        }
        assert forall|i: int, j: int| 0 <= i && j == i + 1 && j < hashes.len() implies (
        #[trigger] all[j]).header == spec_sha256d(hashes[j] + (#[trigger] all[i]).header) by {
            if j < head.len() {
                assert(all[j] == before[j]);
                assert(all[i] == before[i]);
                assert(head[j] == hashes[j]);
            } else {
                assert(all[i] == before[i]);
            }
        }
        if head.len() > 0 {
            assert(all[0] == before[0]);
            assert(head[0] == hashes[0]);
        }
    }
}

/// The chain of filter headers, one commitment for each block above the
/// height where filters start, with the claims that are not yet settled.
pub struct FilterHeaderChain {
    quorum: usize,
    entries: Vec<FilterCommitment>,
    supporters: Vec<Vec<u32>>,
    pending: Vec<Attestation>,
}

impl View for FilterHeaderChain {
    type V = FilterHeaderChainView;

    closed spec fn view(&self) -> FilterHeaderChainView {
        FilterHeaderChainView {
            quorum: self.quorum as nat,
            entries: entries_view(self.entries@),
            supporters: self.supporters.deep_view(),
            pending: round_view(self.pending@),
        }
    }
}

impl FilterHeaderChain {
    /// The invariant: filter headers are chained, every commitment names a
    /// quorum of distinct peers, and the open claims come from distinct peers.
    pub open spec fn wf(&self) -> bool {
        self@.inv()
    }

    /// An empty chain of filter headers that settles on `quorum` peers, or
    /// on one where `quorum` is zero.
    pub fn new(quorum: usize) -> (r: FilterHeaderChain)
        ensures
            r.wf(),
            r@.quorum == (if quorum == 0 {
                1nat
            } else {
                quorum as nat
            }),
            r@.entries.len() == 0,
            r@.pending.len() == 0,
    {
        let q: usize = if quorum == 0 {
            1
        } else {
            quorum
        };
        let r = FilterHeaderChain {
            quorum: q,
            entries: Vec::new(),
            supporters: Vec::new(),
            pending: Vec::new(),
        };
        assert(r@.supporters.len() == 0);
        r
    }

    /// How many peers must agree.
    pub fn quorum(&self) -> (r: usize)
        ensures
            r == self@.quorum,
    {
        self.quorum
    }

    /// The number of recorded commitments.
    pub fn len(&self) -> (r: usize)
        ensures
            r == self@.entries.len(),
    {
        self.entries.len()
    }

    /// The number of claims that wait for a quorum.
    pub fn pending_len(&self) -> (r: usize)
        ensures
            r == self@.pending.len(),
    {
        self.pending.len()
    }

    /// The commitment at position `i`.
    pub fn get(&self, i: usize) -> (r: Option<FilterCommitment>)
        ensures
            r is Some <==> i < self@.entries.len(),
            r is Some ==> r->0@ == self@.entries[i as int],
    {
        if i < self.entries.len() {
            Some(self.entries[i])
        } else {
            None
        }
    }

    /// The peers recorded for the commitment at position `i`.
    pub fn supporters_of(&self, i: usize) -> (r: Vec<u32>)
        requires
            self.wf(),
        ensures
            i < self@.entries.len() ==> r@ == self@.supporters[i as int],
            i >= self@.entries.len() ==> r@.len() == 0,
    {
        assert(self.supporters.deep_view().len() == self.supporters@.len());
        if i < self.supporters.len() {
            assert(self.supporters.deep_view()[i as int] == self.supporters@[i as int]@);
            tail(&self.supporters[i], 0)
        } else {
            Vec::new()
        }
    }

    /// Cuts the chain back to `len` commitments and drops the open claims.
    /// A chain that is no longer than `len` keeps its commitments.
    pub fn truncate(&mut self, len: usize)
        requires
            old(self).wf(),
        ensures
            final(self).wf(),
            final(self)@.quorum == old(self)@.quorum,
            final(self)@.pending.len() == 0,
            len < old(self)@.entries.len() ==> final(self)@.entries == old(self)@.entries.take(
                len as int,
            ),
            len >= old(self)@.entries.len() ==> final(self)@.entries == old(self)@.entries,
            final(self)@.supporters == old(self)@.supporters.take(final(self)@.entries.len() as int),
    {
        let ghost before = self@;
        assert(self.supporters.deep_view().len() == self.supporters@.len());
        self.entries.truncate(len);
        self.supporters.truncate(len);
        self.pending.clear();
        proof {
            let n = self.entries@.len() as int;
            assert(self@.entries =~= before.entries.take(n));
            assert(self.supporters.deep_view() =~= before.supporters.take(n));
            assert(before.entries.take(before.entries.len() as int) =~= before.entries);
            assert forall|i: int, j: int|
                0 <= i && j == i + 1 && j < self@.entries.len() implies (#[trigger] self@.entries[j]).header
                == spec_sha256d(self@.entries[j].hash + (#[trigger] self@.entries[i]).header) by {
                assert(self@.entries[j] == before.entries[j]);
                assert(self@.entries[i] == before.entries[i]);
            }
            assert forall|i: int| 0 <= i < self@.supporters.len() implies (
            #[trigger] self@.supporters[i]).no_duplicates() && self@.supporters[i].len()
                >= self@.quorum by {
                assert(self@.supporters[i] == before.supporters[i]);
            }
        }
    }

    /// Takes one peer's claim about the filter hashes that follow the
    /// recorded ones.
    ///
    /// A claim that does not build on the last recorded filter header is
    /// turned down. Otherwise it joins the open claims, unless its peer has
    /// one there already. Once a quorum of peers makes the same claim and no
    /// other claim has as many backers, the claim is recorded with the peers
    /// that made it, and the peers that claimed otherwise are handed back.
    pub fn attest(&mut self, claim: Attestation) -> (r: Result<
        CFHeaderSyncOutcome,
        CFHeaderSyncError,
    >)
        requires
            old(self).wf(),
        ensures
            final(self).wf(),
            r matches Ok(o) ==> Ok::<OutcomeView, CFHeaderSyncError>(o@) == old(self)@.plan(claim@),
            r matches Err(e) ==> Err::<OutcomeView, CFHeaderSyncError>(e) == old(self)@.plan(
                claim@,
            ),
            final(self)@ == old(self)@.after(claim@),
    {
        let ghost start = self@;
        let ghost cv = claim@;
        assert(claim.hashes.deep_view().len() == claim.hashes@.len());
        if claim.hashes.len() == 0 {
            return Err(CFHeaderSyncError::EmptyMessage);
        }
        if self.entries.len() > 0 {
            let last: usize = self.entries.len() - 1;
            assert(start.entries.last() == self.entries@[last as int]@);
            if !hash_eq(&claim.prev_header, &self.entries[last].filter_header) {
                return Err(CFHeaderSyncError::PrevHeaderMismatch);
            }
        }
        if self.pending.len() > 0 {
            assert(start.pending[0] == self.pending@[0]@);
            assert(self.pending@[0].hashes.deep_view().len() == self.pending@[0].hashes@.len());
            if self.pending[0].hashes.len() != claim.hashes.len() {
                self.pending.clear();
            }
        }
        let ghost round = start.open_round(cv.hashes.len());
        assert(round_view(self.pending@) =~= round);
        assert(distinct_peers(round));
        if round_has_peer(&self.pending, claim.peer) {
            assert(self@ == start.after(cv));
            assert(self@.round_ok()) by {
                if round.len() > 0 {
                    assert(round == start.pending);
                }
            }
            return Ok(CFHeaderSyncOutcome::Waiting);
        }
        let prev: Hash256 = claim.prev_header;
        let hashes: Vec<Hash256> = tail(&claim.hashes, 0);
        assert(hashes.deep_view() =~= cv.hashes) by {
            assert(hashes@ =~= claim.hashes@);
            assert forall|i: int| 0 <= i < hashes@.len() implies hashes.deep_view()[i]
                == cv.hashes[i] by {
                assert(hashes.deep_view()[i] == hashes@[i]@);
                assert(claim.hashes.deep_view()[i] == claim.hashes@[i]@);
            }
        }
        self.pending.push(claim);
        let ghost round2 = start.round_with(cv);
        assert(round_view(self.pending@) =~= round2);
        let at: usize = self.pending.len() - 1;
        assert(self.pending@[at as int]@ == cv);
        proof {
            assert forall|i: int, j: int| 0 <= i < j < round2.len() implies (
            #[trigger] round2[i]).peer != (#[trigger] round2[j]).peer by {
                assert(round2[i] == round[i]);
                if j < round.len() {
                    assert(round2[j] == round[j]);
                }
            }
            assert forall|i: int| 0 <= i < round2.len() implies (#[trigger] round2[i]).hashes.len()
                == round2[0].hashes.len() by {
                if round.len() > 0 {
                    assert(round == start.pending);
                    assert(round2[0] == round[0]);
                    if i < round.len() {
                        assert(round2[i] == round[i]);
                    }
                }
            }
        }
        let (yes, no): (Vec<u32>, Vec<u32>) = split_round(&self.pending, &self.pending[at]);
        let disputed: bool = is_contested(&self.pending, &self.pending[at], yes.len());
        if yes.len() < self.quorum || disputed {
            assert(self@ == start.after(cv));
            return Ok(CFHeaderSyncOutcome::Waiting);
        }
        proof {
            lemma_backers_distinct(round2, cv);
            lemma_chain_commitments(cv.prev, cv.hashes);
        }
        self.pending.clear();
        let ghost fresh = chain_commitments(cv.prev, cv.hashes);
        assert(self.supporters.deep_view().len() == self.supporters@.len());
        let mut cur: Hash256 = prev;
        let mut j: usize = 0;
        while j < hashes.len()
            invariant
                j <= hashes@.len(),
                hashes.deep_view() == cv.hashes,
                hashes@.len() == cv.hashes.len(),
                fresh == chain_commitments(cv.prev, cv.hashes),
                fresh.len() == cv.hashes.len(),
                yes@ == backers(round2, cv),
                self.quorum == start.quorum,
                self.pending@.len() == 0,
                cur@ == (if j == 0 {
                    cv.prev
                } else {
                    fresh[j - 1].header
                }),
                entries_view(self.entries@) == start.entries + fresh.take(j as int),
                self.supporters.deep_view() == start.supporters + Seq::new(
                    j as nat,
                    |i: int| backers(round2, cv),
                ),
            decreases hashes@.len() - j,
        {
            let header: Hash256 = next_filter_header(&hashes[j], &cur);
            proof {
                assert(hashes.deep_view()[j as int] == hashes@[j as int]@);
                lemma_chain_commitments(cv.prev, cv.hashes);
                if j > 0 {
                    assert(fresh[j as int].header == spec_sha256d(
                        cv.hashes[j as int] + fresh[j - 1].header,
                    ));
                }
                assert(fresh[j as int].hash == cv.hashes[j as int]);
            }
            let ghost old_entries = self.entries@;
            let ghost old_supporters = self.supporters.deep_view();
            assert(old_supporters.len() == self.supporters@.len());
            assert(old_supporters.len() == start.supporters.len() + j);
            self.entries.push(FilterCommitment { filter_header: header, filter_hash: hashes[j] });
            let who: Vec<u32> = tail(&yes, 0);
            self.supporters.push(who);
            proof {
                assert(self.entries@[self.entries@.len() - 1]@ == fresh[j as int]);
                assert(entries_view(self.entries@) =~= entries_view(old_entries).push(
                    fresh[j as int],
                ));
                assert(fresh.take(j + 1) =~= fresh.take(j as int).push(fresh[j as int]));
                assert(entries_view(self.entries@) =~= start.entries + fresh.take(j + 1));
                assert(self.supporters.deep_view().len() == self.supporters@.len());
                assert forall|i: int| 0 <= i < self.supporters@.len() implies (
                #[trigger] self.supporters.deep_view()[i]) == (start.supporters + Seq::new(
                    (j + 1) as nat,
                    |i: int| backers(round2, cv),
                ))[i] by {
                    assert(self.supporters.deep_view()[i] == self.supporters@[i]@);
                    if i < old_supporters.len() {
                        assert(old_supporters[i] == self.supporters@[i]@);
                    }
                }
                assert(self.supporters.deep_view() =~= start.supporters + Seq::new(
                    (j + 1) as nat,
                    |i: int| backers(round2, cv),
                ));
            }
            cur = header;
            j += 1;
        }
        proof {
            assert(fresh.take(j as int) =~= fresh);
            assert(round_view(self.pending@) =~= Seq::<AttestationView>::empty());
            assert(self@ == start.after(cv));
            let done = self@;
            assert forall|a: int, b: int|
                0 <= a && b == a + 1 && b < done.entries.len() implies (#[trigger] done.entries[b]).header
                == spec_sha256d(done.entries[b].hash + (#[trigger] done.entries[a]).header) by {
                let n = start.entries.len() as int;
                if b < n {
                    assert(done.entries[b] == start.entries[b]);
                    assert(done.entries[a] == start.entries[a]);
                } else if b == n {
                    assert(done.entries[b] == fresh[0]);
                    assert(done.entries[a] == start.entries[a]);
                    assert(fresh[0].hash == cv.hashes[0]);
                } else {
                    assert(done.entries[b] == fresh[b - n]);
                    assert(done.entries[a] == fresh[a - n]);
                    assert(fresh[b - n].hash == cv.hashes[b - n]);
                }
            }
            assert forall|i: int| 0 <= i < done.supporters.len() implies (
            #[trigger] done.supporters[i]).no_duplicates() && done.supporters[i].len()
                >= done.quorum by {
                if i < start.supporters.len() {
                    assert(done.supporters[i] == start.supporters[i]);
                }
            }
        }
        Ok(CFHeaderSyncOutcome::Accepted { minority: no })
    }
}

} // verus!
