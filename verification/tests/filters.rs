use kyoto::chain::cfheaders::{
    next_filter_header, Attestation, CFHeaderSyncOutcome, FilterHeaderChain,
};
use kyoto::chain::chain::{
    filter_count_ok, keep_script, keep_scripts, read_filter, Block, CFHeaders, CFilter, Chain,
    FilterSyncOutcome, IndexedFilter, OutPoint, Transaction,
};
use kyoto::chain::checkpoints::HeaderCheckpoint;
use kyoto::chain::error::{BlockScanError, CFHeaderSyncError, CFilterSyncError};
use kyoto::chain::header::Header;
use kyoto::chain::header_chain::{HeaderChain, HeaderSyncOutcome};
use kyoto::network::Network;

const EASY: u32 = 0x207f_ffff;

fn sha256d(data: &[u8]) -> [u8; 32] {
    let digest: bitcoin::hashes::sha256d::Hash = bitcoin::hashes::Hash::hash(data);
    bitcoin::hashes::Hash::to_byte_array(digest)
}

fn mine(prev: [u8; 32], time: u32, merkle_root: [u8; 32]) -> Header {
    let mut header =
        Header { version: 1, prev_blockhash: prev, merkle_root, time, bits: EASY, nonce: 0 };
    loop {
        if header.block_hash()[31] < 0x7f {
            return header;
        }
        header.nonce += 1;
    }
}

fn branch(prev: [u8; 32], start_time: u32, count: usize, salt: u8) -> Vec<Header> {
    let mut out = Vec::new();
    let mut prev = prev;
    for i in 0..count {
        let mut merkle_root = [0u8; 32];
        merkle_root[0] = salt;
        merkle_root[1] = i as u8;
        let header = mine(prev, start_time + 600 * i as u32, merkle_root);
        prev = header.block_hash();
        out.push(header);
    }
    out
}

fn anchor() -> HeaderCheckpoint {
    HeaderCheckpoint::new(100, [7u8; 32])
}

fn script(tag: u8) -> Vec<u8> {
    vec![0x00, 0x14, tag, tag, tag, tag, tag, tag, tag, tag, tag, tag, tag, tag, tag, tag, tag, tag, tag, tag, tag, tag]
}

fn filter_for(block_hash: &[u8; 32], scripts: &[Vec<u8>]) -> Vec<u8> {
    let mut k0 = [0u8; 8];
    let mut k1 = [0u8; 8];
    k0.copy_from_slice(&block_hash[0..8]);
    k1.copy_from_slice(&block_hash[8..16]);
    let mut out: Vec<u8> = Vec::new();
    {
        let mut writer = bitcoin::bip158::GcsFilterWriter::new(
            &mut out,
            u64::from_le_bytes(k0),
            u64::from_le_bytes(k1),
            784931,
            19,
        );
        for s in scripts {
            writer.add_element(s);
        }
        writer.finish().unwrap();
    }
    out
}

struct Setup {
    chain: Chain,
    headers: Vec<Header>,
    filters: Vec<Vec<u8>>,
    hashes: Vec<[u8; 32]>,
}

/// Five blocks above the anchor. The filter of block 103 holds script 1, the
/// filter of block 105 holds script 2, the others hold script 9.
fn setup(quorum: usize, watched: Vec<Vec<u8>>) -> Setup {
    let headers = branch(anchor().hash, 1_000_000, 5, 1);
    let mut header_chain = HeaderChain::new(Network::Regtest, anchor(), 10);
    assert!(header_chain.sync(&headers).is_ok());
    let chain = Chain::new(header_chain, watched, None, quorum);
    let mut filters = Vec::new();
    let mut hashes = Vec::new();
    for (i, h) in headers.iter().enumerate() {
        let inside = match i {
            2 => script(1),
            4 => script(2),
            _ => script(9),
        };
        let content = filter_for(&h.block_hash(), &[inside]);
        hashes.push(sha256d(&content));
        filters.push(content);
    }
    Setup { chain, headers, filters, hashes }
}

fn answer(s: &Setup, from: usize, to: usize, prev: [u8; 32]) -> CFHeaders {
    CFHeaders {
        stop_hash: s.headers[to - 1].block_hash(),
        previous_filter_header: prev,
        filter_hashes: s.hashes[from..to].to_vec(),
    }
}

fn filter_header(hash: &[u8; 32], prev: &[u8; 32]) -> [u8; 32] {
    let mut data = Vec::new();
    data.extend_from_slice(hash);
    data.extend_from_slice(prev);
    sha256d(&data)
}

fn accepted(r: Result<CFHeaderSyncOutcome, CFHeaderSyncError>) -> Vec<u32> {
    match r {
        Ok(CFHeaderSyncOutcome::Accepted { minority }) => minority,
        other => panic!("not accepted: {:?}", other),
    }
}

fn waiting(r: Result<CFHeaderSyncOutcome, CFHeaderSyncError>) {
    match r {
        Ok(CFHeaderSyncOutcome::Waiting) => {},
        other => panic!("not waiting: {:?}", other),
    }
}

#[test]
fn filter_header_is_that_of_the_other_implementation() {
    let hash = [0x21u8; 32];
    let prev = [0x43u8; 32];
    let theirs: bitcoin::bip158::FilterHash = bitcoin::hashes::Hash::from_byte_array(hash);
    let before: bitcoin::bip158::FilterHeader = bitcoin::hashes::Hash::from_byte_array(prev);
    assert_eq!(
        next_filter_header(&hash, &prev),
        bitcoin::hashes::Hash::to_byte_array(theirs.filter_header(&before))
    );
    assert_eq!(next_filter_header(&hash, &prev), filter_header(&hash, &prev));
    assert_ne!(next_filter_header(&hash, &prev), next_filter_header(&prev, &hash));
    let content = vec![1u8, 2, 3];
    let filter = bitcoin::bip158::BlockFilter::new(&content);
    assert_eq!(
        next_filter_header(&sha256d(&content), &prev),
        bitcoin::hashes::Hash::to_byte_array(filter.filter_header(&before))
    );
}

#[test]
fn one_peer_settles_with_quorum_one() {
    let mut s = setup(1, vec![script(1)]);
    assert!(!s.chain.is_cf_headers_synced());
    let request = s.chain.next_cf_header_message().unwrap();
    assert_eq!(request.start_height, 101);
    assert_eq!(request.stop_hash, s.headers[4].block_hash());
    let msg = answer(&s, 0, 5, [0u8; 32]);
    assert_eq!(accepted(s.chain.sync_cf_headers(1, msg)), Vec::<u32>::new());
    assert_eq!(s.chain.cf_header_count(), 5);
    assert_eq!(s.chain.cf_tip(), 105);
    assert!(s.chain.is_cf_headers_synced());
    assert!(s.chain.next_cf_header_message().is_none());
    let mut prev = [0u8; 32];
    for i in 0..5 {
        let c = s.chain.filter_commitment_at(101 + i as u32).unwrap();
        assert_eq!(c.filter_hash, s.hashes[i]);
        let expected = filter_header(&s.hashes[i], &prev);
        assert_eq!(c.filter_header, expected);
        assert_ne!(c.filter_header, s.hashes[i]);
        prev = expected;
        assert_eq!(s.chain.supporters_at(101 + i as u32), vec![1]);
    }
    assert!(s.chain.filter_commitment_at(100).is_none());
    assert!(s.chain.filter_commitment_at(106).is_none());
    assert!(s.chain.supporters_at(106).is_empty());
}

#[test]
fn filter_headers_wait_for_the_quorum() {
    let mut s = setup(2, Vec::new());
    let msg = answer(&s, 0, 5, [0u8; 32]);
    waiting(s.chain.sync_cf_headers(1, msg));
    assert_eq!(s.chain.cf_header_count(), 0);
    assert_eq!(s.chain.pending_claims(), 1);
    // The same peer again adds nothing.
    let msg = answer(&s, 0, 5, [0u8; 32]);
    waiting(s.chain.sync_cf_headers(1, msg));
    assert_eq!(s.chain.pending_claims(), 1);
    let msg = answer(&s, 0, 5, [0u8; 32]);
    assert_eq!(accepted(s.chain.sync_cf_headers(2, msg)), Vec::<u32>::new());
    assert_eq!(s.chain.cf_header_count(), 5);
    assert_eq!(s.chain.pending_claims(), 0);
    for h in 101..=105u32 {
        assert_eq!(s.chain.supporters_at(h), vec![1, 2]);
    }
}

#[test]
fn outvoted_peer_is_handed_back() {
    // Peers 1 and 2 claim X, peer 3 claims Y.
    let mut s = setup(2, Vec::new());
    let mut other = answer(&s, 0, 5, [0u8; 32]);
    other.filter_hashes[3] = [0xeeu8; 32];
    waiting(s.chain.sync_cf_headers(3, other));
    let msg = answer(&s, 0, 5, [0u8; 32]);
    waiting(s.chain.sync_cf_headers(1, msg));
    assert_eq!(s.chain.pending_claims(), 2);
    assert_eq!(s.chain.cf_header_count(), 0);
    let msg = answer(&s, 0, 5, [0u8; 32]);
    assert_eq!(accepted(s.chain.sync_cf_headers(2, msg)), vec![3]);
    assert_eq!(s.chain.cf_header_count(), 5);
    assert_eq!(s.chain.filter_commitment_at(104).unwrap().filter_hash, s.hashes[3]);
    assert_eq!(s.chain.supporters_at(104), vec![1, 2]);
}

#[test]
fn claims_differ_by_previous_filter_header_too() {
    let mut s = setup(2, Vec::new());
    let msg = answer(&s, 0, 5, [0u8; 32]);
    waiting(s.chain.sync_cf_headers(1, msg));
    let msg = answer(&s, 0, 5, [1u8; 32]);
    waiting(s.chain.sync_cf_headers(2, msg));
    let msg = answer(&s, 0, 5, [1u8; 32]);
    assert_eq!(accepted(s.chain.sync_cf_headers(3, msg)), vec![1]);
    let c = s.chain.filter_commitment_at(101).unwrap();
    assert_eq!(c.filter_header, filter_header(&s.hashes[0], &[1u8; 32]));
}

#[test]
fn filter_headers_come_in_runs() {
    let mut s = setup(1, Vec::new());
    let msg = answer(&s, 0, 2, [0u8; 32]);
    assert!(accepted(s.chain.sync_cf_headers(1, msg)).is_empty());
    assert_eq!(s.chain.cf_header_count(), 2);
    assert!(!s.chain.is_cf_headers_synced());
    let request = s.chain.next_cf_header_message().unwrap();
    assert_eq!(request.start_height, 103);
    assert_eq!(request.stop_hash, s.headers[4].block_hash());
    let last = s.chain.filter_commitment_at(102).unwrap().filter_header;
    // A run that does not build on the recorded filter header is turned down.
    let msg = answer(&s, 2, 5, [0u8; 32]);
    assert_eq!(
        s.chain.sync_cf_headers(1, msg).err(),
        Some(CFHeaderSyncError::PrevHeaderMismatch)
    );
    assert_eq!(s.chain.cf_header_count(), 2);
    let msg = answer(&s, 2, 5, last);
    assert!(accepted(s.chain.sync_cf_headers(1, msg)).is_empty());
    assert_eq!(s.chain.cf_header_count(), 5);
    let c = s.chain.filter_commitment_at(103).unwrap();
    assert_eq!(c.filter_header, filter_header(&s.hashes[2], &last));
}

#[test]
fn filter_header_answers_that_are_turned_down() {
    let mut s = setup(1, Vec::new());
    let mut msg = answer(&s, 0, 5, [0u8; 32]);
    msg.filter_hashes.clear();
    assert_eq!(s.chain.sync_cf_headers(1, msg).err(), Some(CFHeaderSyncError::EmptyMessage));
    let mut msg = answer(&s, 0, 5, [0u8; 32]);
    msg.stop_hash = [0x33u8; 32];
    assert_eq!(s.chain.sync_cf_headers(1, msg).err(), Some(CFHeaderSyncError::UnknownStopHash));
    // Four hashes that stop at block 105 leave block 101 out.
    let msg = answer(&s, 1, 5, [0u8; 32]);
    assert_eq!(s.chain.sync_cf_headers(1, msg).err(), Some(CFHeaderSyncError::UnknownStopHash));
    // Six hashes that stop at block 105 start at the anchor.
    let mut msg = answer(&s, 0, 5, [0u8; 32]);
    msg.filter_hashes.push([1u8; 32]);
    assert_eq!(s.chain.sync_cf_headers(1, msg).err(), Some(CFHeaderSyncError::UnknownStopHash));
    assert_eq!(s.chain.cf_header_count(), 0);
    assert_eq!(s.chain.pending_claims(), 0);
}

#[test]
fn late_answers_are_held_against_the_record() {
    let mut s = setup(1, Vec::new());
    let msg = answer(&s, 0, 5, [0u8; 32]);
    assert!(accepted(s.chain.sync_cf_headers(1, msg)).is_empty());
    let msg = answer(&s, 0, 5, [0u8; 32]);
    waiting(s.chain.sync_cf_headers(2, msg));
    let msg = answer(&s, 1, 4, [0u8; 32]);
    waiting(s.chain.sync_cf_headers(2, msg));
    let mut msg = answer(&s, 0, 5, [0u8; 32]);
    msg.filter_hashes[4] = [0xeeu8; 32];
    assert_eq!(s.chain.sync_cf_headers(3, msg).err(), Some(CFHeaderSyncError::HeaderMismatch));
    assert_eq!(s.chain.cf_header_count(), 5);
    assert_eq!(s.chain.filter_commitment_at(105).unwrap().filter_hash, s.hashes[4]);
}

#[test]
fn stale_claims_lapse_when_the_run_changes() {
    let mut s = setup(2, Vec::new());
    let msg = answer(&s, 0, 5, [0u8; 32]);
    waiting(s.chain.sync_cf_headers(1, msg));
    // Another peer answers for a shorter run: the older claim lapses.
    let msg = answer(&s, 0, 3, [0u8; 32]);
    waiting(s.chain.sync_cf_headers(2, msg));
    assert_eq!(s.chain.pending_claims(), 1);
    let msg = answer(&s, 0, 3, [0u8; 32]);
    assert!(accepted(s.chain.sync_cf_headers(1, msg)).is_empty());
    assert_eq!(s.chain.cf_header_count(), 3);
    assert_eq!(s.chain.supporters_at(101), vec![2, 1]);
}

#[test]
fn quorum_of_zero_counts_as_one() {
    let chain = FilterHeaderChain::new(0);
    assert_eq!(chain.quorum(), 1);
    let mut chain = FilterHeaderChain::new(3);
    assert_eq!(chain.quorum(), 3);
    assert_eq!(chain.len(), 0);
    assert!(chain.get(0).is_none());
    let claim = |peer: u32| Attestation { peer, prev_header: [0u8; 32], hashes: vec![[1u8; 32]] };
    assert!(matches!(chain.attest(claim(1)), Ok(CFHeaderSyncOutcome::Waiting)));
    assert!(matches!(chain.attest(claim(2)), Ok(CFHeaderSyncOutcome::Waiting)));
    assert_eq!(chain.pending_len(), 2);
    assert!(matches!(chain.attest(claim(3)), Ok(CFHeaderSyncOutcome::Accepted { .. })));
    assert_eq!(chain.len(), 1);
    assert_eq!(chain.supporters_of(0), vec![1, 2, 3]);
    assert!(chain.supporters_of(1).is_empty());
    chain.truncate(5);
    assert_eq!(chain.len(), 1);
    chain.truncate(0);
    assert_eq!(chain.len(), 0);
}

fn with_filter_headers(quorum: usize, watched: Vec<Vec<u8>>) -> Setup {
    let mut s = setup(quorum, watched);
    for peer in 1..=(quorum.max(1) as u32) {
        let msg = answer(&s, 0, 5, [0u8; 32]);
        let _ = s.chain.sync_cf_headers(peer, msg);
    }
    assert_eq!(s.chain.cf_header_count(), 5);
    s
}

fn filter_at(s: &Setup, i: usize) -> CFilter {
    CFilter { block_hash: s.headers[i].block_hash(), contents: s.filters[i].clone() }
}

#[test]
fn matching_filter_queues_its_block() {
    let mut s = with_filter_headers(1, vec![script(1), script(2)]);
    assert!(!s.chain.is_filters_synced());
    let request = s.chain.next_filter_message().unwrap();
    assert_eq!(request.start_height, 101);
    assert_eq!(request.stop_hash, s.headers[4].block_hash());
    let f = filter_at(&s, 0);
    assert_eq!(
        s.chain.sync_filter(f),
        Ok(FilterSyncOutcome::Stored { height: 101, matched: false })
    );
    assert!(s.chain.has_filter(101));
    assert!(!s.chain.has_filter(102));
    assert!(s.chain.block_queue_empty());
    assert_eq!(s.chain.next_filter_message().unwrap().start_height, 102);
    // Out of order: block 105 before block 103.
    let f = filter_at(&s, 4);
    assert_eq!(s.chain.sync_filter(f), Ok(FilterSyncOutcome::Stored { height: 105, matched: true }));
    let f = filter_at(&s, 2);
    assert_eq!(s.chain.sync_filter(f), Ok(FilterSyncOutcome::Stored { height: 103, matched: true }));
    assert_eq!(s.chain.queue_len(), 2);
    assert_eq!(s.chain.next_block(), Some(s.headers[4].block_hash()));
    assert_eq!(s.chain.filters_in_row(), 1);
    assert!(!s.chain.is_filters_synced());
    let f = filter_at(&s, 1);
    assert!(s.chain.sync_filter(f).is_ok());
    assert_eq!(s.chain.filters_in_row(), 3);
    let f = filter_at(&s, 3);
    assert!(s.chain.sync_filter(f).is_ok());
    assert_eq!(s.chain.filters_in_row(), 5);
    assert!(s.chain.is_filters_synced());
    assert!(s.chain.next_filter_message().is_none());
    assert_eq!(s.chain.queue_len(), 2);
}

#[test]
fn filter_given_twice_is_held_once() {
    let mut s = with_filter_headers(1, vec![script(1)]);
    let f = filter_at(&s, 2);
    assert_eq!(s.chain.sync_filter(f), Ok(FilterSyncOutcome::Stored { height: 103, matched: true }));
    let f = filter_at(&s, 2);
    assert_eq!(s.chain.sync_filter(f), Ok(FilterSyncOutcome::AlreadyHeld));
    assert_eq!(s.chain.queue_len(), 1);
}

#[test]
fn filter_with_wrong_hash_is_rejected_and_the_record_stays() {
    let mut s = with_filter_headers(1, vec![script(1)]);
    let before = s.chain.filter_commitment_at(103).unwrap();
    let bad = CFilter { block_hash: s.headers[2].block_hash(), contents: s.filters[3].clone() };
    assert_eq!(s.chain.sync_filter(bad), Err(CFilterSyncError::MisalignedFilterHash));
    assert!(!s.chain.has_filter(103));
    assert!(s.chain.block_queue_empty());
    let after = s.chain.filter_commitment_at(103).unwrap();
    assert_eq!(before.filter_hash, after.filter_hash);
    assert_eq!(before.filter_header, after.filter_header);
    assert_eq!(s.chain.cf_header_count(), 5);
    // The right filter is still taken afterwards.
    let f = filter_at(&s, 2);
    assert_eq!(s.chain.sync_filter(f), Ok(FilterSyncOutcome::Stored { height: 103, matched: true }));
}

#[test]
fn filters_that_were_not_asked_for_are_rejected() {
    let mut s = setup(1, vec![script(1)]);
    let f = filter_at(&s, 0);
    assert_eq!(s.chain.sync_filter(f), Err(CFilterSyncError::UnrequestedFilter));
    let unknown = CFilter { block_hash: [0x44u8; 32], contents: vec![0] };
    assert_eq!(s.chain.sync_filter(unknown), Err(CFilterSyncError::UnrequestedFilter));
    let at_anchor = CFilter { block_hash: anchor().hash, contents: vec![0] };
    assert_eq!(s.chain.sync_filter(at_anchor), Err(CFilterSyncError::UnrequestedFilter));
}

#[test]
fn unreadable_filters_with_another_hash_are_rejected() {
    let mut s = with_filter_headers(1, vec![script(1)]);
    let huge_count = vec![0xff, 1, 0, 0, 0, 0, 0, 1, 0, 0];
    assert!(!filter_count_ok(&huge_count));
    assert!(filter_count_ok(&vec![0xff, 1, 0, 0, 0, 1, 0, 0, 0, 0]));
    assert!(filter_count_ok(&vec![0xff, 1, 0]));
    assert!(filter_count_ok(&Vec::new()));
    let f = CFilter { block_hash: s.headers[0].block_hash(), contents: huge_count };
    assert_eq!(s.chain.sync_filter(f), Err(CFilterSyncError::MisalignedFilterHash));
    let too_long = vec![0u8; 0x0200_0001];
    let f = CFilter { block_hash: s.headers[0].block_hash(), contents: too_long };
    assert_eq!(s.chain.sync_filter(f), Err(CFilterSyncError::MisalignedFilterHash));
    assert!(!s.chain.has_filter(101));
}

#[test]
fn wrong_filter_for_a_block_whose_filter_is_held_is_rejected() {
    let mut s = with_filter_headers(1, vec![script(1)]);
    let f = filter_at(&s, 2);
    assert_eq!(s.chain.sync_filter(f), Ok(FilterSyncOutcome::Stored { height: 103, matched: true }));
    let bad = CFilter { block_hash: s.headers[2].block_hash(), contents: s.filters[3].clone() };
    assert_eq!(s.chain.sync_filter(bad), Err(CFilterSyncError::MisalignedFilterHash));
    assert!(s.chain.has_filter(103));
    assert_eq!(s.chain.queue_len(), 1);
    let f = filter_at(&s, 2);
    assert_eq!(s.chain.sync_filter(f), Ok(FilterSyncOutcome::AlreadyHeld));
}

#[test]
fn filters_are_read_with_care() {
    let block = [7u8; 32];
    let scripts = vec![script(1)];
    assert_eq!(read_filter(&vec![0xff, 1, 0, 0, 0, 0, 0, 1, 0, 0], &block, &scripts), None);
    assert_eq!(read_filter(&vec![5u8], &block, &scripts), None);
    assert_eq!(read_filter(&vec![0u8], &block, &scripts), Some(false));
    assert_eq!(read_filter(&vec![0u8], &block, &Vec::new()), Some(false));
    let held = IndexedFilter::new(9, block, vec![0xff, 1, 0, 0, 0, 0, 0, 1, 0, 0]);
    assert_eq!(held.contains_any(&scripts), None);
    assert_eq!(held.height(), 9);
}

#[test]
fn recorded_filter_that_cannot_be_read_is_stored_without_a_match() {
    // The recorded filter hash is that of a filter that claims five elements
    // and holds none.
    let headers = branch(anchor().hash, 1_000_000, 1, 1);
    let mut header_chain = HeaderChain::new(Network::Regtest, anchor(), 10);
    assert!(header_chain.sync(&headers).is_ok());
    let mut chain = Chain::new(header_chain, vec![script(1)], None, 1);
    let content = vec![5u8];
    let msg = CFHeaders {
        stop_hash: headers[0].block_hash(),
        previous_filter_header: [0u8; 32],
        filter_hashes: vec![sha256d(&content)],
    };
    assert!(chain.sync_cf_headers(1, msg).is_ok());
    let f = CFilter { block_hash: headers[0].block_hash(), contents: content };
    assert_eq!(chain.sync_filter(f), Ok(FilterSyncOutcome::Stored { height: 101, matched: false }));
    assert!(chain.has_filter(101));
    assert!(chain.block_queue_empty());
    assert!(chain.is_filters_synced());
}

#[test]
fn scripts_named_twice_are_watched_once() {
    assert_eq!(keep_scripts(&vec![script(1), script(2), script(1), script(3), script(2)]), vec![
        script(1),
        script(2),
        script(3),
    ]);
    assert!(keep_scripts(&Vec::new()).is_empty());
    let mut list = vec![script(4)];
    keep_script(&mut list, script(4));
    keep_script(&mut list, script(5));
    assert_eq!(list, vec![script(4), script(5)]);
}

#[test]
fn nothing_matches_without_scripts() {
    let mut s = with_filter_headers(1, Vec::new());
    let f = filter_at(&s, 2);
    assert_eq!(
        s.chain.sync_filter(f),
        Ok(FilterSyncOutcome::Stored { height: 103, matched: false })
    );
    assert!(s.chain.block_queue_empty());
}

#[test]
fn scripts_are_added_once() {
    let mut s = with_filter_headers(1, Vec::new());
    s.chain.add_script(script(1));
    s.chain.add_script(script(1));
    let f = filter_at(&s, 2);
    assert_eq!(s.chain.sync_filter(f), Ok(FilterSyncOutcome::Stored { height: 103, matched: true }));
}

#[test]
fn reorg_drops_what_lies_above_the_fork() {
    let mut s = with_filter_headers(1, vec![script(1), script(2)]);
    for i in 0..5 {
        let f = filter_at(&s, i);
        assert!(s.chain.sync_filter(f).is_ok());
    }
    assert_eq!(s.chain.queue_len(), 2);
    assert!(s.chain.is_filters_synced());
    let _ = s.chain.flush_to_disk();
    assert_eq!(s.chain.persisted(), 5);
    // A longer branch forks at 103: blocks 104 and 105 go.
    let fork = branch(s.headers[2].block_hash(), 3_000_000, 3, 9);
    assert_eq!(
        s.chain.sync_chain(fork.clone()),
        Ok(HeaderSyncOutcome::Adopted { fork_height: 103, from: 0 })
    );
    assert_eq!(s.chain.height(), 106);
    assert_eq!(s.chain.cf_header_count(), 3);
    assert_eq!(s.chain.cf_tip(), 103);
    assert!(s.chain.has_filter(103));
    assert!(!s.chain.has_filter(104));
    assert_eq!(s.chain.queue_len(), 1);
    assert_eq!(s.chain.next_block(), Some(s.headers[2].block_hash()));
    assert!(!s.chain.is_cf_headers_synced());
    assert_eq!(s.chain.next_cf_header_message().unwrap().start_height, 104);
    assert_eq!(s.chain.persisted(), 3);
    let update = s.chain.flush_to_disk();
    assert_eq!(update.rewind_to, 103);
    assert_eq!(update.headers.len(), 3);
    assert_eq!(update.headers[0].block_hash(), fork[0].block_hash());
    assert_eq!(s.chain.persisted(), 6);
}

#[test]
fn flush_hands_out_what_the_store_lacks() {
    let mut s = setup(1, Vec::new());
    // The headers the chain was made of count as stored.
    let update = s.chain.flush_to_disk();
    assert_eq!(update.rewind_to, 105);
    assert!(update.headers.is_empty());
    let more = branch(s.headers[4].block_hash(), 2_000_000, 2, 3);
    assert!(s.chain.sync_chain(more.clone()).is_ok());
    // The same batch again writes nothing more.
    assert_eq!(s.chain.sync_chain(more.clone()), Ok(HeaderSyncOutcome::Unchanged));
    let update = s.chain.flush_to_disk();
    assert_eq!(update.rewind_to, 105);
    assert_eq!(update.headers.len(), 2);
    assert_eq!(update.headers[1].block_hash(), more[1].block_hash());
    let update = s.chain.flush_to_disk();
    assert_eq!(update.rewind_to, 107);
    assert!(update.headers.is_empty());
}

#[test]
fn store_that_takes_the_updates_holds_the_chain() {
    // The store as a list of headers above the anchor.
    let mut store: Vec<Header> = Vec::new();
    let apply = |store: &mut Vec<Header>, rewind_to: u32, headers: &[Header]| {
        store.truncate((rewind_to - 100) as usize);
        store.extend_from_slice(headers);
    };
    let header_chain = HeaderChain::new(Network::Regtest, anchor(), 10);
    let mut chain = Chain::new(header_chain, Vec::new(), None, 1);
    let first = branch(anchor().hash, 1_000_000, 5, 1);
    assert!(chain.sync_chain(first.clone()).is_ok());
    let update = chain.flush_to_disk();
    apply(&mut store, update.rewind_to, &update.headers);
    let fork = branch(first[1].block_hash(), 3_000_000, 6, 9);
    assert!(chain.sync_chain(fork).is_ok());
    let update = chain.flush_to_disk();
    assert_eq!(update.rewind_to, 102);
    apply(&mut store, update.rewind_to, &update.headers);
    assert_eq!(store.len(), 8);
    let reloaded = HeaderChain::load(Network::Regtest, anchor(), store, 10).unwrap();
    assert_eq!(reloaded.height(), chain.height());
    assert_eq!(reloaded.tip_hash(), chain.tip_hash());
    for h in 100..=108u32 {
        assert_eq!(reloaded.hash_at(h), chain.headers().hash_at(h));
    }
    let again = Chain::new(reloaded, Vec::new(), None, 1);
    assert_eq!(again.is_synced(), chain.is_synced());
    assert_eq!(again.locators(), chain.locators());
    assert_eq!(again.height(), 108);
}

#[test]
fn filters_start_above_the_startpoint() {
    let headers = branch(anchor().hash, 1_000_000, 5, 1);
    let mut header_chain = HeaderChain::new(Network::Regtest, anchor(), 10);
    assert!(header_chain.sync(&headers).is_ok());
    let mut chain = Chain::new(header_chain, Vec::new(), Some(103), 1);
    assert_eq!(chain.filter_base(), 103);
    let request = chain.next_cf_header_message().unwrap();
    assert_eq!(request.start_height, 104);
    let msg = CFHeaders {
        stop_hash: headers[4].block_hash(),
        previous_filter_header: [0u8; 32],
        filter_hashes: vec![[1u8; 32], [2u8; 32]],
    };
    assert!(chain.sync_cf_headers(1, msg).is_ok());
    assert!(chain.is_cf_headers_synced());
    assert!(chain.filter_commitment_at(103).is_none());
    assert_eq!(chain.filter_commitment_at(104).unwrap().filter_hash, [1u8; 32]);
    // A startpoint below the anchor counts as the anchor.
    let header_chain = HeaderChain::new(Network::Regtest, anchor(), 10);
    let chain = Chain::new(header_chain, Vec::new(), Some(5), 1);
    assert_eq!(chain.filter_base(), 100);
    assert!(chain.is_cf_headers_synced());
    assert!(chain.is_filters_synced());
    assert!(chain.is_synced());
}

fn pay(txid: u8, scripts: Vec<Vec<u8>>, spends: Vec<OutPoint>) -> Transaction {
    Transaction { txid: [txid; 32], inputs: spends, outputs: scripts }
}

/// A chain of one block above the anchor whose Merkle root is that of the
/// given transaction ids, with its filter stored and its block queued.
fn queued_block(txids: &[[u8; 32]]) -> (Chain, Header) {
    let root = match txids.len() {
        1 => txids[0],
        _ => {
            let mut data = Vec::new();
            data.extend_from_slice(&txids[0]);
            data.extend_from_slice(&txids[1]);
            sha256d(&data)
        },
    };
    let header = mine(anchor().hash, 1_000_000, root);
    let mut header_chain = HeaderChain::new(Network::Regtest, anchor(), 10);
    assert!(header_chain.sync(&vec![header]).is_ok());
    let mut chain = Chain::new(header_chain, vec![script(1)], None, 1);
    let content = filter_for(&header.block_hash(), &[script(1)]);
    let msg = CFHeaders {
        stop_hash: header.block_hash(),
        previous_filter_header: [0u8; 32],
        filter_hashes: vec![sha256d(&content)],
    };
    assert!(chain.sync_cf_headers(1, msg).is_ok());
    let f = CFilter { block_hash: header.block_hash(), contents: content };
    assert_eq!(chain.sync_filter(f), Ok(FilterSyncOutcome::Stored { height: 101, matched: true }));
    assert_eq!(chain.queue_len(), 1);
    (chain, header)
}

#[test]
fn block_scan_finds_payments_and_spends() {
    let (mut chain, header) = queued_block(&[[0xa1; 32], [0xa2; 32]]);
    let block = Block {
        header,
        txdata: vec![
            pay(0xa1, vec![script(9), script(1)], Vec::new()),
            // Spends the output the first transaction paid to the watched script.
            pay(0xa2, vec![script(8)], vec![OutPoint { txid: [0xa1; 32], vout: 1 }]),
        ],
    };
    let indexed = chain.scan_block(&block).unwrap();
    assert_eq!(indexed.height, 101);
    assert_eq!(indexed.hash, header.block_hash());
    assert_eq!(indexed.transactions, vec![[0xa1; 32], [0xa2; 32]]);
    assert!(chain.block_queue_empty());
    assert_eq!(chain.next_block(), None);
    // The block is no longer expected.
    assert_eq!(chain.scan_block(&block).err(), Some(BlockScanError::UnexpectedBlock));
}

#[test]
fn block_scan_passes_over_what_does_not_concern() {
    let (mut chain, header) = queued_block(&[[0xa1; 32], [0xa2; 32]]);
    let block = Block {
        header,
        txdata: vec![
            // Spends output 0, which was not paid to a watched script, before
            // anything is watched.
            pay(0xa1, vec![script(9)], vec![OutPoint { txid: [0xa2; 32], vout: 0 }]),
            pay(0xa2, vec![script(1)], vec![OutPoint { txid: [0xa1; 32], vout: 0 }]),
        ],
    };
    let indexed = chain.scan_block(&block).unwrap();
    assert_eq!(indexed.transactions, vec![[0xa2; 32]]);
}

#[test]
fn block_with_wrong_merkle_root_is_rejected() {
    let (mut chain, header) = queued_block(&[[0xa1; 32]]);
    let wrong = Block { header, txdata: vec![pay(0xa3, vec![script(1)], Vec::new())] };
    assert_eq!(chain.scan_block(&wrong).err(), Some(BlockScanError::InvalidMerkleRoot));
    let empty = Block { header, txdata: Vec::new() };
    assert_eq!(chain.scan_block(&empty).err(), Some(BlockScanError::InvalidMerkleRoot));
    assert_eq!(chain.queue_len(), 1);
    let right = Block { header, txdata: vec![pay(0xa1, vec![script(1)], Vec::new())] };
    let indexed = chain.scan_block(&right).unwrap();
    assert_eq!(indexed.transactions, vec![[0xa1; 32]]);
}

#[test]
fn block_that_was_not_queued_is_rejected() {
    let (mut chain, _) = queued_block(&[[0xa1; 32]]);
    let other = mine([0x11; 32], 1_000_000, [0xa1; 32]);
    let block = Block { header: other, txdata: vec![pay(0xa1, vec![script(1)], Vec::new())] };
    assert_eq!(chain.scan_block(&block).err(), Some(BlockScanError::UnexpectedBlock));
    assert_eq!(chain.queue_len(), 1);
}

#[test]
fn headers_synced_follows_the_best_known_height() {
    let mut s = setup(1, Vec::new());
    assert!(s.chain.is_synced());
    assert_eq!(s.chain.best_known_height(), 105);
    s.chain.set_best_known_height(106);
    assert!(!s.chain.is_synced());
    let more = branch(s.headers[4].block_hash(), 2_000_000, 1, 3);
    assert!(s.chain.sync_chain(more).is_ok());
    assert!(s.chain.is_synced());
    assert_eq!(s.chain.height(), 106);
    assert_eq!(s.chain.tip_hash(), s.chain.headers().tip_hash());
    assert_eq!(s.chain.locators(), s.chain.headers().locators());
}
