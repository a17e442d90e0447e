//! The catalogue of peers the node has learned of.

use vstd::prelude::*;

use crate::peers::address::{
    ip_eq, serves, spec_serves, IpAddress, IpView, PeerAddress, SERVICE_COMPACT_FILTERS,
};
use crate::primitives::random_below;

verus! {

/// What is known of one peer.
#[derive(Clone, Copy, Debug)]
pub struct PeerRecord {
    pub addr: IpAddress,
    pub port: u16,
    pub services: u64,
    pub last_seen: u64,
    pub tried: u32,
    pub banned_until: u64,
}

impl PeerRecord {
    /// Whether the record is the one for `addr` and `port`.
    pub open spec fn has_key(&self, addr: IpView, port: u16) -> bool {
        self.addr@ == addr && self.port == port
    }

    /// Whether the peer may be connected to at time `now`.
    pub open spec fn usable(&self, now: u64) -> bool {
        self.banned_until <= now
    }

    /// Whether the peer is usable and has never been tried.
    pub open spec fn is_new(&self, now: u64) -> bool {
        self.usable(now) && self.tried == 0
    }

    /// Whether the peer is usable and signals compact block filters.
    pub open spec fn is_cpf(&self, now: u64) -> bool {
        self.usable(now) && spec_serves(self.services, SERVICE_COMPACT_FILTERS)
    }
}

/// How many peers a catalogue may hold.
#[derive(Clone, Copy, Debug, PartialEq, Eq, Structural)]
pub enum PeerStoreSizeConfig {
    /// As many as are learned of.
    Unbounded,
    /// This many at most.
    Limit(u32),
}

/// No two records are for the same address and port.
pub open spec fn keys_unique(records: Seq<PeerRecord>) -> bool {
    forall|i: int, j: int|
        0 <= i < j < records.len() ==> !(#[trigger] records[i]).has_key(
            (#[trigger] records[j]).addr@,
            records[j].port,
        )
}

/// The moment a ban of `duration` from `now` on ends.
pub open spec fn spec_ban_end(now: u64, duration: u64) -> u64 {
    if now + duration > u64::MAX {
        u64::MAX
    } else {
        (now + duration) as u64
    }
}

/// Whether a record for `addr` and `port` is among `records`.
pub open spec fn has_record(records: Seq<PeerRecord>, addr: IpView, port: u16) -> bool {
    exists|i: int| 0 <= i < records.len() && (#[trigger] records[i]).has_key(addr, port)
}

/// Whether `r` is a usable record of `records` that was seen no later than
/// any other usable one.
pub open spec fn is_oldest_usable(records: Seq<PeerRecord>, now: u64, r: PeerRecord) -> bool {
    &&& records.contains(r)
    &&& r.usable(now)
    &&& forall|i: int|
        0 <= i < records.len() && (#[trigger] records[i]).usable(now) ==> r.last_seen
            <= records[i].last_seen
}

/// Whether a catalogue of this size that holds `records` takes one more.
pub open spec fn room_in(records: Seq<PeerRecord>, size: PeerStoreSizeConfig) -> bool {
    match size {
        PeerStoreSizeConfig::Unbounded => true,
        PeerStoreSizeConfig::Limit(n) => records.len() < n,
    }
}

/// The position of the record for `addr` and `port`, where there is one.
pub open spec fn key_position(records: Seq<PeerRecord>, addr: IpView, port: u16) -> int {
    choose|i: int| 0 <= i < records.len() && (#[trigger] records[i]).has_key(addr, port)
}

/// The records after one record is taken: a peer that is known keeps its
/// place, its count of tries and its ban, and gets the new services and the
/// later time of the two; a peer that is not known comes last if there is
/// room.
pub open spec fn spec_add(records: Seq<PeerRecord>, size: PeerStoreSizeConfig, record: PeerRecord) -> Seq<
    PeerRecord,
> {
    if has_record(records, record.addr@, record.port) {
        let i = key_position(records, record.addr@, record.port);
        records.update(
            i,
            PeerRecord {
                services: record.services,
                last_seen: if record.last_seen > records[i].last_seen {
                    record.last_seen
                } else {
                    records[i].last_seen
                },
                ..records[i]
            },
        )
    } else if room_in(records, size) {
        records.push(record)
    } else {
        records
    }
}

/// The record made of a peer that another peer or a seed has told of.
pub open spec fn fresh_record(addr: IpAddress, port: u16, services: u64, now: u64) -> PeerRecord {
    PeerRecord { addr, port, services, last_seen: now, tried: 0, banned_until: 0 }
}

/// The records after the peers of an address message are taken in turn:
/// those that signal compact block filters, as records that were never tried.
pub open spec fn spec_add_cpf_peers(
    records: Seq<PeerRecord>,
    size: PeerStoreSizeConfig,
    peers: Seq<PeerAddress>,
    now: u64,
) -> Seq<PeerRecord>
    decreases peers.len(),
{
    if peers.len() == 0 {
        records
    } else {
        let before = spec_add_cpf_peers(records, size, peers.drop_last(), now);
        let p = peers.last();
        if spec_serves(p.services, SERVICE_COMPACT_FILTERS) {
            spec_add(before, size, fresh_record(p.addr, p.port, p.services, now))
        } else {
            before
        }
    }
}

/// The records after seeds are taken in turn, as records on port `port`
/// that were never tried and tell of no service.
pub open spec fn spec_add_seeds(
    records: Seq<PeerRecord>,
    size: PeerStoreSizeConfig,
    seeds: Seq<IpAddress>,
    port: u16,
    now: u64,
) -> Seq<PeerRecord>
    decreases seeds.len(),
{
    if seeds.len() == 0 {
        records
    } else {
        spec_add(
            spec_add_seeds(records, size, seeds.drop_last(), port, now),
            size,
            fresh_record(seeds.last(), port, 0, now),
        )
    }
}

/// The records after stored records are taken in turn.
pub open spec fn spec_add_all(records: Seq<PeerRecord>, size: PeerStoreSizeConfig, stored: Seq<PeerRecord>) -> Seq<
    PeerRecord,
>
    decreases stored.len(),
{
    if stored.len() == 0 {
        records
    } else {
        spec_add(spec_add_all(records, size, stored.drop_last()), size, stored.last())
    }
}

/// The catalogue of known peers, one record for each address and port.
pub struct PeerDirectory {
    records: Vec<PeerRecord>,
    size: PeerStoreSizeConfig,
}

impl View for PeerDirectory {
    type V = Seq<PeerRecord>;

    closed spec fn view(&self) -> Seq<PeerRecord> {
        self.records@
    }
}

impl PeerDirectory {
    /// The invariant: no two records share address and port.
    pub open spec fn wf(&self) -> bool {
        keys_unique(self@)
    }

    /// The size the catalogue was made with.
    pub closed spec fn spec_size(&self) -> PeerStoreSizeConfig {
        self.size
    }

    /// Whether the catalogue takes one more record.
    pub open spec fn has_room(&self) -> bool {
        room_in(self@, self.spec_size())
    }

    /// An empty catalogue.
    pub fn new(size: PeerStoreSizeConfig) -> (r: PeerDirectory)
        ensures
            r.wf(),
            r@.len() == 0,
            r.spec_size() == size,
    {
        PeerDirectory { records: Vec::new(), size }
    }

    /// The records, in the order they were learned of.
    pub fn records(&self) -> (r: Vec<PeerRecord>)
        ensures
            r@ == self@,
    {
        let mut out: Vec<PeerRecord> = Vec::new();
        let mut i: usize = 0;
        while i < self.records.len()
            invariant
                i <= self.records@.len(),
                out@ == self@.take(i as int),
            decreases self.records@.len() - i,
        {
            out.push(self.records[i]);
            assert(out@ =~= self@.take(i + 1));
            i += 1;
        }
        assert(self@.take(i as int) =~= self@);
        out
    }

    /// The number of records.
    pub fn len(&self) -> (r: usize)
        ensures
            r == self@.len(),
    {
        self.records.len()
    }

    /// The position of the record for `addr` and `port`.
    pub fn position(&self, addr: &IpAddress, port: u16) -> (r: Option<usize>)
        ensures
            r is Some <==> has_record(self@, addr@, port),
            r is Some ==> r->0 < self@.len() && self@[r->0 as int].has_key(addr@, port),
    {
        let mut i: usize = 0;
        while i < self.records.len()
            invariant
                i <= self.records@.len(),
                forall|j: int| 0 <= j < i ==> !(#[trigger] self@[j]).has_key(addr@, port),
            decreases self.records@.len() - i,
        {
            if self.records[i].port == port && ip_eq(&self.records[i].addr, addr) {
                return Some(i);
            }
            i += 1;
        }
        None
    }

    /// The record for `addr` and `port`, if there is one.
    pub fn get(&self, addr: &IpAddress, port: u16) -> (r: Option<PeerRecord>)
        ensures
            r is Some <==> has_record(self@, addr@, port),
            r is Some ==> self@.contains(r->0) && r->0.has_key(addr@, port),
    {
        match self.position(addr, port) {
            Some(i) => Some(self.records[i]),
            None => None,
        }
    }

    /// Takes a record. A peer that is known keeps its count of tries and its
    /// ban and gets the new services and the later time of the two. A peer
    /// that is not known is added if there is room. Says whether the peer is
    /// in the catalogue afterwards.
    pub fn add(&mut self, record: PeerRecord) -> (r: bool)
        requires
            old(self).wf(),
        ensures
            final(self).wf(),
            final(self).spec_size() == old(self).spec_size(),
            final(self)@ == spec_add(old(self)@, old(self).spec_size(), record),
            r == (has_record(old(self)@, record.addr@, record.port) || old(self).has_room()),
            r == has_record(final(self)@, record.addr@, record.port),
            old(self)@.len() <= final(self)@.len() <= old(self)@.len() + 1,
    {
        let ghost before = self@;
        match self.position(&record.addr, record.port) {
            Some(i) => {
                let known: PeerRecord = self.records[i];
                let seen: u64 = if record.last_seen > known.last_seen {
                    record.last_seen
                } else {
                    known.last_seen
                };
                self.records.set(
                    i,
                    PeerRecord { services: record.services, last_seen: seen, ..known },
                );
                proof {
                    let k = key_position(before, record.addr@, record.port);
                    if k < i {
                        assert(!before[k].has_key(before[i as int].addr@, before[i as int].port));
                    } else if k > i {
                        assert(!before[i as int].has_key(before[k].addr@, before[k].port));
                    }
                    assert(k == i);
                    assert forall|a: int, b: int| 0 <= a < b < self@.len() implies !(
                    #[trigger] self@[a]).has_key((#[trigger] self@[b]).addr@, self@[b].port) by {
                        assert(self@[a].addr == before[a].addr && self@[a].port == before[a].port);
                        assert(self@[b].addr == before[b].addr && self@[b].port == before[b].port);
                    }
                    assert(self@[i as int].has_key(record.addr@, record.port));
                    assert(self@ =~= spec_add(before, self.spec_size(), record));
                }
                true
            },
            None => {
                let room: bool = match self.size {
                    PeerStoreSizeConfig::Unbounded => true,
                    PeerStoreSizeConfig::Limit(n) => self.records.len() < n as usize,
                };
                if room {
                    self.records.push(record);
                    assert(self@[self@.len() - 1].has_key(record.addr@, record.port));
                    true
                } else {
                    false
                }
            },
        }
    }

    /// Takes a peer that another peer or a seed has told of: it has never
    /// been tried and is not banned.
    pub fn add_new(&mut self, addr: IpAddress, port: u16, services: u64, now: u64) -> (r: bool)
        requires
            old(self).wf(),
        ensures
            final(self).wf(),
            final(self).spec_size() == old(self).spec_size(),
            final(self)@ == spec_add(
                old(self)@,
                old(self).spec_size(),
                fresh_record(addr, port, services, now),
            ),
            r == (has_record(old(self)@, addr@, port) || old(self).has_room()),
            r == has_record(final(self)@, addr@, port),
            old(self)@.len() <= final(self)@.len() <= old(self)@.len() + 1,
    {
        self.add(PeerRecord { addr, port, services, last_seen: now, tried: 0, banned_until: 0 })
    }

    /// Takes the peers of an address message that signal compact block
    /// filters, in turn. Gives the number of peers of the message that were
    /// taken or known.
    pub fn add_cpf_peers(&mut self, peers: &Vec<PeerAddress>, now: u64) -> (r: usize)
        requires
            old(self).wf(),
        ensures
            final(self).wf(),
            final(self).spec_size() == old(self).spec_size(),
            final(self)@ == spec_add_cpf_peers(old(self)@, old(self).spec_size(), peers@, now),
            r <= peers@.len(),
            final(self)@.len() >= old(self)@.len(),
    {
        let mut taken: usize = 0;
        let mut i: usize = 0;
        while i < peers.len()
            invariant
                i <= peers@.len(),
                taken <= i,
                self.wf(),
                self.spec_size() == old(self).spec_size(),
                self@ == spec_add_cpf_peers(
                    old(self)@,
                    old(self).spec_size(),
                    peers@.take(i as int),
                    now,
                ),
                self@.len() >= old(self)@.len(),
            decreases peers@.len() - i,
        {
            assert(peers@.take(i + 1).drop_last() =~= peers@.take(i as int));
            let p: PeerAddress = peers[i];
            if serves(p.services, SERVICE_COMPACT_FILTERS) {
                if self.add_new(p.addr, p.port, p.services, now) {
                    taken += 1;
                }
            }
            i += 1;
        }
        assert(peers@.take(i as int) =~= peers@);
        taken
    }

    /// Takes seeds in turn, as peers on port `port` that were never tried.
    pub fn add_seeds(&mut self, seeds: &Vec<IpAddress>, port: u16, now: u64)
        requires
            old(self).wf(),
        ensures
            final(self).wf(),
            final(self).spec_size() == old(self).spec_size(),
            final(self)@ == spec_add_seeds(old(self)@, old(self).spec_size(), seeds@, port, now),
            final(self)@.len() >= old(self)@.len(),
    {
        let mut i: usize = 0;
        while i < seeds.len()
            invariant
                i <= seeds@.len(),
                self.wf(),
                self.spec_size() == old(self).spec_size(),
                self@ == spec_add_seeds(
                    old(self)@,
                    old(self).spec_size(),
                    seeds@.take(i as int),
                    port,
                    now,
                ),
                self@.len() >= old(self)@.len(),
            decreases seeds@.len() - i,
        {
            assert(seeds@.take(i + 1).drop_last() =~= seeds@.take(i as int));
            let _known: bool = self.add_new(seeds[i], port, 0, now);
            i += 1;
        }
        assert(seeds@.take(i as int) =~= seeds@);
    }

    /// Takes stored records in turn.
    pub fn add_all(&mut self, stored: &Vec<PeerRecord>)
        requires
            old(self).wf(),
        ensures
            final(self).wf(),
            final(self).spec_size() == old(self).spec_size(),
            final(self)@ == spec_add_all(old(self)@, old(self).spec_size(), stored@),
            old(self)@.len() <= final(self)@.len() <= old(self)@.len() + stored@.len(),
    {
        let mut i: usize = 0;
        while i < stored.len()
            invariant
                i <= stored@.len(),
                self.wf(),
                self.spec_size() == old(self).spec_size(),
                self@ == spec_add_all(old(self)@, old(self).spec_size(), stored@.take(i as int)),
                old(self)@.len() <= self@.len() <= old(self)@.len() + i,
            decreases stored@.len() - i,
        {
            assert(stored@.take(i + 1).drop_last() =~= stored@.take(i as int));
            let _known: bool = self.add(stored[i]);
            i += 1;
        }
        assert(stored@.take(i as int) =~= stored@);
    }

    /// Notes the outcome of a connection: one more try, and the time of the
    /// connection if it succeeded. An unknown peer changes nothing.
    pub fn mark_tried(&mut self, addr: &IpAddress, port: u16, succeeded: bool, now: u64)
        requires
            old(self).wf(),
        ensures
            final(self).wf(),
            final(self).spec_size() == old(self).spec_size(),
            final(self)@.len() == old(self)@.len(),
            !has_record(old(self)@, addr@, port) ==> final(self)@ == old(self)@,
            forall|i: int|
                0 <= i < old(self)@.len() ==> (#[trigger] final(self)@[i]) == (if old(self)@[i].has_key(addr@, port) {
                    PeerRecord {
                        tried: if old(self)@[i].tried < u32::MAX {
                            (old(self)@[i].tried + 1) as u32
                        } else {
                            u32::MAX
                        },
                        last_seen: if succeeded {
                            now
                        } else {
                            old(self)@[i].last_seen
                        },
                        ..old(self)@[i]
                    }
                } else {
                    old(self)@[i]
                }),
    {
        let ghost before = self@;
        match self.position(addr, port) {
            Some(i) => {
                let known: PeerRecord = self.records[i];
                let tried: u32 = if known.tried < u32::MAX {
                    known.tried + 1
                } else {
                    u32::MAX
                };
                let seen: u64 = if succeeded {
                    now
                } else {
                    known.last_seen
                };
                self.records.set(i, PeerRecord { tried, last_seen: seen, ..known });
                proof {
                    assert forall|a: int, b: int| 0 <= a < b < self@.len() implies !(
                    #[trigger] self@[a]).has_key((#[trigger] self@[b]).addr@, self@[b].port) by {
                        assert(self@[a].addr == before[a].addr && self@[a].port == before[a].port);
                        assert(self@[b].addr == before[b].addr && self@[b].port == before[b].port);
                    }
                    assert forall|j: int| 0 <= j < before.len() && j != i implies !before[j].has_key(
                        addr@,
                        port,
                    ) by {
                        if j < i {
                            assert(!before[j].has_key(before[i as int].addr@, before[i as int].port));
                        } else {
                            assert(!before[i as int].has_key(before[j].addr@, before[j].port));
                        }
                    }
                }
            },
            None => {
                assert(self@ =~= before);
            },
        }
    }

    /// Bans a peer for `duration` from the time `now` on, or up to the last
    /// moment there is if that comes first. An unknown peer changes nothing.
    pub fn ban(&mut self, addr: &IpAddress, port: u16, now: u64, duration: u64)
        requires
            old(self).wf(),
        ensures
            final(self).wf(),
            final(self).spec_size() == old(self).spec_size(),
            final(self)@.len() == old(self)@.len(),
            !has_record(old(self)@, addr@, port) ==> final(self)@ == old(self)@,
            forall|i: int|
                0 <= i < old(self)@.len() ==> (#[trigger] final(self)@[i]) == (if old(self)@[i].has_key(addr@, port) {
                    PeerRecord { banned_until: spec_ban_end(now, duration), ..old(self)@[i] }
                } else {
                    old(self)@[i]
                }),
    {
        let ghost before = self@;
        let until: u64 = if duration > u64::MAX - now {
            u64::MAX
        } else {
            now + duration
        };
        match self.position(addr, port) {
            Some(i) => {
                let known: PeerRecord = self.records[i];
                self.records.set(i, PeerRecord { banned_until: until, ..known });
                proof {
                    assert forall|a: int, b: int| 0 <= a < b < self@.len() implies !(
                    #[trigger] self@[a]).has_key((#[trigger] self@[b]).addr@, self@[b].port) by {
                        assert(self@[a].addr == before[a].addr && self@[a].port == before[a].port);
                        assert(self@[b].addr == before[b].addr && self@[b].port == before[b].port);
                    }
                    assert forall|j: int| 0 <= j < before.len() && j != i implies !before[j].has_key(
                        addr@,
                        port,
                    ) by {
                        if j < i {
                            assert(!before[j].has_key(before[i as int].addr@, before[i as int].port));
                        } else {
                            assert(!before[i as int].has_key(before[j].addr@, before[j].port));
                        }
                    }
                }
            },
            None => {
                assert(self@ =~= before);
            },
        }
    }

    /// The positions of the usable records that have never been tried, or
    /// that signal compact block filters where `cpf` is set.
    fn candidates(&self, now: u64, cpf: bool) -> (r: Vec<usize>)
        ensures
            forall|k: int|
                0 <= k < r@.len() ==> (#[trigger] r@[k]) < self@.len() && (if cpf {
                    self@[r@[k] as int].is_cpf(now)
                } else {
                    self@[r@[k] as int].is_new(now)
                }),
            r@.len() == 0 ==> forall|i: int|
                0 <= i < self@.len() ==> !(if cpf {
                    (#[trigger] self@[i]).is_cpf(now)
                } else {
                    self@[i].is_new(now)
                }),
    {
        let mut out: Vec<usize> = Vec::new();
        let mut i: usize = 0;
        while i < self.records.len()
            invariant
                i <= self.records@.len(),
                forall|k: int|
                    0 <= k < out@.len() ==> (#[trigger] out@[k]) < self@.len() && (if cpf {
                        self@[out@[k] as int].is_cpf(now)
                    } else {
                        self@[out@[k] as int].is_new(now)
                    }),
                out@.len() == 0 ==> forall|j: int|
                    0 <= j < i ==> !(if cpf {
                        (#[trigger] self@[j]).is_cpf(now)
                    } else {
                        self@[j].is_new(now)
                    }),
            decreases self.records@.len() - i,
        {
            let rec: PeerRecord = self.records[i];
            let fits: bool = rec.banned_until <= now && (if cpf {
                serves(rec.services, SERVICE_COMPACT_FILTERS)
            } else {
                rec.tried == 0
            });
            if fits {
                out.push(i);
            }
            i += 1;
        }
        out
    }

    /// Picks a peer to try: any usable peer that has never been tried, or,
    /// where there is none, the usable peer seen longest ago.
    pub fn get_random_new(&self, rng: &mut rand::rngs::StdRng, now: u64) -> (r: Option<PeerRecord>)
        ensures
            r is None <==> forall|i: int|
                0 <= i < self@.len() ==> !(#[trigger] self@[i]).usable(now),
            r matches Some(rec) ==> {
                ||| self@.contains(rec) && rec.is_new(now)
                ||| (forall|i: int| 0 <= i < self@.len() ==> !(#[trigger] self@[i]).is_new(now))
                    && is_oldest_usable(self@, now, rec)
            },
    {
        let fresh: Vec<usize> = self.candidates(now, false);
        if fresh.len() > 0 {
            let k: usize = random_below(rng, fresh.len());
            let at: usize = fresh[k];
            assert(self@[at as int].is_new(now));
            return Some(self.records[at]);
        }
        let mut best: Option<usize> = None;
        let mut i: usize = 0;
        while i < self.records.len()
            invariant
                i <= self.records@.len(),
                best is None <==> forall|j: int| 0 <= j < i ==> !(#[trigger] self@[j]).usable(now),
                best matches Some(b) ==> b < i && self@[b as int].usable(now) && forall|j: int|
                    0 <= j < i && (#[trigger] self@[j]).usable(now) ==> self@[b as int].last_seen
                        <= self@[j].last_seen,
            decreases self.records@.len() - i,
        {
            if self.records[i].banned_until <= now {
                match best {
                    None => {
                        best = Some(i);
                    },
                    Some(b) => {
                        if self.records[i].last_seen < self.records[b].last_seen {
                            best = Some(i);
                        }
                    },
                }
            }
            i += 1;
        }
        match best {
            Some(b) => Some(self.records[b]),
            None => None,
        }
    }

    /// Picks any usable peer that signals compact block filters.
    pub fn get_random_cpf_peer(&self, rng: &mut rand::rngs::StdRng, now: u64) -> (r: Option<
        PeerRecord,
    >)
        ensures
            r is None <==> forall|i: int| 0 <= i < self@.len() ==> !(#[trigger] self@[i]).is_cpf(now),
            r matches Some(rec) ==> self@.contains(rec) && rec.is_cpf(now),
    {
        let found: Vec<usize> = self.candidates(now, true);
        if found.len() > 0 {
            let k: usize = random_below(rng, found.len());
            let at: usize = found[k];
            assert(self@[at as int].is_cpf(now));
            Some(self.records[at])
        } else {
            None
        }
    }
}

} // verus!
