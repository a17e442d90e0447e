//! The sessions the node runs, by nonce.

use vstd::prelude::*;

use crate::network::Network;
use crate::peers::address::{serves, spec_serves, IpAddress, SERVICE_NETWORK};
use crate::primitives::{random_below, random_u32};

verus! {

/// How often a random nonce is drawn before the node gives up on a session.
pub const NONCE_ATTEMPTS: u32 = 16;

/// Where a session stands.
#[derive(Clone, Copy, Debug, PartialEq, Eq, Structural)]
pub enum SessionState {
    Handshaking,
    Ready,
    Closing,
    Closed,
}

/// What the node keeps of one session.
#[derive(Clone, Copy, Debug)]
pub struct ManagedPeer {
    pub nonce: u32,
    pub addr: IpAddress,
    pub port: Option<u16>,
    pub state: SessionState,
    pub services: u64,
    pub time_offset: i64,
}

impl ManagedPeer {
    /// Whether the session is ready and its peer serves blocks.
    pub open spec fn serves_blocks(&self) -> bool {
        self.state == SessionState::Ready && spec_serves(self.services, SERVICE_NETWORK)
    }
}

/// No two sessions have the same nonce.
pub open spec fn nonces_unique(peers: Seq<ManagedPeer>) -> bool {
    forall|i: int, j: int|
        0 <= i < j < peers.len() ==> (#[trigger] peers[i]).nonce != (#[trigger] peers[j]).nonce
}

/// Whether a session with nonce `nonce` is among `peers`.
pub open spec fn has_nonce(peers: Seq<ManagedPeer>, nonce: u32) -> bool {
    exists|i: int| 0 <= i < peers.len() && (#[trigger] peers[i]).nonce == nonce
}

/// How many of `peers` are ready.
pub open spec fn count_ready(peers: Seq<ManagedPeer>) -> nat
    decreases peers.len(),
{
    if peers.len() == 0 {
        0
    } else {
        count_ready(peers.drop_last()) + if peers.last().state == SessionState::Ready {
            1nat
        } else {
            0nat
        }
    }
}

/// The sessions of `peers` that are not closed, in their order.
pub open spec fn open_sessions(peers: Seq<ManagedPeer>) -> Seq<ManagedPeer>
    decreases peers.len(),
{
    if peers.len() == 0 {
        Seq::empty()
    } else if peers.last().state != SessionState::Closed {
        open_sessions(peers.drop_last()).push(peers.last())
    } else {
        open_sessions(peers.drop_last())
    }
}

/// The nonces of the ready sessions of `peers`, in their order.
pub open spec fn ready_nonces(peers: Seq<ManagedPeer>) -> Seq<u32>
    decreases peers.len(),
{
    if peers.len() == 0 {
        Seq::empty()
    } else if peers.last().state == SessionState::Ready {
        ready_nonces(peers.drop_last()).push(peers.last().nonce)
    } else {
        ready_nonces(peers.drop_last())
    }
}

/// Every open session is a session of `peers`, and open sessions keep their
/// order.
pub proof fn lemma_open_sessions(peers: Seq<ManagedPeer>)
    ensures
        forall|k: int|
            0 <= k < open_sessions(peers).len() ==> exists|i: int|
                0 <= i < peers.len() && peers[i] == #[trigger] open_sessions(peers)[k],
        forall|k1: int, k2: int|
            0 <= k1 < k2 < open_sessions(peers).len() ==> exists|i1: int, i2: int|
                0 <= i1 < i2 < peers.len() && peers[i1] == (#[trigger] open_sessions(peers)[k1])
                    && peers[i2] == (#[trigger] open_sessions(peers)[k2]),
    decreases peers.len(),
{
    if peers.len() > 0 {
        let head = peers.drop_last();
        lemma_open_sessions(head);
        let open = open_sessions(peers);
        let open_head = open_sessions(head);
        assert forall|k: int| 0 <= k < open.len() implies exists|i: int|
            0 <= i < peers.len() && peers[i] == #[trigger] open[k] by {
            if k < open_head.len() {
                assert(open[k] == open_head[k]);
                let i = choose|i: int| 0 <= i < head.len() && head[i] == open_head[k];
                assert(peers[i] == head[i]);
            } else {
                assert(peers[peers.len() - 1] == open[k]);
            }
        }
        assert forall|k1: int, k2: int| 0 <= k1 < k2 < open.len() implies exists|i1: int, i2: int|
            0 <= i1 < i2 < peers.len() && peers[i1] == (#[trigger] open[k1]) && peers[i2] == (
            #[trigger] open[k2]) by {
            if k2 < open_head.len() {
                assert(open[k1] == open_head[k1]);
                assert(open[k2] == open_head[k2]);
                let (i1, i2) = choose|i1: int, i2: int|
                    0 <= i1 < i2 < head.len() && head[i1] == open_head[k1] && head[i2]
                        == open_head[k2];
                assert(peers[i1] == head[i1]);
                assert(peers[i2] == head[i2]);
            } else {
                assert(open[k1] == open_head[k1]);
                let i1 = choose|i: int| 0 <= i < head.len() && head[i] == open_head[k1];
                assert(peers[i1] == head[i1]);
                assert(peers[peers.len() - 1] == open[k2]);
            }
        }
    }
}

/// The sessions with the state of the session with nonce `nonce` set.
pub open spec fn with_state(peers: Seq<ManagedPeer>, nonce: u32, state: SessionState) -> Seq<
    ManagedPeer,
> {
    Seq::new(
        peers.len(),
        |i: int|
            if peers[i].nonce == nonce {
                ManagedPeer { state, ..peers[i] }
            } else {
                peers[i]
            },
    )
}

/// The sessions with the services of the session with nonce `nonce` set.
pub open spec fn with_services(peers: Seq<ManagedPeer>, nonce: u32, services: u64) -> Seq<
    ManagedPeer,
> {
    Seq::new(
        peers.len(),
        |i: int|
            if peers[i].nonce == nonce {
                ManagedPeer { services, ..peers[i] }
            } else {
                peers[i]
            },
    )
}

/// The sessions with the time of the session with nonce `nonce` set.
pub open spec fn with_offset(peers: Seq<ManagedPeer>, nonce: u32, time_offset: i64) -> Seq<
    ManagedPeer,
> {
    Seq::new(
        peers.len(),
        |i: int|
            if peers[i].nonce == nonce {
                ManagedPeer { time_offset, ..peers[i] }
            } else {
                peers[i]
            },
    )
}

/// The nonces of all sessions, in their order.
pub open spec fn all_nonces(peers: Seq<ManagedPeer>) -> Seq<u32> {
    Seq::new(peers.len(), |i: int| peers[i].nonce)
}

/// The sessions with every one of them closing.
pub open spec fn all_closing(peers: Seq<ManagedPeer>) -> Seq<ManagedPeer> {
    Seq::new(peers.len(), |i: int| ManagedPeer { state: SessionState::Closing, ..peers[i] })
}

/// The sessions of the node.
pub struct PeerMap {
    peers: Vec<ManagedPeer>,
    network: Network,
}

impl View for PeerMap {
    type V = Seq<ManagedPeer>;

    closed spec fn view(&self) -> Seq<ManagedPeer> {
        self.peers@
    }
}

impl PeerMap {
    /// The invariant: no two sessions share a nonce.
    pub open spec fn wf(&self) -> bool {
        nonces_unique(self@)
    }

    /// The network the sessions speak for.
    pub closed spec fn spec_network(&self) -> Network {
        self.network
    }

    /// No session yet, on `network`.
    pub fn new(network: Network) -> (r: PeerMap)
        ensures
            r.wf(),
            r@ == Seq::<ManagedPeer>::empty(),
            r.spec_network() == network,
    {
        PeerMap { peers: Vec::new(), network }
    }

    /// The network the sessions speak for: the one the map was made with.
    pub fn network(&self) -> (r: Network)
        ensures
            r == self.spec_network(),
    {
        self.network
    }

    /// The position of the session with nonce `nonce`.
    pub fn position(&self, nonce: u32) -> (r: Option<usize>)
        ensures
            r is Some <==> has_nonce(self@, nonce),
            r is Some ==> r->0 < self@.len() && self@[r->0 as int].nonce == nonce,
    {
        let mut i: usize = 0;
        while i < self.peers.len()
            invariant
                i <= self.peers@.len(),
                forall|j: int| 0 <= j < i ==> (#[trigger] self@[j]).nonce != nonce,
            decreases self.peers@.len() - i,
        {
            if self.peers[i].nonce == nonce {
                return Some(i);
            }
            i += 1;
        }
        None
    }

    /// The session with nonce `nonce`, if there is one.
    pub fn get(&self, nonce: u32) -> (r: Option<ManagedPeer>)
        ensures
            r is Some <==> has_nonce(self@, nonce),
            r is Some ==> self@.contains(r->0) && r->0.nonce == nonce,
    {
        match self.position(nonce) {
            Some(i) => Some(self.peers[i]),
            None => None,
        }
    }

    /// The number of sessions that are ready.
    pub fn live(&self) -> (r: usize)
        ensures
            r == count_ready(self@),
    {
        let mut n: usize = 0;
        let mut i: usize = 0;
        while i < self.peers.len()
            invariant
                i <= self.peers@.len(),
                n == count_ready(self@.take(i as int)),
                n <= i,
            decreases self.peers@.len() - i,
        {
            assert(self@.take(i + 1).drop_last() =~= self@.take(i as int));
            if self.peers[i].state == SessionState::Ready {
                n += 1;
            }
            i += 1;
        }
        assert(self@.take(i as int) =~= self@);
        n
    }

    /// Opens a session under `nonce` unless the nonce is taken.
    pub fn try_insert(&mut self, nonce: u32, addr: IpAddress, port: Option<u16>) -> (r: bool)
        requires
            old(self).wf(),
        ensures
            final(self).wf(),
            final(self).spec_network() == old(self).spec_network(),
            r == !has_nonce(old(self)@, nonce),
            r ==> final(self)@ == old(self)@.push(
                ManagedPeer {
                    nonce,
                    addr,
                    port,
                    state: SessionState::Handshaking,
                    services: 0,
                    time_offset: 0,
                },
            ),
            !r ==> final(self)@ == old(self)@,
    {
        match self.position(nonce) {
            Some(_) => false,
            None => {
                self.peers.push(
                    ManagedPeer {
                        nonce,
                        addr,
                        port,
                        state: SessionState::Handshaking,
                        services: 0,
                        time_offset: 0,
                    },
                );
                true
            },
        }
    }

    /// Opens a session with a peer under a random nonce that no other session
    /// has. Gives the nonce, or `None` where sixteen draws in a row met
    /// nonces that are taken. With no session open no nonce is taken, so the
    /// first draw stands and a session is opened.
    pub fn dispatch(&mut self, addr: IpAddress, port: Option<u16>, rng: &mut rand::rngs::StdRng) -> (r:
        Option<u32>)
        requires
            old(self).wf(),
        ensures
            final(self).wf(),
            final(self).spec_network() == old(self).spec_network(),
            old(self)@.len() == 0 ==> r is Some,
            r matches Some(nonce) ==> !has_nonce(old(self)@, nonce) && final(self)@ == old(self)@.push(
                ManagedPeer {
                    nonce,
                    addr,
                    port,
                    state: SessionState::Handshaking,
                    services: 0,
                    time_offset: 0,
                },
            ),
            r is None ==> final(self)@ == old(self)@,
    {
        let mut attempt: u32 = 0;
        while attempt < NONCE_ATTEMPTS
            invariant
                self.wf(),
                self@ == old(self)@,
                self.spec_network() == old(self).spec_network(),
                attempt > 0 ==> old(self)@.len() > 0,
            decreases NONCE_ATTEMPTS - attempt,
        {
            let nonce: u32 = random_u32(rng);
            if self.try_insert(nonce, addr, port) {
                return Some(nonce);
            }
            attempt += 1;
        }
        None
    }

    /// Changes the session with nonce `nonce`, if there is one, and leaves
    /// the others as they are.
    fn update(&mut self, nonce: u32, state: Option<SessionState>, services: Option<u64>, offset: Option<
        i64,
    >)
        requires
            old(self).wf(),
        ensures
            final(self).wf(),
            final(self).spec_network() == old(self).spec_network(),
            final(self)@.len() == old(self)@.len(),
            forall|i: int|
                0 <= i < old(self)@.len() ==> (#[trigger] final(self)@[i]) == (if old(self)@[i].nonce == nonce {
                    ManagedPeer {
                        state: match state {
                            Some(s) => s,
                            None => old(self)@[i].state,
                        },
                        services: match services {
                            Some(s) => s,
                            None => old(self)@[i].services,
                        },
                        time_offset: match offset {
                            Some(o) => o,
                            None => old(self)@[i].time_offset,
                        },
                        ..old(self)@[i]
                    }
                } else {
                    old(self)@[i]
                }),
    {
        let ghost before = self@;
        match self.position(nonce) {
            Some(i) => {
                let known: ManagedPeer = self.peers[i];
                self.peers.set(
                    i,
                    ManagedPeer {
                        state: match state {
                            Some(s) => s,
                            None => known.state,
                        },
                        services: match services {
                            Some(s) => s,
                            None => known.services,
                        },
                        time_offset: match offset {
                            Some(o) => o,
                            None => known.time_offset,
                        },
                        ..known
                    },
                );
                proof {
                    assert forall|a: int, b: int| 0 <= a < b < self@.len() implies (
                    #[trigger] self@[a]).nonce != (#[trigger] self@[b]).nonce by {
                        assert(self@[a].nonce == before[a].nonce);
                        assert(self@[b].nonce == before[b].nonce);
                    }
                    assert forall|j: int| 0 <= j < before.len() && j != i implies before[j].nonce
                        != nonce by {
                        if j < i {
                            assert(before[j].nonce != before[i as int].nonce);
                        } else {
                            assert(before[i as int].nonce != before[j].nonce);
                        }
                    }
                }
            },
            None => {},
        }
    }

    /// Notes the services a peer has told of.
    pub fn set_services(&mut self, nonce: u32, flags: u64)
        requires
            old(self).wf(),
        ensures
            final(self).wf(),
            final(self).spec_network() == old(self).spec_network(),
            final(self)@ == with_services(old(self)@, nonce, flags),
    {
        self.update(nonce, None, Some(flags), None);
        assert(self@ =~= with_services(old(self)@, nonce, flags));
    }

    /// Notes the time a peer has told of.
    pub fn set_offset(&mut self, nonce: u32, timestamp: i64)
        requires
            old(self).wf(),
        ensures
            final(self).wf(),
            final(self).spec_network() == old(self).spec_network(),
            final(self)@ == with_offset(old(self)@, nonce, timestamp),
    {
        self.update(nonce, None, None, Some(timestamp));
        assert(self@ =~= with_offset(old(self)@, nonce, timestamp));
    }

    /// Notes where a session stands.
    pub fn set_state(&mut self, nonce: u32, state: SessionState)
        requires
            old(self).wf(),
        ensures
            final(self).wf(),
            final(self).spec_network() == old(self).spec_network(),
            final(self)@ == with_state(old(self)@, nonce, state),
    {
        self.update(nonce, Some(state), None, None);
        assert(self@ =~= with_state(old(self)@, nonce, state));
    }

    /// Drops the sessions that are closed.
    pub fn clean(&mut self)
        requires
            old(self).wf(),
        ensures
            final(self).wf(),
            final(self).spec_network() == old(self).spec_network(),
            final(self)@ == open_sessions(old(self)@),
    {
        let ghost before = self@;
        let mut kept: Vec<ManagedPeer> = Vec::new();
        let mut i: usize = 0;
        while i < self.peers.len()
            invariant
                i <= self.peers@.len(),
                self@ == before,
                kept@ == open_sessions(before.take(i as int)),
            decreases self.peers@.len() - i,
        {
            assert(before.take(i + 1).drop_last() =~= before.take(i as int));
            if self.peers[i].state != SessionState::Closed {
                kept.push(self.peers[i]);
            }
            i += 1;
        }
        assert(before.take(i as int) =~= before);
        self.peers = kept;
        proof {
            lemma_open_sessions(before);
            assert forall|a: int, b: int| 0 <= a < b < self@.len() implies (
            #[trigger] self@[a]).nonce != (#[trigger] self@[b]).nonce by {
                let (i1, i2) = choose|i1: int, i2: int|
                    0 <= i1 < i2 < before.len() && before[i1] == self@[a] && before[i2]
                        == self@[b];
            }
        }
    }

    /// The nonces of all sessions, in their order.
    pub fn nonces(&self) -> (r: Vec<u32>)
        ensures
            r@ == all_nonces(self@),
    {
        let mut out: Vec<u32> = Vec::new();
        let mut i: usize = 0;
        while i < self.peers.len()
            invariant
                i <= self.peers@.len(),
                out@ == all_nonces(self@).take(i as int),
            decreases self.peers@.len() - i,
        {
            out.push(self.peers[i].nonce);
            assert(out@ =~= all_nonces(self@).take(i + 1));
            i += 1;
        }
        assert(all_nonces(self@).take(i as int) =~= all_nonces(self@));
        out
    }

    /// Marks every session as closing.
    pub fn close_all(&mut self)
        requires
            old(self).wf(),
        ensures
            final(self).wf(),
            final(self).spec_network() == old(self).spec_network(),
            final(self)@ == all_closing(old(self)@),
    {
        let ghost before = self@;
        let mut i: usize = 0;
        while i < self.peers.len()
            invariant
                i <= self.peers@.len(),
                self@.len() == before.len(),
                self.spec_network() == old(self).spec_network(),
                forall|j: int|
                    0 <= j < before.len() ==> (#[trigger] self@[j]) == (if j < i {
                        ManagedPeer { state: SessionState::Closing, ..before[j] }
                    } else {
                        before[j]
                    }),
            decreases self.peers@.len() - i,
        {
            let known: ManagedPeer = self.peers[i];
            self.peers.set(i, ManagedPeer { state: SessionState::Closing, ..known });
            i += 1;
        }
        proof {
            assert(self@ =~= all_closing(before));
            assert forall|a: int, b: int| 0 <= a < b < self@.len() implies (
            #[trigger] self@[a]).nonce != (#[trigger] self@[b]).nonce by {
                assert(self@[a].nonce == before[a].nonce);
                assert(self@[b].nonce == before[b].nonce);
            }
        }
    }

    /// The nonces of the sessions a broadcast goes to: the ready ones.
    pub fn broadcast(&self) -> (r: Vec<u32>)
        ensures
            r@ == ready_nonces(self@),
    {
        let mut out: Vec<u32> = Vec::new();
        let mut i: usize = 0;
        while i < self.peers.len()
            invariant
                i <= self.peers@.len(),
                out@ == ready_nonces(self@.take(i as int)),
            decreases self.peers@.len() - i,
        {
            assert(self@.take(i + 1).drop_last() =~= self@.take(i as int));
            if self.peers[i].state == SessionState::Ready {
                out.push(self.peers[i].nonce);
            }
            i += 1;
        }
        assert(self@.take(i as int) =~= self@);
        out
    }

    /// Picks a session for a request that any peer can answer: any ready
    /// session whose peer serves blocks.
    pub fn send_random(&self, rng: &mut rand::rngs::StdRng) -> (r: Option<u32>)
        ensures
            r is None <==> forall|i: int|
                0 <= i < self@.len() ==> !(#[trigger] self@[i]).serves_blocks(),
            r matches Some(nonce) ==> exists|i: int|
                0 <= i < self@.len() && (#[trigger] self@[i]).nonce == nonce
                    && self@[i].serves_blocks(),
    {
        let mut found: Vec<usize> = Vec::new();
        let mut i: usize = 0;
        while i < self.peers.len()
            invariant
                i <= self.peers@.len(),
                forall|k: int|
                    0 <= k < found@.len() ==> (#[trigger] found@[k]) < self@.len()
                        && self@[found@[k] as int].serves_blocks(),
                found@.len() == 0 ==> forall|j: int|
                    0 <= j < i ==> !(#[trigger] self@[j]).serves_blocks(),
            decreases self.peers@.len() - i,
        {
            if self.peers[i].state == SessionState::Ready && serves(
                self.peers[i].services,
                SERVICE_NETWORK,
            ) {
                found.push(i);
            }
            i += 1;
        }
        if found.len() > 0 {
            let k: usize = random_below(rng, found.len());
            let at: usize = found[k];
            assert(self@[at as int].serves_blocks());
            Some(self.peers[at].nonce)
        } else {
            None
        }
    }
}

} // verus!
