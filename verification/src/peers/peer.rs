//! The session with one peer: what each message from the peer or from the
//! node makes the session do.

use vstd::prelude::*;

use crate::chain::chain::FilterRange;
use crate::chain::header::Hash256;
use crate::network::Network;
use crate::node::channel_messages::{
    Departure, MainThreadMessage, PeerMessage, PeerThreadMessage, RemoteVersion,
};
use crate::node::peer_map::SessionState;
use crate::peers::address::{
    IpAddress, SERVICE_COMPACT_FILTERS, SERVICE_NETWORK, SERVICE_WITNESS,
};

verus! {

/// The protocol version this node speaks.
pub const PROTOCOL_VERSION: u32 = 70016;

/// The lowest protocol version of a peer this node talks to: the one that
/// brought compact block filters.
pub const MIN_PROTOCOL_VERSION: u32 = 70015;

/// Why a session ends or a step of it fails.
#[derive(Debug, Clone, Copy, PartialEq, Eq, Structural)]
pub enum PeerError {
    /// The peer's TCP port was closed or we could not connect.
    TcpConnectionFailed,
    /// A message could not be written to the peer.
    BufferWriteError,
    /// Experienced an error sending a message over the channel.
    ThreadChannelError,
    /// The main thread advised this peer to disconnect.
    DisconnectCommand,
}

impl PeerError {
    /// A sentence for the person reading the log.
    pub fn to_string(&self) -> (r: String)
        ensures
            r@ == (match self {
                PeerError::TcpConnectionFailed => "the peer's TCP port was closed or we could not connect"@,
                PeerError::BufferWriteError => "a message could not be written to the peer"@,
                PeerError::ThreadChannelError => "experienced an error sending a message over the channel"@,
                PeerError::DisconnectCommand => "the main thread advised this peer to disconnect"@,
            }),
    {
        match self {
            PeerError::TcpConnectionFailed => "the peer's TCP port was closed or we could not connect".to_owned(),
            PeerError::BufferWriteError => "a message could not be written to the peer".to_owned(),
            PeerError::ThreadChannelError => "experienced an error sending a message over the channel".to_owned(),
            PeerError::DisconnectCommand => "the main thread advised this peer to disconnect".to_owned(),
        }
    }
}

/// A message to write to the peer.
#[derive(Debug)]
pub enum OutboundMessage {
    Version { services: u64, timestamp: i64, nonce: u64, start_height: i32 },
    Verack,
    Pong(u64),
    GetAddr,
    GetHeaders { locators: Vec<Hash256>, stop_hash: Option<Hash256> },
    GetFilterHeaders(FilterRange),
    GetFilters(FilterRange),
    GetBlock(Hash256),
    Transaction(Vec<u8>),
}

/// What one step of a session asks of the task that runs it: a message to
/// pass on to the node, a message to write to the peer, and whether the
/// session goes on.
#[derive(Debug)]
pub struct PeerStep {
    pub forward: Option<PeerThreadMessage>,
    pub write: Option<OutboundMessage>,
    pub result: Result<(), PeerError>,
}

/// The session with one peer.
#[derive(Debug)]
pub struct Peer {
    nonce: u32,
    remote: Option<RemoteVersion>,
    ip_addr: IpAddress,
    port: u16,
    last_message: Option<u64>,
    opened: Option<u64>,
    state: SessionState,
    network: Network,
}

/// Whether a message from the peer ends the session: word that the peer is
/// gone, and the version of a peer that speaks too old a protocol.
pub open spec fn ends_session(message: PeerMessage) -> bool {
    match message {
        PeerMessage::Disconnect(_) => true,
        PeerMessage::Version(v) => v.version < MIN_PROTOCOL_VERSION,
        _ => false,
    }
}

/// The services this node asks of its peers and tells of itself.
pub open spec fn spec_local_services() -> u64 {
    (SERVICE_NETWORK + SERVICE_WITNESS + SERVICE_COMPACT_FILTERS) as u64
}

impl Peer {
    /// The nonce of the session.
    pub closed spec fn spec_nonce(&self) -> u32 {
        self.nonce
    }

    /// The port the session connects to.
    pub closed spec fn spec_port(&self) -> u16 {
        self.port
    }

    /// The address the session connects to.
    pub closed spec fn spec_addr(&self) -> IpAddress {
        self.ip_addr
    }

    /// Where the session stands.
    pub closed spec fn spec_state(&self) -> SessionState {
        self.state
    }

    /// The time of the last message from the peer, if there was one.
    pub closed spec fn spec_last_message(&self) -> Option<u64> {
        self.last_message
    }

    /// The time the session was opened, if it was.
    pub closed spec fn spec_opened(&self) -> Option<u64> {
        self.opened
    }

    /// The network of the session.
    pub closed spec fn spec_network(&self) -> Network {
        self.network
    }

    /// What the peer has said of itself, once it has: its protocol version,
    /// its services, its time and the height of its chain.
    pub closed spec fn spec_remote(&self) -> Option<RemoteVersion> {
        self.remote
    }

    /// A session that is yet to be opened, to the peer at `ip_addr`, on
    /// `port` or on the default one of the network. The regression test
    /// network has no default port to offer.
    pub fn new(nonce: u32, ip_addr: IpAddress, port: Option<u16>, network: Network) -> (r: Peer)
        requires
            network != Network::Regtest,
        ensures
            r.spec_nonce() == nonce,
            r.spec_addr() == ip_addr,
            r.spec_port() == (match port {
                Some(p) => p,
                None => network.spec_default_port(),
            }),
            r.spec_state() == SessionState::Handshaking,
            r.spec_last_message() is None,
            r.spec_opened() is None,
            r.spec_network() == network,
            r.spec_remote() is None,
    {
        let default_port: u16 = network.default_port();
        Peer {
            nonce,
            remote: None,
            ip_addr,
            port: match port {
                Some(p) => p,
                None => default_port,
            },
            last_message: None,
            opened: None,
            state: SessionState::Handshaking,
            network,
        }
    }

    /// The nonce of the session.
    pub fn nonce(&self) -> (r: u32)
        ensures
            r == self.spec_nonce(),
    {
        self.nonce
    }

    /// The address and port the session connects to.
    pub fn address(&self) -> (r: (IpAddress, u16))
        ensures
            r.0 == self.spec_addr(),
            r.1 == self.spec_port(),
    {
        (self.ip_addr, self.port)
    }

    /// What the peer has said of itself, once it has.
    pub fn remote(&self) -> (r: Option<RemoteVersion>)
        ensures
            r == self.spec_remote(),
    {
        self.remote
    }

    /// Where the session stands.
    pub fn state(&self) -> (r: SessionState)
        ensures
            r == self.spec_state(),
    {
        self.state
    }

    /// Opens the session at time `now`: the first message to the peer tells
    /// what this node is, asks for no relayed transactions and bears
    /// `version_nonce`.
    pub fn connect(&mut self, now: u64, version_nonce: u64, start_height: u32) -> (r: PeerStep)
        ensures
            r.forward is None,
            r.result is Ok,
            r.write matches Some(OutboundMessage::Version { services, timestamp, nonce, start_height: h })
                && services == spec_local_services() && nonce == version_nonce && timestamp == (
            if now <= i64::MAX as u64 {
                now as i64
            } else {
                i64::MAX
            }) && h == (if start_height <= i32::MAX as u32 {
                start_height as i32
            } else {
                i32::MAX
            }),
            final(self).spec_opened() == Some(now),
            final(self).spec_last_message() == Some(now),
            final(self).spec_state() == SessionState::Handshaking,
            final(self).spec_nonce() == old(self).spec_nonce(),
            final(self).spec_addr() == old(self).spec_addr(),
            final(self).spec_port() == old(self).spec_port(),
            final(self).spec_network() == old(self).spec_network(),
            final(self).spec_remote() == old(self).spec_remote(),
    {
        self.opened = Some(now);
        self.last_message = Some(now);
        self.state = SessionState::Handshaking;
        let timestamp: i64 = if now <= i64::MAX as u64 {
            now as i64
        } else {
            i64::MAX
        };
        let height: i32 = if start_height <= i32::MAX as u32 {
            start_height as i32
        } else {
            i32::MAX
        };
        PeerStep {
            forward: None,
            write: Some(
                OutboundMessage::Version {
                    services: SERVICE_NETWORK + SERVICE_WITNESS + SERVICE_COMPACT_FILTERS,
                    timestamp,
                    nonce: version_nonce,
                    start_height: height,
                },
            ),
            result: Ok(()),
        }
    }

    /// Whether the session goes on after a step with this result: it ends on
    /// the command to disconnect and on nothing else.
    pub fn goes_on(result: &Result<(), PeerError>) -> (r: bool)
        ensures
            r == !(result == Err::<(), PeerError>(PeerError::DisconnectCommand)),
    {
        match result {
            Err(PeerError::DisconnectCommand) => false,
            _ => true,
        }
    }

    /// Whether the session must end at time `now`: the peer has been silent
    /// for longer than `response_timeout`, or the session has lasted longer
    /// than `max_connection_time`.
    pub open spec fn spec_times_out(&self, now: u64, response_timeout: u64, max_connection_time: u64) -> bool {
        (self.spec_last_message() matches Some(t) && now > t && now - t > response_timeout) || (
        self.spec_opened() matches Some(t) && now > t && now - t > max_connection_time)
    }

    /// Whether the session must end at time `now`: it is closed where the
    /// peer has been silent for longer than `response_timeout`, or where the
    /// session has lasted longer than `max_connection_time`.
    pub fn timed_out(&self, now: u64, response_timeout: u64, max_connection_time: u64) -> (r: bool)
        ensures
            r == self.spec_times_out(now, response_timeout, max_connection_time),
    {
        let silent: bool = match self.last_message {
            Some(t) => now > t && now - t > response_timeout,
            None => false,
        };
        let old: bool = match self.opened {
            Some(t) => now > t && now - t > max_connection_time,
            None => false,
        };
        silent || old
    }

    /// Looks at the clock at time `now`. A session that has timed out ends,
    /// and the node hears that the peer is gone and why; any other session
    /// goes on as it is.
    pub fn tick(&mut self, now: u64, response_timeout: u64, max_connection_time: u64) -> (r: Option<
        PeerStep,
    >)
        ensures
            r is Some <==> old(self).spec_times_out(now, response_timeout, max_connection_time),
            r is None ==> *final(self) == *old(self),
            r matches Some(step) ==> {
                &&& step.forward is Some
                &&& step.forward->0.nonce == old(self).spec_nonce()
                &&& step.forward->0.message == PeerMessage::Disconnect(Departure::TimedOut)
                &&& step.write is None
                &&& step.result == Err::<(), PeerError>(PeerError::DisconnectCommand)
                &&& final(self).spec_state() == SessionState::Closed
                &&& final(self).spec_last_message() == Some(now)
                &&& final(self).spec_opened() == old(self).spec_opened()
                &&& final(self).spec_nonce() == old(self).spec_nonce()
                &&& final(self).spec_addr() == old(self).spec_addr()
                &&& final(self).spec_port() == old(self).spec_port()
                &&& final(self).spec_network() == old(self).spec_network()
                &&& final(self).spec_remote() == old(self).spec_remote()
            },
    {
        if self.timed_out(now, response_timeout, max_connection_time) {
            Some(self.handle_peer_message(PeerMessage::Disconnect(Departure::TimedOut), now))
        } else {
            None
        }
    }

    /// Takes a message the reader has read from the peer, at time `now`.
    ///
    /// The version of a peer that speaks too old a protocol ends the session,
    /// and the node hears that the peer is gone. Any other
    /// version is passed on to the node and acknowledged. A ping
    /// is answered with a pong of the same nonce and goes no further, and
    /// neither do a pong and an acknowledgement; the latter makes the session
    /// ready. Word that the peer is gone is passed on and ends the session.
    /// Everything else is passed on to the node.
    pub fn handle_peer_message(&mut self, message: PeerMessage, now: u64) -> (r: PeerStep)
        ensures
            final(self).spec_last_message() == Some(now),
            final(self).spec_opened() == old(self).spec_opened(),
            final(self).spec_nonce() == old(self).spec_nonce(),
            final(self).spec_addr() == old(self).spec_addr(),
            final(self).spec_port() == old(self).spec_port(),
            final(self).spec_network() == old(self).spec_network(),
            final(self).spec_remote() == (match message {
                PeerMessage::Version(v) if v.version >= MIN_PROTOCOL_VERSION => Some(v),
                _ => old(self).spec_remote(),
            }),
            final(self).spec_state() == (match message {
                PeerMessage::Verack => SessionState::Ready,
                PeerMessage::Disconnect(_) => SessionState::Closed,
                PeerMessage::Version(v) if v.version < MIN_PROTOCOL_VERSION => SessionState::Closed,
                _ => old(self).spec_state(),
            }),
            r.result == (if ends_session(message) {
                Err::<(), PeerError>(PeerError::DisconnectCommand)
            } else {
                Ok::<(), PeerError>(())
            }),
            match message {
                PeerMessage::Version(v) => if v.version < MIN_PROTOCOL_VERSION {
                    r.write is None
                } else {
                    r.write is Some && r.write->0 is Verack
                },
                PeerMessage::Ping(n) => r.write is Some && r.write->0 is Pong && r.write->0->Pong_0
                    == n,
                _ => r.write is None,
            },
            match message {
                PeerMessage::Verack | PeerMessage::Ping(_) | PeerMessage::Pong(_) => r.forward
                    is None,
                PeerMessage::Version(v) if v.version < MIN_PROTOCOL_VERSION => r.forward is Some
                    && r.forward->0.nonce == old(self).spec_nonce() && r.forward->0.message
                    == PeerMessage::Disconnect(Departure::Outdated),
                _ => r.forward is Some && r.forward->0.nonce == old(self).spec_nonce()
                    && r.forward->0.message == message,
            },
    {
        self.last_message = Some(now);
        match message {
            PeerMessage::Version(version) => {
                if version.version < MIN_PROTOCOL_VERSION {
                    self.state = SessionState::Closed;
                    return PeerStep {
                        forward: Some(
                            PeerThreadMessage {
                                nonce: self.nonce,
                                message: PeerMessage::Disconnect(Departure::Outdated),
                            },
                        ),
                        write: None,
                        result: Err(PeerError::DisconnectCommand),
                    };
                }
                self.remote = Some(version);
                PeerStep {
                    forward: Some(
                        PeerThreadMessage { nonce: self.nonce, message: PeerMessage::Version(version) },
                    ),
                    write: Some(OutboundMessage::Verack),
                    result: Ok(()),
                }
            },
            PeerMessage::Disconnect(_) => {
                self.state = SessionState::Closed;
                PeerStep {
                    forward: Some(PeerThreadMessage { nonce: self.nonce, message }),
                    write: None,
                    result: Err(PeerError::DisconnectCommand),
                }
            },
            PeerMessage::Verack => {
                self.state = SessionState::Ready;
                PeerStep { forward: None, write: None, result: Ok(()) }
            },
            PeerMessage::Ping(nonce) => PeerStep {
                forward: None,
                write: Some(OutboundMessage::Pong(nonce)),
                result: Ok(()),
            },
            PeerMessage::Pong(_) => PeerStep { forward: None, write: None, result: Ok(()) },
            other => PeerStep {
                forward: Some(PeerThreadMessage { nonce: self.nonce, message: other }),
                write: None,
                result: Ok(()),
            },
        }
    }

    /// Takes a request from the node. The command to disconnect ends the
    /// session; every other request is written to the peer.
    pub fn main_thread_request(&mut self, request: MainThreadMessage) -> (r: PeerStep)
        ensures
            final(self).spec_last_message() == old(self).spec_last_message(),
            final(self).spec_opened() == old(self).spec_opened(),
            final(self).spec_nonce() == old(self).spec_nonce(),
            final(self).spec_addr() == old(self).spec_addr(),
            final(self).spec_port() == old(self).spec_port(),
            final(self).spec_network() == old(self).spec_network(),
            final(self).spec_remote() == old(self).spec_remote(),
            r.forward is None,
            request is Disconnect ==> r.write is None && r.result == Err::<(), PeerError>(
                PeerError::DisconnectCommand,
            ) && final(self).spec_state() == SessionState::Closing,
            !(request is Disconnect) ==> r.result is Ok && r.write is Some && final(self).spec_state() == old(self).spec_state(),
            match request {
                MainThreadMessage::GetAddr => r.write->0 is GetAddr,
                MainThreadMessage::GetHeaders(config) => r.write->0 matches OutboundMessage::GetHeaders {
                    locators,
                    stop_hash,
                } && locators == config.locators && stop_hash == config.stop_hash,
                MainThreadMessage::GetFilterHeaders(range) => r.write->0
                    == OutboundMessage::GetFilterHeaders(range),
                MainThreadMessage::GetFilters(range) => r.write->0 == OutboundMessage::GetFilters(
                    range,
                ),
                MainThreadMessage::GetBlock(config) => r.write->0 == OutboundMessage::GetBlock(
                    config.locator,
                ),
                MainThreadMessage::SendTransaction(tx) => r.write->0 == OutboundMessage::Transaction(
                    tx,
                ),
                MainThreadMessage::Disconnect => true,
            },
    {
        let write: OutboundMessage = match request {
            MainThreadMessage::GetAddr => OutboundMessage::GetAddr,
            MainThreadMessage::GetHeaders(config) => OutboundMessage::GetHeaders {
                locators: config.locators,
                stop_hash: config.stop_hash,
            },
            MainThreadMessage::GetFilterHeaders(range) => OutboundMessage::GetFilterHeaders(range),
            MainThreadMessage::GetFilters(range) => OutboundMessage::GetFilters(range),
            MainThreadMessage::GetBlock(config) => OutboundMessage::GetBlock(config.locator),
            MainThreadMessage::SendTransaction(tx) => OutboundMessage::Transaction(tx),
            MainThreadMessage::Disconnect => {
                self.state = SessionState::Closing;
                return PeerStep {
                    forward: None,
                    write: None,
                    result: Err(PeerError::DisconnectCommand),
                };
            },
        };
        PeerStep { forward: None, write: Some(write), result: Ok(()) }
    }
}

} // verus!
