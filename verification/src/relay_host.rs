//! The host's side of the relay: what becomes of each frame that the relay server sends.
//!
//! A host keeps one socket or one NetherNet stream per player. The caller opens them, sends and
//! receives; this module says which of that is due.

use std::collections::HashMap;

use vstd::prelude::*;

use crate::net;
use crate::net::{wildcard, SocketAddr};
use crate::nethernet;
use crate::nethernet::{clone_data, ServerData, ServerDataView};
use crate::proto::UNCONNECTED_PING_ID;
use crate::proxy;
use crate::proxy::{random_id, ServerProtocol, UNCONNECTED_PING_OPEN_CONNECTIONS_ID};
use crate::raknet;
use crate::relay;
use crate::relay::{
    build_raknet_pong_from_nethernet_ping, default_nethernet_data, frame,
    normalize_raknet_payload, relay_ws_url, unframe, RelayHostConfig,
};

verus! {

broadcast use vstd::std_specs::hash::group_hash_axioms;

/// The seconds to wait before connecting to the relay server again.
pub const RECONNECT_DELAY_SECS: u64 = 1;

/// What is due for a player's packet.
#[derive(Debug)]
pub enum HostStep {
    /// Nothing.
    Ignore,
    /// Ask the server for its data and hand the outcome to `on_server_data`.
    QueryServerData { player_id: u32, payload: Vec<u8> },
    /// Send the frame to the relay server.
    Reply { frame: Vec<u8> },
    /// Open a stream to the server for the player and hand the outcome to `stream_opened`.
    OpenStream { player_id: u32, payload: Vec<u8> },
    /// Send the packet on the player's stream.
    SendToStream { player_id: u32, payload: Vec<u8> },
    /// Open a socket for the player, bound and connected as given, and hand the outcome to
    /// `socket_opened`.
    OpenSocket { player_id: u32, bind: SocketAddr, remote: SocketAddr, payload: Vec<u8> },
    /// Send the packet on the player's socket.
    SendToSocket { player_id: u32, payload: Vec<u8> },
    /// Give up: the host ends with an error.
    EndRun,
}

/// When and where to connect again.
#[derive(Debug)]
pub struct Reconnect {
    pub delay_secs: u64,
    pub url: String,
}

/// A step as mathematical values.
pub enum HostStepView {
    Ignore,
    QueryServerData { player_id: u32, payload: Seq<u8> },
    Reply { frame: Seq<u8> },
    OpenStream { player_id: u32, payload: Seq<u8> },
    SendToStream { player_id: u32, payload: Seq<u8> },
    OpenSocket { player_id: u32, bind: SocketAddr, remote: SocketAddr, payload: Seq<u8> },
    SendToSocket { player_id: u32, payload: Seq<u8> },
    EndRun,
}

impl View for HostStep {
    type V = HostStepView;

    open spec fn view(&self) -> HostStepView {
        match *self {
            HostStep::Ignore => HostStepView::Ignore,
            HostStep::QueryServerData { player_id, payload } => HostStepView::QueryServerData {
                player_id,
                payload: payload@,
            },
            HostStep::Reply { frame } => HostStepView::Reply { frame: frame@ },
            HostStep::OpenStream { player_id, payload } => HostStepView::OpenStream {
                player_id,
                payload: payload@,
            },
            HostStep::SendToStream { player_id, payload } => HostStepView::SendToStream {
                player_id,
                payload: payload@,
            },
            HostStep::OpenSocket { player_id, bind, remote, payload } => HostStepView::OpenSocket {
                player_id,
                bind,
                remote,
                payload: payload@,
            },
            HostStep::SendToSocket { player_id, payload } => HostStepView::SendToSocket {
                player_id,
                payload: payload@,
            },
            HostStep::EndRun => HostStepView::EndRun,
        }
    }
}

/// A host as mathematical values: its settings, and the sockets and streams by player.
#[verifier::ext_equal]
pub struct HostView<U, N> {
    pub relay_url: Seq<char>,
    pub room: Seq<char>,
    pub target_server: SocketAddr,
    pub server_protocol: ServerProtocol,
    pub server_id: u64,
    pub sockets: Map<u32, U>,
    pub streams: Map<u32, N>,
    pub cached: Option<ServerDataView>,
}

impl<U, N> HostView<U, N> {
    /// A host that has just been made.
    pub open spec fn made(config: RelayHostConfig, server_id: u64) -> Self {
        HostView {
            relay_url: config.relay_url@,
            room: config.room@,
            target_server: config.target_server,
            server_protocol: config.server_protocol,
            server_id,
            sockets: Map::empty(),
            streams: Map::empty(),
            cached: None,
        }
    }

    /// The host at the start of a connection: players and server data are forgotten.
    pub open spec fn connected(self) -> Self {
        HostView { sockets: Map::empty(), streams: Map::empty(), cached: None, ..self }
    }

    /// The host without a player's socket and stream.
    pub open spec fn without(self, player_id: u32) -> Self {
        HostView {
            sockets: self.sockets.remove(player_id),
            streams: self.streams.remove(player_id),
            ..self
        }
    }

    /// The host with a player's socket.
    pub open spec fn with_socket(self, player_id: u32, socket: U) -> Self {
        HostView { sockets: self.sockets.insert(player_id, socket), ..self }
    }

    /// The host with a player's stream.
    pub open spec fn with_stream(self, player_id: u32, stream: N) -> Self {
        HostView { streams: self.streams.insert(player_id, stream), ..self }
    }

    /// A packet goes to the server on the player's own way; one is opened where there is none.
    pub open spec fn forward(self, player_id: u32, payload: Seq<u8>) -> HostStepView {
        match self.server_protocol {
            ServerProtocol::Nethernet => if self.streams.dom().contains(player_id) {
                HostStepView::SendToStream { player_id, payload }
            } else {
                HostStepView::OpenStream { player_id, payload }
            },
            ServerProtocol::Raknet => if self.sockets.dom().contains(player_id) {
                HostStepView::SendToSocket { player_id, payload }
            } else {
                HostStepView::OpenSocket {
                    player_id,
                    bind: net::wildcard_addr(self.target_server.ipv6(), 0),
                    remote: self.target_server,
                    payload,
                }
            },
        }
    }

    /// The host after a frame: an empty packet tells that the player has left.
    pub open spec fn after_frame(self, bin: Seq<u8>) -> Self {
        if bin.len() == 4 {
            self.without(raknet::be32_value(bin))
        } else {
            self
        }
    }

    /// What is due for a frame. Pings of a NetherNet host are answered by the host itself.
    pub open spec fn frame_step(self, bin: Seq<u8>) -> HostStepView {
        let player_id = raknet::be32_value(bin);
        let payload = bin.skip(4);
        if bin.len() <= 4 {
            HostStepView::Ignore
        } else if self.server_protocol == ServerProtocol::Nethernet && proxy::is_ping(payload) {
            HostStepView::QueryServerData { player_id, payload }
        } else {
            self.forward(player_id, payload)
        }
    }

    /// The server data to answer with: what the server says now, what it said last, or the
    /// stand-in.
    pub open spec fn answer_data(self, queried: Option<ServerDataView>) -> ServerDataView {
        match queried {
            Some(data) => data,
            None => match self.cached {
                Some(data) => data,
                None => relay::default_data(),
            },
        }
    }

    /// What is due for a ping once the server was asked for its data.
    pub open spec fn data_step(
        self,
        player_id: u32,
        payload: Seq<u8>,
        queried: Option<ServerDataView>,
    ) -> HostStepView {
        if raknet::carries_ping(payload) {
            HostStepView::Reply {
                frame: relay::framed(
                    player_id,
                    relay::relay_pong(payload, self.answer_data(queried), self.server_id),
                ),
            }
        } else {
            self.forward(player_id, payload)
        }
    }
}

/// A relay host. `U` is the caller's socket handle and `N` its stream handle.
#[verifier::reject_recursive_types(U)]
#[verifier::reject_recursive_types(N)]
pub struct RelayHost<U, N> {
    config: RelayHostConfig,
    server_id: u64,
    sockets: HashMap<u32, U>,
    streams: HashMap<u32, N>,
    cached: Option<ServerData>,
}

impl<U, N> View for RelayHost<U, N> {
    type V = HostView<U, N>;

    closed spec fn view(&self) -> HostView<U, N> {
        HostView {
            relay_url: self.config.relay_url@,
            room: self.config.room@,
            target_server: self.config.target_server,
            server_protocol: self.config.server_protocol,
            server_id: self.server_id,
            sockets: self.sockets@,
            streams: self.streams@,
            cached: nethernet::data_view(self.cached),
        }
    }
}

impl<U, N> RelayHost<U, N> {
    /// A host that announces itself under the given id.
    pub fn with_server_id(config: RelayHostConfig, server_id: u64) -> (r: Self)
        ensures
            r@ == HostView::<U, N>::made(config, server_id),
    {
        let r = RelayHost {
            config,
            server_id,
            sockets: HashMap::new(),
            streams: HashMap::new(),
            cached: None,
        };
        assert(r@ =~= HostView::<U, N>::made(config, server_id));
        r
    }

    /// A host that announces itself under an id drawn at random.
    pub fn new(config: RelayHostConfig) -> (r: Self)
        ensures
            r@ == HostView::<U, N>::made(config, r@.server_id),
    {
        let server_id = random_id();
        Self::with_server_id(config, server_id)
    }

    /// The server that the host forwards to.
    pub fn target_server(&self) -> (r: SocketAddr)
        ensures
            r == self@.target_server,
    {
        self.config.target_server
    }

    /// The protocol that the server speaks.
    pub fn server_protocol(&self) -> (r: ServerProtocol)
        ensures
            r == self@.server_protocol,
    {
        self.config.server_protocol
    }

    /// Starts a connection afresh and gives the address to connect to.
    pub fn connect(&mut self) -> (url: String)
        ensures
            final(self)@ == old(self)@.connected(),
            url@ == relay::ws_url(old(self)@.relay_url, "host"@, old(self)@.room),
    {
        self.sockets = HashMap::new();
        self.streams = HashMap::new();
        self.cached = None;
        assert(self@ =~= old(self)@.connected());
        relay_ws_url(self.config.relay_url.as_str(), "host", self.config.room.as_str())
    }

    /// Takes the end of a connection to the relay server, or the failure to get one: the host
    /// connects again after a while, afresh.
    pub fn connection_ended(&mut self) -> (r: Reconnect)
        ensures
            final(self)@ == old(self)@.connected(),
            r.delay_secs == RECONNECT_DELAY_SECS,
            r.url@ == relay::ws_url(old(self)@.relay_url, "host"@, old(self)@.room),
    {
        Reconnect { delay_secs: RECONNECT_DELAY_SECS, url: self.connect() }
    }

    fn forward(&self, player_id: u32, payload: Vec<u8>) -> (step: HostStep)
        ensures
            step@ == self@.forward(player_id, payload@),
    {
        match self.config.server_protocol {
            ServerProtocol::Nethernet => if self.streams.contains_key(&player_id) {
                HostStep::SendToStream { player_id, payload }
            } else {
                HostStep::OpenStream { player_id, payload }
            },
            ServerProtocol::Raknet => if self.sockets.contains_key(&player_id) {
                HostStep::SendToSocket { player_id, payload }
            } else {
                let remote = self.config.target_server;
                HostStep::OpenSocket {
                    player_id,
                    bind: wildcard(remote.is_ipv6(), 0),
                    remote,
                    payload,
                }
            },
        }
    }

    /// Takes a frame from the relay server.
    pub fn on_frame(&mut self, bin: &[u8]) -> (step: HostStep)
        ensures
            final(self)@ == old(self)@.after_frame(bin@),
            step@ == old(self)@.frame_step(bin@),
    {
        match unframe(bin) {
            None => HostStep::Ignore,
            Some((player_id, payload)) => {
                if payload.len() == 0 {
                    self.sockets.remove(&player_id);
                    self.streams.remove(&player_id);
                    assert(self@ =~= old(self)@.without(player_id));
                    return HostStep::Ignore;
                }
                let packet = vstd::slice::slice_to_vec(payload);
                let is_ping = payload[0] == UNCONNECTED_PING_ID || payload[0]
                    == UNCONNECTED_PING_OPEN_CONNECTIONS_ID;
                if self.config.server_protocol == ServerProtocol::Nethernet && is_ping {
                    return HostStep::QueryServerData { player_id, payload: packet };
                }
                self.forward(player_id, packet)
            },
        }
    }

    /// Takes the outcome of a query for the server's data that a ping has caused.
    pub fn on_server_data(
        &mut self,
        player_id: u32,
        payload: Vec<u8>,
        queried: Option<ServerData>,
    ) -> (step: HostStep)
        ensures
            final(self)@ == (HostView {
                cached: Some(old(self)@.answer_data(nethernet::data_view(queried))),
                ..old(self)@
            }),
            step@ == old(self)@.data_step(player_id, payload@, nethernet::data_view(queried)),
    {
        let known = match queried {
            Some(data) => Some(data),
            None => clone_data(&self.cached),
        };
        let data = match known {
            Some(data) => data,
            None => default_nethernet_data(),
        };
        let pong = build_raknet_pong_from_nethernet_ping(payload.as_slice(), &data, self.server_id);
        self.cached = Some(data);
        match pong {
            Some(bytes) => HostStep::Reply { frame: frame(player_id, bytes.as_slice()) },
            None => self.forward(player_id, payload),
        }
    }

    /// Takes the outcome of opening a stream for a player's packet: the packet goes on it; without
    /// a stream the packet is lost.
    pub fn stream_opened(&mut self, player_id: u32, payload: Vec<u8>, stream: Option<N>) -> (step:
        HostStep)
        ensures
            match stream {
                Some(n) => {
                    &&& final(self)@ == old(self)@.with_stream(player_id, n)
                    &&& step@ == (HostStepView::SendToStream { player_id, payload: payload@ })
                },
                None => final(self)@ == old(self)@ && step@ == HostStepView::Ignore,
            },
    {
        match stream {
            Some(n) => {
                self.streams.insert(player_id, n);
                HostStep::SendToStream { player_id, payload }
            },
            None => HostStep::Ignore,
        }
    }

    /// The player's stream.
    pub fn stream(&self, player_id: u32) -> (r: Option<&N>)
        ensures
            match r {
                Some(n) => self@.streams.dom().contains(player_id) && *n
                    == self@.streams[player_id],
                None => !self@.streams.dom().contains(player_id),
            },
    {
        self.streams.get(&player_id)
    }

    /// Forgets the player's stream, which takes no more packets.
    pub fn stream_lost(&mut self, player_id: u32)
        ensures
            final(self)@ == (HostView {
                streams: old(self)@.streams.remove(player_id),
                ..old(self)@
            }),
    {
        self.streams.remove(&player_id);
    }

    /// Takes the outcome of opening a socket for a player's packet: the packet goes on it; a host
    /// that can open no socket ends.
    pub fn socket_opened(&mut self, player_id: u32, payload: Vec<u8>, socket: Option<U>) -> (step:
        HostStep)
        ensures
            match socket {
                Some(u) => {
                    &&& final(self)@ == old(self)@.with_socket(player_id, u)
                    &&& step@ == (HostStepView::SendToSocket { player_id, payload: payload@ })
                },
                None => final(self)@ == old(self)@ && step@ == HostStepView::EndRun,
            },
    {
        match socket {
            Some(u) => {
                self.sockets.insert(player_id, u);
                HostStep::SendToSocket { player_id, payload }
            },
            None => HostStep::EndRun,
        }
    }

    /// The player's socket.
    pub fn socket(&self, player_id: u32) -> (r: Option<&U>)
        ensures
            match r {
                Some(u) => self@.sockets.dom().contains(player_id) && *u
                    == self@.sockets[player_id],
                None => !self@.sockets.dom().contains(player_id),
            },
    {
        self.sockets.get(&player_id)
    }

    /// Forgets the player's socket, on which sending failed.
    pub fn socket_lost(&mut self, player_id: u32)
        ensures
            final(self)@ == (HostView {
                sockets: old(self)@.sockets.remove(player_id),
                ..old(self)@
            }),
    {
        self.sockets.remove(&player_id);
    }
}

/// The frame for what came on a player's stream; `None` where it is to be dropped.
pub fn stream_frame(player_id: u32, incoming: &[u8]) -> (r: Option<Vec<u8>>)
    ensures
        raknet::bytes_view(r) == (match relay::normalized(incoming@) {
            Some(payload) => Some(relay::framed(player_id, payload)),
            None => None,
        }),
        r is Some,
        incoming@.len() == 0 || !raknet::is_control_id(incoming@[0]) ==> r->0@ == relay::framed(
            player_id,
            incoming@,
        ),
        proxy::is_ping(incoming@) ==> r->0@ == relay::framed(
            player_id,
            if raknet::carries_ping(incoming@) {
                incoming@.take(25)
            } else {
                incoming@
            },
        ),
{
    match normalize_raknet_payload(incoming) {
        Some(payload) => Some(frame(player_id, payload.as_slice())),
        None => None,
    }
}

// ---- laws ----

/// A frame with an empty packet makes the host forget the player's socket and stream, and nothing
/// else.
pub proof fn law_player_that_left_is_forgotten<U, N>(host: HostView<U, N>, player_id: u32)
    ensures
        host.frame_step(relay::framed(player_id, seq![])) is Ignore,
        host.after_frame(relay::framed(player_id, seq![])) == host.without(player_id),
        !host.without(player_id).sockets.dom().contains(player_id),
        !host.without(player_id).streams.dom().contains(player_id),
{
    relay::law_unframe_of_frame(player_id, seq![]);
}

/// A frame leaves the sockets and streams of all other players alone.
pub proof fn law_frame_leaves_other_players_alone<U, N>(
    host: HostView<U, N>,
    bin: Seq<u8>,
    other: u32,
)
    requires
        other != raknet::be32_value(bin),
    ensures
        host.sockets.dom().contains(other) == host.after_frame(bin).sockets.dom().contains(other),
        host.sockets.dom().contains(other) ==> host.after_frame(bin).sockets[other]
            == host.sockets[other],
        host.streams.dom().contains(other) == host.after_frame(bin).streams.dom().contains(other),
        host.streams.dom().contains(other) ==> host.after_frame(bin).streams[other]
            == host.streams[other],
{
}

/// Once a way to the server is open for a player, every packet of the player takes it; pings to a
/// NetherNet server are the exception.
pub proof fn law_open_way_is_used<U, N>(
    host: HostView<U, N>,
    player_id: u32,
    payload: Seq<u8>,
    socket: U,
    stream: N,
)
    requires
        payload.len() > 0,
    ensures
        host.server_protocol == ServerProtocol::Raknet ==> host.with_socket(
            player_id,
            socket,
        ).frame_step(relay::framed(player_id, payload)) == (HostStepView::SendToSocket {
            player_id,
            payload,
        }),
        host.server_protocol == ServerProtocol::Nethernet && !proxy::is_ping(payload) ==> host.with_stream(
            player_id,
            stream,
        ).frame_step(relay::framed(player_id, payload)) == (HostStepView::SendToStream {
            player_id,
            payload,
        }),
{
    relay::law_unframe_of_frame(player_id, payload);
}

/// A packet of a player without a way to the server asks for one, and the packet goes along.
pub proof fn law_way_is_opened_for_first_packet<U, N>(
    host: HostView<U, N>,
    player_id: u32,
    payload: Seq<u8>,
)
    requires
        payload.len() > 0,
        host.server_protocol == ServerProtocol::Raknet || !proxy::is_ping(payload),
    ensures
        host.without(player_id).frame_step(relay::framed(player_id, payload)) == (
        match host.server_protocol {
            ServerProtocol::Raknet => HostStepView::OpenSocket {
                player_id,
                bind: net::wildcard_addr(host.target_server.ipv6(), 0),
                remote: host.target_server,
                payload,
            },
            ServerProtocol::Nethernet => HostStepView::OpenStream { player_id, payload },
        }),
{
    relay::law_unframe_of_frame(player_id, payload);
}

/// Server data that was once received answers later pings while the server is silent.
pub proof fn law_last_data_answers_while_silent<U, N>(
    host: HostView<U, N>,
    queried: Option<ServerDataView>,
)
    ensures
        (HostView { cached: Some(host.answer_data(queried)), ..host }).answer_data(None)
            == host.answer_data(queried),
{
}

/// A well-formed ping to a NetherNet server is answered to the player who sent it, with a pong
/// that carries the host's id, whether the server answered or not.
pub proof fn law_ping_is_answered_to_its_sender<U, N>(
    host: HostView<U, N>,
    player_id: u32,
    payload: Seq<u8>,
    queried: Option<ServerDataView>,
)
    requires
        host.server_protocol == ServerProtocol::Nethernet,
        raknet::carries_ping(payload),
    ensures
        host.frame_step(relay::framed(player_id, payload)) == (HostStepView::QueryServerData {
            player_id,
            payload,
        }),
        host.data_step(player_id, payload, queried) matches HostStepView::Reply { frame }
            && raknet::be32_value(frame) == player_id && frame.skip(4) == relay::relay_pong(
            payload,
            host.answer_data(queried),
            host.server_id,
        ),
{
    relay::law_unframe_of_frame(player_id, payload);
    relay::law_unframe_of_frame(
        player_id,
        relay::relay_pong(payload, host.answer_data(queried), host.server_id),
    );
}

/// No frame and no answer of the server ends the host's run.
pub proof fn law_no_frame_ends_the_run<U, N>(
    host: HostView<U, N>,
    bin: Seq<u8>,
    player_id: u32,
    payload: Seq<u8>,
    queried: Option<ServerDataView>,
)
    ensures
        !(host.frame_step(bin) is EndRun),
        !(host.data_step(player_id, payload, queried) is EndRun),
{
}

/// A new connection keeps the host's settings and id and nothing else.
pub proof fn law_connecting_twice<U, N>(host: HostView<U, N>)
    ensures
        host.connected().connected() == host.connected(),
        host.connected().server_id == host.server_id,
        host.connected().target_server == host.target_server,
        host.connected().server_protocol == host.server_protocol,
        host.connected().sockets == Map::<u32, U>::empty(),
        host.connected().streams == Map::<u32, N>::empty(),
        host.connected().cached is None,
{
}

/// A host that was just made has the settings and the id that it was given, and neither players
/// nor server data.
pub proof fn law_host_as_made<U, N>(config: RelayHostConfig, server_id: u64, player_id: u32)
    ensures
        ({
            let host = HostView::<U, N>::made(config, server_id);
            &&& host.relay_url == config.relay_url@
            &&& host.room == config.room@
            &&& host.target_server == config.target_server
            &&& host.server_protocol == config.server_protocol
            &&& host.server_id == server_id
            &&& !host.sockets.dom().contains(player_id)
            &&& !host.streams.dom().contains(player_id)
            &&& host.cached is None
            &&& host.connected() == host
        }),
{
}

/// A frame that holds a packet, or is too short to name a player, changes nothing of the host; the
/// short one is passed over.
pub proof fn law_only_leaving_changes_the_host<U, N>(
    host: HostView<U, N>,
    player_id: u32,
    payload: Seq<u8>,
    short: Seq<u8>,
)
    requires
        payload.len() > 0,
        short.len() < 4,
    ensures
        host.after_frame(relay::framed(player_id, payload)) == host,
        host.after_frame(short) == host,
        host.frame_step(short) is Ignore,
        !(host.frame_step(relay::framed(player_id, payload)) is Ignore),
{
    relay::law_unframe_of_frame(player_id, payload);
}

/// Leaving, coming and connecting again touch what they are about and nothing else.
pub proof fn law_host_keeps_its_settings<U, N>(
    host: HostView<U, N>,
    player_id: u32,
    other: u32,
    socket: U,
    stream: N,
)
    requires
        player_id != other,
    ensures
        (HostView { sockets: host.sockets, streams: host.streams, ..host.without(player_id) })
            == host,
        (HostView { sockets: host.sockets, ..host.with_socket(player_id, socket) }) == host,
        (HostView { streams: host.streams, ..host.with_stream(player_id, stream) }) == host,
        (HostView {
            sockets: host.sockets,
            streams: host.streams,
            cached: host.cached,
            ..host.connected()
        }) == host,
        host.with_socket(player_id, socket).sockets[player_id] == socket,
        host.with_stream(player_id, stream).streams[player_id] == stream,
        host.without(player_id).sockets.dom().contains(other) == host.sockets.dom().contains(other),
        host.without(player_id).streams.dom().contains(other) == host.streams.dom().contains(other),
        host.with_socket(player_id, socket).sockets.remove(player_id) == host.sockets.remove(
            player_id,
        ),
        host.with_stream(player_id, stream).streams.remove(player_id) == host.streams.remove(
            player_id,
        ),
{
    assert(host.with_socket(player_id, socket).sockets.remove(player_id) =~= host.sockets.remove(
        player_id,
    ));
    assert(host.with_stream(player_id, stream).streams.remove(player_id) =~= host.streams.remove(
        player_id,
    ));
}

/// What the server says now counts before what it said last, and that before the stand-in.
pub proof fn law_fresh_answer_counts<U, N>(host: HostView<U, N>, data: ServerDataView)
    ensures
        host.answer_data(Some(data)) == data,
        host.cached == Some(data) ==> host.answer_data(None) == data,
        host.cached is None ==> host.answer_data(None) == relay::default_data(),
        host.cached is None ==> host.answer_data(None).server_name == "phantom relay"@
            && host.answer_data(None).level_name == "relay"@ && host.answer_data(None).player_count
            == 0 && host.answer_data(None).max_player_count == 20,
{
}

/// A packet that only looks like a ping takes the player's own way to the server, as any other
/// packet does.
pub proof fn law_malformed_ping_goes_to_the_server<U, N>(
    host: HostView<U, N>,
    player_id: u32,
    payload: Seq<u8>,
    queried: Option<ServerDataView>,
)
    requires
        host.server_protocol == ServerProtocol::Nethernet,
        !raknet::carries_ping(payload),
    ensures
        host.streams.dom().contains(player_id) ==> host.data_step(player_id, payload, queried) == (
        HostStepView::SendToStream { player_id, payload }),
        !host.streams.dom().contains(player_id) ==> host.data_step(player_id, payload, queried) == (
        HostStepView::OpenStream { player_id, payload }),
{
}

/// A player whose ping was answered reads the data that the server gave for it, or the last that
/// it gave, with the host's id.
pub proof fn law_player_reads_the_answer<U, N>(
    host: HostView<U, N>,
    player_id: u32,
    ping: Seq<u8>,
    data: ServerDataView,
)
    requires
        host.server_protocol == ServerProtocol::Nethernet,
        raknet::carries_ping(ping),
        !data.server_name.contains(';'),
        !data.level_name.contains(';'),
        data.server_name.len() <= 1300,
        data.level_name.len() <= 1300,
    ensures
        host.data_step(player_id, ping, Some(data)) matches HostStepView::Reply { frame } && ({
            let read = crate::proto::ping_read(frame.skip(4));
            let got = read->Ok_0;
            &&& raknet::be32_value(frame) == player_id
            &&& read is Ok
            &&& got.ping_time == ping.subrange(1, 9)
            &&& got.id == raknet::be64(host.server_id)
            &&& crate::text::i32_text(got.pong[4]) == Some(
                if data.player_count < 0 {
                    0i32
                } else {
                    data.player_count
                },
            )
            &&& crate::text::integer_text(got.pong[6], false) == Some(host.server_id as int)
        }),
        host.cached == Some(data) ==> host.data_step(player_id, ping, None) == host.data_step(
            player_id,
            ping,
            Some(data),
        ),
{
    let pong = relay::relay_pong(ping, data, host.server_id);
    relay::law_unframe_of_frame(player_id, pong);
    relay::law_player_reads_the_servers_data(ping, data, host.server_id);
    relay::lemma_relay_fields_are_short(data, host.server_id);
    relay::law_relay_pong_is_readable(ping, data, host.server_id);
}

} // verus!
