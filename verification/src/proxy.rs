//! The proxy's state and the decisions it takes on each packet.
//!
//! Sockets are handles of a type `S` that the caller chooses; the caller does the sending and
//! receiving. Durations are nanoseconds.

use vstd::prelude::*;

use crate::client_map::{ClientMap, ClientMapView, CleanupStep, ConnectionStep};
use crate::net;
use crate::net::{resolve_addr, wildcard, AddressError, SocketAddr};
use crate::nethernet;
use crate::nethernet::{
    clone_data, fallback_string, game_type_name, map_game_type, parse_i32_or_default, ServerData,
    ServerDataView, TransportLayer,
};
use crate::proto;
use crate::proto::{
    bytes16, bytes8, offline_pong, read_unconnected_ping, PingView, PongData, UnconnectedPing,
    UNCONNECTED_PING_ID, UNCONNECTED_PONG_ID,
};
use crate::text;
use crate::text::{decimal_string, str_contains};

verus! {

/// The size of the buffer that one datagram is read into.
pub const MAX_MTU: usize = 1472;

/// The time between two clean-ups of idle clients.
pub const IDLE_CHECK_INTERVAL: u128 = 5_000_000_000;

/// First byte of an unconnected ping to servers with open connections.
pub const UNCONNECTED_PING_OPEN_CONNECTIONS_ID: u8 = 0x02;

/// The seconds after which a server that a packet was sent to counts as not answering.
pub const SERVER_READ_TIMEOUT_SECS: u64 = 5;

/// The milliseconds between two announcements of the server data.
pub const ANNOUNCE_INTERVAL_MS: u64 = 750;

/// The port on which consoles look for servers.
pub const PING_PORT: u16 = 19132;

/// The port on which consoles look for servers over IPv6.
pub const PING_PORT_V6: u16 = 19133;

/// The lowest port that is drawn where none is asked for.
pub const DRAWN_PORT_FIRST: u16 = 50_000;

/// The port just above the highest that is drawn.
pub const DRAWN_PORT_END: u16 = 64_000;

/// The protocol that the remote server speaks.
#[derive(Clone, Copy, Debug, Eq, PartialEq, Structural)]
pub enum ServerProtocol {
    Raknet,
    Nethernet,
}

/// What the user asks of the proxy.
#[derive(Clone, Debug)]
pub struct ProxyPrefs {
    pub bind_address: String,
    pub bind_port: u16,
    pub remote_server: String,
    pub server_protocol: ServerProtocol,
    pub idle_timeout: u128,
    pub enable_ipv6: bool,
    pub remove_ports: bool,
    pub num_workers: usize,
}

/// The user's wishes as mathematical values.
#[verifier::ext_equal]
pub struct PrefsView {
    pub bind_address: Seq<char>,
    pub bind_port: u16,
    pub remote_server: Seq<char>,
    pub server_protocol: ServerProtocol,
    pub idle_timeout: u128,
    pub enable_ipv6: bool,
    pub remove_ports: bool,
    pub num_workers: usize,
}

impl View for ProxyPrefs {
    type V = PrefsView;

    open spec fn view(&self) -> PrefsView {
        PrefsView {
            bind_address: self.bind_address@,
            bind_port: self.bind_port,
            remote_server: self.remote_server@,
            server_protocol: self.server_protocol,
            idle_timeout: self.idle_timeout,
            enable_ipv6: self.enable_ipv6,
            remove_ports: self.remove_ports,
            num_workers: self.num_workers,
        }
    }
}

/// `rand::rng().random_range(low..high)` draws a number from `low` up to, but not including,
/// `high`. Which one is left to chance. The generator panics where the operating system gives no
/// seed.
#[verifier::external_body]
fn random_port(low: u16, high: u16) -> (r: u16)
    requires
        low < high,
    ensures
        low <= r < high,
{
    rand::RngExt::random_range(&mut rand::rng(), low..high)
}

/// `rand::rng().random()` draws any number; nothing is claimed of it. The generator panics where
/// the operating system gives no seed.
#[verifier::external_body]
pub(crate) fn random_id() -> u64 {
    rand::RngExt::random(&mut rand::rng())
}

impl PrefsView {
    /// The port that was asked for, or `drawn` where none was.
    pub open spec fn with_port(self, drawn: u16) -> Self {
        PrefsView { bind_port: if self.bind_port == 0 { drawn } else { self.bind_port }, ..self }
    }
}

impl ProxyPrefs {
    /// The same wishes with `drawn` for the port where none was asked for.
    pub fn with_bind_port(self, drawn: u16) -> (r: Self)
        ensures
            r@ == self@.with_port(drawn),
    {
        let mut prefs = self;
        if prefs.bind_port == 0 {
            prefs.bind_port = drawn;
        }
        prefs
    }

    /// The text to look up for the address that the proxy is bound to. The port in it has no effect
    /// on what is found: the proxy puts its own in its place.
    pub fn bind_target(&self) -> (r: String)
        ensures
            r@ == self.bind_address@.push(':') + text::decimal(self.bind_port as nat),
    {
        let mut r = self.bind_address.clone();
        r.push(':');
        let port = decimal_string(self.bind_port as u64);
        r.append(port.as_str());
        r
    }
}

/// The proxy.
pub struct ProxyServer<S> {
    bind_address: SocketAddr,
    bound_port: u16,
    remote_server_address: SocketAddr,
    ping_server: Option<S>,
    ping_server_v6: Option<S>,
    server: Option<S>,
    client_map: ClientMap<S>,
    latest_pong: Option<PongData>,
    latest_nethernet_data: Option<ServerData>,
    prefs: ProxyPrefs,
    dead: bool,
    server_offline: bool,
    server_id: u64,
}

/// The proxy as mathematical values.
#[verifier::ext_equal]
pub struct ProxyView<S> {
    pub bind_address: SocketAddr,
    pub bound_port: u16,
    pub remote_server_address: SocketAddr,
    pub ping_server: Option<S>,
    pub ping_server_v6: Option<S>,
    pub server: Option<S>,
    pub client_map: ClientMapView<S>,
    pub latest_pong: Option<Seq<Seq<char>>>,
    pub latest_nethernet_data: Option<ServerDataView>,
    pub prefs: PrefsView,
    pub dead: bool,
    pub server_offline: bool,
    pub server_id: u64,
}

/// The view of an advertisement that may not be there.
pub open spec fn pong_view(pong: Option<PongData>) -> Option<Seq<Seq<char>>> {
    match pong {
        Some(p) => Some(p@),
        None => None,
    }
}

impl<S> View for ProxyServer<S> {
    type V = ProxyView<S>;

    closed spec fn view(&self) -> ProxyView<S> {
        ProxyView {
            bind_address: self.bind_address,
            bound_port: self.bound_port,
            remote_server_address: self.remote_server_address,
            ping_server: self.ping_server,
            ping_server_v6: self.ping_server_v6,
            server: self.server,
            client_map: self.client_map@,
            latest_pong: pong_view(self.latest_pong),
            latest_nethernet_data: nethernet::data_view(self.latest_nethernet_data),
            prefs: self.prefs@,
            dead: self.dead,
            server_offline: self.server_offline,
            server_id: self.server_id,
        }
    }
}

// ---- advertisements ----

/// The fields that the proxy sends in place of the server's: its own id, and its own port where
/// the server gave one; no ports where they are to be removed.
pub open spec fn rewritten_fields(
    fields: Seq<Seq<char>>,
    server_id: u64,
    bound_port: u16,
    remove_ports: bool,
) -> Seq<Seq<char>> {
    let named = fields.update(6, text::decimal(server_id as nat));
    let port = text::decimal(bound_port as nat);
    if remove_ports {
        named.update(10, seq![]).update(11, seq![])
    } else if fields[10].len() > 0 {
        named.update(10, port).update(11, port)
    } else {
        named
    }
}

/// The larger of two numbers.
pub open spec fn larger(a: i32, b: i32) -> i32 {
    if a >= b {
        a
    } else {
        b
    }
}

/// The larger of two numbers.
pub fn max_i32(a: i32, b: i32) -> (r: i32)
    ensures
        r == larger(a, b),
{
    if a >= b {
        a
    } else {
        b
    }
}

/// The fields with which the proxy advertises a NetherNet server.
pub open spec fn nethernet_fields(
    data: ServerDataView,
    server_id: u64,
    bound_port: u16,
    remove_ports: bool,
) -> Seq<Seq<char>> {
    let players = larger(data.player_count, 0);
    let port = if remove_ports { seq![] } else { text::decimal(bound_port as nat) };
    seq![
        "MCPE"@,
        nethernet::fallback_text(data.server_name, "phantom LAN Server"@),
        "649"@,
        "1.20.62"@,
        text::decimal(players as nat),
        text::decimal(larger(data.max_player_count, players) as nat),
        text::decimal(server_id as nat),
        nethernet::fallback_text(data.level_name, "Bedrock level"@),
        nethernet::game_type_text(data.game_type),
        "1"@,
        port,
        port,
    ]
}

/// The server data that an advertisement amounts to.
pub open spec fn pong_server_data(fields: Seq<Seq<char>>) -> ServerDataView {
    let listed = match text::i32_text(fields[4]) {
        Some(v) => v,
        None => 0,
    };
    let limit = match text::i32_text(fields[5]) {
        Some(v) => v,
        None => larger(listed, 20),
    };
    let players = larger(listed, 0);
    ServerDataView {
        server_name: nethernet::fallback_text(fields[1], "phantom LAN Server"@),
        level_name: nethernet::fallback_text(fields[7], "Bedrock level"@),
        game_type: nethernet::game_type_number(fields[8]),
        player_count: players,
        max_player_count: larger(limit, players),
        editor_world: false,
        hardcore: false,
        transport_layer: TransportLayer::RakNet,
        connection_type: 4,
    }
}

/// The server data that is announced before anything is known.
pub open spec fn unknown_server_data() -> ServerDataView {
    ServerDataView {
        server_name: "phantom LAN Server"@,
        level_name: "Bedrock level"@,
        game_type: 1,
        player_count: 0,
        max_player_count: 20,
        editor_world: false,
        hardcore: false,
        transport_layer: TransportLayer::RakNet,
        connection_type: 4,
    }
}

/// The packet is an unconnected ping of either kind.
pub open spec fn is_ping(data: Seq<u8>) -> bool {
    data.len() > 0 && (data[0] == UNCONNECTED_PING_ID || data[0]
        == UNCONNECTED_PING_OPEN_CONNECTIONS_ID)
}

impl<S> ProxyView<S> {
    /// The proxy at its making.
    pub open spec fn fresh(
        prefs: PrefsView,
        bind_address: SocketAddr,
        remote_server_address: SocketAddr,
        server_id: u64,
    ) -> Self {
        ProxyView {
            bind_address,
            bound_port: prefs.bind_port,
            remote_server_address,
            ping_server: None,
            ping_server_v6: None,
            server: None,
            client_map: ClientMapView::fresh(prefs.idle_timeout, IDLE_CHECK_INTERVAL),
            latest_pong: None,
            latest_nethernet_data: None,
            prefs,
            dead: false,
            server_offline: false,
            server_id,
        }
    }

    /// What making a proxy comes to: the proxy, with `drawn` for its port where none was asked
    /// for, or the reason why one of its addresses was not found.
    pub open spec fn constructed<E>(
        prefs: PrefsView,
        bind_found: Result<Vec<SocketAddr>, E>,
        remote_found: Result<Vec<SocketAddr>, E>,
        drawn: u16,
        server_id: u64,
    ) -> Result<Self, AddressError<E>> {
        let chosen = prefs.with_port(drawn);
        match net::first_found(bind_found) {
            Ok(bind) => match net::first_found(remote_found) {
                Ok(remote) => Ok(
                    Self::fresh(chosen, bind.renumbered(chosen.bind_port), remote, server_id),
                ),
                Err(e) => Err(e),
            },
            Err(e) => Err(e),
        }
    }

    /// The proxy has one port, which is not zero, and knows it everywhere.
    pub open spec fn has_one_port(self) -> bool {
        &&& self.bound_port != 0
        &&& self.prefs.bind_port == self.bound_port
        &&& self.bind_address.port_number() == self.bound_port
    }

    /// The proxy after its closing: its sockets and clients are gone.
    pub open spec fn closed(self) -> Self {
        ProxyView {
            dead: true,
            client_map: self.client_map.closed(),
            server: None,
            ping_server: None,
            ping_server_v6: None,
            ..self
        }
    }

    /// The packet that is sent in place of `p`.
    pub open spec fn rewritten(self, p: PingView) -> PingView {
        PingView {
            pong: rewritten_fields(p.pong, self.server_id, self.bound_port, self.prefs.remove_ports),
            ..p
        }
    }

    /// The bytes that are sent in place of `data`: those that cannot be read go as they are.
    pub open spec fn rewritten_bytes(self, data: Seq<u8>) -> Seq<u8> {
        match proto::ping_read(data) {
            Ok(p) => proto::ping_wire(self.rewritten(p)),
            Err(_) => data,
        }
    }

    /// The proxy remembers the advertisement it sent.
    pub open spec fn after_rewrite(self, data: Seq<u8>) -> Self {
        match proto::ping_read(data) {
            Ok(p) => ProxyView { latest_pong: Some(self.rewritten(p).pong), ..self },
            Err(_) => self,
        }
    }

    /// The bytes that are sent for a server that does not answer.
    pub open spec fn offline_bytes(self) -> Seq<u8> {
        self.rewritten_bytes(proto::ping_wire(proto::offline_packet()))
    }

    /// The proxy after it has sent the pong of a server that does not answer.
    pub open spec fn after_offline(self) -> Self {
        self.after_rewrite(proto::ping_wire(proto::offline_packet()))
    }

    /// The pong for a ping to a NetherNet server.
    pub open spec fn nethernet_packet(self, ping: Seq<u8>, data: ServerDataView) -> PingView {
        PingView {
            ping_time: ping.subrange(1, 9),
            id: ping.subrange(25, 33),
            magic: ping.subrange(9, 25),
            pong: nethernet_fields(
                data,
                self.server_id,
                self.bound_port,
                self.prefs.remove_ports,
            ),
        }
    }

    /// The server data that a NetherNet ping is answered with, where the ping can be answered:
    /// what was fetched, else what was fetched last.
    pub open spec fn answer_data(
        self,
        ping: Seq<u8>,
        fetched: Option<ServerDataView>,
    ) -> Option<ServerDataView> {
        if ping.len() < 33 || !is_ping(ping) {
            None
        } else if fetched is Some {
            fetched
        } else {
            self.latest_nethernet_data
        }
    }

    /// The pong for a NetherNet ping, if there is one.
    pub open spec fn nethernet_bytes(
        self,
        ping: Seq<u8>,
        fetched: Option<ServerDataView>,
    ) -> Option<Seq<u8>> {
        match self.answer_data(ping, fetched) {
            Some(data) => Some(proto::ping_wire(self.nethernet_packet(ping, data))),
            None => None,
        }
    }

    /// The proxy after it has answered a NetherNet ping: it remembers what it fetched and sent.
    pub open spec fn after_nethernet(
        self,
        ping: Seq<u8>,
        fetched: Option<ServerDataView>,
    ) -> Self {
        match self.answer_data(ping, fetched) {
            Some(data) => ProxyView {
                latest_nethernet_data: Some(data),
                latest_pong: Some(self.nethernet_packet(ping, data).pong),
                ..self
            },
            None => self,
        }
    }

    /// The server counts as answering.
    pub open spec fn heard_from_server(self) -> Self {
        ProxyView { server_offline: false, ..self }
    }

    /// The client is gone.
    pub open spec fn without_client(self, client: SocketAddr) -> Self {
        ProxyView { client_map: self.client_map.deleted(client), ..self }
    }

    /// The proxy after a failure to receive for a client: the client is gone, and the server
    /// counts as not answering where the failure tells that.
    pub open spec fn after_failure(self, client: SocketAddr, failure: RecvFailure) -> Self {
        ProxyView {
            server_offline: self.server_offline || failure_tells_offline(failure),
            ..self.without_client(client)
        }
    }

    /// The server data that is announced.
    pub open spec fn cached_server_data(self) -> ServerDataView {
        match self.latest_nethernet_data {
            Some(data) => data,
            None => match self.latest_pong {
                Some(fields) => pong_server_data(fields),
                None => unknown_server_data(),
            },
        }
    }
}

/// What to do with a packet from a client.
#[derive(Debug)]
pub enum ClientStep {
    /// Nothing: the packet is empty.
    Ignore,
    /// Send these bytes to the client.
    Reply(Vec<u8>),
    /// Ask the NetherNet server for its data, then answer the ping with it.
    FetchServerData,
    /// Get the client's connection to the remote server, then hand the packet to `forward`.
    Forward(Vec<u8>),
}

/// What is due for a packet once the client's connection to the remote server is there.
#[derive(Debug)]
pub struct Forwarded {
    /// Give up waiting for the server's answer after so many seconds.
    pub read_timeout_secs: u64,
    /// Send this to the client first.
    pub reply: Option<Vec<u8>>,
    /// Send this to the remote server.
    pub packet: Vec<u8>,
}

/// What is due after receiving, or failing to receive, from the remote server.
#[derive(Debug)]
pub enum ServerStep {
    /// Receive again.
    Again,
    /// Send these bytes to the client, then receive again.
    Send(Vec<u8>),
    /// Receive no more: the client is gone.
    Stop,
}

/// Why receiving from the remote server failed.
#[derive(Debug)]
pub enum RecvFailure {
    WouldBlock,
    TimedOut,
    Other(String),
}

impl ServerStep {
    /// Whether the wait for the server's next packet has no end from now on. It has one only until
    /// the server was heard, be it with an empty packet.
    pub fn lifts_read_timeout(&self) -> (r: bool)
        ensures
            r == !(self is Stop),
    {
        match self {
            ServerStep::Again => true,
            ServerStep::Send(_) => true,
            ServerStep::Stop => false,
        }
    }
}

/// A socket to bind.
#[derive(Clone, Copy, Debug, PartialEq, Eq, Structural)]
pub struct Listener {
    pub addr: SocketAddr,
    pub with_timeout: bool,
    pub v6_only: bool,
}

/// One step of starting the proxy.
#[derive(Clone, Copy, Debug, PartialEq, Eq, Structural)]
pub enum StartStep {
    /// Bind the socket for pings and read from it.
    BindPing(Listener),
    /// Bind the socket for IPv6 pings and read from it; go on without it where that fails.
    BindPingV6(Listener),
    /// Announce the server data by NetherNet discovery.
    StartDiscovery,
    /// Bind the socket that clients talk to.
    BindServer(Listener),
    /// Read from it in so many loops, the last of them on the starting thread.
    RunWorkers(usize),
}

/// One step of binding a socket.
#[derive(Clone, Copy, Debug, PartialEq, Eq, Structural)]
pub enum SocketStep {
    /// Make a datagram socket of the address family.
    Create { ipv6: bool },
    /// Let several sockets share the address.
    ReuseAddress,
    /// Say whether the socket takes IPv6 alone.
    OnlyV6(bool),
    /// Bind the socket.
    Bind(SocketAddr),
    /// Give up reading after so many seconds.
    ReadTimeout(u64),
}

/// The steps of binding a socket, in order. Each has to succeed before the next; the first that
/// fails is the outcome.
pub open spec fn bind_steps(listener: Listener) -> Seq<SocketStep> {
    let ipv6 = listener.addr.ipv6();
    let family = if ipv6 {
        seq![SocketStep::OnlyV6(listener.v6_only)]
    } else {
        seq![]
    };
    let timeout = if listener.with_timeout {
        seq![SocketStep::ReadTimeout(1)]
    } else {
        seq![]
    };
    seq![SocketStep::Create { ipv6 }, SocketStep::ReuseAddress] + family + seq![
        SocketStep::Bind(listener.addr),
    ] + timeout
}

impl Listener {
    /// The steps of binding the socket, in order.
    pub fn bind_reusable_socket(&self) -> (steps: Vec<SocketStep>)
        ensures
            steps@ == bind_steps(*self),
    {
        let mut steps: Vec<SocketStep> = Vec::new();
        steps.push(SocketStep::Create { ipv6: self.addr.is_ipv6() });
        steps.push(SocketStep::ReuseAddress);
        if self.addr.is_ipv6() {
            steps.push(SocketStep::OnlyV6(self.v6_only));
        }
        steps.push(SocketStep::Bind(self.addr));
        if self.with_timeout {
            steps.push(SocketStep::ReadTimeout(1));
        }
        assert(steps@ =~= bind_steps(*self));
        steps
    }
}

/// The steps of starting a proxy, in order.
pub open spec fn start_steps<S>(p: ProxyView<S>) -> Seq<StartStep> {
    let ping = seq![
        StartStep::BindPing(
            Listener {
                addr: net::wildcard_addr(false, PING_PORT),
                with_timeout: true,
                v6_only: false,
            },
        ),
    ];
    let ping_v6 = if p.prefs.enable_ipv6 {
        seq![
            StartStep::BindPingV6(
                Listener {
                    addr: net::wildcard_addr(true, PING_PORT_V6),
                    with_timeout: true,
                    v6_only: true,
                },
            ),
        ]
    } else {
        seq![]
    };
    let discovery = if p.prefs.server_protocol == ServerProtocol::Nethernet {
        seq![StartStep::StartDiscovery]
    } else {
        seq![]
    };
    let serve = seq![
        StartStep::BindServer(
            Listener {
                addr: p.bind_address,
                with_timeout: true,
                v6_only: p.bind_address.ipv6(),
            },
        ),
        StartStep::RunWorkers(if p.prefs.num_workers == 0 { 1 } else { p.prefs.num_workers }),
    ];
    ping + ping_v6 + discovery + serve
}

/// How starting the proxy goes on after a step.
#[derive(Clone, Copy, Debug, PartialEq, Eq, Structural)]
pub enum StartProgress {
    /// The step is over: take the next.
    GoOn,
    /// Starting failed.
    Fail,
    /// The step is not over: read another packet.
    KeepReading,
}

/// How starting goes on after a step, where `socket` is what a step that binds one has bound. The
/// sockets for pings and for clients are needed, the one for IPv6 pings is not. Reading is over
/// once the proxy is closed.
pub open spec fn start_progress<S>(p: ProxyView<S>, step: StartStep, socket: Option<S>) -> StartProgress {
    match step {
        StartStep::BindPing(_) => if socket is Some {
            StartProgress::GoOn
        } else {
            StartProgress::Fail
        },
        StartStep::BindPingV6(_) => StartProgress::GoOn,
        StartStep::StartDiscovery => StartProgress::GoOn,
        StartStep::BindServer(_) => if socket is Some {
            StartProgress::GoOn
        } else {
            StartProgress::Fail
        },
        StartStep::RunWorkers(_) => if p.dead {
            StartProgress::GoOn
        } else {
            StartProgress::KeepReading
        },
    }
}

/// The proxy after a step of its start: a socket that was bound is kept, and nothing else changes.
pub open spec fn after_start_step<S>(
    p: ProxyView<S>,
    step: StartStep,
    socket: Option<S>,
) -> ProxyView<S> {
    match (step, socket) {
        (StartStep::BindPing(_), Some(s)) => ProxyView { ping_server: Some(s), ..p },
        (StartStep::BindPingV6(_), Some(s)) => ProxyView { ping_server_v6: Some(s), ..p },
        (StartStep::BindServer(_), Some(s)) => ProxyView { server: Some(s), ..p },
        _ => p,
    }
}

/// What binding each of the proxy's sockets has given.
pub struct Bound<S> {
    pub ping: Option<S>,
    pub ping_v6: Option<S>,
    pub server: Option<S>,
}

/// The socket that a step has bound.
pub open spec fn bound_by<S>(step: StartStep, bound: Bound<S>) -> Option<S> {
    match step {
        StartStep::BindPing(_) => bound.ping,
        StartStep::BindPingV6(_) => bound.ping_v6,
        StartStep::BindServer(_) => bound.server,
        _ => None,
    }
}

/// The proxy and the progress after the steps, up to the first after which starting does not
/// simply go on.
pub open spec fn run_steps<S>(p: ProxyView<S>, steps: Seq<StartStep>, bound: Bound<S>) -> (
    ProxyView<S>,
    StartProgress,
)
    decreases steps.len(),
{
    if steps.len() == 0 {
        (p, StartProgress::GoOn)
    } else {
        let socket = bound_by(steps[0], bound);
        let after = after_start_step(p, steps[0], socket);
        match start_progress(p, steps[0], socket) {
            StartProgress::GoOn => run_steps(after, steps.drop_first(), bound),
            stop => (after, stop),
        }
    }
}

/// The text with which `str::to_lowercase` answers.
pub uninterp spec fn lowercase_text(s: Seq<char>) -> Seq<char>;

/// `str::to_lowercase` gives the text in lower case by Unicode's rules. Of a text of ASCII
/// characters alone it changes the capital letters and nothing else; what it makes of other
/// texts is not claimed.
#[verifier::external_body]
fn to_lowercase(s: &str) -> (r: String)
    ensures
        r@ == lowercase_text(s@),
        vstd::utf8::is_ascii_chars(s@) ==> r@ == text::ascii_lowercase(s@),
{
    s.to_lowercase()
}

/// The text of an error, in lower case, tells that the server does not answer.
pub open spec fn tells_offline(lower: Seq<char>) -> bool {
    text::contains_text(lower, "timeout"@) || text::contains_text(lower, "connection refused"@)
}

/// Whether the text of an error, in lower case, tells that the server does not answer.
pub fn message_tells_offline(lower: &str) -> (r: bool)
    ensures
        r == tells_offline(lower@),
{
    str_contains(lower, "timeout") || str_contains(lower, "connection refused")
}

/// The failure tells that the server does not answer.
pub open spec fn failure_tells_offline(failure: RecvFailure) -> bool {
    match failure {
        RecvFailure::WouldBlock => true,
        RecvFailure::TimedOut => true,
        RecvFailure::Other(message) => tells_offline(lowercase_text(message@)),
    }
}

impl<S> ProxyServer<S> {
    /// The client map is sound, and the proxy has one port, which is not zero.
    pub closed spec fn wf(&self) -> bool {
        &&& self.client_map.wf()
        &&& self@.has_one_port()
    }

    /// Makes a proxy from what chance has given: the port where none is asked for, and the id.
    pub fn with_drawn<E>(
        prefs: ProxyPrefs,
        bind_found: Result<Vec<SocketAddr>, E>,
        remote_found: Result<Vec<SocketAddr>, E>,
        drawn: u16,
        server_id: u64,
    ) -> (r: Result<Self, AddressError<E>>)
        requires
            DRAWN_PORT_FIRST <= drawn < DRAWN_PORT_END,
        ensures
            match r {
                Ok(p) => p.wf() && ProxyView::<S>::constructed(
                    prefs@,
                    bind_found,
                    remote_found,
                    drawn,
                    server_id,
                ) == Ok::<ProxyView<S>, AddressError<E>>(p@),
                Err(e) => ProxyView::<S>::constructed(
                    prefs@,
                    bind_found,
                    remote_found,
                    drawn,
                    server_id,
                ) == Err::<ProxyView<S>, AddressError<E>>(e),
            },
    {
        let bind = match resolve_addr(bind_found) {
            Ok(addr) => addr,
            Err(e) => {
                return Err(e);
            },
        };
        let remote_server_address = match resolve_addr(remote_found) {
            Ok(addr) => addr,
            Err(e) => {
                return Err(e);
            },
        };
        let prefs = prefs.with_bind_port(drawn);
        Ok(
            ProxyServer {
                bind_address: bind.renumber(prefs.bind_port),
                bound_port: prefs.bind_port,
                remote_server_address,
                ping_server: None,
                ping_server_v6: None,
                server: None,
                client_map: ClientMap::new(prefs.idle_timeout, IDLE_CHECK_INTERVAL),
                latest_pong: None,
                latest_nethernet_data: None,
                prefs,
                dead: false,
                server_offline: false,
                server_id,
            },
        )
    }

    /// Makes a proxy with a random id and, where none is asked for, a random port. `bind_found` is
    /// what looking up the bind target of `prefs` has found, `remote_found` the same for its
    /// remote server.
    pub fn new<E>(
        prefs: ProxyPrefs,
        bind_found: Result<Vec<SocketAddr>, E>,
        remote_found: Result<Vec<SocketAddr>, E>,
    ) -> (r: Result<Self, AddressError<E>>)
        ensures
            match r {
                Ok(p) => {
                    &&& p.wf()
                    &&& ProxyView::<S>::constructed(
                        prefs@,
                        bind_found,
                        remote_found,
                        p@.bound_port,
                        p@.server_id,
                    ) == Ok::<ProxyView<S>, AddressError<E>>(p@)
                    &&& prefs.bind_port == 0 ==> DRAWN_PORT_FIRST <= p@.bound_port < DRAWN_PORT_END
                    &&& prefs.bind_port != 0 ==> p@.bound_port == prefs.bind_port
                    &&& p@.has_one_port()
                },
                Err(e) => match net::first_found(bind_found) {
                    Ok(_) => net::first_found(remote_found) == Err::<SocketAddr, AddressError<E>>(
                        e,
                    ),
                    Err(first) => e == first,
                },
            },
    {
        let drawn = random_port(DRAWN_PORT_FIRST, DRAWN_PORT_END);
        Self::with_drawn(prefs, bind_found, remote_found, drawn, random_id())
    }

    /// The steps of starting the proxy, in order.
    pub fn start(&self) -> (steps: Vec<StartStep>)
        ensures
            steps@ == start_steps(self@),
    {
        let mut steps: Vec<StartStep> = Vec::new();
        steps.push(
            StartStep::BindPing(
                Listener { addr: wildcard(false, PING_PORT), with_timeout: true, v6_only: false },
            ),
        );
        if self.prefs.enable_ipv6 {
            steps.push(
                StartStep::BindPingV6(
                    Listener {
                        addr: wildcard(true, PING_PORT_V6),
                        with_timeout: true,
                        v6_only: true,
                    },
                ),
            );
        }
        if self.prefs.server_protocol == ServerProtocol::Nethernet {
            steps.push(StartStep::StartDiscovery);
        }
        steps.push(
            StartStep::BindServer(
                Listener {
                    addr: self.bind_address,
                    with_timeout: true,
                    v6_only: self.bind_address.is_ipv6(),
                },
            ),
        );
        let workers: usize = if self.prefs.num_workers == 0 { 1 } else { self.prefs.num_workers };
        steps.push(StartStep::RunWorkers(workers));
        assert(steps@ =~= start_steps(self@));
        steps
    }

    /// Takes the outcome of a step of the start: `socket` is what a step that binds one has bound,
    /// `None` where that failed.
    pub fn on_start_step(&mut self, step: StartStep, socket: Option<S>) -> (progress: StartProgress)
        requires
            old(self).wf(),
        ensures
            final(self).wf(),
            final(self)@ == after_start_step(old(self)@, step, socket),
            progress == start_progress(old(self)@, step, socket),
    {
        match step {
            StartStep::BindPing(_) => match socket {
                Some(s) => {
                    self.ping_server = Some(s);
                    StartProgress::GoOn
                },
                None => StartProgress::Fail,
            },
            StartStep::BindPingV6(_) => {
                if let Some(s) = socket {
                    self.ping_server_v6 = Some(s);
                }
                StartProgress::GoOn
            },
            StartStep::StartDiscovery => StartProgress::GoOn,
            StartStep::BindServer(_) => match socket {
                Some(s) => {
                    self.server = Some(s);
                    StartProgress::GoOn
                },
                None => StartProgress::Fail,
            },
            StartStep::RunWorkers(_) => if self.dead {
                StartProgress::GoOn
            } else {
                StartProgress::KeepReading
            },
        }
    }

    /// The socket that clients talk to, from which every reply is sent.
    pub fn server_socket(&self) -> (r: Option<&S>)
        ensures
            match r {
                Some(socket) => self@.server == Some(*socket),
                None => self@.server is None,
            },
    {
        match &self.server {
            Some(socket) => Some(socket),
            None => None,
        }
    }

    /// Whether the proxy was closed.
    pub fn is_dead(&self) -> (r: bool)
        ensures
            r == self@.dead,
    {
        self.dead
    }

    /// The address of the proxy.
    pub fn bind_address(&self) -> (r: SocketAddr)
        ensures
            r == self@.bind_address,
    {
        self.bind_address
    }

    /// The address of the remote server.
    pub fn remote_server_address(&self) -> (r: SocketAddr)
        ensures
            r == self@.remote_server_address,
    {
        self.remote_server_address
    }

    /// Closes the proxy: its sockets and clients are gone.
    pub fn close(&mut self)
        requires
            old(self).wf(),
        ensures
            final(self).wf(),
            final(self)@ == old(self)@.closed(),
    {
        self.dead = true;
        self.client_map.close();
        self.server = None;
        self.ping_server = None;
        self.ping_server_v6 = None;
    }

    /// The bytes to send in place of the pong `data`.
    pub fn rewrite_unconnected_pong(&mut self, data: Vec<u8>) -> (r: Vec<u8>)
        requires
            old(self).wf(),
        ensures
            final(self).wf(),
            r@ == old(self)@.rewritten_bytes(data@),
            final(self)@ == old(self)@.after_rewrite(data@),
    {
        match read_unconnected_ping(data.as_slice()) {
            Ok(mut packet) => {
                let ghost read = packet@;
                packet.pong.server_id = decimal_string(self.server_id);
                if !packet.pong.port4.as_str().is_empty() && !self.prefs.remove_ports {
                    packet.pong.port4 = decimal_string(self.bound_port as u64);
                    packet.pong.port6 = packet.pong.port4.clone();
                } else if self.prefs.remove_ports {
                    packet.pong.port4 = String::new();
                    packet.pong.port6 = String::new();
                }
                assert(packet@ =~= old(self)@.rewritten(read));
                self.latest_pong = Some(packet.pong.clone());
                packet.build()
            },
            Err(_) => data,
        }
    }

    /// The pong of a server that does not answer.
    fn offline_reply(&mut self) -> (r: Vec<u8>)
        requires
            old(self).wf(),
        ensures
            final(self).wf(),
            r@ == old(self)@.offline_bytes(),
            final(self)@ == old(self)@.after_offline(),
    {
        let reply = offline_pong();
        self.rewrite_unconnected_pong(reply)
    }

    /// The server data to announce.
    pub fn build_cached_nethernet_server_data(&self) -> (r: ServerData)
        ensures
            r@ == self@.cached_server_data(),
    {
        if let Some(cached) = &self.latest_nethernet_data {
            return cached.clone();
        }
        if let Some(pong) = &self.latest_pong {
            let listed = parse_i32_or_default(pong.players.as_str(), 0);
            let limit = parse_i32_or_default(pong.max_players.as_str(), max_i32(listed, 20));
            let player_count = max_i32(listed, 0);
            let max_player_count = max_i32(limit, player_count);
            let r = ServerData {
                server_name: fallback_string(pong.motd.as_str(), "phantom LAN Server"),
                level_name: fallback_string(pong.sub_motd.as_str(), "Bedrock level"),
                game_type: map_game_type(pong.game_type.as_str()),
                player_count,
                max_player_count,
                editor_world: false,
                hardcore: false,
                transport_layer: TransportLayer::RakNet,
                connection_type: 4,
            };
            assert(r@ == pong_server_data(pong@));
            return r;
        }
        ServerData {
            server_name: "phantom LAN Server".to_owned(),
            level_name: "Bedrock level".to_owned(),
            game_type: 1,
            player_count: 0,
            max_player_count: 20,
            editor_world: false,
            hardcore: false,
            transport_layer: TransportLayer::RakNet,
            connection_type: 4,
        }
    }

    /// The server data to announce now, and the milliseconds until it is to be announced anew;
    /// `None` once the proxy is closed.
    pub fn announcement(&self) -> (r: Option<(ServerData, u64)>)
        ensures
            match r {
                Some((data, wait_ms)) => {
                    &&& !self@.dead
                    &&& data@ == self@.cached_server_data()
                    &&& wait_ms == ANNOUNCE_INTERVAL_MS
                },
                None => self@.dead,
            },
    {
        if self.dead {
            return None;
        }
        Some((self.build_cached_nethernet_server_data(), ANNOUNCE_INTERVAL_MS))
    }

    /// The pong for a ping to a NetherNet server, from the data that was fetched for it.
    pub fn build_raknet_pong_from_nethernet(
        &mut self,
        ping_packet: &[u8],
        fetched: Option<ServerData>,
    ) -> (r: Option<Vec<u8>>)
        requires
            old(self).wf(),
        ensures
            final(self).wf(),
            match r {
                Some(bytes) => old(self)@.nethernet_bytes(
                    ping_packet@,
                    nethernet::data_view(fetched),
                ) == Some(bytes@),
                None => old(self)@.nethernet_bytes(
                    ping_packet@,
                    nethernet::data_view(fetched),
                ) is None,
            },
            final(self)@ == old(self)@.after_nethernet(
                ping_packet@,
                nethernet::data_view(fetched),
            ),
    {
        if ping_packet.len() < 33 || (ping_packet[0] != UNCONNECTED_PING_ID && ping_packet[0]
            != UNCONNECTED_PING_OPEN_CONNECTIONS_ID) {
            return None;
        }
        let server_data = match fetched {
            Some(data) => {
                self.latest_nethernet_data = Some(data.clone());
                data
            },
            None => match clone_data(&self.latest_nethernet_data) {
                Some(data) => data,
                None => {
                    return None;
                },
            },
        };
        let ping_time = bytes8(ping_packet, 1);
        let id = bytes8(ping_packet, 25);
        let magic = bytes16(ping_packet, 9);

        let port4 = if self.prefs.remove_ports {
            String::new()
        } else {
            decimal_string(self.bound_port as u64)
        };
        let port6 = port4.clone();
        let players = max_i32(server_data.player_count, 0);
        let max_players = max_i32(server_data.max_player_count, players);

        let pong = PongData {
            edition: "MCPE".to_owned(),
            motd: fallback_string(server_data.server_name.as_str(), "phantom LAN Server"),
            protocol_version: "649".to_owned(),
            version: "1.20.62".to_owned(),
            players: decimal_string(players as u64),
            max_players: decimal_string(max_players as u64),
            server_id: decimal_string(self.server_id),
            sub_motd: fallback_string(server_data.level_name.as_str(), "Bedrock level"),
            game_type: game_type_name(server_data.game_type).to_owned(),
            nintendo_limited: "1".to_owned(),
            port4,
            port6,
        };
        self.latest_pong = Some(pong.clone());
        let packet = UnconnectedPing { ping_time, id, magic, pong };
        assert(packet@ =~= old(self)@.nethernet_packet(ping_packet@, server_data@));
        Some(packet.build())
    }

    /// The reply to a ping to a NetherNet server: the pong, or that of a server that does not
    /// answer.
    pub fn nethernet_reply(&mut self, ping_packet: &[u8], fetched: Option<ServerData>) -> (r: Vec<
        u8,
    >)
        requires
            old(self).wf(),
        ensures
            final(self).wf(),
            match old(self)@.nethernet_bytes(ping_packet@, nethernet::data_view(fetched)) {
                Some(bytes) => r@ == bytes && final(self)@ == old(self)@.after_nethernet(
                    ping_packet@,
                    nethernet::data_view(fetched),
                ),
                None => r@ == old(self)@.offline_bytes() && final(self)@ == old(
                    self,
                )@.after_offline(),
            },
    {
        match self.build_raknet_pong_from_nethernet(ping_packet, fetched) {
            Some(bytes) => bytes,
            None => self.offline_reply(),
        }
    }

    /// Decides what to do with a packet from a client.
    pub fn process_data_from_clients(&mut self, data: &[u8]) -> (step: ClientStep)
        requires
            old(self).wf(),
        ensures
            final(self).wf(),
            ({
                let answers_pings = old(self)@.prefs.server_protocol == ServerProtocol::Nethernet;
                match step {
                    ClientStep::Ignore => data@.len() == 0 && final(self)@ == old(self)@,
                    ClientStep::Reply(bytes) => {
                        &&& is_ping(data@) && answers_pings && data@.len() < 33
                        &&& bytes@ == old(self)@.offline_bytes()
                        &&& final(self)@ == old(self)@.after_offline()
                    },
                    ClientStep::FetchServerData => {
                        &&& is_ping(data@) && answers_pings && data@.len() >= 33
                        &&& final(self)@ == old(self)@
                    },
                    ClientStep::Forward(packet) => {
                        &&& data@.len() > 0 && !(is_ping(data@) && answers_pings)
                        &&& packet@ == data@
                        &&& final(self)@ == old(self)@
                    },
                }
            }),
    {
        if data.len() == 0 {
            return ClientStep::Ignore;
        }
        if (data[0] == UNCONNECTED_PING_ID || data[0] == UNCONNECTED_PING_OPEN_CONNECTIONS_ID)
            && self.prefs.server_protocol == ServerProtocol::Nethernet {
            if data.len() >= 33 {
                return ClientStep::FetchServerData;
            }
            return ClientStep::Reply(self.nethernet_reply(data, None));
        }
        ClientStep::Forward(vstd::slice::slice_to_vec(data))
    }

    /// Finds how to get a client's connection to the remote server.
    pub fn connect_client(&mut self, client: SocketAddr, now: u128) -> (step: ConnectionStep)
        requires
            old(self).wf(),
        ensures
            final(self).wf(),
            old(self)@.client_map.clients.contains_key(client) ==> step == ConnectionStep::Reuse
                && final(self)@ == (ProxyView {
                client_map: old(self)@.client_map.touched(client, now),
                ..old(self)@
            }),
            !old(self)@.client_map.clients.contains_key(client) ==> step == (ConnectionStep::Open {
                bind: net::wildcard_addr(old(self)@.remote_server_address.ipv6(), 0),
                remote: old(self)@.remote_server_address,
            }) && final(self)@ == old(self)@,
    {
        self.client_map.get_or_create(client, self.remote_server_address, now)
    }

    /// Lists a client with its new connection.
    pub fn client_connected(&mut self, client: SocketAddr, conn: S, now: u128)
        requires
            old(self).wf(),
        ensures
            final(self).wf(),
            final(self)@ == (ProxyView {
                client_map: old(self)@.client_map.connected(client, conn, now),
                ..old(self)@
            }),
    {
        self.client_map.insert(client, conn, now);
    }

    /// The connection of a client to the remote server.
    pub fn client_connection(&self, client: SocketAddr) -> (r: Option<&S>)
        requires
            self.wf(),
        ensures
            match r {
                Some(conn) => self@.client_map.clients.contains_key(client) && *conn
                    == self@.client_map.clients[client].conn,
                None => !self@.client_map.clients.contains_key(client),
            },
    {
        self.client_map.connection(client)
    }

    /// What is due for a client's packet once its connection to the remote server is there: the
    /// packet goes to the server as it is. A ping is answered first with the pong of a server that
    /// does not answer, while that is so.
    pub fn forward(&mut self, packet: Vec<u8>) -> (r: Forwarded)
        requires
            old(self).wf(),
        ensures
            final(self).wf(),
            r.packet@ == packet@,
            r.read_timeout_secs == SERVER_READ_TIMEOUT_SECS,
            ({
                let told_offline = packet@.len() > 0 && packet@[0] == UNCONNECTED_PING_ID && old(
                    self,
                )@.server_offline;
                match r.reply {
                    Some(bytes) => {
                        &&& told_offline
                        &&& bytes@ == old(self)@.offline_bytes()
                        &&& final(self)@ == old(self)@.after_offline()
                    },
                    None => !told_offline && final(self)@ == old(self)@,
                }
            }),
    {
        let told_offline = packet.len() > 0 && packet[0] == UNCONNECTED_PING_ID
            && self.server_offline;
        let reply = if told_offline { Some(self.offline_reply()) } else { None };
        Forwarded { read_timeout_secs: SERVER_READ_TIMEOUT_SECS, reply, packet }
    }

    /// Whether to receive from the remote server for a client. Once the proxy is closed, it is
    /// not, and the client is dropped.
    pub fn keep_receiving(&mut self, client: SocketAddr) -> (r: bool)
        requires
            old(self).wf(),
        ensures
            final(self).wf(),
            r == !old(self)@.dead,
            final(self)@ == (if old(self)@.dead {
                old(self)@.without_client(client)
            } else {
                old(self)@
            }),
    {
        if self.dead {
            self.client_map.delete(client);
            return false;
        }
        true
    }

    /// Takes what came from the remote server for a client. A packet makes the server count as
    /// answering; an empty one is passed over. The first failure ends receiving: the client is
    /// dropped, and the server may count as not answering from now on.
    pub fn process_data_from_server(
        &mut self,
        client: SocketAddr,
        received: Result<Vec<u8>, RecvFailure>,
    ) -> (step: ServerStep)
        requires
            old(self).wf(),
        ensures
            final(self).wf(),
            match received {
                Ok(data) => if data@.len() == 0 {
                    step is Again && final(self)@ == old(self)@
                } else {
                    let online = old(self)@.heard_from_server();
                    step matches ServerStep::Send(bytes) && if data@[0] == UNCONNECTED_PONG_ID {
                        bytes@ == online.rewritten_bytes(data@) && final(self)@
                            == online.after_rewrite(data@)
                    } else {
                        bytes@ == data@ && final(self)@ == online
                    }
                },
                Err(failure) => step is Stop && final(self)@ == old(self)@.after_failure(
                    client,
                    failure,
                ),
            },
            received matches Err(RecvFailure::Other(message)) ==> vstd::utf8::is_ascii_chars(
                message@,
            ) ==> final(self)@.server_offline == (old(self)@.server_offline || tells_offline(
                text::ascii_lowercase(message@),
            )),
    {
        match received {
            Ok(data) => {
                if data.len() == 0 {
                    return ServerStep::Again;
                }
                self.server_offline = false;
                if data[0] == UNCONNECTED_PONG_ID {
                    return ServerStep::Send(self.rewrite_unconnected_pong(data));
                }
                ServerStep::Send(data)
            },
            Err(failure) => {
                let offline = match &failure {
                    RecvFailure::WouldBlock => true,
                    RecvFailure::TimedOut => true,
                    RecvFailure::Other(message) => {
                        let lower = to_lowercase(message.as_str());
                        message_tells_offline(lower.as_str())
                    },
                };
                if offline {
                    self.server_offline = true;
                }
                self.client_map.delete(client);
                ServerStep::Stop
            },
        }
    }

    /// One round of the clean-up of idle clients, after its sleep.
    pub fn clean_up_clients(&mut self, now: u128) -> (step: CleanupStep)
        requires
            old(self).wf(),
        ensures
            final(self).wf(),
            match step {
                CleanupStep::Stop => old(self)@.client_map.dead && final(self)@ == old(self)@,
                CleanupStep::Swept(gone) => {
                    &&& !old(self)@.client_map.dead
                    &&& final(self)@ == (ProxyView {
                        client_map: old(self)@.client_map.swept(now),
                        ..old(self)@
                    })
                    &&& gone@.no_duplicates()
                    &&& forall|addr: SocketAddr| #[trigger]
                        gone@.contains(addr) <==> old(self)@.client_map.idle_at(addr, now)
                },
            },
    {
        self.client_map.idle_cleanup(now)
    }
}

// ---- laws ----

/// Rewriting an advertisement changes its id and its ports and nothing else.
pub proof fn law_rewrite_keeps_other_fields(
    fields: Seq<Seq<char>>,
    server_id: u64,
    bound_port: u16,
    remove_ports: bool,
    i: int,
)
    requires
        fields.len() == proto::PONG_FIELDS,
        0 <= i < fields.len(),
        i != 6 && i != 10 && i != 11,
    ensures
        rewritten_fields(fields, server_id, bound_port, remove_ports).len() == fields.len(),
        rewritten_fields(fields, server_id, bound_port, remove_ports)[i] == fields[i],
{
}

/// A rewritten advertisement names no ports where they are to be removed, and otherwise the
/// proxy's own port where the server gave one.
pub proof fn law_rewritten_ports(
    fields: Seq<Seq<char>>,
    server_id: u64,
    bound_port: u16,
    remove_ports: bool,
)
    requires
        fields.len() == proto::PONG_FIELDS,
    ensures
        ({
            let r = rewritten_fields(fields, server_id, bound_port, remove_ports);
            let own = text::decimal(bound_port as nat);
            &&& r[6] == text::decimal(server_id as nat)
            &&& remove_ports ==> r[10].len() == 0 && r[11].len() == 0
            &&& !remove_ports && fields[10].len() > 0 ==> r[10] == own && r[11] == own
            &&& !remove_ports && fields[10].len() == 0 ==> r[10].len() == 0 && r[11] == fields[11]
        }),
{
}

/// Rewriting an advertisement twice is rewriting it once.
pub proof fn law_rewrite_twice(
    fields: Seq<Seq<char>>,
    server_id: u64,
    bound_port: u16,
    remove_ports: bool,
)
    requires
        fields.len() == proto::PONG_FIELDS,
    ensures
        ({
            let once = rewritten_fields(fields, server_id, bound_port, remove_ports);
            rewritten_fields(once, server_id, bound_port, remove_ports) == once
        }),
{
    let once = rewritten_fields(fields, server_id, bound_port, remove_ports);
    text::law_decimal_denotes_its_number(bound_port as nat);
    assert(rewritten_fields(once, server_id, bound_port, remove_ports) =~= once);
}

proof fn lemma_read_packet_is_well_sized(data: Seq<u8>)
    requires
        proto::ping_read(data) is Ok,
    ensures
        proto::well_sized(proto::ping_read(data)->Ok_0),
        proto::separator_free(proto::ping_read(data)->Ok_0.pong),
{
    let payload = data.subrange(35, 35 + proto::be16_value(data[33], data[34]));
    proto::law_read_fields_are_separator_free(vstd::utf8::decode_utf8(payload));
}

proof fn lemma_rewritten_is_separator_free(
    fields: Seq<Seq<char>>,
    server_id: u64,
    bound_port: u16,
    remove_ports: bool,
)
    requires
        fields.len() == proto::PONG_FIELDS,
        proto::separator_free(fields),
    ensures
        proto::separator_free(rewritten_fields(fields, server_id, bound_port, remove_ports)),
{
    let r = rewritten_fields(fields, server_id, bound_port, remove_ports);
    text::lemma_decimal_free_of(server_id as nat, ';');
    text::lemma_decimal_free_of(bound_port as nat, ';');
    assert forall|i: int| 0 <= i < r.len() implies !(#[trigger] r[i]).contains(';') by {
        assert(!fields[i].contains(';'));
    }
}

/// A rewritten pong can be read and gives the rewritten packet, where its advertisement fits the
/// length field.
pub proof fn law_rewritten_pong_is_readable<S>(p: ProxyView<S>, data: Seq<u8>)
    requires
        proto::ping_read(data) is Ok,
        proto::fits_length_field(p.rewritten(proto::ping_read(data)->Ok_0).pong),
    ensures
        proto::ping_read(p.rewritten_bytes(data)) == Ok::<PingView, Seq<char>>(
            p.rewritten(proto::ping_read(data)->Ok_0),
        ),
{
    let read = proto::ping_read(data)->Ok_0;
    lemma_read_packet_is_well_sized(data);
    lemma_rewritten_is_separator_free(
        read.pong,
        p.server_id,
        p.bound_port,
        p.prefs.remove_ports,
    );
    proto::law_read_of_built_packet(p.rewritten(read));
}

/// Rewriting a packet twice is rewriting it once, where the rewritten advertisement fits the
/// length field.
pub proof fn law_rewritten_bytes_twice<S>(p: ProxyView<S>, data: Seq<u8>)
    requires
        proto::ping_read(data) is Ok ==> proto::fits_length_field(
            p.rewritten(proto::ping_read(data)->Ok_0).pong,
        ),
    ensures
        p.rewritten_bytes(p.rewritten_bytes(data)) == p.rewritten_bytes(data),
{
    if proto::ping_read(data) is Ok {
        let read = proto::ping_read(data)->Ok_0;
        law_rewritten_pong_is_readable(p, data);
        lemma_read_packet_is_well_sized(data);
        law_rewrite_twice(read.pong, p.server_id, p.bound_port, p.prefs.remove_ports);
        assert(p.rewritten(p.rewritten(read)) =~= p.rewritten(read));
    }
}

/// A pong that fits the buffer it is received into always fits its length field once it is
/// rewritten. So it can be read, gives the rewritten packet, and rewriting it again changes
/// nothing.
pub proof fn law_received_pong_stays_readable<S>(p: ProxyView<S>, data: Seq<u8>)
    requires
        data.len() <= MAX_MTU,
        proto::ping_read(data) is Ok,
    ensures
        proto::fits_length_field(p.rewritten(proto::ping_read(data)->Ok_0).pong),
        proto::ping_read(p.rewritten_bytes(data)) == Ok::<PingView, Seq<char>>(
            p.rewritten(proto::ping_read(data)->Ok_0),
        ),
        p.rewritten_bytes(p.rewritten_bytes(data)) == p.rewritten_bytes(data),
{
    let payload = data.subrange(35, 35 + proto::be16_value(data[33], data[34]));
    let raw = vstd::utf8::decode_utf8(payload);
    let fields = proto::pong_fields(raw);
    let sent = rewritten_fields(fields, p.server_id, p.bound_port, p.prefs.remove_ports);
    let id = text::decimal(p.server_id as nat);
    let port = text::decimal(p.bound_port as nat);
    let named = fields.update(6, id);
    vstd::utf8::decode_utf8_encode_utf8(payload);
    text::lemma_encode_utf8_len(raw);
    proto::lemma_fields_total(raw);
    text::lemma_decimal_u64_len(p.server_id);
    text::lemma_decimal_u64_len(p.bound_port as u64);
    text::lemma_total_update(fields, 6, id);
    text::lemma_total_update(named, 10, seq![]);
    text::lemma_total_update(named.update(10, seq![]), 11, seq![]);
    text::lemma_total_update(named, 10, port);
    text::lemma_total_update(named.update(10, port), 11, port);
    assert(text::total(sent) <= MAX_MTU + 60);
    proto::lemma_short_total_fits(sent);
    law_rewritten_pong_is_readable(p, data);
    law_rewritten_bytes_twice(p, data);
}

/// The pong of a server that does not answer can be read; it carries the proxy's id and no ports.
pub proof fn law_offline_reply_is_readable<S>(p: ProxyView<S>)
    ensures
        proto::ping_read(p.offline_bytes()) == Ok::<PingView, Seq<char>>(
            p.rewritten(proto::offline_packet()),
        ),
        p.rewritten(proto::offline_packet()).pong == proto::offline_packet().pong.update(
            6,
            text::decimal(p.server_id as nat),
        ),
{
    let offline = proto::offline_packet();
    proto::law_offline_pong_is_readable();
    reveal_strlit("MCPE");
    reveal_strlit("phantom §cServer offline");
    reveal_strlit("390");
    reveal_strlit("1.14.60");
    reveal_strlit("0");
    reveal_strlit("");
    reveal_strlit("Creative");
    reveal_strlit("1");
    text::lemma_decimal_u64_len(p.server_id);
    let sent = p.rewritten(offline).pong;
    assert(offline.pong[10] =~= seq![]);
    assert(offline.pong[11] =~= seq![]);
    assert(sent =~= offline.pong.update(6, text::decimal(p.server_id as nat)));
    proto::law_short_fields_fit(sent);
    law_rewritten_pong_is_readable(p, proto::ping_wire(offline));
}

/// The pong for a NetherNet ping echoes the ping's time, id and magic and can be read, where the
/// server's names do not hold the separator and the advertisement fits the length field.
pub proof fn law_nethernet_pong_is_readable<S>(
    p: ProxyView<S>,
    ping: Seq<u8>,
    data: ServerDataView,
)
    requires
        ping.len() >= 33,
        !data.server_name.contains(';'),
        !data.level_name.contains(';'),
        proto::fits_length_field(p.nethernet_packet(ping, data).pong),
    ensures
        proto::ping_read(proto::ping_wire(p.nethernet_packet(ping, data))) == Ok::<
            PingView,
            Seq<char>,
        >(p.nethernet_packet(ping, data)),
{
    let packet = p.nethernet_packet(ping, data);
    let players = larger(data.player_count, 0);
    reveal_strlit("MCPE");
    reveal_strlit("phantom LAN Server");
    reveal_strlit("649");
    reveal_strlit("1.20.62");
    reveal_strlit("Bedrock level");
    reveal_strlit("Creative");
    reveal_strlit("Adventure");
    reveal_strlit("Survival");
    reveal_strlit("1");
    text::lemma_decimal_free_of(players as nat, ';');
    text::lemma_decimal_free_of(larger(data.max_player_count, players) as nat, ';');
    text::lemma_decimal_free_of(p.server_id as nat, ';');
    text::lemma_decimal_free_of(p.bound_port as nat, ';');
    assert(proto::separator_free(packet.pong));
    proto::law_read_of_built_packet(packet);
}

/// The player counts that are announced from an advertisement are in order.
pub proof fn law_announced_counts_are_in_order(fields: Seq<Seq<char>>)
    ensures
        0 <= pong_server_data(fields).player_count <= pong_server_data(fields).max_player_count,
{
}

/// Server data that went into an advertisement comes out of it: the counts brought in order, the
/// names with their stand-ins, the game type as its name says.
pub proof fn law_advertised_data_comes_back(
    data: ServerDataView,
    server_id: u64,
    bound_port: u16,
    remove_ports: bool,
)
    ensures
        ({
            let back = pong_server_data(
                nethernet_fields(data, server_id, bound_port, remove_ports),
            );
            let players = larger(data.player_count, 0);
            &&& back.player_count == players
            &&& back.max_player_count == larger(data.max_player_count, players)
            &&& back.server_name == nethernet::fallback_text(
                data.server_name,
                "phantom LAN Server"@,
            )
            &&& back.level_name == nethernet::fallback_text(data.level_name, "Bedrock level"@)
            &&& back.game_type == (if data.game_type == 2 || data.game_type == 3 {
                data.game_type
            } else {
                1
            })
        }),
{
    let players = larger(data.player_count, 0);
    text::law_read_of_decimal(players as nat);
    text::law_read_of_decimal(larger(data.max_player_count, players) as nat);
    nethernet::law_game_type_name_maps_back(data.game_type);
    nethernet::law_fallback_is_stable(data.server_name, "phantom LAN Server"@);
    nethernet::law_fallback_is_stable(data.level_name, "Bedrock level"@);
}

/// A started proxy always listens for pings on every address, serves on its own address, and
/// reads in at least one loop.
pub proof fn law_start_always_listens<S>(p: ProxyView<S>)
    ensures
        ({
            let steps = start_steps(p);
            &&& steps.len() >= 3
            &&& steps[0] matches StartStep::BindPing(l)
            &&& l.addr == net::wildcard_addr(false, PING_PORT)
            &&& steps[steps.len() - 2] matches StartStep::BindServer(s)
            &&& s.addr == p.bind_address
            &&& steps.last() matches StartStep::RunWorkers(n)
            &&& n >= 1
        }),
{
}

/// A proxy has one port, which is not zero: it never advertises port zero.
pub proof fn law_proxy_has_a_port<S>(p: ProxyServer<S>)
    requires
        p.wf(),
    ensures
        p@.has_one_port(),
        text::decimal(p@.bound_port as nat) != "0"@,
{
    let n = p@.bound_port as nat;
    reveal_strlit("0");
    text::law_decimal_denotes_its_number(n);
    if text::decimal(n) == "0"@ {
        assert("0"@.drop_last() =~= seq![]);
        assert(text::digits_value("0"@.drop_last()) == 0);
        assert("0"@.last() == '0');
    }
}

/// The outcome of a start. Without the socket for pings it fails and no socket is kept. Without
/// the socket for clients it fails and that one is not kept. A missing socket for IPv6 pings, or
/// one that was not asked for, changes nothing else. The start is over only once the proxy is
/// closed.
pub proof fn law_start_outcome<S>(p: ProxyView<S>, bound: Bound<S>)
    ensures
        ({
            let (after, progress) = run_steps(p, start_steps(p), bound);
            let ping_v6 = if p.prefs.enable_ipv6 && bound.ping_v6 is Some {
                bound.ping_v6
            } else {
                p.ping_server_v6
            };
            let listening = ProxyView { ping_server: bound.ping, ping_server_v6: ping_v6, ..p };
            if bound.ping is None {
                progress == StartProgress::Fail && after == p
            } else if bound.server is None {
                progress == StartProgress::Fail && after == listening
            } else {
                &&& progress == (if p.dead {
                    StartProgress::GoOn
                } else {
                    StartProgress::KeepReading
                })
                &&& after == (ProxyView { server: bound.server, ..listening })
            }
        }),
{
    reveal_with_fuel(run_steps, 6);
    let steps = start_steps(p);
    let s1 = steps.drop_first();
    let s2 = s1.drop_first();
    let s3 = s2.drop_first();
    let s4 = s3.drop_first();
    assert(steps[0] is BindPing);
    if p.prefs.enable_ipv6 {
        assert(s1[0] is BindPingV6);
        if p.prefs.server_protocol == ServerProtocol::Nethernet {
            assert(s2[0] is StartDiscovery && s3[0] is BindServer && s4[0] is RunWorkers);
            assert(s4.drop_first().len() == 0);
        } else {
            assert(s2[0] is BindServer && s3[0] is RunWorkers);
            assert(s4.len() == 0);
        }
    } else if p.prefs.server_protocol == ServerProtocol::Nethernet {
        assert(s1[0] is StartDiscovery && s2[0] is BindServer && s3[0] is RunWorkers);
        assert(s4.len() == 0);
    } else {
        assert(s1[0] is BindServer && s2[0] is RunWorkers);
        assert(s3.len() == 0);
    }
}

/// A server counts as not answering from a failure that tells so until the next packet from it;
/// no failure makes it count as answering, and no packet as not answering.
pub proof fn law_offline_until_heard<S>(
    p: ProxyView<S>,
    client: SocketAddr,
    failure: RecvFailure,
)
    ensures
        failure_tells_offline(failure) ==> p.after_failure(client, failure).server_offline,
        p.server_offline ==> p.after_failure(client, failure).server_offline,
        !p.after_failure(client, failure).heard_from_server().server_offline,
        !p.after_failure(client, failure).client_map.clients.contains_key(client),
{
}

/// Every socket of the proxy shares its address, so that several proxies can run side by side.
pub proof fn law_addresses_are_shared(listener: Listener)
    ensures
        bind_steps(listener).contains(SocketStep::ReuseAddress),
        bind_steps(listener).index_of(SocketStep::ReuseAddress) < bind_steps(listener).index_of(
            SocketStep::Bind(listener.addr),
        ),
{
    let steps = bind_steps(listener);
    let at = if listener.addr.ipv6() { 3int } else { 2int };
    assert(steps[1] == SocketStep::ReuseAddress);
    assert(steps[at] == SocketStep::Bind(listener.addr));
    assert(steps.contains(SocketStep::ReuseAddress) && steps.contains(
        SocketStep::Bind(listener.addr),
    ));
    let i = steps.index_of(SocketStep::ReuseAddress);
    let j = steps.index_of(SocketStep::Bind(listener.addr));
    assert(steps[i] == SocketStep::ReuseAddress);
    assert(steps[j] == SocketStep::Bind(listener.addr));
}

/// Closing a proxy twice is closing it once, and a closed proxy sends nothing.
pub proof fn law_close_proxy_twice<S>(p: ProxyView<S>)
    ensures
        p.closed().closed() == p.closed(),
        p.closed().dead,
        p.closed().server is None,
{
}

/// The larger of two numbers is one of them and below neither.
pub proof fn law_larger(a: i32, b: i32)
    ensures
        larger(a, b) >= a,
        larger(a, b) >= b,
        larger(a, b) == a || larger(a, b) == b,
{
}

/// A ping is known by its first byte, which is 1 or 2.
pub proof fn law_pings_by_their_first_byte(data: Seq<u8>)
    ensures
        is_ping(data) <==> data.len() > 0 && (data[0] == 1 || data[0] == 2),
{
}

/// Time, id and magic of a pong go on untouched, whatever the proxy's wishes are, and what is sent
/// is a pong.
pub proof fn law_sent_pong_keeps_its_header<S>(p: ProxyView<S>, data: Seq<u8>)
    requires
        proto::ping_read(data) is Ok,
    ensures
        p.rewritten_bytes(data).len() >= 35,
        p.rewritten_bytes(data)[0] == 0x1c,
        p.rewritten_bytes(data).subrange(1, 33) == data.subrange(1, 33),
{
    let sent = p.rewritten_bytes(data);
    assert(sent.subrange(1, 33) =~= data.subrange(1, 33));
}

/// What a console reads of a pong that the proxy has passed on: the server's own pong, but with
/// the proxy's id, and with the proxy's port for both ports where the server gave one, or none
/// where ports are to be removed. The proxy remembers just what was sent, and nothing else of it
/// changes.
pub proof fn law_console_reads_the_servers_pong<S>(p: ProxyView<S>, data: Seq<u8>)
    requires
        data.len() <= 1472,
        proto::ping_read(data) is Ok,
    ensures
        ({
            let given = proto::ping_read(data)->Ok_0;
            let sent = proto::ping_read(p.rewritten_bytes(data));
            let got = sent->Ok_0;
            let after = p.after_rewrite(data);
            &&& sent is Ok
            &&& got.ping_time == given.ping_time
            &&& got.id == given.id
            &&& got.magic == given.magic
            &&& got.pong.len() == 12
            &&& forall|i: int|
                0 <= i < 12 && i != 6 && i != 10 && i != 11 ==> #[trigger] got.pong[i]
                    == given.pong[i]
            &&& text::integer_text(got.pong[6], false) == Some(p.server_id as int)
            &&& p.prefs.remove_ports ==> got.pong[10].len() == 0 && got.pong[11].len() == 0
            &&& !p.prefs.remove_ports && given.pong[10].len() > 0 ==> text::integer_text(
                got.pong[10],
                false,
            ) == Some(p.bound_port as int) && got.pong[11] == got.pong[10]
            &&& !p.prefs.remove_ports && given.pong[10].len() == 0 ==> got.pong[10].len() == 0
                && got.pong[11] == given.pong[11]
            &&& after.latest_pong == Some(got.pong)
            &&& (ProxyView { latest_pong: p.latest_pong, ..after }) == p
        }),
{
    let given = proto::ping_read(data)->Ok_0;
    law_received_pong_stays_readable(p, data);
    lemma_read_packet_is_well_sized(data);
    text::law_read_of_decimal(p.server_id as nat);
    text::law_read_of_decimal(p.bound_port as nat);
    let got = p.rewritten(given);
    assert forall|i: int| 0 <= i < 12 && i != 6 && i != 10 && i != 11 implies #[trigger] got.pong[i]
        == given.pong[i] by {
        law_rewrite_keeps_other_fields(
            given.pong,
            p.server_id,
            p.bound_port,
            p.prefs.remove_ports,
            i,
        );
    }
    law_rewritten_ports(given.pong, p.server_id, p.bound_port, p.prefs.remove_ports);
}

/// Bytes that cannot be read as a pong go on as they are, and leave the proxy as it is.
pub proof fn law_unreadable_pong_passes<S>(p: ProxyView<S>, data: Seq<u8>)
    requires
        proto::ping_read(data) is Err,
    ensures
        p.rewritten_bytes(data) == data,
        p.after_rewrite(data) == p,
{
}

/// A ping to a NetherNet server is answered from the data that was fetched for it, whatever was
/// fetched before; where nothing was fetched, from what was fetched last. What was fetched last is
/// remembered. Without any data there is no answer.
pub proof fn law_fresh_server_data_counts<S>(
    p: ProxyView<S>,
    q: ProxyView<S>,
    ping: Seq<u8>,
    later: Seq<u8>,
    data: ServerDataView,
)
    requires
        ping.len() >= 33,
        ping[0] == 1 || ping[0] == 2,
        later.len() >= 33,
        later[0] == 1 || later[0] == 2,
        q.server_id == p.server_id,
        q.bound_port == p.bound_port,
        q.prefs.remove_ports == p.prefs.remove_ports,
    ensures
        p.nethernet_bytes(ping, Some(data)) is Some,
        p.nethernet_bytes(ping, Some(data)) == q.nethernet_bytes(ping, Some(data)),
        p.after_nethernet(ping, Some(data)).latest_nethernet_data == Some(data),
        p.after_nethernet(ping, Some(data)).nethernet_bytes(later, None) == q.nethernet_bytes(
            later,
            Some(data),
        ),
        p.nethernet_bytes(ping, None) is Some <==> p.latest_nethernet_data is Some,
        p.after_nethernet(ping, None).latest_nethernet_data == p.latest_nethernet_data,
        p.latest_nethernet_data is None ==> p.after_nethernet(ping, None) == p,
{
}

/// Nothing but a ping of at least 33 bytes is answered from a NetherNet server's data, and nothing
/// else changes the proxy.
pub proof fn law_only_whole_pings_are_answered<S>(
    p: ProxyView<S>,
    data: Seq<u8>,
    fetched: Option<ServerDataView>,
)
    requires
        data.len() < 33 || (data[0] != 1 && data[0] != 2),
    ensures
        p.nethernet_bytes(data, fetched) is None,
        p.after_nethernet(data, fetched) == p,
{
}

/// The pong for a NetherNet ping gives back the ping's time, id and magic, each at a pong's place.
pub proof fn law_nethernet_pong_echoes_the_ping<S>(
    p: ProxyView<S>,
    ping: Seq<u8>,
    fetched: Option<ServerDataView>,
)
    requires
        p.nethernet_bytes(ping, fetched) is Some,
    ensures
        ({
            let pong = p.nethernet_bytes(ping, fetched)->0;
            &&& pong.len() >= 35
            &&& pong[0] == 0x1c
            &&& pong.subrange(1, 9) == ping.subrange(1, 9)
            &&& pong.subrange(9, 17) == ping.subrange(25, 33)
            &&& pong.subrange(17, 33) == ping.subrange(9, 25)
        }),
{
    let pong = p.nethernet_bytes(ping, fetched)->0;
    assert(pong.subrange(1, 9) =~= ping.subrange(1, 9));
    assert(pong.subrange(9, 17) =~= ping.subrange(25, 33));
    assert(pong.subrange(17, 33) =~= ping.subrange(9, 25));
}

proof fn lemma_nethernet_fields_are_short(
    data: ServerDataView,
    server_id: u64,
    bound_port: u16,
    remove_ports: bool,
)
    requires
        data.server_name.len() <= 1300,
        data.level_name.len() <= 1300,
    ensures
        proto::fits_length_field(nethernet_fields(data, server_id, bound_port, remove_ports)),
{
    let players = larger(data.player_count, 0);
    let most = larger(data.max_player_count, players);
    reveal_strlit("MCPE");
    reveal_strlit("phantom LAN Server");
    reveal_strlit("649");
    reveal_strlit("1.20.62");
    reveal_strlit("Bedrock level");
    reveal_strlit("Creative");
    reveal_strlit("Adventure");
    reveal_strlit("Survival");
    reveal_strlit("1");
    text::lemma_decimal_u64_len(players as u64);
    text::lemma_decimal_u64_len(most as u64);
    text::lemma_decimal_u64_len(server_id);
    text::lemma_decimal_u64_len(bound_port as u64);
    proto::law_short_fields_fit(nethernet_fields(data, server_id, bound_port, remove_ports));
}

/// What a console reads of the pong for a NetherNet ping: the fetched names, with stand-ins for
/// blank ones; the fetched number of players, and of places, which is never below it; the name of
/// the fetched game type; the proxy's id and, unless ports are to be removed, its port. The proxy
/// remembers what it sent and what was fetched, and nothing else of it changes.
pub proof fn law_console_reads_the_fetched_data<S>(
    p: ProxyView<S>,
    ping: Seq<u8>,
    data: ServerDataView,
)
    requires
        ping.len() >= 33,
        ping[0] == 1 || ping[0] == 2,
        !data.server_name.contains(';'),
        !data.level_name.contains(';'),
        data.server_name.len() <= 1300,
        data.level_name.len() <= 1300,
    ensures
        ({
            let read = proto::ping_read(p.nethernet_bytes(ping, Some(data))->0);
            let got = read->Ok_0.pong;
            let after = p.after_nethernet(ping, Some(data));
            &&& read is Ok
            &&& got.len() == 12
            &&& got[0] == "MCPE"@
            &&& got[1] == (if text::is_blank(data.server_name) {
                "phantom LAN Server"@
            } else {
                data.server_name
            })
            &&& got[2] == "649"@
            &&& got[3] == "1.20.62"@
            &&& text::i32_text(got[4]) == Some(
                if data.player_count < 0 {
                    0i32
                } else {
                    data.player_count
                },
            )
            &&& text::i32_text(got[5]) is Some
            &&& text::i32_text(got[5])->0 >= data.max_player_count
            &&& text::i32_text(got[5])->0 >= text::i32_text(got[4])->0
            &&& text::i32_text(got[5])->0 == data.max_player_count || text::i32_text(got[5])
                == text::i32_text(got[4])
            &&& text::integer_text(got[6], false) == Some(p.server_id as int)
            &&& got[7] == (if text::is_blank(data.level_name) {
                "Bedrock level"@
            } else {
                data.level_name
            })
            &&& data.game_type == 2 ==> got[8] == "Creative"@
            &&& data.game_type == 3 ==> got[8] == "Adventure"@
            &&& data.game_type != 2 && data.game_type != 3 ==> got[8] == "Survival"@
            &&& got[9] == "1"@
            &&& p.prefs.remove_ports ==> got[10].len() == 0 && got[11].len() == 0
            &&& !p.prefs.remove_ports ==> text::integer_text(got[10], false) == Some(
                p.bound_port as int,
            ) && got[11] == got[10]
            &&& after.latest_pong == Some(got)
            &&& (ProxyView {
                latest_pong: p.latest_pong,
                latest_nethernet_data: p.latest_nethernet_data,
                ..after
            }) == p
        }),
{
    let players = larger(data.player_count, 0);
    lemma_nethernet_fields_are_short(data, p.server_id, p.bound_port, p.prefs.remove_ports);
    law_nethernet_pong_is_readable(p, ping, data);
    text::law_read_of_decimal(players as nat);
    text::law_read_of_decimal(larger(data.max_player_count, players) as nat);
    text::law_read_of_decimal(p.server_id as nat);
    text::law_read_of_decimal(p.bound_port as nat);
}

/// What is announced: what was fetched last, and before anything was fetched, what the last pong
/// tells.
pub proof fn law_announced_data_is_the_latest<S>(p: ProxyView<S>)
    ensures
        p.latest_nethernet_data is Some ==> Some(p.cached_server_data()) == p.latest_nethernet_data,
        p.latest_nethernet_data is None && p.latest_pong is Some ==> p.cached_server_data()
            == pong_server_data(p.latest_pong->0),
        p.latest_nethernet_data is None && p.latest_pong is None ==> p.cached_server_data()
            == unknown_server_data(),
{
}

/// What a pong tells: its names, with stand-ins for blank ones; its number of players, none where
/// that is no number or below zero; its number of places, which is at least 20 where it is no
/// number and never below the players; its game type.
pub proof fn law_announced_data_of_a_pong(fields: Seq<Seq<char>>)
    ensures
        ({
            let data = pong_server_data(fields);
            let listed = text::i32_text(fields[4]);
            let limit = text::i32_text(fields[5]);
            &&& data.server_name == (if text::is_blank(fields[1]) {
                "phantom LAN Server"@
            } else {
                fields[1]
            })
            &&& data.level_name == (if text::is_blank(fields[7]) {
                "Bedrock level"@
            } else {
                fields[7]
            })
            &&& data.game_type == nethernet::game_type_number(fields[8])
            &&& listed is None ==> data.player_count == 0
            &&& listed is Some && listed->0 < 0 ==> data.player_count == 0
            &&& listed is Some && listed->0 >= 0 ==> data.player_count == listed->0
            &&& data.max_player_count >= data.player_count
            &&& limit is Some ==> data.max_player_count >= limit->0 && (data.max_player_count
                == limit->0 || data.max_player_count == data.player_count)
            &&& limit is None ==> data.max_player_count >= 20 && (data.max_player_count == 20
                || data.max_player_count == data.player_count)
            &&& !data.editor_world
            &&& !data.hardcore
            &&& data.transport_layer == TransportLayer::RakNet
            &&& data.connection_type == 4
        }),
{
}

/// A proxy is made as the user asks: every wish but a missing port is kept; the addresses are the
/// first that were found; no socket, no client and no data is there yet, and the proxy is neither
/// closed nor counts the server as not answering.
pub proof fn law_proxy_as_made<S, E>(
    prefs: PrefsView,
    bind_found: Result<Vec<SocketAddr>, E>,
    remote_found: Result<Vec<SocketAddr>, E>,
    drawn: u16,
    server_id: u64,
    client: SocketAddr,
)
    ensures
        ({
            let made = ProxyView::<S>::constructed(
                prefs,
                bind_found,
                remote_found,
                drawn,
                server_id,
            );
            let p = made->Ok_0;
            &&& made is Ok <==> bind_found is Ok && bind_found->Ok_0@.len() > 0 && remote_found is Ok
                && remote_found->Ok_0@.len() > 0
            &&& made is Ok ==> {
                &&& p.bound_port == (if prefs.bind_port == 0 {
                    drawn
                } else {
                    prefs.bind_port
                })
                &&& p.bind_address.port_number() == p.bound_port
                &&& p.bind_address.renumbered(bind_found->Ok_0@[0].port_number())
                    == bind_found->Ok_0@[0]
                &&& p.remote_server_address == remote_found->Ok_0@[0]
                &&& p.server_id == server_id
                &&& p.prefs.bind_address == prefs.bind_address
                &&& p.prefs.bind_port == p.bound_port
                &&& p.prefs.remote_server == prefs.remote_server
                &&& p.prefs.server_protocol == prefs.server_protocol
                &&& p.prefs.idle_timeout == prefs.idle_timeout
                &&& p.prefs.enable_ipv6 == prefs.enable_ipv6
                &&& p.prefs.remove_ports == prefs.remove_ports
                &&& p.prefs.num_workers == prefs.num_workers
                &&& p.ping_server is None && p.ping_server_v6 is None && p.server is None
                &&& p.latest_pong is None && p.latest_nethernet_data is None
                &&& !p.dead && !p.server_offline && !p.client_map.dead
                &&& !p.client_map.clients.contains_key(client)
                &&& p.client_map.idle_check_interval == 5_000_000_000
            }
        }),
{
}

/// A proxy drops a client in a clean-up exactly where the client has been silent for the timeout
/// that the user asked for, whichever that is.
pub proof fn law_users_timeout_counts<S, E>(
    prefs: PrefsView,
    bind_found: Result<Vec<SocketAddr>, E>,
    remote_found: Result<Vec<SocketAddr>, E>,
    drawn: u16,
    server_id: u64,
    client: SocketAddr,
    conn: S,
    first: u128,
    last: u128,
    now: u128,
)
    requires
        ProxyView::<S>::constructed(
            prefs,
            bind_found,
            remote_found,
            drawn,
            server_id,
        ) is Ok,
    ensures
        ({
            let p = ProxyView::<S>::constructed(
                prefs,
                bind_found,
                remote_found,
                drawn,
                server_id,
            )->Ok_0;
            let connected = p.client_map.connected(client, conn, first);
            &&& connected.swept(now).clients.contains_key(client) <==> now < first
                + prefs.idle_timeout
            &&& connected.touched(client, last).swept(now).clients.contains_key(client) <==> now
                < last + prefs.idle_timeout
            &&& connected.idle_at(client, now) <==> first + prefs.idle_timeout <= now
        }),
{
}

/// Closing takes away the sockets and, the first time, the clients; the wishes, the addresses, the
/// id and what was learnt stay.
pub proof fn law_closing_keeps_the_rest<S>(p: ProxyView<S>, client: SocketAddr)
    ensures
        ({
            let end = p.closed();
            &&& end.dead && end.client_map.dead
            &&& end.server is None && end.ping_server is None && end.ping_server_v6 is None
            &&& !p.client_map.dead ==> !end.client_map.clients.contains_key(client)
            &&& end.prefs == p.prefs
            &&& end.bound_port == p.bound_port
            &&& end.bind_address == p.bind_address
            &&& end.remote_server_address == p.remote_server_address
            &&& end.server_id == p.server_id
            &&& end.latest_pong == p.latest_pong
            &&& end.latest_nethernet_data == p.latest_nethernet_data
            &&& end.server_offline == p.server_offline
        }),
{
}

/// A proxy listens for pings on every address on port 19132; over IPv6 on port 19133 exactly where
/// that is asked for; it announces itself exactly where the server speaks NetherNet; it serves on
/// its own address, in as many loops as are asked for and in one at least. Each socket gives up
/// reading now and then, and an IPv6 socket takes IPv6 alone. The ping socket comes first, serving
/// comes last.
pub proof fn law_what_a_start_consists_of<S>(p: ProxyView<S>)
    ensures
        ({
            let steps = start_steps(p);
            let n = steps.len();
            &&& n == 3 + (if p.prefs.enable_ipv6 { 1int } else { 0 }) + (
            if p.prefs.server_protocol == ServerProtocol::Nethernet { 1int } else { 0 })
            &&& steps[0] == StartStep::BindPing(
                Listener {
                    addr: SocketAddr::V4 { ip: 0, port: 19132 },
                    with_timeout: true,
                    v6_only: false,
                },
            )
            &&& p.prefs.enable_ipv6 ==> steps[1] == StartStep::BindPingV6(
                Listener {
                    addr: SocketAddr::V6 { ip: 0, port: 19133, flowinfo: 0, scope_id: 0 },
                    with_timeout: true,
                    v6_only: true,
                },
            )
            &&& p.prefs.server_protocol == ServerProtocol::Nethernet ==> steps[n - 3]
                == StartStep::StartDiscovery
            &&& steps[n - 2] == StartStep::BindServer(
                Listener {
                    addr: p.bind_address,
                    with_timeout: true,
                    v6_only: p.bind_address.ipv6(),
                },
            )
            &&& steps[n - 1] matches StartStep::RunWorkers(workers) && workers >= 1 && (
            p.prefs.num_workers >= 1 ==> workers == p.prefs.num_workers) && (p.prefs.num_workers
                == 0 ==> workers == 1)
        }),
{
}

/// A socket is made for its address's family and bound to that address; it is told whether to take
/// IPv6 alone exactly where it is an IPv6 socket, and gives up reading after a second exactly
/// where that is asked for.
pub proof fn law_how_a_socket_is_bound(listener: Listener)
    ensures
        ({
            let steps = bind_steps(listener);
            let at = if listener.addr.ipv6() { 3int } else { 2int };
            &&& steps.len() == at + 1 + (if listener.with_timeout { 1int } else { 0 })
            &&& steps[0] == (SocketStep::Create { ipv6: listener.addr.ipv6() })
            &&& steps[1] == SocketStep::ReuseAddress
            &&& listener.addr.ipv6() ==> steps[2] == SocketStep::OnlyV6(listener.v6_only)
            &&& steps[at] == SocketStep::Bind(listener.addr)
            &&& listener.with_timeout ==> steps[at + 1] == SocketStep::ReadTimeout(1)
        }),
{
}

/// The port that was asked for is kept, and a drawn one takes the place of none; every other wish
/// is kept.
pub proof fn law_asked_port_is_kept(prefs: PrefsView, drawn: u16)
    ensures
        prefs.bind_port != 0 ==> prefs.with_port(drawn) == prefs,
        prefs.bind_port == 0 ==> prefs.with_port(drawn).bind_port == drawn,
        (PrefsView { bind_port: prefs.bind_port, ..prefs.with_port(drawn) }) == prefs,
{
}

/// A message tells that the server does not answer wherever `timeout` or `connection refused`
/// stands in it, and nowhere else. Waiting in vain tells it too.
pub proof fn law_what_tells_offline(a: Seq<char>, b: Seq<char>, message: Seq<char>)
    ensures
        tells_offline(a + "timeout"@ + b),
        tells_offline(a + "connection refused"@ + b),
        tells_offline(message) ==> text::contains_text(message, "timeout"@) || text::contains_text(
            message,
            "connection refused"@,
        ),
        failure_tells_offline(RecvFailure::WouldBlock),
        failure_tells_offline(RecvFailure::TimedOut),
{
    text::law_contained_text_stands_in_a_row(a, "timeout"@, b, message);
    text::law_contained_text_stands_in_a_row(a, "connection refused"@, b, message);
}

/// A failure costs the client its connection and may make the server count as not answering; a
/// packet makes it count as answering. Neither changes anything else, other clients included.
pub proof fn law_failures_and_packets_change_no_more<S>(
    p: ProxyView<S>,
    client: SocketAddr,
    other: SocketAddr,
    failure: RecvFailure,
)
    requires
        client != other,
    ensures
        ({
            let failed = p.after_failure(client, failure);
            let heard = p.heard_from_server();
            &&& !failure_tells_offline(failure) ==> failed.server_offline == p.server_offline
            &&& !failed.client_map.clients.contains_key(client)
            &&& failed.client_map.clients.contains_key(other) == p.client_map.clients.contains_key(
                other,
            )
            &&& p.client_map.clients.contains_key(other) ==> failed.client_map.clients[other]
                == p.client_map.clients[other]
            &&& failed.client_map.dead == p.client_map.dead
            &&& failed.client_map.idle_timeout == p.client_map.idle_timeout
            &&& failed.client_map.idle_check_interval == p.client_map.idle_check_interval
            &&& (ProxyView {
                server_offline: p.server_offline,
                client_map: p.client_map,
                ..failed
            }) == p
            &&& (ProxyView { client_map: p.client_map, ..p.without_client(client) }) == p
            &&& !heard.server_offline
            &&& (ProxyView { server_offline: p.server_offline, ..heard }) == p
        }),
{
}

/// While a server does not answer, a console reads the proxy's id, no ports, no players and a
/// message that says so.
pub proof fn law_console_reads_that_the_server_is_offline<S>(p: ProxyView<S>)
    ensures
        ({
            let read = proto::ping_read(p.offline_bytes());
            let got = read->Ok_0;
            &&& read is Ok
            &&& got.magic == proto::OFFLINE_MAGIC@
            &&& got.pong[0] == "MCPE"@
            &&& got.pong[1] == "phantom §cServer offline"@
            &&& got.pong[4] == "0"@ && got.pong[5] == "0"@
            &&& text::integer_text(got.pong[6], false) == Some(p.server_id as int)
            &&& got.pong[10].len() == 0 && got.pong[11].len() == 0
            &&& p.after_offline().latest_pong == Some(got.pong)
            &&& (ProxyView { latest_pong: p.latest_pong, ..p.after_offline() }) == p
        }),
{
    law_offline_reply_is_readable(p);
    proto::law_offline_pong_is_readable();
    text::law_read_of_decimal(p.server_id as nat);
    reveal_strlit("");
}

/// The fields of the pong for a NetherNet ping, for any server data.
pub proof fn law_fields_of_a_nethernet_pong(
    data: ServerDataView,
    server_id: u64,
    bound_port: u16,
    remove_ports: bool,
)
    ensures
        ({
            let got = nethernet_fields(data, server_id, bound_port, remove_ports);
            &&& got.len() == 12
            &&& got[0] == "MCPE"@ && got[2] == "649"@ && got[3] == "1.20.62"@ && got[9] == "1"@
            &&& got[1] == (if text::is_blank(data.server_name) {
                "phantom LAN Server"@
            } else {
                data.server_name
            })
            &&& text::i32_text(got[4]) == Some(
                if data.player_count < 0 {
                    0i32
                } else {
                    data.player_count
                },
            )
            &&& text::i32_text(got[5]) is Some
            &&& text::i32_text(got[5])->0 >= data.max_player_count
            &&& text::i32_text(got[5])->0 >= text::i32_text(got[4])->0
            &&& text::i32_text(got[5])->0 == data.max_player_count || text::i32_text(got[5])
                == text::i32_text(got[4])
            &&& text::integer_text(got[6], false) == Some(server_id as int)
            &&& got[7] == (if text::is_blank(data.level_name) {
                "Bedrock level"@
            } else {
                data.level_name
            })
            &&& data.game_type == 2 ==> got[8] == "Creative"@
            &&& data.game_type == 3 ==> got[8] == "Adventure"@
            &&& data.game_type != 2 && data.game_type != 3 ==> got[8] == "Survival"@
            &&& remove_ports ==> got[10].len() == 0 && got[11].len() == 0
            &&& !remove_ports ==> text::integer_text(got[10], false) == Some(bound_port as int)
                && got[11] == got[10]
        }),
{
    let players = larger(data.player_count, 0);
    text::law_read_of_decimal(players as nat);
    text::law_read_of_decimal(larger(data.max_player_count, players) as nat);
    text::law_read_of_decimal(server_id as nat);
    text::law_read_of_decimal(bound_port as nat);
}

/// The text of a pong for a NetherNet ping is that of its fields, and the proxy remembers those,
/// for any server data.
pub proof fn law_text_of_a_nethernet_pong<S>(
    p: ProxyView<S>,
    ping: Seq<u8>,
    data: ServerDataView,
)
    requires
        ping.len() >= 33,
        ping[0] == 1 || ping[0] == 2,
    ensures
        ({
            let fields = nethernet_fields(data, p.server_id, p.bound_port, p.prefs.remove_ports);
            &&& p.nethernet_bytes(ping, Some(data)) is Some
            &&& p.nethernet_bytes(ping, Some(data))->0.skip(35) == vstd::utf8::encode_utf8(
                proto::pong_text(fields),
            )
            &&& p.after_nethernet(ping, Some(data)).latest_pong == Some(fields)
        }),
{
    proto::law_bytes_of_a_packet(p.nethernet_packet(ping, data));
}

/// The text of a rewritten pong is that of its rewritten fields, and the proxy remembers those, of
/// any length.
pub proof fn law_text_of_a_rewritten_pong<S>(p: ProxyView<S>, data: Seq<u8>)
    requires
        proto::ping_read(data) is Ok,
    ensures
        ({
            let fields = rewritten_fields(
                proto::ping_read(data)->Ok_0.pong,
                p.server_id,
                p.bound_port,
                p.prefs.remove_ports,
            );
            &&& p.rewritten_bytes(data).skip(35) == vstd::utf8::encode_utf8(
                proto::pong_text(fields),
            )
            &&& p.after_rewrite(data).latest_pong == Some(fields)
        }),
{
    lemma_read_packet_is_well_sized(data);
    proto::law_bytes_of_a_packet(p.rewritten(proto::ping_read(data)->Ok_0));
}

} // verus!
