//! The player's side of the relay: one tunnel to the relay server per client port.

use std::collections::HashMap;

use vstd::prelude::*;

use crate::net;
use crate::net::{wildcard, SocketAddr};
use crate::relay;
use crate::relay::{relay_ws_url, RelayPlayerConfig};

verus! {

broadcast use vstd::std_specs::hash::group_hash_axioms;

/// How many endpoints of one client are kept.
pub const MAX_ENDPOINTS: usize = 8;

// ---- endpoints ----

/// The endpoints after a packet from `addr`: a new one comes last, and the oldest makes room.
pub open spec fn noted(endpoints: Seq<SocketAddr>, addr: SocketAddr) -> Seq<SocketAddr> {
    if endpoints.contains(addr) {
        endpoints
    } else if endpoints.len() >= MAX_ENDPOINTS {
        endpoints.drop_first().push(addr)
    } else {
        endpoints.push(addr)
    }
}

/// The endpoints fit: there is at least one, there are not too many, and none stands twice.
pub open spec fn well_kept(endpoints: Seq<SocketAddr>) -> bool {
    &&& 1 <= endpoints.len() <= MAX_ENDPOINTS
    &&& endpoints.no_duplicates()
}

/// All endpoints have the port.
pub open spec fn all_on_port(endpoints: Seq<SocketAddr>, port: u16) -> bool {
    forall|i: int| 0 <= i < endpoints.len() ==> (#[trigger] endpoints[i]).port_number() == port
}

/// The addresses from which one client was heard, oldest first.
#[derive(Debug)]
pub struct Endpoints {
    addrs: Vec<SocketAddr>,
}

impl View for Endpoints {
    type V = Seq<SocketAddr>;

    closed spec fn view(&self) -> Seq<SocketAddr> {
        self.addrs@
    }
}

/// Bytes for a client, to be sent to each of the addresses.
#[derive(Debug)]
pub struct Delivery {
    pub targets: Vec<SocketAddr>,
    pub bytes: Vec<u8>,
}

impl Endpoints {
    /// The endpoints of a client that was heard once.
    pub fn new(addr: SocketAddr) -> (r: Self)
        ensures
            r@ == seq![addr],
            well_kept(r@),
    {
        let mut addrs: Vec<SocketAddr> = Vec::new();
        addrs.push(addr);
        let r = Endpoints { addrs };
        assert(r@ =~= seq![addr]);
        r
    }

    /// Notes that the client was heard from `addr`. Gives whether that is new.
    pub fn note(&mut self, addr: SocketAddr) -> (added: bool)
        requires
            well_kept(old(self)@),
        ensures
            final(self)@ == noted(old(self)@, addr),
            well_kept(final(self)@),
            added == !old(self)@.contains(addr),
    {
        for i in 0..self.addrs.len()
            invariant
                self.addrs@ == old(self)@,
                well_kept(old(self)@),
                forall|j: int| 0 <= j < i ==> self.addrs@[j] != addr,
        {
            if self.addrs[i] == addr {
                assert(old(self)@[i as int] == addr);
                return false;
            }
        }
        proof {
            law_endpoints_are_well_kept(old(self)@, addr);
        }
        if self.addrs.len() >= MAX_ENDPOINTS {
            self.addrs.remove(0);
            assert(self.addrs@ =~= old(self)@.drop_first());
        }
        self.addrs.push(addr);
        true
    }

    /// The endpoints, oldest first.
    pub fn targets(&self) -> (r: Vec<SocketAddr>)
        ensures
            r@ == self@,
    {
        vstd::slice::slice_to_vec(self.addrs.as_slice())
    }

    /// What the relay server has sent goes to every endpoint as it is.
    pub fn deliver(&self, bin: &[u8]) -> (r: Delivery)
        ensures
            r.targets@ == self@,
            r.bytes@ == bin@,
    {
        Delivery { targets: self.targets(), bytes: vstd::slice::slice_to_vec(bin) }
    }
}

// ---- tunnels ----

/// A tunnel to the relay server, with the endpoints of its client. `T` is the caller's handle.
pub struct Tunnel<T> {
    pub handle: T,
    pub endpoints: Endpoints,
}

/// A tunnel as mathematical values.
#[verifier::ext_equal]
pub struct TunnelView<T> {
    pub handle: T,
    pub endpoints: Seq<SocketAddr>,
}

impl<T> View for Tunnel<T> {
    type V = TunnelView<T>;

    open spec fn view(&self) -> TunnelView<T> {
        TunnelView { handle: self.handle, endpoints: self.endpoints@ }
    }
}

/// What is due for a client's packet.
#[derive(Debug)]
pub enum PlayerStep {
    /// Open a tunnel at the address and hand the outcome to `tunnel_opened`.
    OpenTunnel { url: String, payload: Vec<u8> },
    /// Send the packet into the tunnel of the port.
    Send { port: u16, payload: Vec<u8> },
    /// Give up: the player ends with an error.
    EndRun,
}

/// A step as mathematical values.
pub enum PlayerStepView {
    OpenTunnel { url: Seq<char>, payload: Seq<u8> },
    Send { port: u16, payload: Seq<u8> },
    EndRun,
}

impl View for PlayerStep {
    type V = PlayerStepView;

    open spec fn view(&self) -> PlayerStepView {
        match *self {
            PlayerStep::OpenTunnel { url, payload } => PlayerStepView::OpenTunnel {
                url: url@,
                payload: payload@,
            },
            PlayerStep::Send { port, payload } => PlayerStepView::Send { port, payload: payload@ },
            PlayerStep::EndRun => PlayerStepView::EndRun,
        }
    }
}

/// A player as mathematical values: its settings, and the tunnels by client port.
#[verifier::ext_equal]
pub struct PlayerView<T> {
    pub relay_url: Seq<char>,
    pub room: Seq<char>,
    pub bind_port: u16,
    pub tunnels: Map<u16, TunnelView<T>>,
}

impl<T> PlayerView<T> {
    /// A player without clients.
    pub open spec fn fresh(config: RelayPlayerConfig) -> Self {
        PlayerView {
            relay_url: config.relay_url@,
            room: config.room@,
            bind_port: config.bind_port,
            tunnels: Map::empty(),
        }
    }

    /// The endpoints of every tunnel fit and have the tunnel's port.
    pub open spec fn well_formed(self) -> bool {
        forall|port: u16| #[trigger]
            self.tunnels.dom().contains(port) ==> {
                &&& well_kept(self.tunnels[port].endpoints)
                &&& all_on_port(self.tunnels[port].endpoints, port)
            }
    }

    /// The player after a packet from `addr`: where its port has a tunnel, the address is noted.
    pub open spec fn after_packet(self, addr: SocketAddr) -> Self {
        let port = addr.port_number();
        if self.tunnels.dom().contains(port) {
            let tunnel = self.tunnels[port];
            PlayerView {
                tunnels: self.tunnels.insert(
                    port,
                    TunnelView { endpoints: noted(tunnel.endpoints, addr), ..tunnel },
                ),
                ..self
            }
        } else {
            self
        }
    }

    /// What is due for a packet from `addr`. Clients are told apart by their port alone.
    pub open spec fn packet_step(self, addr: SocketAddr, payload: Seq<u8>) -> PlayerStepView {
        let port = addr.port_number();
        if self.tunnels.dom().contains(port) {
            PlayerStepView::Send { port, payload }
        } else {
            PlayerStepView::OpenTunnel {
                url: relay::ws_url(self.relay_url, "player"@, self.room),
                payload,
            }
        }
    }

    /// The player with the tunnel that was opened for a packet from `addr`.
    pub open spec fn with_tunnel(self, addr: SocketAddr, handle: T) -> Self {
        PlayerView {
            tunnels: self.tunnels.insert(
                addr.port_number(),
                TunnelView { handle, endpoints: seq![addr] },
            ),
            ..self
        }
    }

    /// The player without the tunnel of a port.
    pub open spec fn without_tunnel(self, port: u16) -> Self {
        PlayerView { tunnels: self.tunnels.remove(port), ..self }
    }

    /// The player after a packet from `addr`, where `handle` is the tunnel that is opened if there
    /// is none.
    pub open spec fn after_received(self, addr: SocketAddr, handle: T) -> Self {
        if self.tunnels.dom().contains(addr.port_number()) {
            self.after_packet(addr)
        } else {
            self.with_tunnel(addr, handle)
        }
    }

    /// The player after packets from the addresses, where every tunnel can be opened and
    /// `handles` gives the tunnel that is opened for the packet at an index if there is none.
    pub open spec fn after_run(self, addrs: Seq<SocketAddr>, handles: Seq<T>) -> Self
        decreases addrs.len(),
    {
        if addrs.len() == 0 {
            self
        } else {
            self.after_run(addrs.drop_last(), handles).after_received(
                addrs.last(),
                handles[addrs.len() - 1],
            )
        }
    }
}

/// A relay player. `T` is the caller's tunnel handle.
#[verifier::reject_recursive_types(T)]
pub struct RelayPlayer<T> {
    config: RelayPlayerConfig,
    tunnels: HashMap<u16, Tunnel<T>>,
}

spec fn tunnel_views<T>(tunnels: Map<u16, Tunnel<T>>) -> Map<u16, TunnelView<T>> {
    Map::new(|port: u16| tunnels.dom().contains(port), |port: u16| tunnels[port]@)
}

impl<T> View for RelayPlayer<T> {
    type V = PlayerView<T>;

    closed spec fn view(&self) -> PlayerView<T> {
        PlayerView {
            relay_url: self.config.relay_url@,
            room: self.config.room@,
            bind_port: self.config.bind_port,
            tunnels: tunnel_views(self.tunnels@),
        }
    }
}

impl<T> RelayPlayer<T> {
    /// A player without clients.
    pub fn new(config: RelayPlayerConfig) -> (r: Self)
        ensures
            r@ == PlayerView::<T>::fresh(config),
            r@.well_formed(),
    {
        let r = RelayPlayer { config, tunnels: HashMap::new() };
        assert(r@.tunnels =~= Map::empty());
        r
    }

    /// Where the player listens for clients.
    pub fn bind_address(&self) -> (r: SocketAddr)
        ensures
            r == net::wildcard_addr(false, self@.bind_port),
    {
        wildcard(false, self.config.bind_port)
    }

    /// Takes a packet from `addr`.
    pub fn on_packet(&mut self, addr: SocketAddr, payload: Vec<u8>) -> (step: PlayerStep)
        requires
            old(self)@.well_formed(),
        ensures
            final(self)@.well_formed(),
            final(self)@ == old(self)@.after_packet(addr),
            step@ == old(self)@.packet_step(addr, payload@),
    {
        let port = addr.port();
        let ghost before = self.tunnels@;
        proof {
            lemma_packet_keeps_form(self@, addr);
        }
        match self.tunnels.remove(&port) {
            Some(tunnel) => {
                let mut tunnel = tunnel;
                assert(tunnel == before[port]);
                assert(old(self)@.tunnels.dom().contains(port));
                tunnel.endpoints.note(addr);
                let ghost noted_tunnel = tunnel@;
                self.tunnels.insert(port, tunnel);
                assert(self@.tunnels =~= old(self)@.tunnels.insert(port, noted_tunnel));
                assert(self@ =~= old(self)@.after_packet(addr));
                PlayerStep::Send { port, payload }
            },
            None => {
                assert(self@.tunnels =~= old(self)@.tunnels);
                assert(!old(self)@.tunnels.dom().contains(port));
                PlayerStep::OpenTunnel {
                    url: relay_ws_url(
                        self.config.relay_url.as_str(),
                        "player",
                        self.config.room.as_str(),
                    ),
                    payload,
                }
            },
        }
    }

    /// Takes the outcome of opening a tunnel for a packet from `addr`: the packet goes into it; a
    /// player that cannot open a tunnel ends.
    pub fn tunnel_opened(&mut self, addr: SocketAddr, payload: Vec<u8>, handle: Option<T>) -> (step:
        PlayerStep)
        requires
            old(self)@.well_formed(),
        ensures
            final(self)@.well_formed(),
            match handle {
                Some(t) => {
                    &&& final(self)@ == old(self)@.with_tunnel(addr, t)
                    &&& step@ == (PlayerStepView::Send {
                        port: addr.port_number(),
                        payload: payload@,
                    })
                },
                None => final(self)@ == old(self)@ && step@ == PlayerStepView::EndRun,
            },
    {
        match handle {
            Some(t) => {
                let port = addr.port();
                let tunnel = Tunnel { handle: t, endpoints: Endpoints::new(addr) };
                let ghost opened = tunnel@;
                self.tunnels.insert(port, tunnel);
                assert(self@.tunnels =~= old(self)@.tunnels.insert(port, opened));
                assert(self@ =~= old(self)@.with_tunnel(addr, t));
                PlayerStep::Send { port, payload }
            },
            None => PlayerStep::EndRun,
        }
    }

    /// The tunnel of a client port.
    pub fn tunnel(&self, port: u16) -> (r: Option<&T>)
        ensures
            match r {
                Some(t) => self@.tunnels.dom().contains(port) && *t == self@.tunnels[port].handle,
                None => !self@.tunnels.dom().contains(port),
            },
    {
        match self.tunnels.get(&port) {
            Some(tunnel) => Some(&tunnel.handle),
            None => None,
        }
    }

    /// What the relay server has sent through the tunnel of a port goes to every endpoint of its
    /// client as it is.
    pub fn deliver(&self, port: u16, bin: &[u8]) -> (r: Option<Delivery>)
        ensures
            match r {
                Some(d) => {
                    &&& self@.tunnels.dom().contains(port)
                    &&& d.targets@ == self@.tunnels[port].endpoints
                    &&& d.bytes@ == bin@
                },
                None => !self@.tunnels.dom().contains(port),
            },
    {
        match self.tunnels.get(&port) {
            Some(tunnel) => Some(tunnel.endpoints.deliver(bin)),
            None => None,
        }
    }

    /// Forgets the tunnel of a client port, which takes no more packets, and gives it back.
    pub fn tunnel_lost(&mut self, port: u16) -> (r: Option<Tunnel<T>>)
        requires
            old(self)@.well_formed(),
        ensures
            final(self)@.well_formed(),
            final(self)@ == old(self)@.without_tunnel(port),
            match r {
                Some(tunnel) => old(self)@.tunnels.dom().contains(port) && tunnel@
                    == old(self)@.tunnels[port],
                None => !old(self)@.tunnels.dom().contains(port),
            },
    {
        let r = self.tunnels.remove(&port);
        assert(self@.tunnels =~= old(self)@.tunnels.remove(port));
        r
    }
}

// ---- laws ----

/// However many packets come, a client keeps at least one and at most `MAX_ENDPOINTS` endpoints,
/// none of them twice; the last one heard is among them, and noting it again changes nothing.
pub proof fn law_endpoints_are_well_kept(endpoints: Seq<SocketAddr>, addr: SocketAddr)
    requires
        well_kept(endpoints),
    ensures
        well_kept(noted(endpoints, addr)),
        noted(endpoints, addr).contains(addr),
        noted(noted(endpoints, addr), addr) == noted(endpoints, addr),
{
    let after = noted(endpoints, addr);
    if !endpoints.contains(addr) {
        assert(after.last() == addr);
        assert forall|i: int| 0 <= i < after.len() - 1 implies after[i] != addr by {
            if endpoints.len() >= MAX_ENDPOINTS {
                assert(after[i] == endpoints[i + 1]);
            } else {
                assert(after[i] == endpoints[i]);
            }
        }
        assert(after.no_duplicates());
    }
}

/// Endpoints of one port stay on it when an address of that port is noted.
pub proof fn law_endpoints_stay_on_their_port(
    endpoints: Seq<SocketAddr>,
    addr: SocketAddr,
    port: u16,
)
    requires
        all_on_port(endpoints, port),
        addr.port_number() == port,
    ensures
        all_on_port(noted(endpoints, addr), port),
{
    let after = noted(endpoints, addr);
    assert forall|i: int| 0 <= i < after.len() implies (#[trigger] after[i]).port_number()
        == port by {
        if !endpoints.contains(addr) && i < after.len() - 1 {
            if endpoints.len() >= MAX_ENDPOINTS {
                assert(after[i] == endpoints[i + 1]);
            } else {
                assert(after[i] == endpoints[i]);
            }
        }
    }
}

/// Noting an endpoint drops none but the oldest, and that one only where there is no room.
pub proof fn law_only_the_oldest_endpoint_goes(
    endpoints: Seq<SocketAddr>,
    addr: SocketAddr,
    other: SocketAddr,
)
    requires
        well_kept(endpoints),
        endpoints.contains(other),
        !noted(endpoints, addr).contains(other),
    ensures
        endpoints.len() == MAX_ENDPOINTS,
        other == endpoints[0],
        !endpoints.contains(addr),
{
    let after = noted(endpoints, addr);
    let k = choose|k: int| 0 <= k < endpoints.len() && endpoints[k] == other;
    if !endpoints.contains(addr) {
        if endpoints.len() >= MAX_ENDPOINTS {
            if k > 0 {
                assert(after[k - 1] == other);
            }
        } else {
            assert(after[k] == other);
        }
    }
}

proof fn lemma_packet_keeps_form<T>(p: PlayerView<T>, addr: SocketAddr)
    requires
        p.well_formed(),
    ensures
        p.after_packet(addr).well_formed(),
{
    let own = addr.port_number();
    if p.tunnels.dom().contains(own) {
        law_endpoints_are_well_kept(p.tunnels[own].endpoints, addr);
        law_endpoints_stay_on_their_port(p.tunnels[own].endpoints, addr, own);
        assert forall|port: u16| #[trigger]
            p.after_packet(addr).tunnels.dom().contains(port) implies well_kept(
            p.after_packet(addr).tunnels[port].endpoints,
        ) && all_on_port(p.after_packet(addr).tunnels[port].endpoints, port) by {
            assert(p.tunnels.dom().contains(port));
        }
    }
}

proof fn lemma_tunnel_keeps_form<T>(p: PlayerView<T>, addr: SocketAddr, handle: T)
    requires
        p.well_formed(),
    ensures
        p.with_tunnel(addr, handle).well_formed(),
{
    let after = p.with_tunnel(addr, handle);
    assert forall|port: u16| #[trigger] after.tunnels.dom().contains(port) implies well_kept(
        after.tunnels[port].endpoints,
    ) && all_on_port(after.tunnels[port].endpoints, port) by {
        if port != addr.port_number() {
            assert(p.tunnels.dom().contains(port));
        }
    }
}

/// A packet is sent unchanged into the tunnel of its port, whether that tunnel is there or is
/// opened for it, and its sender is then among the tunnel's endpoints. The tunnels of other ports
/// stay as they are.
pub proof fn law_packet_goes_into_its_ports_tunnel<T>(
    p: PlayerView<T>,
    addr: SocketAddr,
    payload: Seq<u8>,
    handle: T,
    other: u16,
)
    requires
        p.well_formed(),
        other != addr.port_number(),
    ensures
        ({
            let port = addr.port_number();
            let after = p.after_received(addr, handle);
            &&& p.tunnels.dom().contains(port) ==> p.packet_step(addr, payload) == (
            PlayerStepView::Send { port, payload }) && after.tunnels[port].handle
                == p.tunnels[port].handle
            &&& !p.tunnels.dom().contains(port) ==> (p.packet_step(
                addr,
                payload,
            ) matches PlayerStepView::OpenTunnel { payload: kept, .. } && kept == payload)
                && after.tunnels[port].handle == handle
            &&& after.tunnels.dom().contains(port)
            &&& after.tunnels[port].endpoints.contains(addr)
            &&& after.packet_step(addr, payload) == (PlayerStepView::Send { port, payload })
            &&& p.tunnels.dom().contains(other) == after.tunnels.dom().contains(other)
            &&& p.tunnels.dom().contains(other) ==> after.tunnels[other] == p.tunnels[other]
        }),
{
    let port = addr.port_number();
    if p.tunnels.dom().contains(port) {
        law_endpoints_are_well_kept(p.tunnels[port].endpoints, addr);
    } else {
        assert(seq![addr][0] == addr);
    }
}

/// The packet at `i` is the first of its port.
pub open spec fn first_of_port(addrs: Seq<SocketAddr>, i: int, port: u16) -> bool {
    &&& 0 <= i < addrs.len()
    &&& addrs[i].port_number() == port
    &&& forall|j: int| 0 <= j < i ==> (#[trigger] addrs[j]).port_number() != port
}

/// Whatever packets come, where every tunnel can be opened: there is one tunnel for each port that
/// a packet came from and no other; it is the one that was opened for the first packet of its
/// port; its endpoints are from one to `MAX_ENDPOINTS` distinct addresses of that port, each of
/// which a packet came from.
pub proof fn law_run_of_a_player<T>(
    config: RelayPlayerConfig,
    addrs: Seq<SocketAddr>,
    handles: Seq<T>,
)
    requires
        handles.len() == addrs.len(),
    ensures
        ({
            let end = PlayerView::<T>::fresh(config).after_run(addrs, handles);
            &&& end.well_formed()
            &&& forall|i: int|
                0 <= i < addrs.len() ==> end.tunnels.dom().contains(
                    (#[trigger] addrs[i]).port_number(),
                )
            &&& forall|port: u16| #[trigger]
                end.tunnels.dom().contains(port) ==> exists|i: int|
                    first_of_port(addrs, i, port) && end.tunnels[port].handle == handles[i]
            &&& forall|port: u16, k: int|
                end.tunnels.dom().contains(port) && 0 <= k < end.tunnels[port].endpoints.len()
                    ==> addrs.contains(#[trigger] end.tunnels[port].endpoints[k])
        }),
    decreases addrs.len(),
{
    let start = PlayerView::<T>::fresh(config);
    let end = start.after_run(addrs, handles);
    if addrs.len() > 0 {
        let earlier = addrs.drop_last();
        let before = start.after_run(earlier, handles);
        let addr = addrs.last();
        let own = addr.port_number();
        let handle = handles[addrs.len() - 1];
        law_run_of_a_player(config, earlier, handles.drop_last());
        lemma_run_of_same_handles(start, earlier, handles, handles.drop_last());
        lemma_packet_keeps_form(before, addr);
        lemma_tunnel_keeps_form(before, addr, handle);
        assert forall|i: int| 0 <= i < addrs.len() implies end.tunnels.dom().contains(
            (#[trigger] addrs[i]).port_number(),
        ) by {
            if i < earlier.len() {
                assert(earlier[i] == addrs[i]);
            }
        }
        assert forall|port: u16| #[trigger] end.tunnels.dom().contains(port) implies exists|i: int|
            first_of_port(addrs, i, port) && end.tunnels[port].handle == handles[i] by {
            if before.tunnels.dom().contains(port) {
                let i = choose|i: int|
                    first_of_port(earlier, i, port) && before.tunnels[port].handle
                        == handles.drop_last()[i];
                assert(earlier[i] == addrs[i]);
                assert forall|j: int| 0 <= j < i implies (#[trigger] addrs[j]).port_number()
                    != port by {
                    assert(earlier[j] == addrs[j]);
                }
                assert(first_of_port(addrs, i, port));
            } else {
                let i = addrs.len() - 1;
                assert forall|j: int| 0 <= j < i implies (#[trigger] addrs[j]).port_number()
                    != port by {
                    assert(earlier[j] == addrs[j]);
                    assert(before.tunnels.dom().contains(earlier[j].port_number()));
                }
                assert(first_of_port(addrs, i, port));
            }
        }
        assert forall|port: u16, k: int|
            end.tunnels.dom().contains(port) && 0 <= k
                < end.tunnels[port].endpoints.len() implies addrs.contains(
            #[trigger] end.tunnels[port].endpoints[k],
        ) by {
            lemma_endpoint_was_heard(before, addrs, handle, port, k);
        }
    }
}

proof fn lemma_run_of_same_handles<T>(
    start: PlayerView<T>,
    addrs: Seq<SocketAddr>,
    a: Seq<T>,
    b: Seq<T>,
)
    requires
        addrs.len() <= a.len(),
        addrs.len() <= b.len(),
        forall|i: int| 0 <= i < addrs.len() ==> a[i] == b[i],
    ensures
        start.after_run(addrs, a) == start.after_run(addrs, b),
    decreases addrs.len(),
{
    if addrs.len() > 0 {
        lemma_run_of_same_handles(start, addrs.drop_last(), a, b);
    }
}

proof fn lemma_endpoint_was_heard<T>(
    before: PlayerView<T>,
    addrs: Seq<SocketAddr>,
    handle: T,
    port: u16,
    k: int,
)
    requires
        addrs.len() > 0,
        forall|q: u16, j: int|
            before.tunnels.dom().contains(q) && 0 <= j < before.tunnels[q].endpoints.len()
                ==> addrs.drop_last().contains(#[trigger] before.tunnels[q].endpoints[j]),
        before.after_received(addrs.last(), handle).tunnels.dom().contains(port),
        0 <= k < before.after_received(addrs.last(), handle).tunnels[port].endpoints.len(),
    ensures
        addrs.contains(before.after_received(addrs.last(), handle).tunnels[port].endpoints[k]),
{
    let addr = addrs.last();
    let after = before.after_received(addr, handle);
    let e = after.tunnels[port].endpoints[k];
    assert(addrs[addrs.len() - 1] == addr);
    if e != addr {
        assert(before.tunnels.dom().contains(port));
        let old_endpoints = before.tunnels[port].endpoints;
        let j = if port == addr.port_number() && !old_endpoints.contains(addr)
            && old_endpoints.len() >= MAX_ENDPOINTS {
            k + 1
        } else {
            k
        };
        assert(e == old_endpoints[j]);
        let earlier = addrs.drop_last();
        assert(earlier.contains(before.tunnels[port].endpoints[j]));
        let i = choose|i: int| 0 <= i < earlier.len() && earlier[i] == e;
        assert(addrs[i] == e);
    }
}

/// Endpoints keep their order: a new one comes last, the eight latest are kept, and one that is
/// known moves nothing.
pub proof fn law_endpoints_keep_their_order(endpoints: Seq<SocketAddr>, addr: SocketAddr)
    ensures
        endpoints.contains(addr) ==> noted(endpoints, addr) == endpoints,
        !endpoints.contains(addr) && endpoints.len() < 8 ==> noted(endpoints, addr)
            == endpoints.push(addr),
        !endpoints.contains(addr) && endpoints.len() == 8 ==> noted(endpoints, addr)
            == endpoints.push(addr).skip(1),
{
    if !endpoints.contains(addr) && endpoints.len() == 8 {
        assert(noted(endpoints, addr) =~= endpoints.push(addr).skip(1));
    }
}

/// A player that was just made has the settings it was given and no tunnel; nothing that happens
/// to its tunnels changes the settings, and a tunnel that is lost is gone while the others stay.
pub proof fn law_player_keeps_its_settings<T>(
    config: RelayPlayerConfig,
    p: PlayerView<T>,
    addr: SocketAddr,
    handle: T,
    port: u16,
    other: u16,
)
    requires
        port != other,
    ensures
        PlayerView::<T>::fresh(config).relay_url == config.relay_url@,
        PlayerView::<T>::fresh(config).room == config.room@,
        PlayerView::<T>::fresh(config).bind_port == config.bind_port,
        !PlayerView::<T>::fresh(config).tunnels.dom().contains(port),
        (PlayerView { tunnels: p.tunnels, ..p.after_packet(addr) }) == p,
        (PlayerView { tunnels: p.tunnels, ..p.with_tunnel(addr, handle) }) == p,
        (PlayerView { tunnels: p.tunnels, ..p.without_tunnel(port) }) == p,
        !p.without_tunnel(port).tunnels.dom().contains(port),
        p.without_tunnel(port).tunnels.dom().contains(other) == p.tunnels.dom().contains(other),
        p.tunnels.dom().contains(other) ==> p.without_tunnel(port).tunnels[other]
            == p.tunnels[other],
        p.with_tunnel(addr, handle).tunnels[addr.port_number()].handle == handle,
        p.with_tunnel(addr, handle).tunnels[addr.port_number()].endpoints == seq![addr],
{
}

/// A tunnel is opened in the player's room, as a player, at the player's relay server.
pub proof fn law_tunnel_is_opened_as_a_player<T>(
    p: PlayerView<T>,
    addr: SocketAddr,
    payload: Seq<u8>,
)
    requires
        !p.tunnels.dom().contains(addr.port_number()),
    ensures
        p.packet_step(addr, payload) == (PlayerStepView::OpenTunnel {
            url: relay::ws_url(p.relay_url, "player"@, p.room),
            payload,
        }),
        p.after_packet(addr) == p,
{
}

} // verus!
