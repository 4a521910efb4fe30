//! The proxy's clients: one connection to the remote server for each, dropped when idle.
//!
//! Instants and durations are nanoseconds, counted from one origin that the caller chooses.

use vstd::prelude::*;

use crate::net;
use crate::net::{wildcard, SocketAddr};

verus! {

/// What is kept for one client.
pub struct Client<C> {
    pub conn: C,
    pub last_active: u128,
}

struct ClientEntry<C> {
    addr: SocketAddr,
    client: Client<C>,
}

/// The clients by address. `C` is the handle of a connection to the remote server.
pub struct ClientMap<C> {
    idle_timeout: u128,
    idle_check_interval: u128,
    clients: Vec<ClientEntry<C>>,
    dead: bool,
}

/// A client map as mathematical values.
#[verifier::ext_equal]
pub struct ClientMapView<C> {
    pub idle_timeout: u128,
    pub idle_check_interval: u128,
    pub clients: Map<SocketAddr, Client<C>>,
    pub dead: bool,
}

/// How to get the connection of a client.
#[derive(Clone, Copy, Debug, PartialEq, Eq, Structural)]
pub enum ConnectionStep {
    /// The map holds it.
    Reuse,
    /// A socket has to be bound to `bind` and connected to `remote`.
    Open { bind: SocketAddr, remote: SocketAddr },
}

/// What the periodic clean-up does when it wakes.
pub enum CleanupStep {
    /// The map was closed: the clean-up ends.
    Stop,
    /// These clients were idle and are gone.
    Swept(Vec<SocketAddr>),
}

spec fn listed<C>(entries: Seq<ClientEntry<C>>, addr: SocketAddr) -> bool {
    exists|i: int| 0 <= i < entries.len() && (#[trigger] entries[i]).addr == addr
}

spec fn position<C>(entries: Seq<ClientEntry<C>>, addr: SocketAddr) -> int {
    choose|i: int| 0 <= i < entries.len() && (#[trigger] entries[i]).addr == addr
}

spec fn entry_map<C>(entries: Seq<ClientEntry<C>>) -> Map<SocketAddr, Client<C>> {
    Map::new(
        |addr: SocketAddr| listed(entries, addr),
        |addr: SocketAddr| entries[position(entries, addr)].client,
    )
}

spec fn distinct<C>(entries: Seq<ClientEntry<C>>) -> bool {
    forall|i: int, j: int|
        0 <= i < j < entries.len() ==> (#[trigger] entries[i]).addr != (#[trigger] entries[j]).addr
}

/// The client has not been active for the length of the timeout.
pub open spec fn is_idle<C>(client: Client<C>, idle_timeout: u128, now: u128) -> bool {
    client.last_active + idle_timeout <= now
}

impl<C> ClientMapView<C> {
    /// The map at its making.
    pub open spec fn fresh(idle_timeout: u128, idle_check_interval: u128) -> Self {
        ClientMapView { idle_timeout, idle_check_interval, clients: Map::empty(), dead: false }
    }

    /// The client was active at `now`.
    pub open spec fn touched(self, addr: SocketAddr, now: u128) -> Self {
        ClientMapView {
            clients: self.clients.insert(
                addr,
                Client { conn: self.clients[addr].conn, last_active: now },
            ),
            ..self
        }
    }

    /// The client got a connection at `now`.
    pub open spec fn connected(self, addr: SocketAddr, conn: C, now: u128) -> Self {
        ClientMapView {
            clients: self.clients.insert(addr, Client { conn, last_active: now }),
            ..self
        }
    }

    /// The client is gone.
    pub open spec fn deleted(self, addr: SocketAddr) -> Self {
        ClientMapView { clients: self.clients.remove(addr), ..self }
    }

    /// The clients that are idle at `now`.
    pub open spec fn idle_at(self, addr: SocketAddr, now: u128) -> bool {
        self.clients.contains_key(addr) && is_idle(self.clients[addr], self.idle_timeout, now)
    }

    /// The clients that are not idle at `now` are left.
    pub open spec fn swept(self, now: u128) -> Self {
        ClientMapView {
            clients: Map::new(
                |addr: SocketAddr| self.clients.contains_key(addr) && !self.idle_at(addr, now),
                |addr: SocketAddr| self.clients[addr],
            ),
            ..self
        }
    }

    /// The first closing drops every client; a later one changes nothing.
    pub open spec fn closed(self) -> Self {
        if self.dead {
            self
        } else {
            ClientMapView { clients: Map::empty(), dead: true, ..self }
        }
    }
}

impl<C> View for ClientMap<C> {
    type V = ClientMapView<C>;

    closed spec fn view(&self) -> ClientMapView<C> {
        ClientMapView {
            idle_timeout: self.idle_timeout,
            idle_check_interval: self.idle_check_interval,
            clients: entry_map(self.clients@),
            dead: self.dead,
        }
    }
}

impl<C> ClientMap<C> {
    /// No client is listed twice.
    pub closed spec fn wf(&self) -> bool {
        distinct(self.clients@)
    }

    /// A map without clients.
    pub fn new(idle_timeout: u128, idle_check_interval: u128) -> (r: Self)
        ensures
            r.wf(),
            r@ == ClientMapView::<C>::fresh(idle_timeout, idle_check_interval),
    {
        let r = ClientMap {
            idle_timeout,
            idle_check_interval,
            clients: Vec::new(),
            dead: false,
        };
        assert(r@.clients =~= Map::empty());
        r
    }

    fn find(&self, addr: SocketAddr) -> (r: Option<usize>)
        ensures
            match r {
                Some(i) => i < self.clients@.len() && self.clients@[i as int].addr == addr,
                None => !listed(self.clients@, addr),
            },
    {
        for i in 0..self.clients.len()
            invariant
                forall|j: int| 0 <= j < i ==> (#[trigger] self.clients@[j]).addr != addr,
        {
            if self.clients[i].addr == addr {
                return Some(i);
            }
        }
        None
    }

    /// Drops every client and marks the map as closed; does nothing on a closed map.
    pub fn close(&mut self)
        requires
            old(self).wf(),
        ensures
            final(self).wf(),
            final(self)@ == old(self)@.closed(),
    {
        if self.dead {
            return;
        }
        self.dead = true;
        self.clients.clear();
        assert(self@.clients =~= Map::empty());
    }

    /// Drops a client.
    pub fn delete(&mut self, client_addr: SocketAddr)
        requires
            old(self).wf(),
        ensures
            final(self).wf(),
            final(self)@ == old(self)@.deleted(client_addr),
    {
        match self.find(client_addr) {
            Some(i) => {
                let ghost before = self.clients@;
                self.clients.remove(i);
                proof {
                    lemma_removed(before, i as int);
                }
            },
            None => {
                assert(self@.clients =~= old(self)@.clients.remove(client_addr));
            },
        }
    }

    /// The connection of a client.
    pub fn connection(&self, client_addr: SocketAddr) -> (r: Option<&C>)
        requires
            self.wf(),
        ensures
            match r {
                Some(conn) => self@.clients.contains_key(client_addr)
                    && *conn == self@.clients[client_addr].conn,
                None => !self@.clients.contains_key(client_addr),
            },
    {
        match self.find(client_addr) {
            Some(i) => {
                proof {
                    lemma_at(self.clients@, i as int);
                }
                Some(&self.clients[i].client.conn)
            },
            None => None,
        }
    }

    /// Finds how to get the connection of a client. A client that has one counts as active.
    pub fn get_or_create(
        &mut self,
        client_addr: SocketAddr,
        remote: SocketAddr,
        now: u128,
    ) -> (step: ConnectionStep)
        requires
            old(self).wf(),
        ensures
            final(self).wf(),
            old(self)@.clients.contains_key(client_addr) ==> step == ConnectionStep::Reuse
                && final(self)@ == old(self)@.touched(client_addr, now),
            !old(self)@.clients.contains_key(client_addr) ==> step == (ConnectionStep::Open {
                bind: net::wildcard_addr(remote.ipv6(), 0),
                remote,
            }) && final(self)@ == old(self)@,
    {
        match self.find(client_addr) {
            Some(i) => {
                let ghost before = self.clients@;
                self.clients[i].client.last_active = now;
                proof {
                    lemma_at(before, i as int);
                    lemma_updated(before, i as int, self.clients@[i as int]);
                    assert(self.clients@ =~= before.update(i as int, self.clients@[i as int]));
                }
                ConnectionStep::Reuse
            },
            None => ConnectionStep::Open { bind: wildcard(remote.is_ipv6(), 0), remote },
        }
    }

    /// Lists a client with its new connection.
    pub fn insert(&mut self, client_addr: SocketAddr, conn: C, now: u128)
        requires
            old(self).wf(),
        ensures
            final(self).wf(),
            final(self)@ == old(self)@.connected(client_addr, conn, now),
    {
        let entry = ClientEntry { addr: client_addr, client: Client { conn, last_active: now } };
        let ghost before = self.clients@;
        match self.find(client_addr) {
            Some(i) => {
                proof {
                    lemma_updated(before, i as int, entry);
                }
                self.clients.set(i, entry);
            },
            None => {
                proof {
                    lemma_pushed(before, entry);
                }
                self.clients.push(entry);
            },
        }
    }

    /// Whether the map was closed.
    pub fn is_closed(&self) -> (r: bool)
        ensures
            r == self@.dead,
    {
        self.dead
    }

    /// The time between two clean-ups.
    pub fn idle_check_interval(&self) -> (r: u128)
        ensures
            r == self@.idle_check_interval,
    {
        self.idle_check_interval
    }

    /// One round of the periodic clean-up, after its sleep.
    pub fn idle_cleanup(&mut self, now: u128) -> (step: CleanupStep)
        requires
            old(self).wf(),
        ensures
            final(self).wf(),
            match step {
                CleanupStep::Stop => old(self)@.dead && final(self)@ == old(self)@,
                CleanupStep::Swept(gone) => {
                    &&& !old(self)@.dead
                    &&& final(self)@ == old(self)@.swept(now)
                    &&& gone@.no_duplicates()
                    &&& forall|addr: SocketAddr| #[trigger]
                        gone@.contains(addr) <==> old(self)@.idle_at(addr, now)
                },
            },
    {
        if self.dead {
            return CleanupStep::Stop;
        }
        let timeout: u128 = self.idle_timeout;
        let mut gone: Vec<SocketAddr> = Vec::new();
        let ghost all = self.clients@;
        let ghost start = self@;
        let mut i: usize = 0;
        while i < self.clients.len()
            invariant
                i <= self.clients.len(),
                distinct(all),
                distinct(self.clients@),
                timeout == self.idle_timeout,
                self.idle_timeout == start.idle_timeout,
                self.idle_check_interval == start.idle_check_interval,
                self.dead == start.dead,
                start.clients == entry_map(all),
                forall|a: SocketAddr|
                    #![trigger start.clients.contains_key(a)]
                    #![trigger entry_map(self.clients@).contains_key(a)]
                    #![trigger gone@.contains(a)]
                    {
                        &&& gone@.contains(a) ==> start.idle_at(a, now) && !entry_map(
                            self.clients@,
                        ).contains_key(a)
                        &&& entry_map(self.clients@).contains_key(a) ==> start.clients.contains_key(
                            a,
                        ) && entry_map(self.clients@)[a] == start.clients[a]
                        &&& start.clients.contains_key(a) ==> gone@.contains(a) || entry_map(
                            self.clients@,
                        ).contains_key(a)
                    },
                gone@.no_duplicates(),
                forall|j: int|
                    0 <= j < i ==> !is_idle((#[trigger] self.clients@[j]).client, timeout, now),
            decreases self.clients.len() - i,
        {
            let ghost before = self.clients@;
            let last_active: u128 = self.clients[i].client.last_active;
            proof {
                lemma_at(before, i as int);
            }
            if now >= last_active && now - last_active >= timeout {
                let addr = self.clients[i].addr;
                self.clients.remove(i);
                let ghost gone_before = gone@;
                gone.push(addr);
                proof {
                    lemma_removed(before, i as int);
                    assert(entry_map(before).contains_key(addr));
                    assert(!gone_before.contains(addr));
                    assert forall|a: SocketAddr| #[trigger] gone@.contains(a) <==> (
                    gone_before.contains(a) || a == addr) by {
                        if gone_before.contains(a) {
                            let k = gone_before.index_of(a);
                            assert(gone@[k] == a);
                        }
                        if a == addr {
                            assert(gone@[gone_before.len() as int] == a);
                        }
                    }
                }
            } else {
                i += 1;
            }
        }
        proof {
            let end = entry_map(self.clients@);
            assert forall|a: SocketAddr| #[trigger]
                end.contains_key(a) implies !start.idle_at(a, now) by {
                let k = position(self.clients@, a);
                lemma_at(self.clients@, k);
            }
            assert(end =~= start.swept(now).clients);
        }
        CleanupStep::Swept(gone)
    }
}

proof fn lemma_at<C>(entries: Seq<ClientEntry<C>>, i: int)
    requires
        distinct(entries),
        0 <= i < entries.len(),
    ensures
        entry_map(entries).contains_key(entries[i].addr),
        entry_map(entries)[entries[i].addr] == entries[i].client,
        position(entries, entries[i].addr) == i,
{
    let addr = entries[i].addr;
    assert(listed(entries, addr));
    let p = position(entries, addr);
    assert(entries[p].addr == addr);
    if p < i {
        assert(entries[p].addr != entries[i].addr);
    } else if i < p {
        assert(entries[i].addr != entries[p].addr);
    }
}

proof fn lemma_removed<C>(entries: Seq<ClientEntry<C>>, i: int)
    requires
        distinct(entries),
        0 <= i < entries.len(),
    ensures
        distinct(entries.remove(i)),
        entry_map(entries.remove(i)) == entry_map(entries).remove(entries[i].addr),
{
    let rest = entries.remove(i);
    let gone = entries[i].addr;
    assert forall|j: int, k: int| 0 <= j < k < rest.len() implies (#[trigger] rest[j]).addr != (
    #[trigger] rest[k]).addr by {
        let j0 = if j < i { j } else { j + 1 };
        let k0 = if k < i { k } else { k + 1 };
        assert(entries[j0].addr != entries[k0].addr);
    }
    let target = entry_map(entries).remove(gone);
    assert forall|a: SocketAddr| #[trigger]
        entry_map(rest).contains_key(a) == target.contains_key(a) by {
        if listed(rest, a) {
            let j = position(rest, a);
            let j0 = if j < i { j } else { j + 1 };
            assert(entries[j0].addr == a);
            if j0 < i {
                assert(entries[j0].addr != entries[i].addr);
            } else {
                assert(entries[i].addr != entries[j0].addr);
            }
        }
        if target.contains_key(a) {
            let j0 = position(entries, a);
            assert(entries[j0].addr == a);
            let j = if j0 < i { j0 } else { j0 - 1 };
            assert(rest[j].addr == a);
        }
    }
    assert forall|a: SocketAddr| #[trigger] entry_map(rest).contains_key(a) implies entry_map(
        rest,
    )[a] == target[a] by {
        let j = position(rest, a);
        let j0 = if j < i { j } else { j + 1 };
        lemma_at(entries, j0);
        assert(target.contains_key(a));
    }
    assert(entry_map(rest) =~= target);
}

proof fn lemma_updated<C>(entries: Seq<ClientEntry<C>>, i: int, entry: ClientEntry<C>)
    requires
        distinct(entries),
        0 <= i < entries.len(),
        entries[i].addr == entry.addr,
    ensures
        distinct(entries.update(i, entry)),
        entry_map(entries.update(i, entry)) == entry_map(entries).insert(entry.addr, entry.client),
{
    let next = entries.update(i, entry);
    let target = entry_map(entries).insert(entry.addr, entry.client);
    assert forall|j: int, k: int| 0 <= j < k < next.len() implies (#[trigger] next[j]).addr != (
    #[trigger] next[k]).addr by {
        assert(entries[j].addr != entries[k].addr);
    }
    lemma_at(entries, i);
    assert forall|a: SocketAddr| #[trigger]
        entry_map(next).contains_key(a) == target.contains_key(a) by {
        if listed(next, a) {
            let j = position(next, a);
            assert(entries[j].addr == a);
        }
        if listed(entries, a) {
            let j = position(entries, a);
            assert(next[j].addr == a);
        }
    }
    assert forall|a: SocketAddr| #[trigger] entry_map(next).contains_key(a) implies entry_map(
        next,
    )[a] == target[a] by {
        let j = position(next, a);
        lemma_at(next, j);
        lemma_at(entries, j);
    }
    assert(entry_map(next) =~= target);
}

proof fn lemma_pushed<C>(entries: Seq<ClientEntry<C>>, entry: ClientEntry<C>)
    requires
        distinct(entries),
        !listed(entries, entry.addr),
    ensures
        distinct(entries.push(entry)),
        entry_map(entries.push(entry)) == entry_map(entries).insert(entry.addr, entry.client),
{
    let next = entries.push(entry);
    let target = entry_map(entries).insert(entry.addr, entry.client);
    assert(next[entries.len() as int] == entry);
    assert forall|a: SocketAddr| #[trigger]
        entry_map(next).contains_key(a) == target.contains_key(a) by {
        if listed(next, a) {
            let j = position(next, a);
            if j < entries.len() {
                assert(entries[j].addr == a);
            }
        }
        if listed(entries, a) {
            let j = position(entries, a);
            assert(next[j].addr == a);
        }
    }
    assert forall|a: SocketAddr| #[trigger] entry_map(next).contains_key(a) implies entry_map(
        next,
    )[a] == target[a] by {
        let j = position(next, a);
        lemma_at(next, j);
        if j < entries.len() {
            lemma_at(entries, j);
        }
    }
    assert(entry_map(next) =~= target);
}

// ---- laws ----

/// Closing a map twice is closing it once.
pub proof fn law_close_twice<C>(m: ClientMapView<C>)
    ensures
        m.closed().closed() == m.closed(),
        m.closed().dead,
{
}

/// Closing an open map leaves no client.
pub proof fn law_close_drops_every_client<C>(m: ClientMapView<C>, addr: SocketAddr)
    requires
        !m.dead,
    ensures
        !m.closed().clients.contains_key(addr),
{
}

/// A client that was active less than the idle timeout ago survives a clean-up and keeps its
/// connection.
pub proof fn law_active_client_survives<C>(
    m: ClientMapView<C>,
    addr: SocketAddr,
    active: u128,
    now: u128,
)
    requires
        m.clients.contains_key(addr),
        now < active + m.idle_timeout,
    ensures
        m.touched(addr, active).swept(now).clients.contains_key(addr),
        m.touched(addr, active).swept(now).clients[addr].conn == m.clients[addr].conn,
{
}

/// A client that has been silent for the idle timeout does not survive a clean-up.
pub proof fn law_silent_client_is_dropped<C>(
    m: ClientMapView<C>,
    addr: SocketAddr,
    active: u128,
    now: u128,
)
    requires
        m.clients.contains_key(addr),
        active + m.idle_timeout <= now,
    ensures
        !m.touched(addr, active).swept(now).clients.contains_key(addr),
{
}

/// A later clean-up makes an earlier one superfluous.
pub proof fn law_later_sweep_covers_earlier<C>(m: ClientMapView<C>, earlier: u128, later: u128)
    requires
        earlier <= later,
    ensures
        m.swept(earlier).swept(later) == m.swept(later),
{
    assert(m.swept(earlier).swept(later).clients =~= m.swept(later).clients);
}

/// Listing a client and dropping it again leaves the map as dropping it alone does.
pub proof fn law_delete_undoes_insert<C>(m: ClientMapView<C>, addr: SocketAddr, conn: C, now: u128)
    ensures
        m.connected(addr, conn, now).deleted(addr) == m.deleted(addr),
        !m.clients.contains_key(addr) ==> m.connected(addr, conn, now).deleted(addr) == m,
{
    assert(m.connected(addr, conn, now).deleted(addr).clients =~= m.deleted(addr).clients);
    if !m.clients.contains_key(addr) {
        assert(m.deleted(addr).clients =~= m.clients);
    }
}

/// What happens to one client leaves the others as they are.
pub proof fn law_other_clients_stay<C>(
    m: ClientMapView<C>,
    addr: SocketAddr,
    other: SocketAddr,
    conn: C,
    now: u128,
)
    requires
        addr != other,
        m.clients.contains_key(other),
    ensures
        m.connected(addr, conn, now).clients.contains_key(other),
        m.connected(addr, conn, now).clients[other] == m.clients[other],
        m.touched(addr, now).clients.contains_key(other),
        m.touched(addr, now).clients[other] == m.clients[other],
        m.deleted(addr).clients.contains_key(other),
        m.deleted(addr).clients[other] == m.clients[other],
{
}

/// A clean-up at `now` keeps a client exactly where its last activity and the idle timeout reach
/// beyond `now`, and keeps it as it is.
pub proof fn law_clean_up_keeps_the_active<C>(m: ClientMapView<C>, addr: SocketAddr, now: u128)
    requires
        m.clients.contains_key(addr),
    ensures
        m.swept(now).clients.contains_key(addr) <==> now < m.clients[addr].last_active
            + m.idle_timeout,
        m.swept(now).clients.contains_key(addr) ==> m.swept(now).clients[addr] == m.clients[addr],
{
}

/// A client is listed with the connection and the instant it was given; a later activity changes
/// the instant alone.
pub proof fn law_listed_as_given<C>(
    m: ClientMapView<C>,
    addr: SocketAddr,
    conn: C,
    now: u128,
    later: u128,
)
    ensures
        m.connected(addr, conn, now).clients.contains_key(addr),
        m.connected(addr, conn, now).clients[addr].conn == conn,
        m.connected(addr, conn, now).clients[addr].last_active == now,
        m.connected(addr, conn, now).touched(addr, later) == m.connected(addr, conn, later),
        !m.deleted(addr).clients.contains_key(addr),
{
    assert(m.connected(addr, conn, now).touched(addr, later).clients =~= m.connected(
        addr,
        conn,
        later,
    ).clients);
}

/// No operation lists a client that was not there or was not given, and none but closing, and that
/// for good, closes the map or changes its times.
pub proof fn law_nothing_else_changes<C>(
    m: ClientMapView<C>,
    addr: SocketAddr,
    other: SocketAddr,
    conn: C,
    now: u128,
)
    requires
        addr != other,
        !m.clients.contains_key(other),
    ensures
        !m.connected(addr, conn, now).clients.contains_key(other),
        !m.touched(addr, now).clients.contains_key(other),
        !m.deleted(addr).clients.contains_key(other),
        !m.swept(now).clients.contains_key(other),
        !m.closed().clients.contains_key(other),
        m.connected(addr, conn, now).dead == m.dead,
        m.touched(addr, now).dead == m.dead,
        m.deleted(addr).dead == m.dead,
        m.swept(now).dead == m.dead,
        m.closed().dead,
        m.connected(addr, conn, now).idle_timeout == m.idle_timeout,
        m.touched(addr, now).idle_timeout == m.idle_timeout,
        m.deleted(addr).idle_timeout == m.idle_timeout,
        m.swept(now).idle_timeout == m.idle_timeout,
        m.closed().idle_timeout == m.idle_timeout,
        m.connected(addr, conn, now).idle_check_interval == m.idle_check_interval,
        m.touched(addr, now).idle_check_interval == m.idle_check_interval,
        m.deleted(addr).idle_check_interval == m.idle_check_interval,
        m.swept(now).idle_check_interval == m.idle_check_interval,
        m.closed().idle_check_interval == m.idle_check_interval,
{
}

/// A map that was just made is open, lists no client, and has the times that were asked for.
pub proof fn law_made_as_asked<C>(
    idle_timeout: u128,
    idle_check_interval: u128,
    addr: SocketAddr,
)
    ensures
        !ClientMapView::<C>::fresh(idle_timeout, idle_check_interval).dead,
        !ClientMapView::<C>::fresh(idle_timeout, idle_check_interval).clients.contains_key(addr),
        ClientMapView::<C>::fresh(idle_timeout, idle_check_interval).idle_timeout == idle_timeout,
        ClientMapView::<C>::fresh(idle_timeout, idle_check_interval).idle_check_interval
            == idle_check_interval,
{
}

/// A closed map stays as it is when it is closed again, clients that were listed since included.
pub proof fn law_closed_map_keeps_late_clients<C>(
    m: ClientMapView<C>,
    addr: SocketAddr,
    conn: C,
    now: u128,
)
    requires
        m.dead,
    ensures
        m.connected(addr, conn, now).closed() == m.connected(addr, conn, now),
{
}

} // verus!
