//! What calls of the library come to, one by one and in a row.
//!
//! A law here speaks of any result that a function may give: `call_ensures(f, args, r)` says that
//! `r` is such a result of `f` on `args`. A function that changes its argument takes it from the
//! `old` to the `final` value of the reference.

use vstd::prelude::*;
use vstd::utf8::*;

use crate::cli;
use crate::cli::{MissingOption, Options, Plan, RelayRole};
use crate::client_map::{CleanupStep, ClientMap, ConnectionStep};
use crate::net;
use crate::net::{AddressError, SocketAddr};
use crate::nethernet;
use crate::nethernet::{DiscoveryPoll, DiscoveryTarget, PollStep, ServerData};
use crate::proto;
use crate::proto::{PongData, UnconnectedPing};
use crate::proxy;
use crate::proxy::{
    ClientStep, Forwarded, ProxyPrefs, ProxyServer, ProxyView, RecvFailure, ServerProtocol,
    ServerStep, StartProgress, StartStep,
};
use crate::raknet;
use crate::raknet::Packet;
use crate::relay;
use crate::relay::{RelayHostConfig, RelayPlayerConfig};
use crate::relay_host;
use crate::relay_host::{HostStep, Reconnect, RelayHost};
use crate::relay_player;
use crate::relay_player::{Delivery, Endpoints, PlayerStep, RelayPlayer, Tunnel};
use crate::text;

verus! {

// ---- packets ----

/// A packet that is built and read gives back its time, id, magic and fields, where no field holds
/// the separator and the text fits its length field. The bytes hold them at their places.
pub proof fn law_built_and_read(
    packet: &UnconnectedPing,
    out: Vec<u8>,
    input: &[u8],
    r: Result<UnconnectedPing, String>,
)
    requires
        call_ensures(UnconnectedPing::build, (packet,), out),
        input@ == out@,
        call_ensures(proto::read_unconnected_ping, (input,), r),
        proto::separator_free(packet.pong@),
        encode_utf8(proto::pong_text(packet.pong@)).len() < 65536,
    ensures
        out@[0] == 0x1c,
        out@.subrange(1, 9) == packet.ping_time@,
        out@.subrange(9, 17) == packet.id@,
        out@.subrange(17, 33) == packet.magic@,
        out@[33] * 256 + out@[34] == out@.len() - 35,
        r matches Ok(read) && read.ping_time@ == packet.ping_time@ && read.id@ == packet.id@
            && read.magic@ == packet.magic@ && read.pong@ == packet.pong@,
{
    proto::law_layout_of_a_built_packet(packet@);
    proto::law_read_of_built_packet(packet@);
    assert(out@ == proto::ping_wire(packet@));
    assert(out@.skip(35) =~= encode_utf8(proto::pong_text(packet.pong@)));
}

/// Reading bytes succeeds exactly where the header is whole, the first byte is that of a ping or a
/// pong, and the text is as long as it says and well-formed; otherwise the error names the first
/// of these that fails.
pub proof fn law_reading_of_bytes(input: &[u8], r: Result<UnconnectedPing, String>)
    requires
        call_ensures(proto::read_unconnected_ping, (input,), r),
    ensures
        ({
            let n = 35 + input@[33] * 256 + input@[34];
            let whole = input@.len() >= 35;
            let known = input@[0] == 0x1c || input@[0] == 0x01;
            &&& r is Ok <==> whole && known && n <= input@.len() && valid_utf8(
                input@.subrange(35, n),
            )
            &&& !whole ==> r->Err_0@ == "packet too short"@
            &&& whole && !known ==> r->Err_0@ == "unsupported packet id"@
            &&& whole && known && n > input@.len() ==> r->Err_0@ == "invalid pong length"@
            &&& r matches Ok(read) ==> read.ping_time@ == input@.subrange(1, 9) && read.id@
                == input@.subrange(9, 17) && read.magic@ == input@.subrange(17, 33) && text::split(
                decode_utf8(input@.subrange(35, n)),
                ';',
            )[0] == read.pong.edition@
        }),
{
    proto::law_layout_of_a_read_packet(input@);
    if let Ok(read) = r {
        assert(proto::ping_read(input@) == Ok::<proto::PingView, Seq<char>>(read@));
        assert(read@.pong[0] == read.pong.edition@);
        let n = 35 + input@[33] * 256 + input@[34];
        text::lemma_split_nonempty(decode_utf8(input@.subrange(35, n)), ';');
    }
}

// ---- the proxy ----

/// The server's pong goes on as it is but for the proxy's id and ports; what cannot be read goes
/// on whole. The proxy remembers what it sent, and nothing else of it changes.
pub proof fn law_rewriting<S>(p: &mut ProxyServer<S>, data: Vec<u8>, r: Vec<u8>)
    requires
        old(p).wf(),
        call_ensures(ProxyServer::<S>::rewrite_unconnected_pong, (p, data), r),
    ensures
        proto::ping_read(data@) is Err ==> r@ == data@ && final(p)@ == old(p)@,
        proto::ping_read(data@) is Ok ==> r@[0] == 0x1c && r@.subrange(1, 33) == data@.subrange(
            1,
            33,
        ),
        proto::ping_read(data@) is Ok && data@.len() <= 1472 ==> ({
            let given = proto::ping_read(data@)->Ok_0;
            let sent = proto::ping_read(r@);
            let got = sent->Ok_0;
            &&& sent is Ok
            &&& got.ping_time == given.ping_time && got.id == given.id && got.magic == given.magic
            &&& forall|i: int|
                0 <= i < 12 && i != 6 && i != 10 && i != 11 ==> #[trigger] got.pong[i]
                    == given.pong[i]
            &&& text::integer_text(got.pong[6], false) == Some(old(p)@.server_id as int)
            &&& old(p)@.prefs.remove_ports ==> got.pong[10].len() == 0 && got.pong[11].len() == 0
            &&& !old(p)@.prefs.remove_ports && given.pong[10].len() > 0 ==> text::integer_text(
                got.pong[10],
                false,
            ) == Some(old(p)@.bound_port as int) && got.pong[11] == got.pong[10]
            &&& !old(p)@.prefs.remove_ports && given.pong[10].len() == 0 ==> got.pong[10].len() == 0
                && got.pong[11] == given.pong[11]
            &&& final(p)@.latest_pong == Some(got.pong)
            &&& (ProxyView { latest_pong: old(p)@.latest_pong, ..final(p)@ }) == old(p)@
        }),
{
    if proto::ping_read(data@) is Ok {
        proxy::law_sent_pong_keeps_its_header(old(p)@, data@);
        if data@.len() <= 1472 {
            proxy::law_console_reads_the_servers_pong(old(p)@, data@);
        }
    }
}

/// Of two pings in a row, each is answered from the data that was fetched for it; a third for
/// which nothing is fetched is answered from the second's.
#[verifier::spinoff_prover]
#[verifier::rlimit(40)]
pub proof fn law_pings_in_a_row<S>(
    p: &mut ProxyServer<S>,
    q: &mut ProxyServer<S>,
    s: &mut ProxyServer<S>,
    first: &[u8],
    second: &[u8],
    third: &[u8],
    before: Option<ServerData>,
    data: ServerData,
    r1: Option<Vec<u8>>,
    r2: Option<Vec<u8>>,
    r3: Option<Vec<u8>>,
)
    requires
        old(p).wf(),
        call_ensures(
            ProxyServer::<S>::build_raknet_pong_from_nethernet,
            (p, first, before),
            r1,
        ),
        *old(q) == *final(p),
        call_ensures(
            ProxyServer::<S>::build_raknet_pong_from_nethernet,
            (q, second, Some(data)),
            r2,
        ),
        *old(s) == *final(q),
        call_ensures(
            ProxyServer::<S>::build_raknet_pong_from_nethernet,
            (s, third, None),
            r3,
        ),
        second@.len() >= 33,
        second@[0] == 1 || second@[0] == 2,
        third@ == second@,
        !data@.server_name.contains(';'),
        !data@.level_name.contains(';'),
        data@.server_name.len() <= 1300,
        data@.level_name.len() <= 1300,
    ensures
        r2 is Some,
        r3 is Some,
        r3->0@ == r2->0@,
        final(q)@.latest_nethernet_data == Some(data@),
        final(s)@.latest_nethernet_data == Some(data@),
        r2->0@[0] == 0x1c,
        r2->0@.subrange(1, 9) == second@.subrange(1, 9),
        r2->0@.subrange(9, 17) == second@.subrange(25, 33),
        r2->0@.subrange(17, 33) == second@.subrange(9, 25),
        ({
            let read = proto::ping_read(r2->0@);
            let got = read->Ok_0.pong;
            &&& read is Ok
            &&& got[1] == (if text::is_blank(data@.server_name) {
                "phantom LAN Server"@
            } else {
                data@.server_name
            })
            &&& got[7] == (if text::is_blank(data@.level_name) {
                "Bedrock level"@
            } else {
                data@.level_name
            })
            &&& text::i32_text(got[4]) == Some(
                if data.player_count < 0 {
                    0i32
                } else {
                    data.player_count
                },
            )
            &&& 0 <= data.player_count <= data.max_player_count ==> text::i32_text(got[5]) == Some(
                data.max_player_count,
            )
            &&& text::integer_text(got[6], false) == Some(old(p)@.server_id as int)
            &&& old(p)@.prefs.remove_ports ==> got[10].len() == 0 && got[11].len() == 0
            &&& !old(p)@.prefs.remove_ports ==> text::integer_text(got[10], false) == Some(
                old(p)@.bound_port as int,
            ) && got[11] == got[10]
            &&& final(q)@.latest_pong == Some(got)
        }),
{
    let fetched = nethernet::data_view(before);
    let v = old(p)@;
    let w = final(p)@;
    assert(w == v.after_nethernet(first@, fetched));
    assert(w.server_id == v.server_id && w.bound_port == v.bound_port && w.prefs == v.prefs);
    proxy::law_console_reads_the_fetched_data(w, second@, data@);
    proxy::law_nethernet_pong_echoes_the_ping(w, second@, Some(data@));
    proxy::law_fresh_server_data_counts(w, w, second@, third@, data@);
}

/// Nothing but a ping of at least 33 bytes is answered from data, and a ping without any data gets
/// the pong of a server that does not answer.
pub proof fn law_ping_without_data<S>(
    p: &mut ProxyServer<S>,
    ping: &[u8],
    r: Vec<u8>,
)
    requires
        old(p).wf(),
        old(p)@.latest_nethernet_data is None,
        call_ensures(ProxyServer::<S>::nethernet_reply, (p, ping, None), r),
    ensures
        ({
            let read = proto::ping_read(r@);
            &&& read is Ok
            &&& read->Ok_0.pong[1] == "phantom §cServer offline"@
            &&& text::integer_text(read->Ok_0.pong[6], false) == Some(old(p)@.server_id as int)
            &&& read->Ok_0.pong[10].len() == 0
            &&& final(p)@.latest_nethernet_data is None
        }),
{
    proxy::law_console_reads_that_the_server_is_offline(old(p)@);
}

/// What becomes of a client's packet: none where it is empty; a ping to a NetherNet server is
/// answered, from data where it is long enough; anything else goes to the server as it is.
pub proof fn law_packets_from_clients<S>(p: &mut ProxyServer<S>, data: &[u8], step: ClientStep)
    requires
        old(p).wf(),
        call_ensures(ProxyServer::<S>::process_data_from_clients, (p, data), step),
    ensures
        ({
            let answered = data@.len() > 0 && (data@[0] == 1 || data@[0] == 2)
                && old(p)@.prefs.server_protocol == ServerProtocol::Nethernet;
            &&& data@.len() == 0 ==> step is Ignore
            &&& answered && data@.len() < 33 ==> (step matches ClientStep::Reply(bytes)
                && proto::ping_read(bytes@) is Ok && proto::ping_read(bytes@)->Ok_0.pong[1]
                == "phantom §cServer offline"@)
            &&& answered && data@.len() >= 33 ==> step is FetchServerData
            &&& data@.len() > 0 && !answered ==> (step matches ClientStep::Forward(packet)
                && packet@ == data@)
            &&& !(step is Reply) ==> final(p)@ == old(p)@
        }),
{
    proxy::law_console_reads_that_the_server_is_offline(old(p)@);
}

/// A packet goes to the server as it is, with five seconds for the answer; a ping is answered
/// first, as by a server that does not answer, exactly while that is so.
pub proof fn law_forwarding<S>(p: &mut ProxyServer<S>, packet: Vec<u8>, r: Forwarded)
    requires
        old(p).wf(),
        call_ensures(ProxyServer::<S>::forward, (p, packet), r),
    ensures
        r.packet@ == packet@,
        r.read_timeout_secs == 5,
        r.reply is Some <==> packet@.len() > 0 && packet@[0] == 1 && old(p)@.server_offline,
        r.reply matches Some(bytes) ==> proto::ping_read(bytes@) is Ok && proto::ping_read(
            bytes@,
        )->Ok_0.pong[1] == "phantom §cServer offline"@,
        r.reply is None ==> final(p)@ == old(p)@,
{
    proxy::law_console_reads_that_the_server_is_offline(old(p)@);
}

/// After a failure that tells of a server that does not answer, a ping is answered in its place;
/// after the next packet from the server it is not.
pub proof fn law_offline_and_back<S>(
    p: &mut ProxyServer<S>,
    q: &mut ProxyServer<S>,
    s: &mut ProxyServer<S>,
    t: &mut ProxyServer<S>,
    client: SocketAddr,
    failure: RecvFailure,
    packet: Vec<u8>,
    data: Vec<u8>,
    stop: ServerStep,
    while_offline: Forwarded,
    passed: ServerStep,
    afterwards: Forwarded,
)
    requires
        old(p).wf(),
        failure is WouldBlock || failure is TimedOut || (failure matches RecvFailure::Other(m)
            && is_ascii_chars(m@) && (text::contains_text(text::ascii_lowercase(m@), "timeout"@)
            || text::contains_text(text::ascii_lowercase(m@), "connection refused"@))),
        packet@.len() > 0 && packet@[0] == 1,
        data@.len() > 0 && data@[0] != 0x1c,
        call_ensures(
            ProxyServer::<S>::process_data_from_server,
            (p, client, Err(failure)),
            stop,
        ),
        *old(q) == *final(p),
        call_ensures(ProxyServer::<S>::forward, (q, packet), while_offline),
        *old(s) == *final(q),
        call_ensures(
            ProxyServer::<S>::process_data_from_server,
            (s, client, Ok(data)),
            passed,
        ),
        *old(t) == *final(s),
        call_ensures(ProxyServer::<S>::forward, (t, packet), afterwards),
    ensures
        stop is Stop,
        !final(p)@.client_map.clients.contains_key(client),
        while_offline.reply is Some,
        passed matches ServerStep::Send(bytes) && bytes@ == data@,
        afterwards.reply is None,
{
}

/// What comes from the server: nothing of an empty packet; a pong is rewritten; anything else goes
/// to the client as it is. The server then counts as answering, and no client is lost.
pub proof fn law_packets_from_the_server<S>(
    p: &mut ProxyServer<S>,
    client: SocketAddr,
    data: Vec<u8>,
    step: ServerStep,
)
    requires
        old(p).wf(),
        call_ensures(
            ProxyServer::<S>::process_data_from_server,
            (p, client, Ok(data)),
            step,
        ),
    ensures
        data@.len() == 0 ==> step is Again && final(p)@ == old(p)@,
        data@.len() > 0 ==> step is Send && !final(p)@.server_offline,
        data@.len() > 0 && data@[0] != 0x1c ==> step->Send_0@ == data@ && final(p)@.latest_pong
            == old(p)@.latest_pong,
        data@.len() > 0 && data@[0] == 0x1c && proto::ping_read(data@) is Err ==> step->Send_0@
            == data@,
        data@.len() > 0 && data@[0] == 0x1c && proto::ping_read(data@) is Ok ==> step->Send_0@[0]
            == 0x1c && step->Send_0@.subrange(1, 33) == data@.subrange(1, 33),
        data@.len() <= 1472 && data@.len() > 0 && data@[0] == 0x1c && proto::ping_read(data@) is Ok
            ==> proto::ping_read(step->Send_0@) is Ok && text::integer_text(
            proto::ping_read(step->Send_0@)->Ok_0.pong[6],
            false,
        ) == Some(old(p)@.server_id as int) && proto::ping_read(step->Send_0@)->Ok_0.pong[1]
            == proto::ping_read(data@)->Ok_0.pong[1],
        final(p)@.client_map == old(p)@.client_map,
{
    let online = old(p)@.heard_from_server();
    if data@.len() > 0 && data@[0] == 0x1c && proto::ping_read(data@) is Ok {
        proxy::law_sent_pong_keeps_its_header(online, data@);
        if data@.len() <= 1472 {
            proxy::law_console_reads_the_servers_pong(online, data@);
        }
    }
}

/// A proxy is made from any wishes exactly where both addresses are found. It has the port that
/// was asked for, or one from 50000 to 63999, and everywhere the same; it keeps every other wish.
pub proof fn law_making_a_proxy<S, E>(
    prefs: ProxyPrefs,
    bind_found: Result<Vec<SocketAddr>, E>,
    remote_found: Result<Vec<SocketAddr>, E>,
    made: Result<ProxyServer<S>, AddressError<E>>,
)
    requires
        call_ensures(ProxyServer::<S>::new::<E>, (prefs, bind_found, remote_found), made),
    ensures
        made is Ok <==> bind_found is Ok && bind_found->Ok_0@.len() > 0 && remote_found is Ok
            && remote_found->Ok_0@.len() > 0,
        bind_found is Err ==> made->Err_0 == AddressError::Lookup(bind_found->Err_0),
        bind_found is Ok && bind_found->Ok_0@.len() == 0 ==> made->Err_0 is Invalid,
        made matches Ok(p) ==> {
            &&& prefs.bind_port != 0 ==> p@.bound_port == prefs.bind_port
            &&& prefs.bind_port == 0 ==> 50000 <= p@.bound_port < 64000
            &&& p@.bind_address.port_number() == p@.bound_port
            &&& p@.prefs.bind_port == p@.bound_port
            &&& p@.remote_server_address == remote_found->Ok_0@[0]
            &&& p@.prefs.remote_server == prefs.remote_server@
            &&& p@.prefs.bind_address == prefs.bind_address@
            &&& p@.prefs.server_protocol == prefs.server_protocol
            &&& p@.prefs.enable_ipv6 == prefs.enable_ipv6
            &&& p@.prefs.remove_ports == prefs.remove_ports
            &&& p@.prefs.num_workers == prefs.num_workers
            &&& !p@.dead && !p@.server_offline
            &&& p@.server is None && p@.latest_pong is None && p@.latest_nethernet_data is None
        },
{
    if let Ok(p) = made {
        proxy::law_proxy_as_made::<S, E>(
            prefs@,
            bind_found,
            remote_found,
            p@.bound_port,
            p@.server_id,
            p@.bind_address,
        );
    }
}

/// A client that is connected and heard from again is dropped in a clean-up exactly where it has
/// been silent for the timeout that the user asked for.
pub proof fn law_users_timeout<S, E>(
    prefs: ProxyPrefs,
    bind_found: Result<Vec<SocketAddr>, E>,
    remote_found: Result<Vec<SocketAddr>, E>,
    drawn: u16,
    server_id: u64,
    made: Result<ProxyServer<S>, AddressError<E>>,
    p: &mut ProxyServer<S>,
    q: &mut ProxyServer<S>,
    s: &mut ProxyServer<S>,
    client: SocketAddr,
    conn: S,
    first: u128,
    last: u128,
    now: u128,
    again: ConnectionStep,
    step: CleanupStep,
)
    requires
        50000 <= drawn < 64000,
        call_ensures(
            ProxyServer::<S>::with_drawn::<E>,
            (prefs, bind_found, remote_found, drawn, server_id),
            made,
        ),
        made matches Ok(proxy) && *old(p) == proxy,
        call_ensures(ProxyServer::<S>::client_connected, (p, client, conn, first), ()),
        *old(q) == *final(p),
        call_ensures(ProxyServer::<S>::connect_client, (q, client, last), again),
        *old(s) == *final(q),
        call_ensures(ProxyServer::<S>::clean_up_clients, (s, now), step),
    ensures
        again == ConnectionStep::Reuse,
        step is Swept,
        final(s)@.client_map.clients.contains_key(client) <==> now < last + prefs.idle_timeout,
        step->Swept_0@.contains(client) <==> last + prefs.idle_timeout <= now,
        final(s)@.client_map.clients.contains_key(client)
            ==> final(s)@.client_map.clients[client].conn == conn,
{
}

/// A client without a connection gets one to the remote server from any local address of its
/// family; one that was connected keeps its connection.
pub proof fn law_one_connection_per_client<S>(
    p: &mut ProxyServer<S>,
    q: &mut ProxyServer<S>,
    s: &mut ProxyServer<S>,
    after: &ProxyServer<S>,
    client: SocketAddr,
    conn: S,
    now: u128,
    later: u128,
    first: ConnectionStep,
    second: ConnectionStep,
    found: Option<&S>,
)
    requires
        old(p).wf(),
        !old(p)@.client_map.clients.contains_key(client),
        call_ensures(ProxyServer::<S>::connect_client, (p, client, now), first),
        *old(q) == *final(p),
        call_ensures(ProxyServer::<S>::client_connected, (q, client, conn, now), ()),
        *old(s) == *final(q),
        call_ensures(ProxyServer::<S>::connect_client, (s, client, later), second),
        *after == *final(s),
        call_ensures(ProxyServer::<S>::client_connection, (after, client), found),
    ensures
        first == (ConnectionStep::Open {
            bind: net::wildcard_addr(old(p)@.remote_server_address.ipv6(), 0),
            remote: old(p)@.remote_server_address,
        }),
        second == ConnectionStep::Reuse,
        found == Some(&conn),
{
}

/// A closed proxy has no sockets and no clients, stops cleaning up, receiving, reading and
/// announcing.
pub proof fn law_closing<S>(
    p: &mut ProxyServer<S>,
    q: &mut ProxyServer<S>,
    s: &mut ProxyServer<S>,
    t: &mut ProxyServer<S>,
    after: &ProxyServer<S>,
    client: SocketAddr,
    now: u128,
    workers: usize,
    swept: CleanupStep,
    receiving: bool,
    progress: StartProgress,
    socket: Option<&S>,
    announced: Option<(ServerData, u64)>,
)
    requires
        old(p).wf(),
        !old(p)@.client_map.dead,
        call_ensures(ProxyServer::<S>::close, (p,), ()),
        *old(q) == *final(p),
        call_ensures(ProxyServer::<S>::clean_up_clients, (q, now), swept),
        *old(s) == *final(q),
        call_ensures(ProxyServer::<S>::keep_receiving, (s, client), receiving),
        *old(t) == *final(s),
        call_ensures(
            ProxyServer::<S>::on_start_step,
            (t, StartStep::RunWorkers(workers), None),
            progress,
        ),
        *after == *final(t),
        call_ensures(ProxyServer::<S>::server_socket, (after,), socket),
        call_ensures(ProxyServer::<S>::announcement, (after,), announced),
    ensures
        final(p)@.dead,
        !final(p)@.client_map.clients.contains_key(client),
        swept is Stop,
        !receiving,
        progress == StartProgress::GoOn,
        socket is None,
        announced is None,
{
}

/// While a proxy runs, what is announced every 750 ms is what was fetched last, or else what the
/// last pong tells, or else the stand-ins.
pub proof fn law_announcing<S>(p: &ProxyServer<S>, r: Option<(ServerData, u64)>)
    requires
        !p@.dead,
        call_ensures(ProxyServer::<S>::announcement, (p,), r),
    ensures
        r matches Some((data, wait_ms)) && wait_ms == 750 && (p@.latest_nethernet_data matches Some(
            fetched,
        ) ==> data@ == fetched) && (p@.latest_nethernet_data is None && p@.latest_pong is None ==> (
        data@.server_name == "phantom LAN Server"@ && data@.level_name == "Bedrock level"@
            && data@.game_type == 1 && data@.player_count == 0 && data@.max_player_count == 20)) && (
        p@.latest_nethernet_data is None && p@.latest_pong is Some ==> data@
            == proxy::pong_server_data(p@.latest_pong->0)),
{
}

/// The steps of a start, on any proxy.
pub proof fn law_starting<S>(p: &ProxyServer<S>, steps: Vec<StartStep>)
    requires
        call_ensures(ProxyServer::<S>::start, (p,), steps),
    ensures
        steps@.len() >= 3,
        steps@[0] matches StartStep::BindPing(l) && l.addr == (SocketAddr::V4 {
            ip: 0,
            port: 19132,
        }) && l.with_timeout,
        p@.prefs.enable_ipv6 ==> (steps@[1] matches StartStep::BindPingV6(l) && l.addr == (
        SocketAddr::V6 { ip: 0, port: 19133, flowinfo: 0, scope_id: 0 }) && l.v6_only),
        !p@.prefs.enable_ipv6 ==> forall|i: int|
            0 <= i < steps@.len() ==> !((#[trigger] steps@[i]) is BindPingV6),
        (exists|i: int| 0 <= i < steps@.len() && (#[trigger] steps@[i]) is StartDiscovery) <==> p@.prefs.server_protocol
            == ServerProtocol::Nethernet,
        steps@[steps@.len() - 2] matches StartStep::BindServer(l) && l.addr == p@.bind_address,
        steps@[steps@.len() - 1] matches StartStep::RunWorkers(n) && n >= 1 && (
        p@.prefs.num_workers > 0 ==> n == p@.prefs.num_workers),
{
    proxy::law_what_a_start_consists_of(p@);
    if p@.prefs.server_protocol == ServerProtocol::Nethernet {
        assert(steps@[steps@.len() - 3] is StartDiscovery);
    }
}

/// A needed socket that could not be bound ends the start and is not kept; one that was bound is
/// kept in its own place, and the start goes on, as it does without the socket for IPv6 pings.
pub proof fn law_start_steps_one_by_one<S>(
    p: &mut ProxyServer<S>,
    step: StartStep,
    socket: Option<S>,
    progress: StartProgress,
)
    requires
        old(p).wf(),
        call_ensures(ProxyServer::<S>::on_start_step, (p, step, socket), progress),
    ensures
        socket is None ==> final(p)@ == old(p)@,
        (step is BindPing || step is BindServer) ==> progress == (if socket is Some {
            StartProgress::GoOn
        } else {
            StartProgress::Fail
        }),
        (step is BindPingV6 || step is StartDiscovery) ==> progress == StartProgress::GoOn,
        step is RunWorkers ==> progress == (if old(p)@.dead {
            StartProgress::GoOn
        } else {
            StartProgress::KeepReading
        }),
        step is BindPing && socket is Some ==> final(p)@.ping_server == socket
            && final(p)@.ping_server_v6 == old(p)@.ping_server_v6 && final(p)@.server == old(
            p,
        )@.server,
        step is BindPingV6 && socket is Some ==> final(p)@.ping_server_v6 == socket
            && final(p)@.ping_server == old(p)@.ping_server && final(p)@.server == old(p)@.server,
        step is BindServer && socket is Some ==> final(p)@.server == socket
            && final(p)@.ping_server == old(p)@.ping_server && final(p)@.ping_server_v6 == old(
            p,
        )@.ping_server_v6,
        (ProxyView {
            ping_server: old(p)@.ping_server,
            ping_server_v6: old(p)@.ping_server_v6,
            server: old(p)@.server,
            ..final(p)@
        }) == old(p)@,
{
}

// ---- the client map ----

/// A map's client is kept by a clean-up exactly while its last activity is less than the timeout
/// ago, and with its own connection; deleting it makes it unknown.
pub proof fn law_client_over_its_life<C>(
    idle_timeout: u128,
    interval: u128,
    made: ClientMap<C>,
    m: &mut ClientMap<C>,
    n: &mut ClientMap<C>,
    k: &mut ClientMap<C>,
    kept: &ClientMap<C>,
    gone: &ClientMap<C>,
    client: SocketAddr,
    conn: C,
    first: u128,
    now: u128,
    step: CleanupStep,
    found: Option<&C>,
    lost: Option<&C>,
)
    requires
        call_ensures(ClientMap::<C>::new, (idle_timeout, interval), made),
        *old(m) == made,
        call_ensures(ClientMap::<C>::insert, (m, client, conn, first), ()),
        *old(n) == *final(m),
        call_ensures(ClientMap::<C>::idle_cleanup, (n, now), step),
        *kept == *final(n),
        call_ensures(ClientMap::<C>::connection, (kept, client), found),
        *old(k) == *final(n),
        call_ensures(ClientMap::<C>::delete, (k, client), ()),
        *gone == *final(k),
        call_ensures(ClientMap::<C>::connection, (gone, client), lost),
    ensures
        now < first + idle_timeout ==> found == Some(&conn),
        first + idle_timeout <= now ==> found is None,
        lost is None,
{
}

// ---- discovery ----

/// A query looks as often as it was told, takes the first answer that could be read, and gives up
/// after its last look.
pub proof fn law_last_look(
    attempts: usize,
    made: DiscoveryPoll,
    p: &mut DiscoveryPoll,
    answers: &Vec<Option<ServerData>>,
    pending: bool,
    step: PollStep,
)
    requires
        call_ensures(DiscoveryPoll::new, (attempts,), made),
        call_ensures(DiscoveryPoll::pending, (&made,), pending),
        *old(p) == made,
        call_ensures(DiscoveryPoll::on_answers, (p, answers), step),
        attempts > 0,
    ensures
        pending,
        final(p).left() == attempts - 1,
        step is Found <==> exists|i: int| 0 <= i < answers@.len() && (#[trigger] answers@[i]) is Some,
        !(step is Found) ==> (step is GiveUp <==> attempts == 1),
{
    nethernet::law_first_answer_counts(answers@);
}

/// A listener that asks is bound to any port of the server's family; one that announces is bound
/// to the discovery port of the proxy's family; each asks the server's own host on that port.
pub proof fn law_discovery_listeners(
    server: SocketAddr,
    bind_address: SocketAddr,
    port: u16,
    once: DiscoveryTarget,
    polled: DiscoveryTarget,
    announced: DiscoveryTarget,
)
    requires
        call_ensures(nethernet::discovery_target, (server, port), once),
        call_ensures(nethernet::poll_target, (server, port), polled),
        call_ensures(nethernet::announce_target, (bind_address, server, port), announced),
    ensures
        once.bind.port_number() == 0 && once.bind.ipv6() == server.ipv6(),
        once.broadcast.port_number() == port && once.broadcast.ipv6() == server.ipv6(),
        once.broadcast == polled.broadcast && once.broadcast == announced.broadcast,
        once.bind == polled.bind,
        announced.bind.port_number() == port && announced.bind.ipv6() == bind_address.ipv6(),
        once.broadcast.renumbered(server.port_number()) == server || server.ipv6(),
        once.broadcast_interval_ms == 250,
        polled.broadcast_interval_ms == 150,
        announced.broadcast_interval_ms == 500,
{
}

// ---- the relay ----

/// A packet that is framed and taken out of its frame is the packet, for its player; the frame is
/// four bytes longer.
pub proof fn law_framing(
    player_id: u32,
    payload: &[u8],
    out: Vec<u8>,
    bin: &[u8],
    r: Option<(u32, &[u8])>,
)
    requires
        call_ensures(relay::frame, (player_id, payload), out),
        bin@ == out@,
        call_ensures(relay::unframe, (bin,), r),
    ensures
        out@.len() == payload@.len() + 4,
        out@[0] * 16777216 + out@[1] * 65536 + out@[2] * 256 + out@[3] == player_id,
        r matches Some((id, packet)) && id == player_id && packet@ == payload@,
{
    relay::law_unframe_of_frame(player_id, payload@);
    raknet::law_places_of_bytes(player_id, 0);
    let b = raknet::be32(player_id);
    assert(out@[0] == b[0] && out@[1] == b[1] && out@[2] == b[2] && out@[3] == b[3]);
}

/// A frame too short to name a player holds nothing; every other holds what stands behind its
/// first four bytes.
pub proof fn law_unframing(bin: &[u8], r: Option<(u32, &[u8])>)
    requires
        call_ensures(relay::unframe, (bin,), r),
    ensures
        r is Some <==> bin@.len() >= 4,
        r matches Some((id, packet)) ==> packet@ == bin@.skip(4) && id == bin@[0] * 16777216
            + bin@[1] * 65536 + bin@[2] * 256 + bin@[3],
{
}

/// The address for a role and a room is the relay server's URL, with a path or not, and a query of
/// the role and the encoded room.
#[verifier::spinoff_prover]
#[verifier::rlimit(40)]
pub proof fn law_asking_for_a_room(base: &str, role: &str, room: &str, url: String, query: String)
    requires
        call_ensures(relay::relay_ws_url, (base, role, room), url),
        call_ensures(relay::encode_room, (room,), query),
    ensures
        ({
            let sep = if base@.contains('?') { '&' } else { '?' };
            let end = "role="@ + role@ + "&room="@ + query@;
            url@ == base@ + seq![sep] + end || url@ == base@ + seq!['/', sep] + end
        }),
{
    relay::law_parts_of_the_address(base@, role@, room@);
}

/// An encoded room holds plain characters alone, and the room is read back from it by the rules of
/// URLs.
pub proof fn law_encoding_a_room(room: &str, query: String)
    requires
        call_ensures(relay::encode_room, (room,), query),
    ensures
        decode_utf8(relay::query_bytes(query@)) == room@,
        forall|i: int| 0 <= i < query@.len() ==> relay::is_query_char(#[trigger] query@[i]),
{
    relay::law_room_is_read_back(room@);
    relay::law_room_query_is_plain(room@);
}

/// A URL of a scheme and a host alone gets a path, and one with a path does not get another.
#[verifier::spinoff_prover]
#[verifier::rlimit(40)]
pub proof fn law_path_of_the_address(
    base: &str,
    role: &str,
    room: &str,
    url: String,
    scheme: Seq<char>,
    rest: Seq<char>,
)
    requires
        call_ensures(relay::relay_ws_url, (base, role, room), url),
        base@ == scheme + "://"@ + rest,
        forall|j: int|
            0 <= j < scheme.len() ==> !#[trigger] text::occurs_at(
                scheme + "://"@ + rest,
                "://"@,
                j,
            ),
    ensures
        url@[base@.len() as int] == '/' <==> !rest.contains('/'),
{
    relay::law_bare_host_gets_a_path(scheme, rest, base@, role@, room@);
}

/// A ping is answered with the server's data exactly where it is well-formed: the answer gives
/// back its time and magic, and a player reads of it what the server said.
#[verifier::spinoff_prover]
#[verifier::rlimit(40)]
pub proof fn law_answering_for_a_server(
    ping: &[u8],
    nether: &ServerData,
    server_id: u64,
    r: Option<Vec<u8>>,
)
    requires
        call_ensures(
            relay::build_raknet_pong_from_nethernet_ping,
            (ping, nether, server_id),
            r,
        ),
        !nether@.server_name.contains(';'),
        !nether@.level_name.contains(';'),
        nether@.server_name.len() <= 1300,
        nether@.level_name.len() <= 1300,
    ensures
        r is Some <==> ping@.len() >= 25 && (ping@[0] == 1 || ping@[0] == 2) && ping@.subrange(9, 25)
            == proto::OFFLINE_MAGIC@,
        r matches Some(bytes) ==> {
            let read = proto::ping_read(bytes@);
            let got = read->Ok_0.pong;
            &&& bytes@[0] == 0x1c
            &&& bytes@.subrange(1, 9) == ping@.subrange(1, 9)
            &&& bytes@.subrange(9, 17) == raknet::be64(server_id)
            &&& bytes@.subrange(17, 33) == ping@.subrange(9, 25)
            &&& read is Ok
            &&& got[0] == "MCPE"@
            &&& got[1] == (if text::is_blank(nether@.server_name) {
                "phantom relay"@
            } else {
                nether@.server_name
            })
            &&& text::i32_text(got[4]) == Some(
                if nether.player_count < 0 {
                    0i32
                } else {
                    nether.player_count
                },
            )
            &&& text::i32_text(got[5]) is Some
            &&& text::i32_text(got[5])->0 >= nether.max_player_count
            &&& text::i32_text(got[5])->0 >= text::i32_text(got[4])->0
            &&& text::i32_text(got[5])->0 == nether.max_player_count || text::i32_text(got[5])
                == text::i32_text(got[4])
            &&& text::integer_text(got[6], false) == Some(server_id as int)
            &&& got[7] == (if text::is_blank(nether@.level_name) {
                "relay"@
            } else {
                nether@.level_name
            })
            &&& nether.game_type == 2 ==> got[8] == "Creative"@
            &&& nether.game_type == 3 ==> got[8] == "Adventure"@
            &&& nether.game_type != 2 && nether.game_type != 3 ==> got[8] == "Survival"@
            &&& got[10] == "19132"@ && got[11] == "19133"@
        },
{
    if r is Some {
        relay::law_relay_pong_echoes_the_ping(ping@, nether@, server_id);
        relay::law_player_reads_the_servers_data(ping@, nether@, server_id);
    }
}

/// A packet has to arrive exactly where it is empty or one of the three highest bits of its first
/// byte is set.
pub proof fn law_reliable_packets(payload: &[u8], r: bool)
    requires
        call_ensures(relay::is_raknet_reliable, (payload,), r),
    ensures
        r <==> payload@.len() == 0 || payload@[0] as int / 32 != 0,
{
}

/// What comes on a player's stream is always passed on, for that player; bytes without a meaning
/// to RakNet as they are, a well-formed ping without what stands behind it.
pub proof fn law_stream_packets(player_id: u32, incoming: &[u8], r: Option<Vec<u8>>)
    requires
        call_ensures(relay_host::stream_frame, (player_id, incoming), r),
    ensures
        r is Some,
        raknet::be32_value(r->0@) == player_id,
        incoming@.len() > 0 && 0x80 <= incoming@[0] && incoming@[0] != 0xa0 && incoming@[0] != 0xc0
            ==> r->0@.skip(4) == incoming@,
        raknet::carries_ping(incoming@) ==> r->0@.skip(4) == incoming@.take(25),
{
    let payload = relay::normalized(incoming@)->0;
    relay::law_unframe_of_frame(player_id, payload);
    relay::law_unframe_of_frame(player_id, incoming@);
    relay::law_unframe_of_frame(player_id, incoming@.take(25));
}

/// What a host does with a frame: a player that left is forgotten; a NetherNet ping asks the
/// server; anything else goes the player's own way, which is opened where there is none.
pub proof fn law_frames_at_a_host<U, N>(
    h: &mut RelayHost<U, N>,
    player_id: u32,
    payload: &[u8],
    framed: Vec<u8>,
    bin: &[u8],
    step: HostStep,
)
    requires
        call_ensures(relay::frame, (player_id, payload), framed),
        bin@ == framed@,
        call_ensures(RelayHost::<U, N>::on_frame, (h, bin), step),
    ensures
        ({
            let nethernet = old(h)@.server_protocol == ServerProtocol::Nethernet;
            let ping = payload@.len() > 0 && (payload@[0] == 1 || payload@[0] == 2);
            &&& payload@.len() == 0 ==> step is Ignore && !final(h)@.sockets.dom().contains(
                player_id,
            ) && !final(h)@.streams.dom().contains(player_id)
            &&& payload@.len() > 0 ==> final(h)@ == old(h)@
            &&& nethernet && ping ==> (step matches HostStep::QueryServerData {
                player_id: id,
                payload: packet,
            } && id == player_id && packet@ == payload@)
            &&& nethernet && payload@.len() > 0 && !ping && old(h)@.streams.dom().contains(
                player_id,
            ) ==> (step matches HostStep::SendToStream { player_id: id, payload: packet } && id
                == player_id && packet@ == payload@)
            &&& nethernet && payload@.len() > 0 && !ping && !old(h)@.streams.dom().contains(
                player_id,
            ) ==> (step matches HostStep::OpenStream { player_id: id, payload: packet } && id
                == player_id && packet@ == payload@)
            &&& !nethernet && payload@.len() > 0 && old(h)@.sockets.dom().contains(player_id) ==> (
            step matches HostStep::SendToSocket { player_id: id, payload: packet } && id
                == player_id && packet@ == payload@)
            &&& !nethernet && payload@.len() > 0 && !old(h)@.sockets.dom().contains(player_id) ==> (
            step matches HostStep::OpenSocket { player_id: id, bind, remote, payload: packet } && id
                == player_id && packet@ == payload@ && remote == old(h)@.target_server && bind
                == net::wildcard_addr(remote.ipv6(), 0))
        }),
{
    relay::law_unframe_of_frame(player_id, payload@);
}

/// A ping is answered to its player from what the server says now, with the host's id; the host
/// remembers it, and keeps its players.
#[verifier::spinoff_prover]
#[verifier::rlimit(40)]
pub proof fn law_answers_of_a_host<U, N>(
    h: &mut RelayHost<U, N>,
    player_id: u32,
    ping: Vec<u8>,
    data: ServerData,
    step: HostStep,
)
    requires
        old(h)@.server_protocol == ServerProtocol::Nethernet,
        raknet::carries_ping(ping@),
        !data@.server_name.contains(';'),
        !data@.level_name.contains(';'),
        data@.server_name.len() <= 1300,
        data@.level_name.len() <= 1300,
        call_ensures(
            RelayHost::<U, N>::on_server_data,
            (h, player_id, ping, Some(data)),
            step,
        ),
    ensures
        step matches HostStep::Reply { frame } && raknet::be32_value(frame@) == player_id && ({
            let read = proto::ping_read(frame@.skip(4));
            let got = read->Ok_0;
            &&& read is Ok
            &&& got.ping_time == ping@.subrange(1, 9)
            &&& text::i32_text(got.pong[4]) == Some(
                if data.player_count < 0 {
                    0i32
                } else {
                    data.player_count
                },
            )
            &&& text::integer_text(got.pong[6], false) == Some(old(h)@.server_id as int)
        }),
        final(h)@.cached == Some(data@),
        final(h)@.sockets == old(h)@.sockets && final(h)@.streams == old(h)@.streams,
{
    assert(nethernet::data_view(Some(data)) == Some(data@));
    assert(step@ == old(h)@.data_step(player_id, ping@, Some(data@)));
    relay_host::law_player_reads_the_answer(old(h)@, player_id, ping@, data@);
}

/// While the server is silent, a ping is answered as it would be from what the server said last,
/// to the player who sent it.
#[verifier::spinoff_prover]
#[verifier::rlimit(40)]
pub proof fn law_answers_while_silent<U, N>(
    h: &mut RelayHost<U, N>,
    k: &mut RelayHost<U, N>,
    player_id: u32,
    ping: Vec<u8>,
    data: ServerData,
    silent: HostStep,
    told: HostStep,
)
    requires
        raknet::carries_ping(ping@),
        old(h)@.cached == Some(data@),
        call_ensures(RelayHost::<U, N>::on_server_data, (h, player_id, ping, None), silent),
        old(k)@.server_id == old(h)@.server_id,
        call_ensures(
            RelayHost::<U, N>::on_server_data,
            (k, player_id, ping, Some(data)),
            told,
        ),
    ensures
        silent is Reply,
        told is Reply,
        silent->frame@ == told->frame@,
        final(h)@.cached == Some(data@),
{
    assert(nethernet::data_view(Some(data)) == Some(data@));
    assert(silent@ == old(h)@.data_step(player_id, ping@, None));
    assert(told@ == old(k)@.data_step(player_id, ping@, Some(data@)));
    assert(old(h)@.answer_data(None) == data@);
    assert(old(k)@.answer_data(Some(data@)) == data@);
}

/// A way to the server that was opened for a packet takes it and the next; a host without a socket
/// ends, one without a stream goes on without the packet.
pub proof fn law_opened_ways<U, N>(
    h: &mut RelayHost<U, N>,
    k: &mut RelayHost<U, N>,
    player_id: u32,
    payload: Vec<u8>,
    socket: Option<U>,
    stream: Option<N>,
    first: HostStep,
    second: HostStep,
)
    requires
        call_ensures(RelayHost::<U, N>::socket_opened, (h, player_id, payload, socket), first),
        *old(k) == *final(h),
        call_ensures(RelayHost::<U, N>::stream_opened, (k, player_id, payload, stream), second),
    ensures
        socket is None ==> first is EndRun && final(h)@ == old(h)@,
        socket is Some ==> (first matches HostStep::SendToSocket { player_id: id, payload: packet }
            && id == player_id && packet@ == payload@) && final(h)@.sockets.dom().contains(
            player_id,
        ) && final(h)@.sockets[player_id] == socket->0,
        stream is None ==> second is Ignore && final(k)@ == old(k)@,
        stream is Some ==> (second matches HostStep::SendToStream {
            player_id: id,
            payload: packet,
        } && id == player_id && packet@ == payload@) && final(k)@.streams.dom().contains(player_id)
            && final(k)@.streams[player_id] == stream->0,
{
}

/// A host connects to its room as a host, and after a second again, with the same id and the same
/// address, and without the players and the data of the connection before.
pub proof fn law_connecting_again<U, N>(
    config: RelayHostConfig,
    server_id: u64,
    made: RelayHost<U, N>,
    h: &mut RelayHost<U, N>,
    k: &mut RelayHost<U, N>,
    url: String,
    again: Reconnect,
    player_id: u32,
)
    requires
        call_ensures(RelayHost::<U, N>::with_server_id, (config, server_id), made),
        *old(h) == made,
        call_ensures(RelayHost::<U, N>::connect, (h,), url),
        old(k)@.relay_url == final(h)@.relay_url,
        old(k)@.room == final(h)@.room,
        call_ensures(RelayHost::<U, N>::connection_ended, (k,), again),
    ensures
        made@.server_id == server_id,
        made@.target_server == config.target_server,
        made@.server_protocol == config.server_protocol,
        url@ == relay::ws_url(config.relay_url@, "host"@, config.room@),
        again.url@ == url@,
        again.delay_secs == 1,
        !final(k)@.sockets.dom().contains(player_id) && !final(k)@.streams.dom().contains(player_id),
        final(k)@.cached is None,
        final(k)@.server_id == old(k)@.server_id,
{
}

/// A packet of a port without a tunnel asks for one in the player's room and goes along; one of a
/// port with a tunnel goes into it. Neither is changed.
pub proof fn law_packets_of_clients<T>(
    p: &mut RelayPlayer<T>,
    addr: SocketAddr,
    payload: Vec<u8>,
    step: PlayerStep,
)
    requires
        old(p)@.well_formed(),
        call_ensures(RelayPlayer::<T>::on_packet, (p, addr, payload), step),
    ensures
        old(p)@.tunnels.dom().contains(addr.port_number()) ==> (step matches PlayerStep::Send {
            port,
            payload: packet,
        } && port == addr.port_number() && packet@ == payload@),
        !old(p)@.tunnels.dom().contains(addr.port_number()) ==> (
        step matches PlayerStep::OpenTunnel { url, payload: packet } && packet@ == payload@ && url@
            == relay::ws_url(old(p)@.relay_url, "player"@, old(p)@.room)) && final(p)@ == old(p)@,
        final(p)@.tunnels.dom() == old(p)@.tunnels.dom(),
        old(p)@.tunnels.dom().contains(addr.port_number()) ==> final(p)@.tunnels[addr.port_number()].endpoints.contains(addr) && final(p)@.tunnels[addr.port_number()].handle == old(p)@.tunnels[addr.port_number()].handle,
{
    let port = addr.port_number();
    if old(p)@.tunnels.dom().contains(port) {
        relay_player::law_endpoints_are_well_kept(old(p)@.tunnels[port].endpoints, addr);
        assert(final(p)@.tunnels.dom() =~= old(p)@.tunnels.dom());
    }
}

/// A tunnel that was opened for a client's packet takes it; what comes through goes unchanged to
/// that client, and once the client was heard from another address, to both.
#[verifier::spinoff_prover]
#[verifier::rlimit(40)]
pub proof fn law_packets_through_a_tunnel<T>(
    q: &mut RelayPlayer<T>,
    s: &mut RelayPlayer<T>,
    between: &RelayPlayer<T>,
    after: &RelayPlayer<T>,
    addr: SocketAddr,
    payload: Vec<u8>,
    next: SocketAddr,
    more: Vec<u8>,
    handle: T,
    bin: &[u8],
    opened: PlayerStep,
    second: PlayerStep,
    before: Option<Delivery>,
    delivery: Option<Delivery>,
)
    requires
        next.port_number() == addr.port_number(),
        next != addr,
        old(q)@.well_formed(),
        call_ensures(
            RelayPlayer::<T>::tunnel_opened,
            (q, addr, payload, Some(handle)),
            opened,
        ),
        *between == *final(q),
        call_ensures(RelayPlayer::<T>::deliver, (between, addr.port_number(), bin), before),
        *old(s) == *final(q),
        call_ensures(RelayPlayer::<T>::on_packet, (s, next, more), second),
        *after == *final(s),
        call_ensures(RelayPlayer::<T>::deliver, (after, addr.port_number(), bin), delivery),
    ensures
        opened matches PlayerStep::Send { port, payload: packet } && port == addr.port_number()
            && packet@ == payload@,
        second matches PlayerStep::Send { port, payload: packet } && port == addr.port_number()
            && packet@ == more@,
        before matches Some(d) && d.bytes@ == bin@ && d.targets@ == seq![addr],
        delivery matches Some(d) && d.bytes@ == bin@ && d.targets@ == seq![addr, next],
{
    let heard = seq![addr];
    assert(opened@ == (relay_player::PlayerStepView::Send {
        port: addr.port_number(),
        payload: payload@,
    }));
    assert(final(q)@.tunnels[addr.port_number()].endpoints == heard);
    assert(final(s)@ == final(q)@.after_packet(next));
    assert(second@ == final(q)@.packet_step(next, more@));
    assert(heard[0] == addr);
    assert(!heard.contains(next));
    assert(relay_player::noted(heard, next) =~= seq![addr, next]);
}

/// A tunnel that is lost is given back with its client's addresses and is gone; a player that
/// cannot open one ends.
pub proof fn law_lost_tunnels<T>(
    p: &mut RelayPlayer<T>,
    q: &mut RelayPlayer<T>,
    addr: SocketAddr,
    payload: Vec<u8>,
    port: u16,
    lost: Option<Tunnel<T>>,
    step: PlayerStep,
)
    requires
        old(p)@.well_formed(),
        call_ensures(RelayPlayer::<T>::tunnel_lost, (p, port), lost),
        *old(q) == *final(p),
        call_ensures(RelayPlayer::<T>::tunnel_opened, (q, addr, payload, None), step),
    ensures
        !final(p)@.tunnels.dom().contains(port),
        lost is Some <==> old(p)@.tunnels.dom().contains(port),
        lost matches Some(tunnel) ==> tunnel.handle == old(p)@.tunnels[port].handle
            && tunnel.endpoints@ == old(p)@.tunnels[port].endpoints,
        step is EndRun,
        final(q)@ == old(q)@,
{
}

/// An address is noted once and comes last; a ninth pushes the oldest out.
pub proof fn law_noting_endpoints(e: &mut Endpoints, addr: SocketAddr, added: bool)
    requires
        relay_player::well_kept(old(e)@),
        call_ensures(Endpoints::note, (e, addr), added),
    ensures
        added <==> !old(e)@.contains(addr),
        !added ==> final(e)@ == old(e)@,
        added && old(e)@.len() < 8 ==> final(e)@ == old(e)@.push(addr),
        added && old(e)@.len() == 8 ==> final(e)@ == old(e)@.push(addr).skip(1),
        1 <= final(e)@.len() <= 8,
{
    relay_player::law_endpoints_keep_their_order(old(e)@, addr);
}

// ---- the command line ----

/// The options reach what they ask for as they were given.
pub proof fn law_planning(options: Options, r: Result<Plan, MissingOption>)
    requires
        call_ensures(Options::plan, (options,), r),
    ensures
        ({
            let host = options.direct_relay || options.relay_role == Some(RelayRole::Host);
            let player = !options.direct_relay && options.relay_role == Some(RelayRole::Player);
            let named = options.server is Some || options.server_positional is Some;
            &&& (host || player) && options.relay is None ==> (r matches Err(MissingOption::Relay))
            &&& host && options.relay is Some && !named ==> (r matches Err(MissingOption::Server))
            &&& !host && !player && !named ==> (r matches Err(MissingOption::Server))
            &&& host && options.relay is Some && named ==> (r matches Ok(
                Plan::RelayHost { relay_url, room, server, server_protocol },
            ) && relay_url@ == options.relay->0@ && room@ == options.room@ && server_protocol
                == options.server_protocol && server@ == (if options.server is Some {
                options.server->0@
            } else {
                options.server_positional->0@
            }))
            &&& player && options.relay is Some ==> (r matches Ok(Plan::RelayPlayer(config))
                && config.relay_url@ == options.relay->0@ && config.room@ == options.room@
                && config.bind_port == (if options.bind_port == 0 {
                19132
            } else {
                options.bind_port
            }))
            &&& !host && !player && named ==> (r matches Ok(Plan::Proxy(prefs))
                && prefs.bind_address@ == options.bind@ && prefs.bind_port == options.bind_port
                && prefs.remote_server@ == (if options.server is Some {
                options.server->0@
            } else {
                options.server_positional->0@
            }) && prefs.server_protocol == options.server_protocol && prefs.idle_timeout
                == options.timeout * 1_000_000_000 && prefs.enable_ipv6 == options.ipv6
                && prefs.remove_ports == options.remove_ports && prefs.num_workers
                == options.workers)
        }),
{
    cli::law_missing_options(options);
    let host = options.direct_relay || options.relay_role == Some(RelayRole::Host);
    let player = !options.direct_relay && options.relay_role == Some(RelayRole::Player);
    let named = options.server is Some || options.server_positional is Some;
    match options.relay_role {
        Some(RelayRole::Host) => {},
        Some(RelayRole::Player) => {},
        None => {},
    }
    if !host && !player && named {
        cli::law_options_reach_the_proxy(options);
    }
    if host && options.relay is Some && named {
        cli::law_options_reach_the_host(options);
    }
    if player && options.relay is Some {
        cli::law_options_reach_the_player(options);
    }
}

/// Each argument keeps its place; only a flag with a single dash changes, by a second dash.
pub proof fn law_normalizing_arguments(
    args: Vec<Option<String>>,
    r: Vec<Option<String>>,
    i: int,
)
    requires
        call_ensures(cli::normalize_legacy_args, (args,), r),
        0 <= i < args@.len(),
    ensures
        r@.len() == args@.len(),
        args@[i] is None <==> r@[i] is None,
        args@[i] is Some ==> r@[i]->0@ == args@[i]->0@ || r@[i]->0@ == seq!['-'] + args@[i]->0@,
        args@[i] is Some && args@[i]->0@ == "-server"@ ==> r@[i]->0@ == "--server"@,
        args@[i] is Some && args@[i]->0@ == "--server"@ ==> r@[i]->0@ == "--server"@,
{
    assert(cli::arg_view(r@[i]) == (match cli::arg_view(args@[i]) {
        Some(arg) => Some(cli::normalized_arg(arg)),
        None => None,
    }));
    if args@[i] is Some {
        let arg = args@[i]->0@;
        cli::law_what_normalizing_changes(arg);
        reveal_strlit("-server");
        reveal_strlit("--server");
        assert(seq!['-'] + "-server"@ =~= "--server"@);
        cli::law_normalizing_twice("-server"@);
        cli::law_what_normalizing_changes("-server"@);
    }
}

/// A server's address is the first that was found for its text; a RakNet server without a port is
/// refused before that.
pub proof fn law_resolving_a_server(
    input: &str,
    protocol: ServerProtocol,
    found: Result<Vec<SocketAddr>, String>,
    target: Option<String>,
    r: Result<SocketAddr, String>,
)
    requires
        call_ensures(cli::lookup_text, (input, protocol), target),
        call_ensures(cli::resolve_socket_addr, (input, protocol, found), r),
    ensures
        ({
            let portless = !input@.contains(':');
            &&& !portless ==> (target matches Some(t) && t@ == input@)
            &&& portless && protocol == ServerProtocol::Nethernet ==> (target matches Some(t) && t@
                == input@ + ":19132"@)
            &&& portless && protocol == ServerProtocol::Raknet ==> target is None && (r matches Err(
                e,
            ) && e@ == "expected host:port"@)
            &&& target is Some && found is Err ==> (r matches Err(e) && e@ == found->Err_0@)
            &&& target is Some && found is Ok && found->Ok_0@.len() == 0 ==> (r matches Err(e) && e@
                == "could not resolve address"@)
            &&& target is Some && found is Ok && found->Ok_0@.len() > 0 ==> (r matches Ok(addr)
                && addr == found->Ok_0@[0])
        }),
{
    cli::law_what_is_looked_up(input@, protocol);
}

/// What is looked up for the proxy's own address is the address that was asked for, with the port
/// that was asked for.
pub proof fn law_own_address(prefs: &ProxyPrefs, r: String)
    requires
        call_ensures(ProxyPrefs::bind_target, (prefs,), r),
    ensures
        ({
            let n = prefs.bind_address@.len() as int;
            &&& r@.len() > n
            &&& r@.take(n) == prefs.bind_address@
            &&& r@[n] == ':'
            &&& text::integer_text(r@.skip(n + 1), false) == Some(prefs.bind_port as int)
        }),
{
    let n = prefs.bind_address@.len() as int;
    let port = text::decimal(prefs.bind_port as nat);
    text::law_read_of_decimal(prefs.bind_port as nat);
    assert(r@.take(n) =~= prefs.bind_address@);
    assert(r@.skip(n + 1) =~= port);
}

/// A proxy that was just made is open and tells the addresses that it was made with.
pub proof fn law_asking_a_proxy<S, E>(
    prefs: ProxyPrefs,
    bind_found: Result<Vec<SocketAddr>, E>,
    remote_found: Result<Vec<SocketAddr>, E>,
    made: Result<ProxyServer<S>, AddressError<E>>,
    p: &ProxyServer<S>,
    dead: bool,
    own: SocketAddr,
    remote: SocketAddr,
    socket: Option<&S>,
)
    requires
        call_ensures(ProxyServer::<S>::new::<E>, (prefs, bind_found, remote_found), made),
        made matches Ok(proxy) && *p == proxy,
        call_ensures(ProxyServer::<S>::is_dead, (p,), dead),
        call_ensures(ProxyServer::<S>::bind_address, (p,), own),
        call_ensures(ProxyServer::<S>::remote_server_address, (p,), remote),
        call_ensures(ProxyServer::<S>::server_socket, (p,), socket),
    ensures
        !dead,
        own.renumbered(bind_found->Ok_0@[0].port_number()) == bind_found->Ok_0@[0],
        prefs.bind_port != 0 ==> own.port_number() == prefs.bind_port,
        remote == remote_found->Ok_0@[0],
        socket is None,
{
    proxy::law_proxy_as_made::<S, E>(
        prefs@,
        bind_found,
        remote_found,
        p@.bound_port,
        p@.server_id,
        own,
    );
}

/// The socket that clients talk to is the one that was bound for them, until the proxy is closed.
pub proof fn law_serving_socket<S>(
    p: &mut ProxyServer<S>,
    q: &mut ProxyServer<S>,
    between: &ProxyServer<S>,
    after: &ProxyServer<S>,
    listener: proxy::Listener,
    bound: S,
    progress: StartProgress,
    open: Option<&S>,
    closed: Option<&S>,
    dead: bool,
)
    requires
        old(p).wf(),
        call_ensures(
            ProxyServer::<S>::on_start_step,
            (p, StartStep::BindServer(listener), Some(bound)),
            progress,
        ),
        *between == *final(p),
        call_ensures(ProxyServer::<S>::server_socket, (between,), open),
        *old(q) == *final(p),
        call_ensures(ProxyServer::<S>::close, (q,), ()),
        *after == *final(q),
        call_ensures(ProxyServer::<S>::server_socket, (after,), closed),
        call_ensures(ProxyServer::<S>::is_dead, (after,), dead),
    ensures
        open == Some(&bound),
        closed is None,
        dead,
{
}

/// A socket is made for its address, shared, and bound to it; only an IPv6 socket is told whether
/// to take IPv6 alone, and one that is to give up reading does so after a second.
pub proof fn law_binding_a_socket(listener: &proxy::Listener, steps: Vec<proxy::SocketStep>)
    requires
        call_ensures(proxy::Listener::bind_reusable_socket, (listener,), steps),
    ensures
        ({
            let v6 = listener.addr is V6;
            let at = if v6 { 3int } else { 2int };
            &&& steps@.len() == at + 1 + (if listener.with_timeout { 1int } else { 0 })
            &&& steps@[0] == (proxy::SocketStep::Create { ipv6: v6 })
            &&& steps@[1] == proxy::SocketStep::ReuseAddress
            &&& v6 ==> steps@[2] == proxy::SocketStep::OnlyV6(listener.v6_only)
            &&& steps@[at] == proxy::SocketStep::Bind(listener.addr)
            &&& listener.with_timeout ==> steps@[at + 1] == proxy::SocketStep::ReadTimeout(1)
        }),
{
    proxy::law_how_a_socket_is_bound(*listener);
}

/// Whatever comes from the server lifts the wait for its answer; only a failure does not.
pub proof fn law_lifting_the_read_timeout<S>(
    p: &mut ProxyServer<S>,
    client: SocketAddr,
    received: Result<Vec<u8>, RecvFailure>,
    step: ServerStep,
    lifts: bool,
)
    requires
        old(p).wf(),
        call_ensures(ProxyServer::<S>::process_data_from_server, (p, client, received), step),
        call_ensures(ServerStep::lifts_read_timeout, (&step,), lifts),
    ensures
        lifts <==> received is Ok,
{
}

/// A map tells its times and whether it was closed; a closed one ends the clean-up.
pub proof fn law_asking_a_client_map<C>(
    idle_timeout: u128,
    interval: u128,
    made: ClientMap<C>,
    m: &mut ClientMap<C>,
    n: &mut ClientMap<C>,
    after: &ClientMap<C>,
    now: u128,
    told: u128,
    open: bool,
    closed: bool,
    step: CleanupStep,
)
    requires
        call_ensures(ClientMap::<C>::new, (idle_timeout, interval), made),
        call_ensures(ClientMap::<C>::idle_check_interval, (&made,), told),
        call_ensures(ClientMap::<C>::is_closed, (&made,), open),
        *old(m) == made,
        call_ensures(ClientMap::<C>::close, (m,), ()),
        *after == *final(m),
        call_ensures(ClientMap::<C>::is_closed, (after,), closed),
        *old(n) == *final(m),
        call_ensures(ClientMap::<C>::idle_cleanup, (n, now), step),
    ensures
        told == interval,
        !open,
        closed,
        step is Stop,
{
}

/// A client of a map gets a connection to the remote address it asks for, from any local address
/// of its family, and then keeps it.
pub proof fn law_connecting_in_a_client_map<C>(
    m: &mut ClientMap<C>,
    n: &mut ClientMap<C>,
    k: &mut ClientMap<C>,
    after: &ClientMap<C>,
    client: SocketAddr,
    remote: SocketAddr,
    conn: C,
    now: u128,
    later: u128,
    first: ConnectionStep,
    second: ConnectionStep,
    found: Option<&C>,
)
    requires
        old(m).wf(),
        !old(m)@.clients.contains_key(client),
        call_ensures(ClientMap::<C>::get_or_create, (m, client, remote, now), first),
        *old(n) == *final(m),
        call_ensures(ClientMap::<C>::insert, (n, client, conn, now), ()),
        *old(k) == *final(n),
        call_ensures(ClientMap::<C>::get_or_create, (k, client, remote, later), second),
        *after == *final(k),
        call_ensures(ClientMap::<C>::connection, (after, client), found),
    ensures
        first matches ConnectionStep::Open { bind, remote: to } && to == remote && bind.ipv6()
            == remote.ipv6() && bind.port_number() == 0,
        second == ConnectionStep::Reuse,
        found == Some(&conn),
        final(k)@.clients[client].last_active == later,
{
}

/// A host tells its server and its protocol as they were set, and a player's socket or stream until
/// it is lost, which costs no other player theirs.
pub proof fn law_asking_a_host<U, N>(
    config: RelayHostConfig,
    server_id: u64,
    made: RelayHost<U, N>,
    h: &mut RelayHost<U, N>,
    k: &mut RelayHost<U, N>,
    l: &mut RelayHost<U, N>,
    between: &RelayHost<U, N>,
    after: &RelayHost<U, N>,
    player_id: u32,
    other: u32,
    payload: Vec<u8>,
    socket: U,
    step: HostStep,
    server: SocketAddr,
    protocol: ServerProtocol,
    found: Option<&U>,
    lost: Option<&U>,
    stream: Option<&N>,
)
    requires
        player_id != other,
        call_ensures(RelayHost::<U, N>::with_server_id, (config, server_id), made),
        call_ensures(RelayHost::<U, N>::target_server, (&made,), server),
        call_ensures(RelayHost::<U, N>::server_protocol, (&made,), protocol),
        call_ensures(RelayHost::<U, N>::stream, (&made, player_id), stream),
        *old(h) == made,
        call_ensures(
            RelayHost::<U, N>::socket_opened,
            (h, player_id, payload, Some(socket)),
            step,
        ),
        *between == *final(h),
        call_ensures(RelayHost::<U, N>::socket, (between, player_id), found),
        *old(k) == *final(h),
        call_ensures(RelayHost::<U, N>::socket_lost, (k, other), ()),
        *old(l) == *final(k),
        call_ensures(RelayHost::<U, N>::socket_lost, (l, player_id), ()),
        *after == *final(l),
        call_ensures(RelayHost::<U, N>::socket, (after, player_id), lost),
    ensures
        server == config.target_server,
        protocol == config.server_protocol,
        stream is None,
        found == Some(&socket),
        final(k)@.sockets[player_id] == socket && final(k)@.sockets.dom().contains(player_id),
        lost is None,
{
}

/// A player's stream is there until it is lost, which costs no other player theirs.
pub proof fn law_streams_of_a_host<U, N>(
    h: &mut RelayHost<U, N>,
    k: &mut RelayHost<U, N>,
    l: &mut RelayHost<U, N>,
    between: &RelayHost<U, N>,
    after: &RelayHost<U, N>,
    player_id: u32,
    other: u32,
    payload: Vec<u8>,
    stream: N,
    step: HostStep,
    found: Option<&N>,
    lost: Option<&N>,
)
    requires
        player_id != other,
        call_ensures(
            RelayHost::<U, N>::stream_opened,
            (h, player_id, payload, Some(stream)),
            step,
        ),
        *old(k) == *final(h),
        call_ensures(RelayHost::<U, N>::stream_lost, (k, other), ()),
        *between == *final(k),
        call_ensures(RelayHost::<U, N>::stream, (between, player_id), found),
        *old(l) == *final(k),
        call_ensures(RelayHost::<U, N>::stream_lost, (l, player_id), ()),
        *after == *final(l),
        call_ensures(RelayHost::<U, N>::stream, (after, player_id), lost),
    ensures
        found == Some(&stream),
        lost is None,
        final(l)@.sockets == old(h)@.sockets,
{
}

/// A player listens on its port on every local address, and has a tunnel of a port from its opening
/// on.
pub proof fn law_asking_a_player<T>(
    config: RelayPlayerConfig,
    made: RelayPlayer<T>,
    p: &mut RelayPlayer<T>,
    after: &RelayPlayer<T>,
    addr: SocketAddr,
    payload: Vec<u8>,
    handle: T,
    step: PlayerStep,
    listening: SocketAddr,
    before: Option<&T>,
    found: Option<&T>,
)
    requires
        call_ensures(RelayPlayer::<T>::new, (config,), made),
        call_ensures(RelayPlayer::<T>::bind_address, (&made,), listening),
        call_ensures(RelayPlayer::<T>::tunnel, (&made, addr.port_number()), before),
        *old(p) == made,
        call_ensures(
            RelayPlayer::<T>::tunnel_opened,
            (p, addr, payload, Some(handle)),
            step,
        ),
        *after == *final(p),
        call_ensures(RelayPlayer::<T>::tunnel, (after, addr.port_number()), found),
    ensures
        listening == (SocketAddr::V4 { ip: 0, port: config.bind_port }),
        before is None,
        found == Some(&handle),
{
}

/// What the user is told names what is missing, or the server and the reason why it was refused.
pub proof fn law_messages(
    missing: &MissingOption,
    question: &str,
    server: &str,
    reason: &str,
    message: String,
)
    requires
        call_ensures(MissingOption::question, (missing,), question),
        call_ensures(cli::invalid_server_message, (server, reason), message),
    ensures
        *missing == MissingOption::Relay ==> question@ == "Did you forget --relay?"@,
        *missing == MissingOption::Server ==> question@ == "Did you forget --server?"@,
        message@
            == "invalid --server value. expected host:port or host (for nethernet), got "@ + server@
            + ": "@ + reason@,
{
}

// ---- texts ----

/// Texts are taken apart and put together character by character, and are the same where all their
/// characters are.
pub proof fn law_characters_of_texts(
    s: &str,
    chars: Vec<char>,
    back: String,
    other: &str,
    same: bool,
    c: char,
    holds: bool,
)
    requires
        call_ensures(text::chars_of, (s,), chars),
        call_ensures(text::string_of, (&chars,), back),
        call_ensures(text::str_eq, (s, other), same),
        call_ensures(text::str_contains_char, (s, c), holds),
    ensures
        back@ == s@,
        chars@ == s@,
        same <==> s@.len() == other@.len() && forall|i: int|
            0 <= i < s@.len() ==> #[trigger] s@[i] == other@[i],
        holds <==> exists|i: int| 0 <= i < s@.len() && #[trigger] s@[i] == c,
{
    if s@.len() == other@.len() && forall|i: int|
        0 <= i < s@.len() ==> #[trigger] s@[i] == other@[i] {
        assert(s@ =~= other@);
    }
}

/// Splitting a text and joining the pieces gives back the text. A piece holds no separator, and
/// each separator adds a piece.
pub proof fn law_splitting_and_joining(s: &str, sep: char, pieces: Vec<String>, whole: String)
    requires
        call_ensures(text::split_str, (s, sep), pieces),
        call_ensures(text::join_strings, (&pieces, sep), whole),
    ensures
        whole@ == s@,
        pieces@.len() >= 1,
        forall|i: int| 0 <= i < pieces@.len() ==> !(#[trigger] pieces@[i])@.contains(sep),
{
    let split = text::split(s@, sep);
    text::law_pieces_make_up_the_text(s@, sep);
    assert(text::views(pieces@) == split);
    assert forall|i: int| 0 <= i < pieces@.len() implies !(#[trigger] pieces@[i])@.contains(
        sep,
    ) by {
        assert(split[i] == pieces@[i]@);
        assert forall|k: int| 0 <= k < split[i].len() implies split[i][k] != sep by {}
    }
}

/// Trimming cuts off every such character at the end of the text and none before.
pub proof fn law_trimming(s: &str, c: char, out: String)
    requires
        call_ensures(text::trim_end_char, (s, c), out),
    ensures
        out@.len() <= s@.len(),
        out@ == s@.take(out@.len() as int),
        forall|i: int| out@.len() <= i < s@.len() ==> #[trigger] s@[i] == c,
        out@.len() > 0 ==> out@[out@.len() - 1] != c,
{
    text::law_trim_end_cuts_the_whole_run(s@, c);
    assert(out@ =~= s@.take(out@.len() as int));
}

/// A text is found at the first place where its characters stand in a row, and is contained
/// exactly where it is found.
pub proof fn law_finding_texts(
    s: Vec<char>,
    pat: Vec<char>,
    at: Option<usize>,
    line: &str,
    word: &str,
    found: bool,
)
    requires
        line@ == s@,
        word@ == pat@,
        call_ensures(text::find_chars, (&s, &pat), at),
        call_ensures(text::str_contains, (line, word), found),
    ensures
        found <==> at is Some,
        at is Some ==> at->0 + pat@.len() <= s@.len() && s@.subrange(
            at->0 as int,
            at->0 + pat@.len(),
        ) == pat@,
        forall|i: int|
            0 <= i && i + pat@.len() <= s@.len() && #[trigger] s@.subrange(i, i + pat@.len())
                == pat@ ==> at is Some && at->0 <= i,
{
    assert forall|i: int|
        0 <= i && i + pat@.len() <= s@.len() && #[trigger] s@.subrange(i, i + pat@.len())
            == pat@ implies at is Some && at->0 <= i by {
        assert(text::occurs_at(s@, pat@, i));
    }
    if at is Some {
        assert(text::occurs_at(s@, pat@, at->0 as int));
    }
}

/// Capital ASCII letters become the small letter 32 places on, and all else stays. A text is blank
/// exactly where all its characters are white space.
pub proof fn law_letters_and_blanks(s: &str, lower: String, blank: bool)
    requires
        call_ensures(text::to_ascii_lowercase, (s,), lower),
        call_ensures(text::str_is_blank, (s,), blank),
    ensures
        lower@.len() == s@.len(),
        forall|i: int|
            0 <= i < s@.len() ==> (#[trigger] lower@[i]) as u32 == (if 'A' <= s@[i] && s@[i]
                <= 'Z' {
                s@[i] as u32 + 32
            } else {
                s@[i] as u32 as int
            }),
        blank <==> forall|i: int| 0 <= i < s@.len() ==> text::is_white_space(#[trigger] s@[i]),
{
    assert forall|i: int| 0 <= i < s@.len() implies (#[trigger] lower@[i]) as u32 == (if 'A'
        <= s@[i] && s@[i] <= 'Z' {
        s@[i] as u32 + 32
    } else {
        s@[i] as u32 as int
    }) by {
        text::law_ascii_lowercase_of_each_character(s@, i);
    }
}

/// A number is written with digits alone and is read back from them. A text that stands for a
/// number out of range is refused.
pub proof fn law_numbers_as_texts(
    n: u64,
    out: String,
    written: &str,
    whole: Option<i32>,
    small: Option<u8>,
    default: i32,
    or: i32,
)
    requires
        call_ensures(text::decimal_string, (n,), out),
        written@ == out@,
        call_ensures(text::parse_i32, (written,), whole),
        call_ensures(text::parse_u8, (written,), small),
        call_ensures(nethernet::parse_i32_or_default, (written, default), or),
    ensures
        forall|i: int| 0 <= i < out@.len() ==> '0' <= #[trigger] out@[i] && out@[i] <= '9',
        out@.len() > 1 ==> out@[0] != '0',
        n < 2147483648 ==> whole == Some(n as i32) && or == n,
        n >= 2147483648 ==> whole is None && or == default,
        n < 256 ==> small == Some(n as u8),
        n >= 256 ==> small is None,
{
    text::law_decimal_denotes_its_number(n as nat);
    text::law_decimal_has_no_leading_zero(n as nat);
    text::law_read_of_decimal(n as nat);
    text::law_numbers_in_range(out@);
    assert forall|i: int| 0 <= i < out@.len() implies '0' <= #[trigger] out@[i] && out@[i]
        <= '9' by {
        assert(text::is_digit(out@[i]));
    }
}

/// Whatever a text holds, the number that is read from it is the one it stands for, and the
/// default counts exactly where it stands for none.
pub proof fn law_default_numbers(s: &str, whole: Option<i32>, default: i32, or: i32)
    requires
        call_ensures(text::parse_i32, (s,), whole),
        call_ensures(nethernet::parse_i32_or_default, (s, default), or),
    ensures
        whole is Some ==> or == whole->0 && text::integer_text(s@, true) == Some(whole->0 as int),
        whole is None ==> or == default,
{
    text::law_numbers_in_range(s@);
}

// ---- advertisements ----

/// The text of an advertisement is read back to the same twelve fields, whether it was written for
/// sending or for showing, where no field holds the separator.
pub proof fn law_texts_of_advertisements(
    pong: &PongData,
    sent: String,
    shown: String,
    sent_text: &str,
    shown_text: &str,
    read: PongData,
    seen: PongData,
)
    requires
        proto::separator_free(pong@),
        call_ensures(proto::write_pong, (pong,), sent),
        call_ensures(PongData::to_string, (pong,), shown),
        sent_text@ == sent@,
        shown_text@ == shown@,
        call_ensures(proto::read_pong, (sent_text,), read),
        call_ensures(proto::read_pong, (shown_text,), seen),
    ensures
        read@ == pong@,
        seen@ == pong@,
        read.motd@ == pong.motd@,
        read.players@ == pong.players@,
        read.max_players@ == pong.max_players@,
        read.port4@ == pong.port4@,
        read.port6@ == pong.port6@,
        sent@.len() > 0 && sent@[sent@.len() - 1] == ';',
        shown@.len() > 0 && shown@[shown@.len() - 1] == ';',
        sent@.len() > 1 ==> sent@[sent@.len() - 2] != ';',
        sent@.len() <= shown@.len(),
{
    proto::law_read_of_written_fields(pong@);
    proto::law_read_of_displayed_fields(pong@);
    proto::law_text_of_fields(pong@);
    assert(read@[1] == pong@[1] && read@[4] == pong@[4] && read@[5] == pong@[5]);
    assert(read@[10] == pong@[10] && read@[11] == pong@[11]);
}

/// A field of a text is the piece with its number, and empty past the last.
pub proof fn law_pieces_by_number(parts: Vec<String>, idx: usize, r: String)
    requires
        call_ensures(proto::part, (&parts, idx), r),
    ensures
        idx < parts@.len() ==> r@ == parts@[idx as int]@,
        idx >= parts@.len() ==> r@.len() == 0,
{
}

/// Bytes are taken out of a packet as they stand.
pub proof fn law_bytes_taken_out(
    input: &[u8],
    at: usize,
    eight: [u8; 8],
    sixteen: [u8; 16],
    i: int,
)
    requires
        at + 16 <= input@.len(),
        call_ensures(proto::bytes8, (input, at), eight),
        call_ensures(proto::bytes16, (input, at), sixteen),
        0 <= i < 16,
    ensures
        i < 8 ==> eight@[i] == input@[at + i],
        sixteen@[i] == input@[at + i],
{
}

/// The pong of a server that is offline is a packet that a console reads: nobody plays, nobody can,
/// and the name says why.
pub proof fn law_offline_advertisement(
    out: Vec<u8>,
    input: &[u8],
    r: Result<UnconnectedPing, String>,
)
    requires
        call_ensures(proto::offline_pong, (), out),
        input@ == out@,
        call_ensures(proto::read_unconnected_ping, (input,), r),
    ensures
        out@[0] == 0x1c,
        out@.subrange(17, 21) == seq![0u8, 0xff, 0xff, 0],
        r matches Ok(read) && read.pong.edition@ == "MCPE"@ && read.pong.motd@
            == "phantom §cServer offline"@ && read.pong.protocol_version@ == "390"@
            && read.pong.version@ == "1.14.60"@ && read.pong.players@ == "0"@
            && read.pong.max_players@ == "0"@ && read.pong.server_id@ == ""@
            && read.pong.sub_motd@ == ""@ && read.pong.game_type@ == "Creative"@
            && read.pong.nintendo_limited@ == "1"@ && read.pong.port4@ == ""@ && read.pong.port6@
            == ""@,
{
    let packet = proto::offline_packet();
    proto::law_offline_pong_is_readable();
    assert(proto::ping_read(out@) == Ok::<proto::PingView, Seq<char>>(packet));
    assert(out@.subrange(17, 21) =~= seq![0u8, 0xff, 0xff, 0]);
    let read = r->Ok_0;
    assert(read@ == packet);
    assert(read.pong@ == packet.pong);
    assert(read.pong@[0] == packet.pong[0] && read.pong@[1] == packet.pong[1]);
    assert(read.pong@[2] == packet.pong[2] && read.pong@[3] == packet.pong[3]);
    assert(read.pong@[4] == packet.pong[4] && read.pong@[5] == packet.pong[5]);
    assert(read.pong@[6] == packet.pong[6] && read.pong@[7] == packet.pong[7]);
    assert(read.pong@[8] == packet.pong[8] && read.pong@[9] == packet.pong[9]);
    assert(read.pong@[10] == packet.pong[10] && read.pong@[11] == packet.pong[11]);
}

/// A text that shows something stays as it is, and the default takes the place of any other.
pub proof fn law_default_texts(value: &str, default: &str, blank: bool, r: String)
    requires
        call_ensures(text::str_is_blank, (value,), blank),
        call_ensures(nethernet::fallback_string, (value, default), r),
    ensures
        r@ == (if blank {
            default@
        } else {
            value@
        }),
{
}

/// A game type is advertised under its name: a number names itself, and a name is found again under
/// the number that it was given.
pub proof fn law_naming_game_types(
    input: &str,
    number: u8,
    name: &'static str,
    small: Option<u8>,
    again: u8,
)
    requires
        call_ensures(nethernet::map_game_type, (input,), number),
        call_ensures(nethernet::game_type_name, (number,), name),
        call_ensures(text::parse_u8, (input,), small),
        call_ensures(nethernet::map_game_type, (name,), again),
    ensures
        small is Some ==> number == small->0,
        small is None ==> number == 1 || number == 2 || number == 3,
        small is None ==> (number == 2 <==> text::contains_text(
            text::ascii_lowercase(input@),
            "creative"@,
        )),
        name@ == (if number == 2 {
            "Creative"@
        } else if number == 3 {
            "Adventure"@
        } else {
            "Survival"@
        }),
        1 <= number <= 3 ==> again == number,
{
    if small is None {
        nethernet::law_game_type_by_name(input@);
    }
    nethernet::law_game_types_are_told_apart(number, number);
    reveal_strlit("Creative");
    reveal_strlit("Adventure");
    reveal_strlit("Survival");
    reveal_strlit("creative");
    reveal_strlit("adventure");
    let lower = text::ascii_lowercase(name@);
    text::law_texts_of_numbers(seq!['0'], name@, false);
    text::law_numbers_in_range(name@);
    assert(text::u8_text(name@) is None);
    if number == 2 {
        assert(lower =~= "creative"@);
        assert(text::occurs_at(lower, "creative"@, 0)) by {
            assert(lower.subrange(0, 8) =~= "creative"@);
        }
    } else if number == 3 {
        assert(lower =~= "adventure"@);
        assert(text::occurs_at(lower, "adventure"@, 0)) by {
            assert(lower.subrange(0, 9) =~= "adventure"@);
        }
        assert forall|i: int| !#[trigger] text::occurs_at(lower, "creative"@, i) by {
            if text::occurs_at(lower, "creative"@, i) {
                assert(lower.subrange(i, i + 8)[0] == 'c');
            }
        }
    } else if number == 1 {
        assert(lower[0] == 's');
        assert forall|i: int| !#[trigger] text::occurs_at(lower, "creative"@, i) by {
            if text::occurs_at(lower, "creative"@, i) {
                assert(lower.subrange(i, i + 8)[0] == 'c');
            }
        }
    }
}

/// The first answer that came counts, and a copy of it says the same.
pub proof fn law_first_of_the_answers(
    answers: Vec<Option<ServerData>>,
    r: Option<ServerData>,
    copy: Option<ServerData>,
)
    requires
        call_ensures(nethernet::first_server_data, (&answers,), r),
        call_ensures(nethernet::clone_data, (&r,), copy),
    ensures
        r is None <==> forall|i: int| 0 <= i < answers@.len() ==> (#[trigger] answers@[i]) is None,
        r is Some ==> exists|i: int|
            {
                &&& 0 <= i < answers@.len()
                &&& (#[trigger] answers@[i]) matches Some(data)
                &&& data@ == r->0@
                &&& forall|j: int| 0 <= j < i ==> (#[trigger] answers@[j]) is None
            },
        copy is Some <==> r is Some,
        r is Some ==> copy->0@ == r->0@,
{
    nethernet::law_first_answer_counts(answers@);
}

/// A response is read where it has an even number of characters that are all hexadecimal digits.
/// Each pair of them is one byte, with the first digit as the higher half.
pub proof fn law_bytes_of_a_response(payload: &[u8], r: Option<Vec<u8>>, i: int)
    requires
        call_ensures(nethernet::response_bytes, (payload,), r),
    ensures
        payload@.len() % 2 == 1 ==> r is None,
        0 <= i < payload@.len() && nethernet::hex_digit_value(payload@[i]) is None ==> r is None,
        payload@.len() % 2 == 0 && (forall|k: int|
            0 <= k < payload@.len() ==> (0x30 <= #[trigger] payload@[k] <= 0x39 || 0x41
                <= payload@[k] <= 0x46 || 0x61 <= payload@[k] <= 0x66)) ==> r is Some,
        r is Some ==> 2 * r->0@.len() == payload@.len(),
        r is Some && 0 <= i < r->0@.len() && 0x30 <= payload@[2 * i] <= 0x39 && 0x30 <= payload@[2
            * i + 1] <= 0x39 ==> r->0@[i] == (payload@[2 * i] - 48) * 16 + (payload@[2 * i + 1]
            - 48),
        r is Some && 0 <= i < r->0@.len() && 0x61 <= payload@[2 * i] <= 0x66 && 0x41 <= payload@[2
            * i + 1] <= 0x46 ==> r->0@[i] == (payload@[2 * i] - 87) * 16 + (payload@[2 * i + 1]
            - 55),
        r is Some && 0 <= i < r->0@.len() && 0x41 <= payload@[2 * i] <= 0x46 && 0x61 <= payload@[2
            * i + 1] <= 0x66 ==> r->0@[i] == (payload@[2 * i] - 55) * 16 + (payload@[2 * i + 1]
            - 87),
{
    if payload@.len() % 2 == 0 && (forall|k: int|
        0 <= k < payload@.len() ==> (0x30 <= #[trigger] payload@[k] <= 0x39 || 0x41 <= payload@[k]
            <= 0x46 || 0x61 <= payload@[k] <= 0x66)) {
        assert forall|k: int| 0 <= k < payload@.len() implies nethernet::hex_digit_value(
            #[trigger] payload@[k],
        ) is Some by {}
    }
}

// ---- addresses ----

/// An address under another port stays the same otherwise; one that is taken over for its address
/// alone loses what belongs to the old socket.
pub proof fn law_ports_of_addresses(
    addr: &SocketAddr,
    port: u16,
    v6: bool,
    same: SocketAddr,
    bare: SocketAddr,
    back: SocketAddr,
)
    requires
        call_ensures(SocketAddr::is_ipv6, (addr,), v6),
        call_ensures(SocketAddr::renumber, (addr, port), same),
        call_ensures(SocketAddr::with_port, (addr, port), bare),
        call_ensures(SocketAddr::renumber, (&same, addr.port_number()), back),
    ensures
        v6 <==> addr is V6,
        back == *addr,
        same.port_number() == port,
        bare.port_number() == port,
        *addr matches SocketAddr::V4 { ip, .. } ==> same == (SocketAddr::V4 { ip, port }) && bare
            == same,
        *addr matches SocketAddr::V6 { ip, flowinfo, scope_id, .. } ==> same == (SocketAddr::V6 {
            ip,
            port,
            flowinfo,
            scope_id,
        }) && bare == (SocketAddr::V6 { ip, port, flowinfo: 0, scope_id: 0 }),
{
    net::law_only_the_port_changes(*addr, port);
}

/// The address of every interface is zero in its family, under the port that was asked for.
pub proof fn law_every_interface(ipv6: bool, port: u16, r: SocketAddr)
    requires
        call_ensures(net::wildcard, (ipv6, port), r),
    ensures
        r is V6 <==> ipv6,
        r.port_number() == port,
        r matches SocketAddr::V4 { ip, .. } ==> ip == 0,
        r matches SocketAddr::V6 { ip, flowinfo, scope_id, .. } ==> ip == 0 && flowinfo == 0
            && scope_id == 0,
{
}

/// The first address that was found counts. None found is an invalid address, and an error of the
/// lookup is handed on.
pub proof fn law_first_address_found<E>(
    found: Result<Vec<SocketAddr>, E>,
    r: Result<SocketAddr, AddressError<E>>,
)
    requires
        call_ensures(net::resolve_addr::<E>, (found,), r),
    ensures
        found is Ok && found->Ok_0@.len() > 0 ==> r is Ok && r->Ok_0 == found->Ok_0@[0],
        found is Ok && found->Ok_0@.len() == 0 ==> r is Err && r->Err_0 is Invalid,
        found is Err ==> r is Err && r->Err_0 is Lookup && (r->Err_0)->Lookup_0 == found->Err_0,
{
}

// ---- parts of the proxy and of the relay ----

/// A port that the user asked for is kept, and a drawn one stands in for none.
pub proof fn law_drawn_ports(prefs: ProxyPrefs, drawn: u16, r: ProxyPrefs)
    requires
        call_ensures(ProxyPrefs::with_bind_port, (prefs, drawn), r),
    ensures
        r@.bind_port == (if prefs@.bind_port == 0 {
            drawn
        } else {
            prefs@.bind_port
        }),
        r@.bind_address == prefs@.bind_address,
        r@.remote_server == prefs@.remote_server,
        r@.server_protocol == prefs@.server_protocol,
        r@.idle_timeout == prefs@.idle_timeout,
        r@.enable_ipv6 == prefs@.enable_ipv6,
        r@.remove_ports == prefs@.remove_ports,
{
    proxy::law_asked_port_is_kept(prefs@, drawn);
}

/// The larger of two numbers is one of them and not below the other.
pub proof fn law_larger_number(a: i32, b: i32, r: i32)
    requires
        call_ensures(proxy::max_i32, (a, b), r),
    ensures
        r == a || r == b,
        r >= a,
        r >= b,
{
}

/// A message in small letters tells that the server is offline exactly where it speaks of a timeout
/// or of a refused connection.
pub proof fn law_messages_that_tell_offline(
    lower: &str,
    r: bool,
    late: &str,
    refused: &str,
    is_late: bool,
    is_refused: bool,
)
    requires
        call_ensures(proxy::message_tells_offline, (lower,), r),
        late@ == "timeout"@,
        refused@ == "connection refused"@,
        call_ensures(text::str_contains, (lower, late), is_late),
        call_ensures(text::str_contains, (lower, refused), is_refused),
    ensures
        r <==> is_late || is_refused,
{
}

/// What is announced is the data that was fetched last, otherwise what the last pong says, otherwise
/// that nothing is known.
pub proof fn law_data_to_announce<S>(p: &ProxyServer<S>, r: ServerData)
    requires
        call_ensures(ProxyServer::<S>::build_cached_nethernet_server_data, (p,), r),
    ensures
        p@.latest_nethernet_data is Some ==> r@ == p@.latest_nethernet_data->0,
        p@.latest_nethernet_data is None && p@.latest_pong is Some ==> {
            let fields = p@.latest_pong->0;
            &&& !text::is_blank(fields[1]) ==> r@.server_name == fields[1]
            &&& !text::is_blank(fields[7]) ==> r@.level_name == fields[7]
            &&& text::i32_text(fields[4]) is Some && text::i32_text(fields[4])->0 >= 0
                ==> r@.player_count == text::i32_text(fields[4])->0
            &&& r@.max_player_count >= r@.player_count
        },
        p@.latest_nethernet_data is None && p@.latest_pong is None ==> r@.server_name
            == "phantom LAN Server"@ && r@.level_name == "Bedrock level"@ && r@.player_count == 0
            && r@.max_player_count == 20 && r@.game_type == 1,
{
    if p@.latest_pong is Some {
        proxy::law_announced_data_of_a_pong(p@.latest_pong->0);
    }
}

/// The digits of a byte in a URL are `0` to `9` and `A` to `F`.
pub proof fn law_hexadecimal_digits(v: u8, r: char)
    requires
        v < 16,
        call_ensures(relay::hex, (v,), r),
    ensures
        v < 10 ==> r as u32 == 48 + v,
        v >= 10 ==> r as u32 == 55 + v,
        v == 0 ==> r == '0',
        v == 15 ==> r == 'F',
{
}

/// A packet goes on as it was written again, and bytes that are none go on as they are.
pub proof fn law_passing_on(
    payload: &[u8],
    decoded: Option<Packet>,
    r: Option<Vec<u8>>,
    normal: Option<Vec<u8>>,
)
    requires
        call_ensures(relay::passed_on, (payload, decoded), r),
        call_ensures(relay::normalize_raknet_payload, (payload,), normal),
    ensures
        decoded is None ==> r is Some && r->0@ == payload@,
        decoded matches Some(packet) ==> raknet::bytes_view(r) == raknet::bytes_view(
            packet.encoded,
        ),
        normal is Some,
        payload@.len() == 0 ==> normal->0@ == payload@,
        payload@.len() > 0 && !raknet::is_control_id(payload@[0]) ==> normal->0@ == payload@,
{
}

/// A host that knows nothing yet says so with data of its own.
pub proof fn law_data_of_an_unknown_server(r: ServerData)
    requires
        call_ensures(relay::default_nethernet_data, (), r),
    ensures
        r@.server_name == "phantom relay"@,
        r@.level_name == "relay"@,
        r@.game_type == 1,
        r@.player_count == 0,
        r@.max_player_count == 20,
        !r@.editor_world,
        !r@.hardcore,
        r@.transport_layer is NetherNet,
        r@.connection_type == 4,
{
}

/// A host that draws its own id is made from the configuration otherwise, with nobody in its room.
pub proof fn law_making_a_host<U, N>(config: RelayHostConfig, r: RelayHost<U, N>, player_id: u32)
    requires
        call_ensures(RelayHost::<U, N>::new, (config,), r),
    ensures
        r@.relay_url == config.relay_url@,
        r@.room == config.room@,
        r@.target_server == config.target_server,
        r@.server_protocol == config.server_protocol,
        r@.cached is None,
        !r@.sockets.dom().contains(player_id),
        !r@.streams.dom().contains(player_id),
{
}

/// Endpoints begin with the one that was heard first. What is delivered goes to each of them, in
/// order, as it came.
pub proof fn law_delivering_to_endpoints(
    addr: SocketAddr,
    first: Endpoints,
    endpoints: &Endpoints,
    bin: &[u8],
    targets: Vec<SocketAddr>,
    d: Delivery,
    port: u16,
)
    requires
        call_ensures(Endpoints::new, (addr,), first),
        call_ensures(Endpoints::targets, (endpoints,), targets),
        call_ensures(Endpoints::deliver, (endpoints, bin), d),
        call_ensures(SocketAddr::port, (&addr,), port),
    ensures
        first@.len() == 1 && first@[0] == addr,
        targets@ == endpoints@,
        d.targets@ == targets@,
        d.bytes@ == bin@,
        addr matches SocketAddr::V4 { port: p, .. } ==> port == p,
        addr matches SocketAddr::V6 { port: p, .. } ==> port == p,
{
}

/// A packet that nothing was put into holds zeros and empty texts, and a copy holds what the packet
/// holds.
pub proof fn law_empty_packets_and_copies(
    empty: UnconnectedPing,
    pong: PongData,
    packet: &UnconnectedPing,
    copy: UnconnectedPing,
    data: &ServerData,
    same: ServerData,
    i: int,
)
    requires
        call_ensures(UnconnectedPing::default, (), empty),
        call_ensures(PongData::default, (), pong),
        call_ensures(UnconnectedPing::clone, (packet,), copy),
        call_ensures(ServerData::clone, (data,), same),
    ensures
        0 <= i < 8 ==> empty.ping_time@[i] == 0 && empty.id@[i] == 0,
        0 <= i < 16 ==> empty.magic@[i] == 0,
        0 <= i < 12 ==> empty.pong@[i].len() == 0 && pong@[i].len() == 0,
        copy.ping_time@ == packet.ping_time@,
        copy.id@ == packet.id@,
        copy.magic@ == packet.magic@,
        copy.pong@ == packet.pong@,
        same@ == data@,
{
    assert(copy@ == packet@);
    assert(empty@.ping_time == Seq::new(8, |k: int| 0u8));
    assert(empty@.pong == empty.pong@);
}

} // verus!
