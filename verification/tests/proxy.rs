use phantom_rs::client_map::{CleanupStep, ConnectionStep};
use phantom_rs::net::{resolve_addr, AddressError, SocketAddr};
use phantom_rs::nethernet::{ServerData, TransportLayer};
use phantom_rs::proto::{offline_pong, read_unconnected_ping, PongData, UnconnectedPing};
use phantom_rs::proxy::{
    ClientStep, Listener, RecvFailure, ServerStep, SocketStep, StartProgress, StartStep,
};
use phantom_rs::{ProxyPrefs, ProxyServer, ServerProtocol};

const SEC: u128 = 1_000_000_000;
const ID: u64 = 18_446_744_073_709_551_615;

fn prefs(protocol: ServerProtocol) -> ProxyPrefs {
    ProxyPrefs {
        bind_address: "0.0.0.0".to_string(),
        bind_port: 50_001,
        remote_server: "1.2.3.4:19132".to_string(),
        server_protocol: protocol,
        idle_timeout: 60 * SEC,
        enable_ipv6: false,
        remove_ports: false,
        num_workers: 1,
    }
}

fn bound() -> SocketAddr {
    SocketAddr::V4 { ip: 0, port: 50_001 }
}

fn remote() -> SocketAddr {
    SocketAddr::V4 { ip: 0x0102_0304, port: 19132 }
}

fn client() -> SocketAddr {
    SocketAddr::V4 { ip: 0x0a00_0002, port: 40_000 }
}

fn proxy(prefs: ProxyPrefs) -> ProxyServer<u32> {
    ProxyServer::with_drawn(prefs, found(bound()), found(remote()), 50_000, ID).unwrap()
}

fn found(addr: SocketAddr) -> Result<Vec<SocketAddr>, String> {
    Ok(vec![addr])
}

fn bound_port(p: &mut ProxyServer<u32>) -> String {
    read_unconnected_ping(&p.rewrite_unconnected_pong(packet("19132"))).unwrap().pong.port4
}

fn received(p: &mut ProxyServer<u32>, data: Vec<u8>) -> Option<Vec<u8>> {
    match p.process_data_from_server(client(), Ok(data)) {
        ServerStep::Again => None,
        ServerStep::Send(bytes) => Some(bytes),
        ServerStep::Stop => panic!("nothing failed"),
    }
}

fn failed(p: &mut ProxyServer<u32>, failure: RecvFailure) {
    assert!(matches!(p.process_data_from_server(client(), Err(failure)), ServerStep::Stop));
}

fn reply(p: &mut ProxyServer<u32>, data: &[u8]) -> Option<Vec<u8>> {
    let due = p.forward(data.to_vec());
    assert_eq!(due.packet, data);
    assert_eq!(due.read_timeout_secs, 5);
    due.reply
}

fn data() -> ServerData {
    ServerData {
        server_name: "Name".to_string(),
        level_name: " ".to_string(),
        game_type: 3,
        player_count: -4,
        max_player_count: -7,
        editor_world: true,
        hardcore: true,
        transport_layer: TransportLayer::NetherNet,
        connection_type: 9,
    }
}

fn pong(port4: &str) -> PongData {
    PongData {
        edition: "MCPE".to_string(),
        motd: "Remote".to_string(),
        protocol_version: "649".to_string(),
        version: "1.20.62".to_string(),
        players: "3".to_string(),
        max_players: "x".to_string(),
        server_id: "77".to_string(),
        sub_motd: "World".to_string(),
        game_type: "Adventure".to_string(),
        nintendo_limited: "1".to_string(),
        port4: port4.to_string(),
        port6: "19133".to_string(),
    }
}

fn packet(port4: &str) -> Vec<u8> {
    UnconnectedPing { ping_time: [4; 8], id: [5; 8], magic: [6; 16], pong: pong(port4) }.build()
}

fn ping(first: u8) -> Vec<u8> {
    let mut bytes = vec![first];
    bytes.extend_from_slice(&[1, 2, 3, 4, 5, 6, 7, 8]);
    bytes.extend_from_slice(&[0xaa; 16]);
    bytes.extend_from_slice(&[9; 8]);
    bytes
}

#[test]
fn a_port_is_drawn_only_where_none_is_given() {
    let mut asked = prefs(ServerProtocol::Raknet);
    asked.bind_port = 0;
    for _ in 0..200 {
        let any = SocketAddr::V4 { ip: 0, port: 0 };
        let mut p: ProxyServer<u32> =
            ProxyServer::new(asked.clone(), found(any), found(remote())).unwrap();
        let port = p.bind_address().port();
        assert!((50_000..64_000).contains(&port));
        assert_eq!(bound_port(&mut p), port.to_string());
    }
    asked.bind_port = 19133;
    let mut p: ProxyServer<u32> =
        ProxyServer::new(asked.clone(), found(bound()), found(remote())).unwrap();
    assert_eq!(p.bind_address().port(), 19133);
    assert_eq!(bound_port(&mut p), "19133");
    assert_eq!(asked.clone().with_bind_port(5).bind_port, 19133);
    asked.bind_port = 0;
    assert_eq!(asked.with_bind_port(5).bind_port, 5);
}

#[test]
fn drawn_ports_differ() {
    let mut asked = prefs(ServerProtocol::Raknet);
    asked.bind_port = 0;
    let draw = || {
        let p: ProxyServer<u32> =
            ProxyServer::new(asked.clone(), found(bound()), found(remote())).unwrap();
        p.bind_address().port()
    };
    let first = draw();
    assert!((0..200).any(|_| draw() != first));
}

#[test]
fn the_proxys_port_takes_the_place_of_the_one_looked_up() {
    let mut asked = prefs(ServerProtocol::Raknet);
    asked.bind_port = 0;
    let v6 = SocketAddr::V6 { ip: 9, port: 0, flowinfo: 2, scope_id: 3 };
    let p: ProxyServer<u32> =
        ProxyServer::with_drawn(asked, found(v6), found(remote()), 50_007, 1).unwrap();
    let expected = SocketAddr::V6 { ip: 9, port: 50_007, flowinfo: 2, scope_id: 3 };
    assert_eq!(p.bind_address(), expected);
    assert_eq!(p.remote_server_address(), remote());
}

#[test]
fn addresses_that_are_not_found() {
    let make = |bind: Result<Vec<SocketAddr>, String>, far: Result<Vec<SocketAddr>, String>| {
        ProxyServer::<u32>::new(prefs(ServerProtocol::Raknet), bind, far).err()
    };
    let no = || Err("no".to_string());
    assert!(make(found(bound()), found(remote())).is_none());
    assert!(matches!(make(Ok(vec![]), no()), Some(AddressError::Invalid)));
    assert!(matches!(make(no(), Ok(vec![])), Some(AddressError::Lookup(e)) if e == "no"));
    assert!(matches!(make(found(bound()), Ok(vec![])), Some(AddressError::Invalid)));
    assert!(matches!(make(found(bound()), no()), Some(AddressError::Lookup(e)) if e == "no"));
    let both: Result<Vec<SocketAddr>, String> = Ok(vec![remote(), bound()]);
    assert_eq!(resolve_addr(both).unwrap(), remote());
}

#[test]
fn bind_target_text() {
    assert_eq!(prefs(ServerProtocol::Raknet).bind_target(), "0.0.0.0:50001");
}

#[test]
fn random_ids_differ() {
    let sent = || {
        let mut p: ProxyServer<u32> =
            ProxyServer::new(prefs(ServerProtocol::Raknet), found(bound()), found(remote()))
                .unwrap();
        p.rewrite_unconnected_pong(packet("19132"))
    };
    assert_ne!(sent(), sent());
}

#[test]
fn start_steps_by_default() {
    let steps = proxy(prefs(ServerProtocol::Raknet)).start();
    assert_eq!(
        steps,
        vec![
            StartStep::BindPing(Listener {
                addr: SocketAddr::V4 { ip: 0, port: 19132 },
                with_timeout: true,
                v6_only: false,
            }),
            StartStep::BindServer(Listener { addr: bound(), with_timeout: true, v6_only: false }),
            StartStep::RunWorkers(1),
        ]
    );
}

#[test]
fn start_steps_with_everything() {
    let mut all = prefs(ServerProtocol::Nethernet);
    all.enable_ipv6 = true;
    all.num_workers = 0;
    let v6 = SocketAddr::V6 { ip: 0, port: 50_001, flowinfo: 0, scope_id: 0 };
    let p: ProxyServer<u32> =
        ProxyServer::with_drawn(all, found(v6), found(remote()), 50_000, 1).unwrap();
    let steps = p.start();
    assert_eq!(steps.len(), 5);
    assert_eq!(
        steps[1],
        StartStep::BindPingV6(Listener {
            addr: SocketAddr::V6 { ip: 0, port: 19133, flowinfo: 0, scope_id: 0 },
            with_timeout: true,
            v6_only: true,
        })
    );
    assert_eq!(steps[2], StartStep::StartDiscovery);
    let server = Listener { addr: v6, with_timeout: true, v6_only: true };
    assert_eq!(steps[3], StartStep::BindServer(server));
    assert_eq!(steps[4], StartStep::RunWorkers(1));
}

#[test]
fn steps_of_binding_a_socket() {
    let v6 = SocketAddr::V6 { ip: 0, port: 1, flowinfo: 0, scope_id: 0 };
    let listener = Listener { addr: v6, with_timeout: true, v6_only: true };
    assert_eq!(
        listener.bind_reusable_socket(),
        vec![
            SocketStep::Create { ipv6: true },
            SocketStep::ReuseAddress,
            SocketStep::OnlyV6(true),
            SocketStep::Bind(v6),
            SocketStep::ReadTimeout(1),
        ]
    );
    let plain = Listener { addr: bound(), with_timeout: false, v6_only: true };
    assert_eq!(
        plain.bind_reusable_socket(),
        vec![
            SocketStep::Create { ipv6: false },
            SocketStep::ReuseAddress,
            SocketStep::Bind(bound()),
        ]
    );
}

#[test]
fn needed_sockets_that_cannot_be_bound_end_the_start() {
    let mut all = prefs(ServerProtocol::Nethernet);
    all.enable_ipv6 = true;
    let mut p = proxy(all);
    let steps = p.start();
    assert_eq!(p.on_start_step(steps[0], None), StartProgress::Fail);
    assert_eq!(p.on_start_step(steps[0], Some(1)), StartProgress::GoOn);
    assert_eq!(p.on_start_step(steps[1], None), StartProgress::GoOn);
    assert_eq!(p.on_start_step(steps[2], None), StartProgress::GoOn);
    assert_eq!(p.on_start_step(steps[3], None), StartProgress::Fail);
    assert_eq!(p.server_socket(), None);
    assert_eq!(p.on_start_step(steps[3], Some(3)), StartProgress::GoOn);
    assert_eq!(p.server_socket(), Some(&3));
    assert_eq!(p.on_start_step(steps[4], None), StartProgress::KeepReading);
    p.close();
    assert_eq!(p.on_start_step(steps[4], None), StartProgress::GoOn);
}

#[test]
fn rewritten_pong_carries_the_proxys_id_and_port() {
    let mut p = proxy(prefs(ServerProtocol::Raknet));
    let sent = p.rewrite_unconnected_pong(packet("19132"));
    let read = read_unconnected_ping(&sent).unwrap();
    assert_eq!(read.ping_time, [4; 8]);
    assert_eq!(read.id, [5; 8]);
    assert_eq!(read.magic, [6; 16]);
    assert_eq!(
        read.pong.to_string(),
        "MCPE;Remote;649;1.20.62;3;x;18446744073709551615;World;Adventure;1;50001;50001;"
    );
    assert_eq!(p.rewrite_unconnected_pong(sent.clone()), sent);
}

#[test]
fn rewritten_pong_keeps_missing_port() {
    let mut p = proxy(prefs(ServerProtocol::Raknet));
    let read = read_unconnected_ping(&p.rewrite_unconnected_pong(packet(""))).unwrap();
    assert_eq!(read.pong.port4, "");
    assert_eq!(read.pong.port6, "19133");
}

#[test]
fn rewritten_pong_without_ports() {
    let mut without = prefs(ServerProtocol::Raknet);
    without.remove_ports = true;
    let mut p = proxy(without);
    for port4 in ["19132", ""] {
        let read = read_unconnected_ping(&p.rewrite_unconnected_pong(packet(port4))).unwrap();
        assert_eq!(read.pong.port4, "");
        assert_eq!(read.pong.port6, "");
    }
}

#[test]
fn unreadable_pong_goes_as_it_is() {
    let mut p = proxy(prefs(ServerProtocol::Raknet));
    assert_eq!(p.rewrite_unconnected_pong(vec![0x1c, 1, 2]), vec![0x1c, 1, 2]);
    assert_eq!(p.build_cached_nethernet_server_data().server_name, "phantom LAN Server");
}

#[test]
fn empty_packet_is_ignored() {
    let mut p = proxy(prefs(ServerProtocol::Nethernet));
    assert!(matches!(p.process_data_from_clients(&[]), ClientStep::Ignore));
    assert_eq!(received(&mut p, vec![]), None);
}

#[test]
fn raknet_packets_are_forwarded() {
    let mut p = proxy(prefs(ServerProtocol::Raknet));
    assert!(matches!(p.process_data_from_clients(&ping(0x01)), ClientStep::Forward(packet) if packet == ping(0x01)));
    assert!(matches!(p.process_data_from_clients(&[0x84, 1]), ClientStep::Forward(packet) if packet == [0x84, 1]));
    let mut n = proxy(prefs(ServerProtocol::Nethernet));
    assert!(matches!(n.process_data_from_clients(&[0x84, 1]), ClientStep::Forward(packet) if packet == [0x84, 1]));
}

#[test]
fn nethernet_ping_is_answered_with_fetched_data() {
    let mut p = proxy(prefs(ServerProtocol::Nethernet));
    for first in [0x01, 0x02] {
        let packet = ping(first);
        assert!(matches!(p.process_data_from_clients(&packet), ClientStep::FetchServerData));
        let read = read_unconnected_ping(&p.nethernet_reply(&packet, Some(data()))).unwrap();
        assert_eq!(read.ping_time, [1, 2, 3, 4, 5, 6, 7, 8]);
        assert_eq!(read.magic, [0xaa; 16]);
        assert_eq!(read.id, [9; 8]);
        assert_eq!(
            read.pong.to_string(),
            "MCPE;Name;649;1.20.62;0;0;18446744073709551615;Bedrock level;Adventure;1;50001;50001;"
        );
    }
}

#[test]
fn nethernet_pong_without_ports() {
    let mut without = prefs(ServerProtocol::Nethernet);
    without.remove_ports = true;
    let mut p = proxy(without);
    let bytes = p.build_raknet_pong_from_nethernet(&ping(0x01), Some(data())).unwrap();
    let read = read_unconnected_ping(&bytes).unwrap();
    assert_eq!(read.pong.port4, "");
    assert_eq!(read.pong.port6, "");
    assert_eq!(read.pong.nintendo_limited, "1");
}

#[test]
fn last_fetched_data_answers_while_nothing_is_fetched() {
    let mut p = proxy(prefs(ServerProtocol::Nethernet));
    let packet = ping(0x01);
    assert_eq!(p.build_raknet_pong_from_nethernet(&packet, None), None);
    let with_data = p.nethernet_reply(&packet, Some(data()));
    assert_eq!(p.nethernet_reply(&packet, None), with_data);
    let cached = p.build_cached_nethernet_server_data();
    assert_eq!(cached.server_name, "Name");
    assert_eq!(cached.player_count, -4);
    assert!(cached.editor_world);
}

#[test]
fn nethernet_ping_without_data_gets_the_offline_pong() {
    let mut p = proxy(prefs(ServerProtocol::Nethernet));
    let mut other = proxy(prefs(ServerProtocol::Nethernet));
    let offline = other.rewrite_unconnected_pong(offline_pong());
    assert_eq!(p.nethernet_reply(&ping(0x01), None), offline);
    match p.process_data_from_clients(&[0x01, 2, 3]) {
        ClientStep::Reply(bytes) => assert_eq!(bytes, offline),
        _ => panic!("a short ping cannot be answered with data"),
    }
    let read = read_unconnected_ping(&offline).unwrap();
    assert_eq!(read.pong.server_id, "18446744073709551615");
    assert_eq!(read.pong.port4, "");
}

#[test]
fn no_pong_for_other_packets() {
    let mut p = proxy(prefs(ServerProtocol::Nethernet));
    assert_eq!(p.build_raknet_pong_from_nethernet(&ping(0x05), Some(data())), None);
    assert_eq!(p.build_raknet_pong_from_nethernet(&ping(0x01)[..32], Some(data())), None);
}

#[test]
fn announced_data_before_any_pong() {
    let known = proxy(prefs(ServerProtocol::Raknet)).build_cached_nethernet_server_data();
    assert_eq!(known.server_name, "phantom LAN Server");
    assert_eq!(known.level_name, "Bedrock level");
    assert_eq!(known.game_type, 1);
    assert_eq!(known.player_count, 0);
    assert_eq!(known.max_player_count, 20);
    assert_eq!(known.transport_layer, TransportLayer::RakNet);
    assert_eq!(known.connection_type, 4);
    assert!(!known.editor_world && !known.hardcore);
}

#[test]
fn announced_data_from_the_last_pong() {
    let mut p = proxy(prefs(ServerProtocol::Raknet));
    received(&mut p, packet("19132"));
    let known = p.build_cached_nethernet_server_data();
    assert_eq!(known.server_name, "Remote");
    assert_eq!(known.level_name, "World");
    assert_eq!(known.game_type, 3);
    assert_eq!(known.player_count, 3);
    assert_eq!(known.max_player_count, 20);
}

#[test]
fn announced_counts_are_put_in_order() {
    let mut p = proxy(prefs(ServerProtocol::Raknet));
    for (players, limit, expected) in
        [("-5", "3", (0, 3)), ("30", "10", (30, 30)), ("30", "x", (30, 30)), ("x", "", (0, 20))]
    {
        let mut fields = pong("1");
        fields.players = players.to_string();
        fields.max_players = limit.to_string();
        let bytes =
            UnconnectedPing { ping_time: [0; 8], id: [0; 8], magic: [0; 16], pong: fields }.build();
        received(&mut p, bytes);
        let known = p.build_cached_nethernet_server_data();
        assert_eq!((known.player_count, known.max_player_count), expected);
    }
}

#[test]
fn server_packets_pass_unchanged_but_for_pongs() {
    let mut p = proxy(prefs(ServerProtocol::Raknet));
    assert_eq!(received(&mut p, vec![0x84, 1]), Some(vec![0x84, 1]));
    let mut q = proxy(prefs(ServerProtocol::Raknet));
    assert_eq!(
        received(&mut p, packet("19132")),
        Some(q.rewrite_unconnected_pong(packet("19132")))
    );
}

#[test]
fn offline_server_is_told_to_pinging_clients() {
    let mut p = proxy(prefs(ServerProtocol::Raknet));
    assert_eq!(reply(&mut p, &ping(0x01)), None);
    failed(&mut p, RecvFailure::TimedOut);
    let mut q = proxy(prefs(ServerProtocol::Raknet));
    assert_eq!(
        reply(&mut p, &ping(0x01)),
        Some(q.rewrite_unconnected_pong(offline_pong()))
    );
    assert_eq!(reply(&mut p, &ping(0x02)), None);
    assert_eq!(reply(&mut p, &[]), None);
    received(&mut p, vec![1]);
    assert_eq!(reply(&mut p, &ping(0x01)), None);
}

#[test]
fn failures_that_tell_an_offline_server() {
    let offline = |failure: RecvFailure| {
        let mut p = proxy(prefs(ServerProtocol::Raknet));
        failed(&mut p, failure);
        reply(&mut p, &[0x01]).is_some()
    };
    assert!(offline(RecvFailure::WouldBlock));
    assert!(offline(RecvFailure::TimedOut));
    assert!(offline(RecvFailure::Other("Connection Refused (os error 111)".to_string())));
    assert!(offline(RecvFailure::Other("read TIMEOUT".to_string())));
    assert!(offline(RecvFailure::Other("Zeitüberschreitung: Timeout".to_string())));
    assert!(!offline(RecvFailure::Other("network is down".to_string())));
    assert!(!offline(RecvFailure::Other(String::new())));
}

#[test]
fn an_offline_server_stays_offline_after_other_failures() {
    let mut p = proxy(prefs(ServerProtocol::Raknet));
    failed(&mut p, RecvFailure::TimedOut);
    failed(&mut p, RecvFailure::Other("network is down".to_string()));
    assert!(reply(&mut p, &[0x01]).is_some());
}

#[test]
fn clients_are_connected_kept_and_cleaned_up() {
    let mut p = proxy(prefs(ServerProtocol::Raknet));
    let bind = SocketAddr::V4 { ip: 0, port: 0 };
    let open = ConnectionStep::Open { bind, remote: remote() };
    assert_eq!(p.connect_client(client(), 0), open);
    p.client_connected(client(), 42, 0);
    assert_eq!(p.connect_client(client(), 10 * SEC), ConnectionStep::Reuse);
    assert_eq!(p.client_connection(client()), Some(&42));
    match p.clean_up_clients(70 * SEC - 1) {
        CleanupStep::Swept(gone) => assert_eq!(gone, vec![]),
        CleanupStep::Stop => panic!("closed"),
    }
    match p.clean_up_clients(70 * SEC) {
        CleanupStep::Swept(gone) => assert_eq!(gone, vec![client()]),
        CleanupStep::Stop => panic!("closed"),
    }
    p.client_connected(client(), 43, 0);
    failed(&mut p, RecvFailure::Other(String::new()));
    assert_eq!(p.client_connection(client()), None);
}

#[test]
fn closing_drops_sockets_and_clients() {
    let mut p = proxy(prefs(ServerProtocol::Raknet));
    for step in p.start() {
        p.on_start_step(step, Some(3));
    }
    p.client_connected(client(), 4, 0);
    assert_eq!(p.server_socket(), Some(&3));
    assert!(!p.is_dead());
    p.close();
    assert!(p.is_dead());
    assert_eq!(p.server_socket(), None);
    assert_eq!(p.client_connection(client()), None);
    assert!(matches!(p.clean_up_clients(0), CleanupStep::Stop));
    p.close();
    assert!(p.is_dead());
    assert_eq!(p.bind_address(), bound());
    assert_eq!(p.remote_server_address(), remote());
}

#[test]
fn receiving_ends_at_the_first_failure_or_with_the_proxy() {
    let mut p = proxy(prefs(ServerProtocol::Raknet));
    p.client_connected(client(), 1, 0);
    assert!(p.keep_receiving(client()));
    assert_eq!(p.client_connection(client()), Some(&1));
    failed(&mut p, RecvFailure::WouldBlock);
    assert_eq!(p.client_connection(client()), None);
    p.close();
    p.client_connected(client(), 2, 0);
    assert!(!p.keep_receiving(client()));
    assert_eq!(p.client_connection(client()), None);
}

#[test]
fn fullest_pong_that_is_received_stays_readable() {
    let mut p = proxy(prefs(ServerProtocol::Raknet));
    let mut fields = pong("1");
    fields.motd = "\u{10ffff}".repeat(340);
    let bytes =
        UnconnectedPing { ping_time: [0; 8], id: [0; 8], magic: [0; 16], pong: fields }.build();
    assert!(bytes.len() <= 1472 && bytes.len() > 1440);
    let sent = p.rewrite_unconnected_pong(bytes);
    assert_eq!(read_unconnected_ping(&sent).unwrap().pong.port4, "50001");
    assert_eq!(p.rewrite_unconnected_pong(sent.clone()), sent);
}

#[test]
fn hearing_from_the_server_lifts_the_read_timeout() {
    let mut p = proxy(prefs(ServerProtocol::Raknet));
    assert!(p.process_data_from_server(client(), Ok(vec![])).lifts_read_timeout());
    assert!(p.process_data_from_server(client(), Ok(vec![1])).lifts_read_timeout());
    let failure = Err(RecvFailure::TimedOut);
    assert!(!p.process_data_from_server(client(), failure).lifts_read_timeout());
}

#[test]
fn announcements_until_the_proxy_is_closed() {
    let mut p = proxy(prefs(ServerProtocol::Nethernet));
    let (first, wait_ms) = p.announcement().unwrap();
    assert_eq!(first.server_name, "phantom LAN Server");
    assert_eq!(wait_ms, 750);
    p.nethernet_reply(&ping(0x01), Some(data()));
    assert_eq!(p.announcement().unwrap().0.server_name, "Name");
    p.close();
    assert!(p.announcement().is_none());
}
