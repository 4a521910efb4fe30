use phantom_rs::net::SocketAddr;
use phantom_rs::nethernet::{ServerData, TransportLayer};
use phantom_rs::proto::{read_unconnected_ping, OFFLINE_MAGIC};
use phantom_rs::relay::{
    build_raknet_pong_from_nethernet_ping, default_nethernet_data, frame, unframe, RelayHostConfig,
};
use phantom_rs::relay_host::{stream_frame, HostStep, RelayHost};
use phantom_rs::ServerProtocol;

fn config(protocol: ServerProtocol) -> RelayHostConfig {
    RelayHostConfig {
        relay_url: "ws://127.0.0.1:8080".to_string(),
        room: "bedrock1".to_string(),
        target_server: SocketAddr::V4 { ip: 0x7f00_0001, port: 19132 },
        server_protocol: protocol,
    }
}

fn host(protocol: ServerProtocol) -> RelayHost<u32, u32> {
    RelayHost::with_server_id(config(protocol), 77)
}

fn ping() -> Vec<u8> {
    let mut bytes = vec![0x01, 1, 2, 3, 4, 5, 6, 7, 8];
    bytes.extend_from_slice(&OFFLINE_MAGIC);
    bytes
}

fn data(name: &str) -> ServerData {
    ServerData {
        server_name: name.to_string(),
        level_name: "l".to_string(),
        game_type: 1,
        player_count: 0,
        max_player_count: 1,
        editor_world: false,
        hardcore: false,
        transport_layer: TransportLayer::NetherNet,
        connection_type: 4,
    }
}

fn reply(step: HostStep) -> Vec<u8> {
    match step {
        HostStep::Reply { frame } => frame,
        other => panic!("no reply: {:?}", other),
    }
}

#[test]
fn host_connects_as_host() {
    let mut h = host(ServerProtocol::Raknet);
    assert_eq!(h.connect(), "ws://127.0.0.1:8080/?role=host&room=bedrock1");
    assert_eq!(h.target_server(), SocketAddr::V4 { ip: 0x7f00_0001, port: 19132 });
    assert_eq!(h.server_protocol(), ServerProtocol::Raknet);
}

#[test]
fn short_frames_are_ignored() {
    let mut h = host(ServerProtocol::Raknet);
    assert!(matches!(h.on_frame(&[]), HostStep::Ignore));
    assert!(matches!(h.on_frame(&[0, 0, 1]), HostStep::Ignore));
}

#[test]
fn raknet_player_gets_one_socket() {
    let mut h = host(ServerProtocol::Raknet);
    match h.on_frame(&frame(9, &ping())) {
        HostStep::OpenSocket { player_id, bind, remote, payload } => {
            assert_eq!(player_id, 9);
            assert_eq!(bind, SocketAddr::V4 { ip: 0, port: 0 });
            assert_eq!(remote, h.target_server());
            assert_eq!(payload, ping());
        }
        other => panic!("{:?}", other),
    }
    match h.socket_opened(9, ping(), Some(500)) {
        HostStep::SendToSocket { player_id, payload } => {
            assert_eq!((player_id, payload), (9, ping()));
        }
        other => panic!("{:?}", other),
    }
    match h.on_frame(&frame(9, b"x")) {
        HostStep::SendToSocket { player_id, payload } => {
            assert_eq!((player_id, payload), (9, b"x".to_vec()));
        }
        other => panic!("{:?}", other),
    }
    assert_eq!(h.socket(9), Some(&500));
    assert_eq!(h.socket(8), None);
    h.socket_lost(9);
    assert!(matches!(h.on_frame(&frame(9, b"x")), HostStep::OpenSocket { .. }));
}

#[test]
fn nethernet_player_gets_one_stream() {
    let mut h = host(ServerProtocol::Nethernet);
    match h.on_frame(&frame(9, b"\x84x")) {
        HostStep::OpenStream { player_id, payload } => {
            assert_eq!((player_id, payload), (9, b"\x84x".to_vec()));
        }
        other => panic!("{:?}", other),
    }
    match h.stream_opened(9, b"x".to_vec(), Some(600)) {
        HostStep::SendToStream { player_id, payload } => {
            assert_eq!((player_id, payload), (9, b"x".to_vec()));
        }
        other => panic!("{:?}", other),
    }
    assert_eq!(h.stream(9), Some(&600));
    assert!(matches!(h.on_frame(&frame(9, b"x")), HostStep::SendToStream { player_id: 9, .. }));
    assert!(matches!(h.on_frame(&frame(8, b"x")), HostStep::OpenStream { player_id: 8, .. }));
    h.stream_lost(9);
    assert!(matches!(h.on_frame(&frame(9, b"x")), HostStep::OpenStream { .. }));
}

#[test]
fn player_that_left_is_forgotten() {
    let mut h = host(ServerProtocol::Raknet);
    h.socket_opened(1, vec![], Some(10));
    h.socket_opened(2, vec![], Some(20));
    h.stream_opened(1, vec![], Some(30));
    assert!(matches!(h.on_frame(&frame(1, b"")), HostStep::Ignore));
    assert_eq!(h.socket(1), None);
    assert_eq!(h.stream(1), None);
    assert_eq!(h.socket(2), Some(&20));
}

#[test]
fn connecting_again_forgets_players_and_data() {
    let mut h = host(ServerProtocol::Nethernet);
    h.stream_opened(1, vec![], Some(30));
    let known = reply(h.on_server_data(1, ping(), Some(data("n"))));
    h.connect();
    assert_eq!(h.stream(1), None);
    let fresh = reply(h.on_server_data(1, ping(), None));
    assert_ne!(known, fresh);
    let pong =
        build_raknet_pong_from_nethernet_ping(&ping(), &default_nethernet_data(), 77).unwrap();
    assert_eq!(fresh, frame(1, &pong));
}

#[test]
fn nethernet_ping_is_answered_by_the_host() {
    let mut h = host(ServerProtocol::Nethernet);
    match h.on_frame(&frame(3, &ping())) {
        HostStep::QueryServerData { player_id, payload } => {
            assert_eq!((player_id, payload), (3, ping()));
        }
        other => panic!("{:?}", other),
    }
    let answered = reply(h.on_server_data(3, ping(), Some(data("live"))));
    let (player, pong) = unframe(&answered).unwrap();
    assert_eq!(player, 3);
    let read = read_unconnected_ping(pong).unwrap();
    assert_eq!(read.pong.motd, "live");
    assert_eq!(read.pong.server_id, "77");
    assert_eq!(reply(h.on_server_data(3, ping(), None)), answered);
}

#[test]
fn malformed_ping_goes_to_the_server() {
    let mut h = host(ServerProtocol::Nethernet);
    let short = vec![0x02, 1];
    assert!(matches!(h.on_frame(&frame(3, &short)), HostStep::QueryServerData { .. }));
    assert!(matches!(h.on_server_data(3, short.clone(), None), HostStep::OpenStream { .. }));
    h.stream_opened(3, vec![], Some(1));
    assert!(matches!(h.on_server_data(3, short, None), HostStep::SendToStream { .. }));
}

#[test]
fn hosts_draw_their_ids() {
    let draw = || {
        let mut h: RelayHost<u32, u32> = RelayHost::new(config(ServerProtocol::Nethernet));
        reply(h.on_server_data(1, ping(), None))
    };
    assert_ne!(draw(), draw());
}

#[test]
fn stream_packets_are_normalized_and_framed() {
    let mut long = ping();
    long.push(0xff);
    assert_eq!(stream_frame(5, &long), Some(frame(5, &ping())));
    assert_eq!(stream_frame(5, b"\xfe\x01"), Some(frame(5, b"\xfe\x01")));
}

#[test]
fn a_host_without_a_socket_ends_and_without_a_stream_goes_on() {
    let mut h = host(ServerProtocol::Raknet);
    assert!(matches!(h.socket_opened(1, ping(), None), HostStep::EndRun));
    assert_eq!(h.socket(1), None);
    assert!(matches!(h.stream_opened(1, ping(), None), HostStep::Ignore));
    assert_eq!(h.stream(1), None);
}

#[test]
fn a_host_connects_again_after_a_second() {
    let mut h = host(ServerProtocol::Raknet);
    let url = h.connect();
    h.socket_opened(1, vec![], Some(5));
    for _ in 0..3 {
        let again = h.connection_ended();
        assert_eq!(again.delay_secs, 1);
        assert_eq!(again.url, url);
        assert_eq!(h.socket(1), None);
    }
}
