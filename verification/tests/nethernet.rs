use phantom_rs::net::SocketAddr;
use phantom_rs::nethernet::{
    announce_target, discovery_target, fallback_string, first_server_data, game_type_name,
    map_game_type, parse_i32_or_default, poll_target, response_bytes, DiscoveryPoll, PollStep, ServerData,
    TransportLayer,
};

fn data(name: &str) -> ServerData {
    ServerData {
        server_name: name.to_string(),
        level_name: "level".to_string(),
        game_type: 2,
        player_count: 1,
        max_player_count: 10,
        editor_world: false,
        hardcore: true,
        transport_layer: TransportLayer::NetherNet,
        connection_type: 4,
    }
}

#[test]
fn game_types_by_number_and_name() {
    assert_eq!(map_game_type("0"), 0);
    assert_eq!(map_game_type("7"), 7);
    assert_eq!(map_game_type("+3"), 3);
    assert_eq!(map_game_type("255"), 255);
    assert_eq!(map_game_type("256"), 1);
    assert_eq!(map_game_type("Creative"), 2);
    assert_eq!(map_game_type("my CREATIVE mode"), 2);
    assert_eq!(map_game_type("aDVENTURe"), 3);
    assert_eq!(map_game_type("Survival"), 1);
    assert_eq!(map_game_type(""), 1);
}

#[test]
fn game_type_names_lead_back() {
    assert_eq!(game_type_name(2), "Creative");
    assert_eq!(game_type_name(3), "Adventure");
    for value in 0..=255u8 {
        let back = map_game_type(game_type_name(value));
        assert_eq!(back, if value == 2 || value == 3 { value } else { 1 });
    }
}

#[test]
fn blank_texts_fall_back() {
    assert_eq!(fallback_string("", "d"), "d");
    assert_eq!(fallback_string(" \n\u{a0}", "d"), "d");
    assert_eq!(fallback_string(" x ", "d"), " x ");
    assert_eq!(fallback_string(&fallback_string(" ", "d"), "d"), "d");
}

#[test]
fn numbers_fall_back() {
    assert_eq!(parse_i32_or_default("12", 3), 12);
    assert_eq!(parse_i32_or_default("-12", 3), -12);
    assert_eq!(parse_i32_or_default("x", 3), 3);
    assert_eq!(parse_i32_or_default("2147483648", 3), 3);
}

#[test]
fn responses_are_hexadecimal() {
    assert_eq!(response_bytes(b"00fFA1"), Some(vec![0x00, 0xff, 0xa1]));
    assert_eq!(response_bytes(b""), Some(vec![]));
    assert_eq!(response_bytes(b"0"), None);
    assert_eq!(response_bytes(b"0g"), None);
    assert_eq!(response_bytes(&[0xff, 0xff]), None);
}

#[test]
fn discovery_asks_the_servers_host() {
    let v4 = discovery_target(SocketAddr::V4 { ip: 7, port: 19132 }, 7551);
    assert_eq!(v4.bind, SocketAddr::V4 { ip: 0, port: 0 });
    assert_eq!(v4.broadcast, SocketAddr::V4 { ip: 7, port: 7551 });
    assert_eq!(v4.broadcast_interval_ms, 250);
    let polled = poll_target(SocketAddr::V4 { ip: 7, port: 19132 }, 7551);
    assert_eq!(polled.bind, v4.bind);
    assert_eq!(polled.broadcast, v4.broadcast);
    assert_eq!(polled.broadcast_interval_ms, 150);
    let v6 =
        discovery_target(SocketAddr::V6 { ip: 7, port: 1, flowinfo: 2, scope_id: 3 }, 7551);
    assert_eq!(v6.bind, SocketAddr::V6 { ip: 0, port: 0, flowinfo: 0, scope_id: 0 });
    assert_eq!(v6.broadcast, SocketAddr::V6 { ip: 7, port: 7551, flowinfo: 0, scope_id: 0 });
}

#[test]
fn first_readable_answer_counts() {
    assert!(first_server_data(&vec![]).is_none());
    assert!(first_server_data(&vec![None, None]).is_none());
    let answers = vec![None, Some(data("a")), Some(data("b"))];
    let first = first_server_data(&answers).unwrap();
    assert_eq!(first.server_name, "a");
    assert_eq!(first.game_type, 2);
    assert!(first.hardcore);
}

#[test]
fn poll_gives_up_after_its_attempts() {
    let mut poll = DiscoveryPoll::new(2);
    assert!(poll.pending());
    assert!(matches!(poll.on_answers(&vec![None]), PollStep::Wait));
    assert!(matches!(poll.on_answers(&vec![]), PollStep::GiveUp));
    assert!(!poll.pending());
    assert!(!DiscoveryPoll::new(0).pending());
}

#[test]
fn poll_takes_an_answer_on_its_last_attempt() {
    let mut poll = DiscoveryPoll::new(1);
    match poll.on_answers(&vec![Some(data("late"))]) {
        PollStep::Found(found) => assert_eq!(found.server_name, "late"),
        _ => panic!("an answer was there"),
    }
}

#[test]
fn announcing_listens_on_the_discovery_port() {
    let v6 = SocketAddr::V6 { ip: 5, port: 1, flowinfo: 2, scope_id: 3 };
    let v4 = SocketAddr::V4 { ip: 7, port: 19132 };
    let target = announce_target(v6, v4, 7551);
    assert_eq!(target.bind, SocketAddr::V6 { ip: 0, port: 7551, flowinfo: 0, scope_id: 0 });
    assert_eq!(target.broadcast, SocketAddr::V4 { ip: 7, port: 7551 });
    assert_eq!(target.broadcast_interval_ms, 500);
    assert_eq!(announce_target(v4, v4, 7551).bind, SocketAddr::V4 { ip: 0, port: 7551 });
}
