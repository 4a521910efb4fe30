use phantom_rs::nethernet::{ServerData, TransportLayer};
use phantom_rs::proto::{read_unconnected_ping, OFFLINE_MAGIC};
use phantom_rs::raknet::Packet;
use phantom_rs::relay::{
    build_raknet_pong_from_nethernet_ping, default_nethernet_data, encode_room, frame, hex,
    is_raknet_reliable, normalize_raknet_payload, passed_on, relay_ws_url, unframe,
};
use tokio_raknet::protocol::constants::DEFAULT_UNCONNECTED_MAGIC;

fn ping(first: u8) -> Vec<u8> {
    let mut bytes = vec![first];
    bytes.extend_from_slice(&[0x80, 2, 3, 4, 5, 6, 7, 8]);
    bytes.extend_from_slice(&DEFAULT_UNCONNECTED_MAGIC);
    bytes
}

fn data() -> ServerData {
    ServerData {
        server_name: "Host §a".to_string(),
        level_name: "".to_string(),
        game_type: 2,
        player_count: 5,
        max_player_count: 3,
        editor_world: false,
        hardcore: false,
        transport_layer: TransportLayer::NetherNet,
        connection_type: 4,
    }
}

#[test]
fn hex_digits() {
    let digits: String = (0..16u8).map(hex).collect();
    assert_eq!(digits, "0123456789ABCDEF");
    assert_eq!(hex(35), 'Z');
    assert_eq!(hex(200), '\u{ff}');
}

#[test]
fn rooms_are_percent_encoded() {
    assert_eq!(encode_room("bedrock1"), "bedrock1");
    assert_eq!(encode_room("AZaz09-_.~"), "AZaz09-_.~");
    assert_eq!(encode_room("a b&c=d/e?f#g%h"), "a%20b%26c%3Dd%2Fe%3Ff%23g%25h");
    assert_eq!(encode_room("ü⛏"), "%C3%BC%E2%9B%8F");
    assert_eq!(encode_room(""), "");
}

#[test]
fn encoded_rooms_are_plain_and_told_apart() {
    let rooms = ["a b", "a%20b", "a+b", "A b", "a", "%", "%25", "ä", "a&role=host"];
    for (i, room) in rooms.iter().enumerate() {
        let encoded = encode_room(room);
        assert!(encoded.chars().all(|c| c.is_ascii_alphanumeric() || "-_.~%".contains(c)));
        for other in &rooms[i + 1..] {
            assert_ne!(encoded, encode_room(other));
        }
    }
}

#[test]
fn relay_addresses() {
    assert_eq!(
        relay_ws_url("ws://127.0.0.1:8080", "host", "bedrock1"),
        "ws://127.0.0.1:8080/?role=host&room=bedrock1"
    );
    assert_eq!(
        relay_ws_url("ws://relay/", "player", "my room"),
        "ws://relay/?role=player&room=my%20room"
    );
    assert_eq!(
        relay_ws_url("wss://relay/path?key=1", "host", "r"),
        "wss://relay/path?key=1&role=host&room=r"
    );
    assert_eq!(relay_ws_url("ws://relay?key=1", "host", "r"), "ws://relay?key=1/&role=host&room=r");
    assert_eq!(relay_ws_url("relay", "host", "r"), "relay?role=host&room=r");
    assert_eq!(relay_ws_url("", "host", ""), "?role=host&room=");
    assert_eq!(relay_ws_url("a://b://c", "x", "r"), "a://b://c?role=x&room=r");
}

#[test]
fn frames_give_back_player_and_packet() {
    let bytes = frame(0x0102_fe04, b"payload");
    assert_eq!(&bytes[..4], &[0x01, 0x02, 0xfe, 0x04]);
    assert_eq!(unframe(&bytes), Some((0x0102_fe04, &b"payload"[..])));
    assert_eq!(unframe(&frame(u32::MAX, b"")), Some((u32::MAX, &b""[..])));
    assert_eq!(unframe(&[1, 2, 3]), None);
    assert_eq!(unframe(&[]), None);
}

#[test]
fn reliable_packets() {
    assert!(is_raknet_reliable(&[]));
    assert!(!is_raknet_reliable(&[0x00]));
    assert!(!is_raknet_reliable(&[0x1f, 0xff]));
    assert!(is_raknet_reliable(&[0x20]));
    assert!(is_raknet_reliable(&[0x84]));
    for b in 0..=255u8 {
        assert_eq!(is_raknet_reliable(&[b]), b & 0xE0 != 0);
    }
}

#[test]
fn default_server_data() {
    let d = default_nethernet_data();
    assert_eq!(d.server_name, "phantom relay");
    assert_eq!(d.level_name, "relay");
    assert_eq!((d.game_type, d.player_count, d.max_player_count), (1, 0, 20));
    assert_eq!(d.transport_layer, TransportLayer::NetherNet);
    assert_eq!(d.connection_type, 4);
}

#[test]
fn magic_is_raknets_own() {
    assert_eq!(OFFLINE_MAGIC, DEFAULT_UNCONNECTED_MAGIC);
}

#[test]
fn relay_pong_bytes() {
    let text = "MCPE;Host §a;649;1.20.62;5;5;258;relay;Creative;1;19132;19133;";
    for first in [0x01, 0x02] {
        let mut expected: Vec<u8> = vec![0x1c, 0x80, 2, 3, 4, 5, 6, 7, 8];
        expected.extend_from_slice(&[0, 0, 0, 0, 0, 0, 1, 2]);
        expected.extend_from_slice(&DEFAULT_UNCONNECTED_MAGIC);
        expected.extend_from_slice(&(text.len() as u16).to_be_bytes());
        expected.extend_from_slice(text.as_bytes());
        let pong = build_raknet_pong_from_nethernet_ping(&ping(first), &data(), 258);
        assert_eq!(pong, Some(expected));
    }
}

#[test]
fn relay_pong_reads_back() {
    let bytes =
        build_raknet_pong_from_nethernet_ping(&ping(0x01), &default_nethernet_data(), u64::MAX)
            .unwrap();
    let read = read_unconnected_ping(&bytes).unwrap();
    assert_eq!(read.ping_time, [0x80, 2, 3, 4, 5, 6, 7, 8]);
    assert_eq!(read.id, [0xff; 8]);
    assert_eq!(read.magic, DEFAULT_UNCONNECTED_MAGIC);
    assert_eq!(
        read.pong.to_string(),
        "MCPE;phantom relay;649;1.20.62;0;20;18446744073709551615;relay;Survival;1;19132;19133;"
    );
}

#[test]
fn long_advertisement_is_cut_off() {
    let mut long = data();
    long.server_name = "x".repeat(70_000);
    let bytes = build_raknet_pong_from_nethernet_ping(&ping(0x01), &long, 1).unwrap();
    assert_eq!(bytes.len(), 35 + 0xffff);
    assert_eq!(&bytes[33..35], &[0xff, 0xff]);
    assert_eq!(&bytes[35..41], b"MCPE;x");
}

#[test]
fn no_relay_pong_for_what_is_no_ping() {
    let mut wrong_magic = ping(0x01);
    wrong_magic[24] ^= 1;
    assert_eq!(build_raknet_pong_from_nethernet_ping(&wrong_magic, &data(), 1), None);
    assert_eq!(build_raknet_pong_from_nethernet_ping(&ping(0x01)[..24], &data(), 1), None);
    assert_eq!(build_raknet_pong_from_nethernet_ping(&[], &data(), 1), None);
    assert_eq!(build_raknet_pong_from_nethernet_ping(&[0x84, 1, 2, 3], &data(), 1), None);
    assert_eq!(build_raknet_pong_from_nethernet_ping(&[0xfe, 1], &data(), 1), None);
}

#[test]
fn pings_are_normalized_to_their_own_bytes() {
    for first in [0x01, 0x02] {
        let mut long = ping(first);
        long.extend_from_slice(&[9; 8]);
        assert_eq!(normalize_raknet_payload(&long), Some(ping(first)));
        assert_eq!(normalize_raknet_payload(&ping(first)), Some(ping(first)));
        let short = ping(first)[..20].to_vec();
        assert_eq!(normalize_raknet_payload(&short), Some(short));
    }
}

#[test]
fn bytes_without_meaning_stay_as_they_are() {
    assert_eq!(normalize_raknet_payload(&[]), Some(vec![]));
    for first in 0..=255u8 {
        let known = first <= 0x09
            || (0x10..=0x17).contains(&first)
            || (0x19..=0x1d).contains(&first)
            || first == 0xa0
            || first == 0xc0;
        if !known {
            let bytes = vec![first, 1, 2, 3];
            assert_eq!(normalize_raknet_payload(&bytes), Some(bytes));
        }
    }
}

#[test]
fn truncated_control_packets_stay_as_they_are() {
    for first in [0x00u8, 0x05, 0x10, 0x13, 0x1c, 0xa0, 0xc0] {
        let bytes = vec![first];
        assert_eq!(normalize_raknet_payload(&bytes), Some(bytes));
    }
}

#[test]
fn decoded_packets_are_passed_on_as_encoded() {
    let packet = |encoded| Some(Packet { ping_time: None, encoded });
    assert_eq!(passed_on(b"raw", packet(Some(b"new".to_vec()))), Some(b"new".to_vec()));
    assert_eq!(passed_on(b"raw", packet(None)), None);
    assert_eq!(passed_on(b"raw", None), Some(b"raw".to_vec()));
}

#[test]
fn control_packets_are_written_anew() {
    assert_eq!(normalize_raknet_payload(&[0x15]), Some(vec![0x15, 0]));
    assert_eq!(normalize_raknet_payload(&[0x04, 1, 2]), Some(vec![0x04]));
}
