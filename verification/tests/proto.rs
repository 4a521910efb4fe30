use phantom_rs::proto::{
    offline_pong, read_pong, read_unconnected_ping, write_pong, PongData, UnconnectedPing,
    OFFLINE_MAGIC,
};

fn sample() -> PongData {
    PongData {
        edition: "MCPE".to_string(),
        motd: "A".to_string(),
        protocol_version: "1".to_string(),
        version: "2".to_string(),
        players: "3".to_string(),
        max_players: "4".to_string(),
        server_id: "5".to_string(),
        sub_motd: "6".to_string(),
        game_type: "7".to_string(),
        nintendo_limited: "8".to_string(),
        port4: "19132".to_string(),
        port6: "19132".to_string(),
    }
}

fn fields(pong: &PongData) -> Vec<String> {
    vec![
        pong.edition.clone(),
        pong.motd.clone(),
        pong.protocol_version.clone(),
        pong.version.clone(),
        pong.players.clone(),
        pong.max_players.clone(),
        pong.server_id.clone(),
        pong.sub_motd.clone(),
        pong.game_type.clone(),
        pong.nintendo_limited.clone(),
        pong.port4.clone(),
        pong.port6.clone(),
    ]
}

#[test]
fn build_and_read_round_trip() {
    let original = UnconnectedPing {
        ping_time: [1; 8],
        id: [2; 8],
        magic: [3; 16],
        pong: PongData {
            edition: "MCPE".to_string(),
            motd: "A".to_string(),
            protocol_version: "1".to_string(),
            version: "2".to_string(),
            players: "3".to_string(),
            max_players: "4".to_string(),
            server_id: "5".to_string(),
            sub_motd: "6".to_string(),
            game_type: "7".to_string(),
            nintendo_limited: "8".to_string(),
            port4: "19132".to_string(),
            port6: "19132".to_string(),
        },
    };

    let bytes = original.build();
    let parsed = read_unconnected_ping(&bytes).expect("parse should succeed");

    assert_eq!(parsed.ping_time, original.ping_time);
    assert_eq!(parsed.id, original.id);
    assert_eq!(parsed.magic, original.magic);
    assert_eq!(parsed.pong.port4, "19132");
}

#[test]
fn built_packet_bytes() {
    let packet =
        UnconnectedPing { ping_time: [1; 8], id: [2; 8], magic: [3; 16], pong: sample() };
    let text = "MCPE;A;1;2;3;4;5;6;7;8;19132;19132;";
    let mut expected: Vec<u8> = vec![0x1c];
    expected.extend_from_slice(&[1; 8]);
    expected.extend_from_slice(&[2; 8]);
    expected.extend_from_slice(&[3; 16]);
    expected.extend_from_slice(&[0, 35]);
    expected.extend_from_slice(text.as_bytes());
    assert_eq!(text.len(), 35);
    assert_eq!(packet.build(), expected);
}

#[test]
fn built_packet_reads_back_whole() {
    let mut packet =
        UnconnectedPing { ping_time: [9; 8], id: [8; 8], magic: [7; 16], pong: sample() };
    packet.pong.motd = "Grüße §c ⛏".to_string();
    packet.pong.port6 = String::new();
    let read = read_unconnected_ping(&packet.build()).unwrap();
    assert_eq!(fields(&read.pong), fields(&packet.pong));
    assert_eq!(read.build(), packet.build());
}

#[test]
fn long_advertisement_keeps_length_modulo_65536() {
    let mut packet = UnconnectedPing::default();
    packet.pong.edition = "x".repeat(0x1_0000);
    let bytes = packet.build();
    assert_eq!(bytes.len(), 35 + 0x1_0001);
    assert_eq!(&bytes[33..35], &[0, 1]);
}

#[test]
fn offline_pong_bytes() {
    let text = "MCPE;phantom §cServer offline;390;1.14.60;0;0;;;Creative;1;";
    let mut expected: Vec<u8> = vec![0x1c];
    expected.extend_from_slice(&[0; 16]);
    expected.extend_from_slice(&[
        0x00, 0xff, 0xff, 0x00, 0xfe, 0xfe, 0xfe, 0xfe, 0xfd, 0xfd, 0xfd, 0xfd, 0x12, 0x34, 0x56,
        0x78,
    ]);
    expected.extend_from_slice(&(text.len() as u16).to_be_bytes());
    expected.extend_from_slice(text.as_bytes());
    assert_eq!(offline_pong(), expected);
}

#[test]
fn offline_pong_reads_back() {
    let read = read_unconnected_ping(&offline_pong()).unwrap();
    assert_eq!(read.magic, OFFLINE_MAGIC);
    assert_eq!(read.pong.motd, "phantom §cServer offline");
    assert_eq!(read.pong.game_type, "Creative");
    assert_eq!(read.pong.port4, "");
}

#[test]
fn written_pong_drops_empty_fields_at_the_end() {
    assert_eq!(write_pong(&PongData::default()), ";");
    let mut pong = PongData::default();
    pong.motd = "m".to_string();
    assert_eq!(write_pong(&pong), ";m;");
    assert_eq!(write_pong(&sample()), "MCPE;A;1;2;3;4;5;6;7;8;19132;19132;");
}

#[test]
fn displayed_pong_keeps_every_field() {
    assert_eq!(PongData::default().to_string(), ";;;;;;;;;;;;");
    assert_eq!(sample().to_string(), "MCPE;A;1;2;3;4;5;6;7;8;19132;19132;");
    assert_eq!(fields(&read_pong(&sample().to_string())), fields(&sample()));
}

#[test]
fn read_pong_fills_missing_fields() {
    let pong = read_pong("MCPE;name");
    assert_eq!(pong.edition, "MCPE");
    assert_eq!(pong.motd, "name");
    assert_eq!(pong.protocol_version, "");
    assert_eq!(pong.port6, "");
    assert_eq!(read_pong("").edition, "");
    assert_eq!(read_pong("a;b;c;d;e;f;g;h;i;j;k;l;m;n").port6, "l");
}

#[test]
fn a_separator_inside_a_field_shifts_the_rest() {
    let mut pong = sample();
    pong.motd = "x;y".to_string();
    let read = read_pong(&write_pong(&pong));
    assert_eq!(read.motd, "x");
    assert_eq!(read.protocol_version, "y");
}

#[test]
fn short_packet_is_refused() {
    assert_eq!(read_unconnected_ping(&[]).unwrap_err(), "packet too short");
    assert_eq!(read_unconnected_ping(&[0x1c; 34]).unwrap_err(), "packet too short");
}

#[test]
fn foreign_packet_id_is_refused() {
    let mut bytes = offline_pong();
    bytes[0] = 0x05;
    assert_eq!(read_unconnected_ping(&bytes).unwrap_err(), "unsupported packet id");
    bytes[0] = 0x01;
    assert!(read_unconnected_ping(&bytes).is_ok());
}

#[test]
fn overlong_length_is_refused() {
    let mut bytes = offline_pong();
    bytes[33] = 0xff;
    assert_eq!(read_unconnected_ping(&bytes).unwrap_err(), "invalid pong length");
}

#[test]
fn broken_utf8_is_refused_with_the_reason() {
    let mut bytes = vec![0u8; 35];
    bytes[0] = 0x1c;
    bytes[34] = 3;
    bytes.extend_from_slice(&[b'a', 0xff, b'b']);
    let reason = std::str::from_utf8(&[b'a', 0xff, b'b']).unwrap_err().to_string();
    assert_eq!(
        read_unconnected_ping(&bytes).unwrap_err(),
        format!("invalid utf8 pong payload: {reason}")
    );
}

#[test]
fn bytes_behind_the_advertisement_do_not_matter() {
    let mut bytes = offline_pong();
    bytes.extend_from_slice(b"tail");
    let read = read_unconnected_ping(&bytes).unwrap();
    assert_eq!(read.build(), offline_pong());
}
