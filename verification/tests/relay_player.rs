use phantom_rs::net::SocketAddr;
use phantom_rs::relay::RelayPlayerConfig;
use phantom_rs::relay_player::{Endpoints, PlayerStep, RelayPlayer, MAX_ENDPOINTS};

fn addr(ip: u32) -> SocketAddr {
    SocketAddr::V4 { ip, port: 40_000 }
}

fn player() -> RelayPlayer<u32> {
    RelayPlayer::new(RelayPlayerConfig {
        relay_url: "ws://relay".to_string(),
        room: "a b".to_string(),
        bind_port: 19132,
    })
}

#[test]
fn player_listens_on_every_address() {
    assert_eq!(player().bind_address(), SocketAddr::V4 { ip: 0, port: 19132 });
}

fn sent(step: PlayerStep) -> (u16, Vec<u8>) {
    match step {
        PlayerStep::Send { port, payload } => (port, payload),
        other => panic!("{:?}", other),
    }
}

fn targets(p: &RelayPlayer<u32>, port: u16) -> Vec<SocketAddr> {
    p.deliver(port, b"").unwrap().targets
}

#[test]
fn first_packet_opens_a_tunnel() {
    let mut p = player();
    match p.on_packet(addr(1), b"one".to_vec()) {
        PlayerStep::OpenTunnel { url, payload } => {
            assert_eq!(url, "ws://relay/?role=player&room=a%20b");
            assert_eq!(payload, b"one");
        }
        other => panic!("{:?}", other),
    }
    let one = p.tunnel_opened(addr(1), b"one".to_vec(), Some(7));
    assert_eq!(sent(one), (40_000, b"one".to_vec()));
    assert_eq!(targets(&p, 40_000), vec![addr(1)]);
    assert_eq!(sent(p.on_packet(addr(2), b"two".to_vec())), (40_000, b"two".to_vec()));
    assert_eq!(sent(p.on_packet(addr(1), vec![])), (40_000, vec![]));
    assert_eq!(targets(&p, 40_000), vec![addr(1), addr(2)]);
    assert_eq!(p.tunnel(40_000), Some(&7));
    let other = SocketAddr::V4 { ip: 1, port: 40_001 };
    assert!(matches!(p.on_packet(other, vec![]), PlayerStep::OpenTunnel { .. }));
}

#[test]
fn a_player_without_a_tunnel_ends() {
    let mut p = player();
    assert!(matches!(p.tunnel_opened(addr(1), vec![], None), PlayerStep::EndRun));
    assert_eq!(p.tunnel(40_000), None);
}

#[test]
fn messages_go_to_every_endpoint_as_they_are() {
    let mut p = player();
    assert!(p.deliver(40_000, b"x").is_none());
    p.tunnel_opened(addr(1), vec![], Some(7));
    p.on_packet(addr(2), vec![]);
    let delivery = p.deliver(40_000, b"raw \x00 bytes").unwrap();
    assert_eq!(delivery.targets, vec![addr(1), addr(2)]);
    assert_eq!(delivery.bytes, b"raw \x00 bytes");
}

#[test]
fn a_lost_tunnel_is_given_back() {
    let mut p = player();
    p.tunnel_opened(addr(1), vec![], Some(7));
    p.on_packet(addr(2), vec![]);
    let lost = p.tunnel_lost(40_000).unwrap();
    assert_eq!(lost.handle, 7);
    assert_eq!(lost.endpoints.deliver(b"m").targets, vec![addr(1), addr(2)]);
    assert_eq!(p.tunnel(40_000), None);
    assert!(p.tunnel_lost(40_000).is_none());
    assert!(matches!(p.on_packet(addr(1), vec![]), PlayerStep::OpenTunnel { .. }));
}

#[test]
fn a_run_keeps_one_tunnel_per_port() {
    let mut p = player();
    for i in 0..40u32 {
        let from = SocketAddr::V4 { ip: i % 11, port: 1000 + (i % 3) as u16 };
        let mut step = p.on_packet(from, vec![i as u8]);
        if let PlayerStep::OpenTunnel { payload, .. } = step {
            step = p.tunnel_opened(from, payload, Some(i));
        }
        assert_eq!(sent(step), (from.port(), vec![i as u8]));
    }
    for port in 1000..1003u16 {
        assert_eq!(p.tunnel(port), Some(&((port - 1000) as u32)));
        let kept = targets(&p, port);
        assert_eq!(kept.len(), 8);
        for (k, endpoint) in kept.iter().enumerate() {
            assert_eq!(endpoint.port(), port);
            assert!(!kept[k + 1..].contains(endpoint));
        }
    }
    assert_eq!(p.tunnel(1003), None);
}

#[test]
fn endpoints_are_noted_once() {
    let mut e = Endpoints::new(addr(1));
    assert!(!e.note(addr(1)));
    assert!(e.note(addr(2)));
    assert!(!e.note(addr(1)));
    assert_eq!(e.targets(), vec![addr(1), addr(2)]);
}

#[test]
fn the_oldest_endpoint_makes_room() {
    let mut e = Endpoints::new(addr(1));
    for ip in 2..=MAX_ENDPOINTS as u32 {
        assert!(e.note(addr(ip)));
    }
    assert_eq!(e.targets().len(), 8);
    assert!(!e.note(addr(3)));
    assert!(e.note(addr(9)));
    let expected: Vec<SocketAddr> = (2..=9).map(addr).collect();
    assert_eq!(e.targets(), expected);
    assert!(e.note(addr(1)));
    assert_eq!(e.targets().len(), 8);
    assert_eq!(e.targets()[0], addr(3));
}
