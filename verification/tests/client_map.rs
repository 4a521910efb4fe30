use phantom_rs::client_map::{CleanupStep, ClientMap, ConnectionStep};
use phantom_rs::net::SocketAddr;

const SEC: u128 = 1_000_000_000;

fn addr(port: u16) -> SocketAddr {
    SocketAddr::V4 { ip: 0x0a00_0001, port }
}

fn server() -> SocketAddr {
    SocketAddr::V4 { ip: 0x0102_0304, port: 19132 }
}

fn swept(map: &mut ClientMap<u32>, now: u128) -> Vec<SocketAddr> {
    match map.idle_cleanup(now) {
        CleanupStep::Swept(gone) => gone,
        CleanupStep::Stop => panic!("closed"),
    }
}

#[test]
fn new_client_needs_a_connection() {
    let mut map: ClientMap<u32> = ClientMap::new(60 * SEC, 5 * SEC);
    let step = map.get_or_create(addr(1), server(), 0);
    let bind = SocketAddr::V4 { ip: 0, port: 0 };
    assert_eq!(step, ConnectionStep::Open { bind, remote: server() });
    assert_eq!(map.connection(addr(1)), None);
    map.insert(addr(1), 7, 0);
    assert_eq!(map.get_or_create(addr(1), server(), 1), ConnectionStep::Reuse);
    assert_eq!(map.connection(addr(1)), Some(&7));
    assert_eq!(map.idle_check_interval(), 5 * SEC);
}

#[test]
fn ipv6_server_is_reached_from_ipv6() {
    let mut map: ClientMap<u32> = ClientMap::new(SEC, SEC);
    let remote = SocketAddr::V6 { ip: 1, port: 19133, flowinfo: 2, scope_id: 3 };
    let bind = SocketAddr::V6 { ip: 0, port: 0, flowinfo: 0, scope_id: 0 };
    assert_eq!(map.get_or_create(addr(1), remote, 0), ConnectionStep::Open { bind, remote });
}

#[test]
fn idle_client_goes_and_active_client_stays() {
    let mut map: ClientMap<u32> = ClientMap::new(60 * SEC, 5 * SEC);
    map.insert(addr(1), 1, 0);
    map.insert(addr(2), 2, 10 * SEC);
    assert_eq!(swept(&mut map, 60 * SEC - 1), vec![]);
    assert_eq!(swept(&mut map, 60 * SEC), vec![addr(1)]);
    assert_eq!(map.connection(addr(1)), None);
    assert_eq!(map.connection(addr(2)), Some(&2));
    map.get_or_create(addr(2), server(), 65 * SEC);
    assert_eq!(swept(&mut map, 100 * SEC), vec![]);
    assert_eq!(swept(&mut map, 125 * SEC), vec![addr(2)]);
}

#[test]
fn one_sweep_takes_every_idle_client() {
    let mut map: ClientMap<u32> = ClientMap::new(SEC, SEC);
    for port in 1..=5u16 {
        map.insert(addr(port), port as u32, if port % 2 == 1 { 0 } else { 9 * SEC });
    }
    let mut gone: Vec<u16> = swept(&mut map, 5 * SEC).iter().map(|a| a.port()).collect();
    gone.sort();
    assert_eq!(gone, vec![1, 3, 5]);
    assert_eq!(map.connection(addr(2)), Some(&2));
    assert_eq!(map.connection(addr(4)), Some(&4));
}

#[test]
fn huge_timeout_never_runs_out() {
    let mut map: ClientMap<u32> = ClientMap::new(u128::MAX, SEC);
    map.insert(addr(1), 1, 5);
    assert_eq!(swept(&mut map, u128::MAX), vec![]);
}

#[test]
fn delete_undoes_insert() {
    let mut map: ClientMap<u32> = ClientMap::new(SEC, SEC);
    map.insert(addr(1), 1, 0);
    map.insert(addr(2), 2, 0);
    map.delete(addr(1));
    map.delete(addr(3));
    assert_eq!(map.connection(addr(1)), None);
    assert_eq!(map.connection(addr(2)), Some(&2));
}

#[test]
fn insert_replaces_the_connection() {
    let mut map: ClientMap<u32> = ClientMap::new(SEC, SEC);
    map.insert(addr(1), 1, 0);
    map.insert(addr(1), 2, 5 * SEC);
    assert_eq!(map.connection(addr(1)), Some(&2));
    assert_eq!(swept(&mut map, 5 * SEC), vec![]);
}

#[test]
fn clients_of_one_port_differ_by_address() {
    let mut map: ClientMap<u32> = ClientMap::new(SEC, SEC);
    map.insert(addr(1), 1, 0);
    assert_eq!(map.connection(SocketAddr::V4 { ip: 9, port: 1 }), None);
}

#[test]
fn closed_map_is_empty_and_stops_the_clean_up() {
    let mut map: ClientMap<u32> = ClientMap::new(SEC, SEC);
    map.insert(addr(1), 1, 0);
    assert!(!map.is_closed());
    map.close();
    assert!(map.is_closed());
    assert_eq!(map.connection(addr(1)), None);
    assert!(matches!(map.idle_cleanup(9 * SEC), CleanupStep::Stop));
    map.insert(addr(1), 4, 0);
    map.close();
    assert_eq!(map.connection(addr(1)), Some(&4));
}
