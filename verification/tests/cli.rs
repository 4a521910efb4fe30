use phantom_rs::cli::{
    invalid_server_message, lookup_text, normalize_legacy_args, resolve_socket_addr,
    MissingOption, Options, Plan, RelayRole,
};
use phantom_rs::net::SocketAddr;
use phantom_rs::ServerProtocol;

fn options() -> Options {
    Options {
        server: None,
        server_positional: None,
        bind: "0.0.0.0".to_string(),
        bind_port: 0,
        relay: None,
        room: "bedrock1".to_string(),
        relay_role: None,
        direct_relay: false,
        timeout: 60,
        ipv6: false,
        remove_ports: false,
        workers: 1,
        server_protocol: ServerProtocol::Raknet,
    }
}

fn text(s: &str) -> Option<String> {
    Some(s.to_string())
}

fn normalized(args: &[&str]) -> Vec<String> {
    let given = args.iter().map(|a| text(a)).collect();
    normalize_legacy_args(given).into_iter().map(|a| a.unwrap()).collect()
}

#[test]
fn single_dash_flags_are_accepted() {
    for flag in [
        "server",
        "bind",
        "bind_port",
        "timeout",
        "debug",
        "remove_ports",
        "workers",
        "server_protocol",
        "relay",
        "room",
        "relay_role",
        "direct_relay",
    ] {
        let short = format!("-{flag}");
        let long = format!("--{flag}");
        assert_eq!(normalized(&[&short]), vec![long.clone()]);
        assert_eq!(normalized(&[&long]), vec![long]);
    }
}

#[test]
fn other_arguments_stay() {
    let args = ["phantom", "-6", "-ipv6", "server", "-server=1", "--server", "1.2.3.4:19132", ""];
    assert_eq!(normalized(&args), args);
}

#[test]
fn arguments_keep_their_places() {
    let args = vec![text("phantom"), None, text("-server"), text("h:1"), text("-debug")];
    assert_eq!(
        normalize_legacy_args(args),
        vec![text("phantom"), None, text("--server"), text("h:1"), text("--debug")]
    );
}

#[test]
fn what_is_looked_up() {
    assert_eq!(lookup_text("h:1", ServerProtocol::Raknet), text("h:1"));
    assert_eq!(lookup_text("h:1", ServerProtocol::Nethernet), text("h:1"));
    assert_eq!(lookup_text("h", ServerProtocol::Nethernet), text("h:19132"));
    assert_eq!(lookup_text("h", ServerProtocol::Raknet), None);
    assert_eq!(lookup_text("::1", ServerProtocol::Nethernet), text("::1"));
}

#[test]
fn resolved_addresses() {
    let a = SocketAddr::V4 { ip: 1, port: 2 };
    let b = SocketAddr::V4 { ip: 3, port: 4 };
    let raknet = ServerProtocol::Raknet;
    assert_eq!(resolve_socket_addr("h:1", raknet, Ok(vec![a, b])), Ok(a));
    assert_eq!(resolve_socket_addr("h", ServerProtocol::Nethernet, Ok(vec![b])), Ok(b));
    assert_eq!(
        resolve_socket_addr("h:1", raknet, Ok(vec![])),
        Err("could not resolve address".to_string())
    );
    assert_eq!(resolve_socket_addr("h:1", raknet, Err("no".to_string())), Err("no".to_string()));
    assert_eq!(
        resolve_socket_addr("h", raknet, Ok(vec![a])),
        Err("expected host:port".to_string())
    );
}

#[test]
fn message_for_an_invalid_server() {
    assert_eq!(
        invalid_server_message("h", "expected host:port"),
        "invalid --server value. expected host:port or host (for nethernet), got h: expected host:port"
    );
}

#[test]
fn proxy_is_the_default() {
    let mut o = options();
    o.server = text("h:1");
    o.server_positional = text("other:2");
    o.ipv6 = true;
    o.workers = 3;
    match o.plan().unwrap() {
        Plan::Proxy(prefs) => {
            assert_eq!(prefs.remote_server, "h:1");
            assert_eq!(prefs.bind_address, "0.0.0.0");
            assert_eq!(prefs.bind_port, 0);
            assert_eq!(prefs.idle_timeout, 60_000_000_000);
            assert!(prefs.enable_ipv6);
            assert!(!prefs.remove_ports);
            assert_eq!(prefs.num_workers, 3);
            assert_eq!(prefs.server_protocol, ServerProtocol::Raknet);
        }
        other => panic!("{:?}", other),
    }
}

#[test]
fn longest_timeout_fits() {
    let mut o = options();
    o.server_positional = text("h:1");
    o.timeout = u64::MAX;
    match o.plan().unwrap() {
        Plan::Proxy(prefs) => {
            assert_eq!(prefs.remote_server, "h:1");
            assert_eq!(prefs.idle_timeout, u64::MAX as u128 * 1_000_000_000);
        }
        other => panic!("{:?}", other),
    }
}

#[test]
fn missing_options() {
    assert_eq!(options().plan().unwrap_err(), MissingOption::Server);
    let mut o = options();
    o.relay_role = Some(RelayRole::Player);
    assert_eq!(o.plan().unwrap_err(), MissingOption::Relay);
    let mut o = options();
    o.direct_relay = true;
    assert_eq!(o.plan().unwrap_err(), MissingOption::Relay);
    let mut o = options();
    o.direct_relay = true;
    o.relay = text("ws://r");
    assert_eq!(o.plan().unwrap_err(), MissingOption::Server);
    assert_eq!(MissingOption::Relay.question(), "Did you forget --relay?");
    assert_eq!(MissingOption::Server.question(), "Did you forget --server?");
}

#[test]
fn relay_player_needs_no_server() {
    let mut o = options();
    o.relay = text("ws://r");
    o.relay_role = Some(RelayRole::Player);
    match o.plan().unwrap() {
        Plan::RelayPlayer(config) => {
            assert_eq!(config.relay_url, "ws://r");
            assert_eq!(config.room, "bedrock1");
            assert_eq!(config.bind_port, 19132);
        }
        other => panic!("{:?}", other),
    }
    let mut o = options();
    o.relay = text("ws://r");
    o.relay_role = Some(RelayRole::Player);
    o.bind_port = 5;
    assert!(matches!(o.plan().unwrap(), Plan::RelayPlayer(config) if config.bind_port == 5));
}

#[test]
fn direct_relay_is_the_host() {
    let mut o = options();
    o.relay = text("ws://r");
    o.relay_role = Some(RelayRole::Player);
    o.direct_relay = true;
    o.server_positional = text("h:1");
    o.server_protocol = ServerProtocol::Nethernet;
    match o.plan().unwrap() {
        Plan::RelayHost { relay_url, room, server, server_protocol } => {
            assert_eq!(relay_url, "ws://r");
            assert_eq!(room, "bedrock1");
            assert_eq!(server, "h:1");
            assert_eq!(server_protocol, ServerProtocol::Nethernet);
        }
        other => panic!("{:?}", other),
    }
}
