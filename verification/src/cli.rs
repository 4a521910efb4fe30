//! What the command line asks for.

use vstd::prelude::*;

use crate::net::SocketAddr;
use crate::proxy::{PrefsView, ProxyPrefs, ServerProtocol, PING_PORT};
use crate::relay::RelayPlayerConfig;
use crate::text::{str_contains_char, str_eq};

verus! {

// ---- flags with a single dash ----

/// The flags that are accepted with a single dash.
pub open spec fn legacy_flags() -> Seq<Seq<char>> {
    seq![
        "-server"@,
        "-bind"@,
        "-bind_port"@,
        "-timeout"@,
        "-debug"@,
        "-remove_ports"@,
        "-workers"@,
        "-server_protocol"@,
        "-relay"@,
        "-room"@,
        "-relay_role"@,
        "-direct_relay"@,
    ]
}

/// An argument as it is understood: a flag with a single dash gets its second one.
pub open spec fn normalized_arg(arg: Seq<char>) -> Seq<char> {
    if legacy_flags().contains(arg) {
        seq!['-'] + arg
    } else {
        arg
    }
}

/// The two spellings of each flag.
proof fn lemma_flag_spellings()
    ensures
        "--server"@ == seq!['-'] + "-server"@,
        "--bind"@ == seq!['-'] + "-bind"@,
        "--bind_port"@ == seq!['-'] + "-bind_port"@,
        "--timeout"@ == seq!['-'] + "-timeout"@,
        "--debug"@ == seq!['-'] + "-debug"@,
        "--remove_ports"@ == seq!['-'] + "-remove_ports"@,
        "--workers"@ == seq!['-'] + "-workers"@,
        "--server_protocol"@ == seq!['-'] + "-server_protocol"@,
        "--relay"@ == seq!['-'] + "-relay"@,
        "--room"@ == seq!['-'] + "-room"@,
        "--relay_role"@ == seq!['-'] + "-relay_role"@,
        "--direct_relay"@ == seq!['-'] + "-direct_relay"@,
        forall|i: int|
            0 <= i < legacy_flags().len() ==> (#[trigger] legacy_flags()[i]).len() > 1
                && legacy_flags()[i][0] == '-' && legacy_flags()[i][1] != '-',
{
    reveal_strlit("-server");
    reveal_strlit("--server");
    reveal_strlit("-bind");
    reveal_strlit("--bind");
    reveal_strlit("-bind_port");
    reveal_strlit("--bind_port");
    reveal_strlit("-timeout");
    reveal_strlit("--timeout");
    reveal_strlit("-debug");
    reveal_strlit("--debug");
    reveal_strlit("-remove_ports");
    reveal_strlit("--remove_ports");
    reveal_strlit("-workers");
    reveal_strlit("--workers");
    reveal_strlit("-server_protocol");
    reveal_strlit("--server_protocol");
    reveal_strlit("-relay");
    reveal_strlit("--relay");
    reveal_strlit("-room");
    reveal_strlit("--room");
    reveal_strlit("-relay_role");
    reveal_strlit("--relay_role");
    reveal_strlit("-direct_relay");
    reveal_strlit("--direct_relay");
    assert("--server"@ =~= seq!['-'] + "-server"@);
    assert("--bind"@ =~= seq!['-'] + "-bind"@);
    assert("--bind_port"@ =~= seq!['-'] + "-bind_port"@);
    assert("--timeout"@ =~= seq!['-'] + "-timeout"@);
    assert("--debug"@ =~= seq!['-'] + "-debug"@);
    assert("--remove_ports"@ =~= seq!['-'] + "-remove_ports"@);
    assert("--workers"@ =~= seq!['-'] + "-workers"@);
    assert("--server_protocol"@ =~= seq!['-'] + "-server_protocol"@);
    assert("--relay"@ =~= seq!['-'] + "-relay"@);
    assert("--room"@ =~= seq!['-'] + "-room"@);
    assert("--relay_role"@ =~= seq!['-'] + "-relay_role"@);
    assert("--direct_relay"@ =~= seq!['-'] + "-direct_relay"@);
}

fn long_flag(arg: &str) -> (r: Option<&'static str>)
    ensures
        match r {
            Some(flag) => legacy_flags().contains(arg@) && flag@ == seq!['-'] + arg@,
            None => !legacy_flags().contains(arg@),
        },
{
    proof {
        lemma_flag_spellings();
    }
    let r = if str_eq(arg, "-server") {
        assert(legacy_flags()[0] == arg@);
        Some("--server")
    } else if str_eq(arg, "-bind") {
        assert(legacy_flags()[1] == arg@);
        Some("--bind")
    } else if str_eq(arg, "-bind_port") {
        assert(legacy_flags()[2] == arg@);
        Some("--bind_port")
    } else if str_eq(arg, "-timeout") {
        assert(legacy_flags()[3] == arg@);
        Some("--timeout")
    } else if str_eq(arg, "-debug") {
        assert(legacy_flags()[4] == arg@);
        Some("--debug")
    } else if str_eq(arg, "-remove_ports") {
        assert(legacy_flags()[5] == arg@);
        Some("--remove_ports")
    } else if str_eq(arg, "-workers") {
        assert(legacy_flags()[6] == arg@);
        Some("--workers")
    } else if str_eq(arg, "-server_protocol") {
        assert(legacy_flags()[7] == arg@);
        Some("--server_protocol")
    } else if str_eq(arg, "-relay") {
        assert(legacy_flags()[8] == arg@);
        Some("--relay")
    } else if str_eq(arg, "-room") {
        assert(legacy_flags()[9] == arg@);
        Some("--room")
    } else if str_eq(arg, "-relay_role") {
        assert(legacy_flags()[10] == arg@);
        Some("--relay_role")
    } else if str_eq(arg, "-direct_relay") {
        assert(legacy_flags()[11] == arg@);
        Some("--direct_relay")
    } else {
        None
    };
    assert(r is Some ==> r->0@ =~= seq!['-'] + arg@);
    r
}

/// The view of an argument; `None` stands for one that is no text.
pub open spec fn arg_view(arg: Option<String>) -> Option<Seq<char>> {
    match arg {
        Some(s) => Some(s@),
        None => None,
    }
}

/// Arguments as they are understood, in the order given. Those that are no text, given as `None`,
/// stay as they are.
pub fn normalize_legacy_args(args: Vec<Option<String>>) -> (r: Vec<Option<String>>)
    ensures
        r@.len() == args@.len(),
        forall|i: int|
            0 <= i < args@.len() ==> arg_view(#[trigger] r@[i]) == (match arg_view(args@[i]) {
                Some(arg) => Some(normalized_arg(arg)),
                None => None,
            }),
{
    let mut r: Vec<Option<String>> = Vec::new();
    for i in 0..args.len()
        invariant
            r@.len() == i,
            forall|j: int|
                0 <= j < i ==> arg_view(#[trigger] r@[j]) == (match arg_view(args@[j]) {
                    Some(arg) => Some(normalized_arg(arg)),
                    None => None,
                }),
    {
        let arg = match &args[i] {
            Some(arg) => match long_flag(arg.as_str()) {
                Some(flag) => Some(flag.to_owned()),
                None => Some(arg.clone()),
            },
            None => None,
        };
        r.push(arg);
    }
    r
}

// ---- addresses ----

/// The text to look up for a server: as it is where it names a port; a NetherNet server may leave
/// the port out.
pub open spec fn lookup_target(input: Seq<char>, protocol: ServerProtocol) -> Option<Seq<char>> {
    if input.contains(':') {
        Some(input)
    } else if protocol == ServerProtocol::Nethernet {
        Some(input + ":19132"@)
    } else {
        None
    }
}

/// The text to look up for a server; `None` where a port is missing.
pub fn lookup_text(input: &str, protocol: ServerProtocol) -> (r: Option<String>)
    ensures
        arg_view(r) == lookup_target(input@, protocol),
{
    if str_contains_char(input, ':') {
        return Some(input.to_owned());
    }
    if protocol == ServerProtocol::Nethernet {
        let mut addr = input.to_owned();
        addr.append(":19132");
        return Some(addr);
    }
    None
}

/// The address of a server, from what looking up its text has found.
pub fn resolve_socket_addr(
    input: &str,
    protocol: ServerProtocol,
    found: Result<Vec<SocketAddr>, String>,
) -> (r: Result<SocketAddr, String>)
    ensures
        match r {
            Ok(addr) => {
                &&& lookup_target(input@, protocol) is Some
                &&& found is Ok
                &&& found->Ok_0@.len() > 0
                &&& addr == found->Ok_0@[0]
            },
            Err(e) => {
                &&& lookup_target(input@, protocol) is None ==> e@ == "expected host:port"@
                &&& lookup_target(input@, protocol) is Some && found is Err ==> e@
                    == found->Err_0@
                &&& lookup_target(input@, protocol) is Some && found is Ok ==> e@
                    == "could not resolve address"@ && found->Ok_0@.len() == 0
            },
        },
{
    match lookup_text(input, protocol) {
        None => Err("expected host:port".to_owned()),
        Some(_) => match found {
            Err(e) => Err(e),
            Ok(addrs) => if addrs.len() == 0 {
                Err("could not resolve address".to_owned())
            } else {
                Ok(addrs[0])
            },
        },
    }
}

/// What the user is told about a server that has no address.
pub fn invalid_server_message(server: &str, reason: &str) -> (r: String)
    ensures
        r@ == "invalid --server value. expected host:port or host (for nethernet), got "@ + server@
            + ": "@ + reason@,
{
    let mut r = "invalid --server value. expected host:port or host (for nethernet), got ".to_owned();
    r.append(server);
    r.append(": ");
    r.append(reason);
    r
}

// ---- what to run ----

/// The side of the relay to play.
#[derive(Clone, Copy, Debug, PartialEq, Eq, Structural)]
pub enum RelayRole {
    Host,
    Player,
}

/// The options that were given.
#[derive(Debug)]
pub struct Options {
    pub server: Option<String>,
    pub server_positional: Option<String>,
    pub bind: String,
    pub bind_port: u16,
    pub relay: Option<String>,
    pub room: String,
    pub relay_role: Option<RelayRole>,
    pub direct_relay: bool,
    pub timeout: u64,
    pub ipv6: bool,
    pub remove_ports: bool,
    pub workers: usize,
    pub server_protocol: ServerProtocol,
}

/// What to run.
#[derive(Debug)]
pub enum Plan {
    /// A relay host for the server, whose address is still to be looked up.
    RelayHost { relay_url: String, room: String, server: String, server_protocol: ServerProtocol },
    /// A relay player.
    RelayPlayer(RelayPlayerConfig),
    /// The proxy.
    Proxy(ProxyPrefs),
}

/// The option that is missing.
#[derive(Clone, Copy, Debug, PartialEq, Eq, Structural)]
pub enum MissingOption {
    Relay,
    Server,
}

/// A plan as mathematical values.
pub enum PlanView {
    RelayHost {
        relay_url: Seq<char>,
        room: Seq<char>,
        server: Seq<char>,
        server_protocol: ServerProtocol,
    },
    RelayPlayer { relay_url: Seq<char>, room: Seq<char>, bind_port: u16 },
    Proxy(PrefsView),
}

impl View for Plan {
    type V = PlanView;

    open spec fn view(&self) -> PlanView {
        match *self {
            Plan::RelayHost { relay_url, room, server, server_protocol } => PlanView::RelayHost {
                relay_url: relay_url@,
                room: room@,
                server: server@,
                server_protocol,
            },
            Plan::RelayPlayer(config) => PlanView::RelayPlayer {
                relay_url: config.relay_url@,
                room: config.room@,
                bind_port: config.bind_port,
            },
            Plan::Proxy(prefs) => PlanView::Proxy(prefs@),
        }
    }
}

impl MissingOption {
    /// What the user is asked.
    pub fn question(&self) -> (r: &'static str)
        ensures
            r@ == (match *self {
                MissingOption::Relay => "Did you forget --relay?"@,
                MissingOption::Server => "Did you forget --server?"@,
            }),
    {
        match self {
            MissingOption::Relay => "Did you forget --relay?",
            MissingOption::Server => "Did you forget --server?",
        }
    }
}

impl Options {
    /// The role in the relay, if there is to be one: the shortcut stands for the host.
    pub open spec fn role(&self) -> Option<RelayRole> {
        if self.direct_relay {
            Some(RelayRole::Host)
        } else {
            self.relay_role
        }
    }

    /// The server that was named, by its flag or, failing that, alone.
    pub open spec fn named_server(&self) -> Option<Seq<char>> {
        match self.server {
            Some(s) => Some(s@),
            None => arg_view(self.server_positional),
        }
    }

    /// What the options ask for, or the option that they lack.
    pub open spec fn planned(&self) -> Result<PlanView, MissingOption> {
        let relay = arg_view(self.relay);
        let server = self.named_server();
        if self.role() is Some && relay is None {
            Err(MissingOption::Relay)
        } else if self.role() == Some(RelayRole::Player) {
            Ok(
                PlanView::RelayPlayer {
                    relay_url: relay->0,
                    room: self.room@,
                    bind_port: if self.bind_port == 0 { PING_PORT } else { self.bind_port },
                },
            )
        } else if server is None {
            Err(MissingOption::Server)
        } else if self.role() is Some {
            Ok(
                PlanView::RelayHost {
                    relay_url: relay->0,
                    room: self.room@,
                    server: server->0,
                    server_protocol: self.server_protocol,
                },
            )
        } else {
            Ok(
                PlanView::Proxy(
                    PrefsView {
                        bind_address: self.bind@,
                        bind_port: self.bind_port,
                        remote_server: server->0,
                        server_protocol: self.server_protocol,
                        idle_timeout: (self.timeout * 1_000_000_000) as u128,
                        enable_ipv6: self.ipv6,
                        remove_ports: self.remove_ports,
                        num_workers: self.workers,
                    },
                ),
            )
        }
    }

    /// What the options ask for, or the option that they lack.
    pub fn plan(self) -> (r: Result<Plan, MissingOption>)
        ensures
            match r {
                Ok(plan) => self.planned() == Ok::<PlanView, MissingOption>(plan@),
                Err(missing) => self.planned() == Err::<PlanView, MissingOption>(missing),
            },
    {
        let role = if self.direct_relay { Some(RelayRole::Host) } else { self.relay_role };
        let server = match self.server {
            Some(server) => Some(server),
            None => self.server_positional,
        };
        match role {
            Some(role) => {
                let relay_url = match self.relay {
                    Some(url) => url,
                    None => {
                        return Err(MissingOption::Relay);
                    },
                };
                match role {
                    RelayRole::Host => match server {
                        Some(server) => Ok(
                            Plan::RelayHost {
                                relay_url,
                                room: self.room,
                                server,
                                server_protocol: self.server_protocol,
                            },
                        ),
                        None => Err(MissingOption::Server),
                    },
                    RelayRole::Player => {
                        let bind_port: u16 = if self.bind_port == 0 {
                            PING_PORT
                        } else {
                            self.bind_port
                        };
                        Ok(
                            Plan::RelayPlayer(
                                RelayPlayerConfig { relay_url, room: self.room, bind_port },
                            ),
                        )
                    },
                }
            },
            None => match server {
                Some(server) => Ok(
                    Plan::Proxy(
                        ProxyPrefs {
                            bind_address: self.bind,
                            bind_port: self.bind_port,
                            remote_server: server,
                            server_protocol: self.server_protocol,
                            idle_timeout: (self.timeout as u128) * 1_000_000_000,
                            enable_ipv6: self.ipv6,
                            remove_ports: self.remove_ports,
                            num_workers: self.workers,
                        },
                    ),
                ),
                None => Err(MissingOption::Server),
            },
        }
    }
}

// ---- laws ----

/// Normalizing an argument twice is normalizing it once: no flag with two dashes is taken for one
/// with a single dash.
pub proof fn law_normalizing_twice(arg: Seq<char>)
    ensures
        normalized_arg(normalized_arg(arg)) == normalized_arg(arg),
{
    if legacy_flags().contains(arg) {
        lemma_flag_spellings();
        let long = seq!['-'] + arg;
        assert(long[1] == '-');
        assert(!legacy_flags().contains(long));
    }
}

/// The shortcut for the relay host outweighs a role that was given.
pub proof fn law_direct_relay_is_the_host(options: Options)
    requires
        options.direct_relay,
    ensures
        options.planned() matches Ok(plan) ==> plan is RelayHost,
        options.planned() is Ok <==> options.relay is Some && options.named_server() is Some,
{
}

/// What is looked up always names a port.
pub proof fn law_lookup_names_a_port(input: Seq<char>, protocol: ServerProtocol)
    ensures
        lookup_target(input, protocol) matches Some(target) ==> target.contains(':'),
        protocol == ServerProtocol::Nethernet ==> lookup_target(input, protocol) is Some,
{
    reveal_strlit(":19132");
    let target = input + ":19132"@;
    assert(target[input.len() as int] == ':');
}

/// An argument gets a second dash exactly where it is one of the twelve flags with a single dash;
/// nothing else is changed, and nothing else is changed about it.
pub proof fn law_what_normalizing_changes(arg: Seq<char>)
    ensures
        normalized_arg(arg) == arg || normalized_arg(arg) == seq!['-'] + arg,
        normalized_arg(arg) != arg <==> arg == "-server"@ || arg == "-bind"@ || arg == "-bind_port"@
            || arg == "-timeout"@ || arg == "-debug"@ || arg == "-remove_ports"@ || arg
            == "-workers"@ || arg == "-server_protocol"@ || arg == "-relay"@ || arg == "-room"@
            || arg == "-relay_role"@ || arg == "-direct_relay"@,
{
    let flags = legacy_flags();
    assert((seq!['-'] + arg).len() == arg.len() + 1);
    assert(flags[0] == "-server"@ && flags[1] == "-bind"@ && flags[2] == "-bind_port"@);
    assert(flags[3] == "-timeout"@ && flags[4] == "-debug"@ && flags[5] == "-remove_ports"@);
    assert(flags[6] == "-workers"@ && flags[7] == "-server_protocol"@ && flags[8] == "-relay"@);
    assert(flags[9] == "-room"@ && flags[10] == "-relay_role"@ && flags[11] == "-direct_relay"@);
    assert(flags.len() == 12);
}

/// A server with a port is looked up as it was given; one without is looked up on port 19132 where
/// it speaks NetherNet and not at all where it speaks RakNet.
pub proof fn law_what_is_looked_up(input: Seq<char>, protocol: ServerProtocol)
    ensures
        input.contains(':') ==> lookup_target(input, protocol) == Some(input),
        !input.contains(':') && protocol == ServerProtocol::Nethernet ==> lookup_target(
            input,
            protocol,
        ) == Some(input + ":19132"@),
        !input.contains(':') && protocol == ServerProtocol::Raknet ==> lookup_target(
            input,
            protocol,
        ) is None,
{
}

/// Where no role in the relay is asked for and a server is named, by its flag or alone, the proxy
/// runs, and every option reaches it as it was given, the timeout in nanoseconds.
pub proof fn law_options_reach_the_proxy(options: Options)
    requires
        !options.direct_relay,
        options.relay_role is None,
        options.server is Some || options.server_positional is Some,
    ensures
        options.planned() matches Ok(PlanView::Proxy(prefs)) && {
            &&& prefs.bind_address == options.bind@
            &&& prefs.bind_port == options.bind_port
            &&& prefs.server_protocol == options.server_protocol
            &&& prefs.idle_timeout == options.timeout * 1_000_000_000
            &&& prefs.enable_ipv6 == options.ipv6
            &&& prefs.remove_ports == options.remove_ports
            &&& prefs.num_workers == options.workers
            &&& options.server is Some ==> prefs.remote_server == options.server->0@
            &&& options.server is None ==> prefs.remote_server == options.server_positional->0@
        },
{
    assert(options.timeout * 1_000_000_000 <= u128::MAX);
}

/// Where the host's role is asked for, or its shortcut is given, and a relay and a server are
/// named, a host runs, with the options as they were given.
pub proof fn law_options_reach_the_host(options: Options)
    requires
        options.direct_relay || options.relay_role == Some(RelayRole::Host),
        options.relay is Some,
        options.server is Some || options.server_positional is Some,
    ensures
        options.planned() matches Ok(
            PlanView::RelayHost { relay_url, room, server, server_protocol },
        ) && {
            &&& relay_url == options.relay->0@
            &&& room == options.room@
            &&& server_protocol == options.server_protocol
            &&& options.server is Some ==> server == options.server->0@
            &&& options.server is None ==> server == options.server_positional->0@
        },
{
}

/// Where the player's role is asked for and a relay is named, a player runs, with the options as
/// they were given and the port 19132 where none was.
pub proof fn law_options_reach_the_player(options: Options)
    requires
        !options.direct_relay,
        options.relay_role == Some(RelayRole::Player),
        options.relay is Some,
    ensures
        options.planned() matches Ok(PlanView::RelayPlayer { relay_url, room, bind_port }) && {
            &&& relay_url == options.relay->0@
            &&& room == options.room@
            &&& options.bind_port != 0 ==> bind_port == options.bind_port
            &&& options.bind_port == 0 ==> bind_port == 19132
        },
{
}

/// An option is missed exactly where it is needed and not there: a relay in either role, and
/// before anything else; a server for the host and for the proxy.
pub proof fn law_missing_options(options: Options)
    ensures
        options.planned() == Err::<PlanView, MissingOption>(MissingOption::Relay) <==> (
        options.direct_relay || options.relay_role is Some) && options.relay is None,
        options.planned() == Err::<PlanView, MissingOption>(MissingOption::Server) <==> (
        options.server is None && options.server_positional is None && ((options.direct_relay || (
        options.relay_role == Some(RelayRole::Host))) && options.relay is Some || (
        !options.direct_relay && options.relay_role is None))),
{
    match options.relay_role {
        Some(RelayRole::Host) => {},
        Some(RelayRole::Player) => {},
        None => {},
    }
}

} // verus!
