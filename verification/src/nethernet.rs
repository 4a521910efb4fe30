//! Server data as NetherNet discovery announces it.

use vstd::prelude::*;

use crate::net;
use crate::net::{wildcard, SocketAddr};
use crate::relay::DISCOVERY_POLL_INTERVAL_MS;
use crate::text;
use crate::text::{parse_i32, parse_u8, str_contains, str_is_blank, to_ascii_lowercase};

verus! {

/// The transport that a server speaks.
#[derive(Clone, Copy, Debug, PartialEq, Eq, Structural)]
pub enum TransportLayer {
    RakNet,
    NetherNet,
}

/// What a server announces about itself.
#[derive(Debug)]
pub struct ServerData {
    pub server_name: String,
    pub level_name: String,
    pub game_type: u8,
    pub player_count: i32,
    pub max_player_count: i32,
    pub editor_world: bool,
    pub hardcore: bool,
    pub transport_layer: TransportLayer,
    pub connection_type: i32,
}

/// Server data as mathematical values.
#[verifier::ext_equal]
pub struct ServerDataView {
    pub server_name: Seq<char>,
    pub level_name: Seq<char>,
    pub game_type: u8,
    pub player_count: i32,
    pub max_player_count: i32,
    pub editor_world: bool,
    pub hardcore: bool,
    pub transport_layer: TransportLayer,
    pub connection_type: i32,
}

impl View for ServerData {
    type V = ServerDataView;

    open spec fn view(&self) -> ServerDataView {
        ServerDataView {
            server_name: self.server_name@,
            level_name: self.level_name@,
            game_type: self.game_type,
            player_count: self.player_count,
            max_player_count: self.max_player_count,
            editor_world: self.editor_world,
            hardcore: self.hardcore,
            transport_layer: self.transport_layer,
            connection_type: self.connection_type,
        }
    }
}

impl Clone for ServerData {
    fn clone(&self) -> (r: Self)
        ensures
            r@ == self@,
    {
        ServerData {
            server_name: self.server_name.clone(),
            level_name: self.level_name.clone(),
            game_type: self.game_type,
            player_count: self.player_count,
            max_player_count: self.max_player_count,
            editor_world: self.editor_world,
            hardcore: self.hardcore,
            transport_layer: self.transport_layer,
            connection_type: self.connection_type,
        }
    }
}

/// The view of server data that may not be there.
pub open spec fn data_view(data: Option<ServerData>) -> Option<ServerDataView> {
    match data {
        Some(d) => Some(d@),
        None => None,
    }
}

/// A copy of server data that may not be there.
pub fn clone_data(data: &Option<ServerData>) -> (r: Option<ServerData>)
    ensures
        data_view(r) == data_view(*data),
{
    match data {
        Some(d) => Some(d.clone()),
        None => None,
    }
}

// ---- texts and numbers of an advertisement ----

/// `value`, or `default` where `value` holds nothing but white space.
pub open spec fn fallback_text(value: Seq<char>, default: Seq<char>) -> Seq<char> {
    if text::is_blank(value) {
        default
    } else {
        value
    }
}

/// `value`, or `default` where `value` holds nothing but white space.
pub fn fallback_string(value: &str, default: &str) -> (r: String)
    ensures
        r@ == fallback_text(value@, default@),
{
    if str_is_blank(value) {
        return default.to_owned();
    }
    value.to_owned()
}

/// The number that `input` denotes, or `default` where it denotes no `i32`.
pub fn parse_i32_or_default(input: &str, default: i32) -> (r: i32)
    ensures
        r == (match text::i32_text(input@) {
            Some(v) => v,
            None => default,
        }),
{
    match parse_i32(input) {
        Some(v) => v,
        None => default,
    }
}

/// The number of a game type that is given by number or by name.
pub open spec fn game_type_number(input: Seq<char>) -> u8 {
    match text::u8_text(input) {
        Some(raw) => raw,
        None => {
            let lower = text::ascii_lowercase(input);
            if text::contains_text(lower, "creative"@) {
                2
            } else if text::contains_text(lower, "adventure"@) {
                3
            } else {
                1
            }
        },
    }
}

/// The number of a game type that is given by number or by name.
pub fn map_game_type(input: &str) -> (r: u8)
    ensures
        r == game_type_number(input@),
{
    if let Some(raw) = parse_u8(input) {
        return raw;
    }
    let normalized = to_ascii_lowercase(input);
    if str_contains(normalized.as_str(), "creative") {
        return 2;
    }
    if str_contains(normalized.as_str(), "adventure") {
        return 3;
    }
    1
}

/// The name of a game type.
pub open spec fn game_type_text(value: u8) -> Seq<char> {
    if value == 2 {
        "Creative"@
    } else if value == 3 {
        "Adventure"@
    } else {
        "Survival"@
    }
}

/// The name of a game type.
pub fn game_type_name(value: u8) -> (r: &'static str)
    ensures
        r@ == game_type_text(value),
{
    match value {
        2 => "Creative",
        3 => "Adventure",
        _ => "Survival",
    }
}

// ---- discovery ----

/// The number that a hexadecimal digit denotes.
pub open spec fn hex_digit_value(b: u8) -> Option<int> {
    if 0x30 <= b <= 0x39 {
        Some(b - 0x30)
    } else if 0x41 <= b <= 0x46 {
        Some(b - 0x41 + 10)
    } else if 0x61 <= b <= 0x66 {
        Some(b - 0x61 + 10)
    } else {
        None
    }
}

/// The bytes that pairs of hexadecimal digits denote; `None` for an odd number of characters or
/// one that is no such digit.
pub open spec fn hex_decoded(digits: Seq<u8>) -> Option<Seq<u8>> {
    if digits.len() % 2 == 0 && forall|i: int|
        0 <= i < digits.len() ==> hex_digit_value(#[trigger] digits[i]) is Some {
        Some(
            Seq::new(
                digits.len() / 2,
                |i: int|
                    (hex_digit_value(digits[2 * i])->0 * 16 + hex_digit_value(
                        digits[2 * i + 1],
                    )->0) as u8,
            ),
        )
    } else {
        None
    }
}

/// The error of the `hex` crate.
#[verifier::external_type_specification]
#[verifier::external_body]
pub struct ExFromHexError(hex::FromHexError);

/// `hex::decode` turns each pair of hexadecimal digits, small or capital, into one byte. It
/// refuses an odd number of characters and any other character. Which error it gives is not
/// claimed.
#[verifier::external_body]
fn hex_decode(digits: &[u8]) -> (r: Result<Vec<u8>, hex::FromHexError>)
    ensures
        match r {
            Ok(bytes) => hex_decoded(digits@) == Some(bytes@),
            Err(_) => hex_decoded(digits@) is None,
        },
{
    hex::decode(digits)
}

/// The bytes of a discovery response, which are sent as hexadecimal digits.
pub fn response_bytes(payload: &[u8]) -> (r: Option<Vec<u8>>)
    ensures
        match r {
            Some(bytes) => hex_decoded(payload@) == Some(bytes@),
            None => hex_decoded(payload@) is None,
        },
{
    match hex_decode(payload) {
        Ok(bytes) => Some(bytes),
        Err(_) => None,
    }
}

/// The milliseconds between two questions of a listener that announces server data.
pub const ANNOUNCE_BROADCAST_INTERVAL_MS: u64 = 500;

/// The milliseconds between two questions of a listener that looks for answers once.
pub const QUERY_BROADCAST_INTERVAL_MS: u64 = 250;

/// The milliseconds after which such a listener looks for answers.
pub const QUERY_WAIT_MS: u64 = 450;

/// Where a discovery listener is bound, whom it asks, and after how many milliseconds it asks
/// again.
#[derive(Clone, Copy, Debug, PartialEq, Eq, Structural)]
pub struct DiscoveryTarget {
    pub bind: SocketAddr,
    pub broadcast: SocketAddr,
    pub broadcast_interval_ms: u64,
}

/// A listener on any free port that asks the server's host on the discovery port, to look for
/// answers once.
pub fn discovery_target(server: SocketAddr, discovery_port: u16) -> (r: DiscoveryTarget)
    ensures
        r == (DiscoveryTarget {
            bind: net::wildcard_addr(server.ipv6(), 0),
            broadcast: server.at_port(discovery_port),
            broadcast_interval_ms: QUERY_BROADCAST_INTERVAL_MS,
        }),
{
    DiscoveryTarget {
        bind: wildcard(server.is_ipv6(), 0),
        broadcast: server.with_port(discovery_port),
        broadcast_interval_ms: QUERY_BROADCAST_INTERVAL_MS,
    }
}

/// The same listener, to look for answers as often as it asks.
pub fn poll_target(server: SocketAddr, discovery_port: u16) -> (r: DiscoveryTarget)
    ensures
        r == (DiscoveryTarget {
            bind: net::wildcard_addr(server.ipv6(), 0),
            broadcast: server.at_port(discovery_port),
            broadcast_interval_ms: DISCOVERY_POLL_INTERVAL_MS,
        }),
{
    DiscoveryTarget {
        bind: wildcard(server.is_ipv6(), 0),
        broadcast: server.with_port(discovery_port),
        broadcast_interval_ms: DISCOVERY_POLL_INTERVAL_MS,
    }
}

/// A listener on the discovery port, of the proxy's own address family, that asks the server's
/// host on that port too.
pub fn announce_target(
    bind_address: SocketAddr,
    server: SocketAddr,
    discovery_port: u16,
) -> (r: DiscoveryTarget)
    ensures
        r == (DiscoveryTarget {
            bind: net::wildcard_addr(bind_address.ipv6(), discovery_port),
            broadcast: server.at_port(discovery_port),
            broadcast_interval_ms: ANNOUNCE_BROADCAST_INTERVAL_MS,
        }),
{
    DiscoveryTarget {
        bind: wildcard(bind_address.is_ipv6(), discovery_port),
        broadcast: server.with_port(discovery_port),
        broadcast_interval_ms: ANNOUNCE_BROADCAST_INTERVAL_MS,
    }
}

/// The first of the answers that is there.
pub open spec fn first_answer(answers: Seq<Option<ServerData>>) -> Option<ServerDataView>
    decreases answers.len(),
{
    if answers.len() == 0 {
        None
    } else if answers[0] is Some {
        data_view(answers[0])
    } else {
        first_answer(answers.drop_first())
    }
}

/// The first of the answers that is there.
pub fn first_server_data(answers: &Vec<Option<ServerData>>) -> (r: Option<ServerData>)
    ensures
        data_view(r) == first_answer(answers@),
{
    assert(answers@.skip(0) =~= answers@);
    for i in 0..answers.len()
        invariant
            first_answer(answers@.skip(i as int)) == first_answer(answers@),
    {
        assert(answers@.skip(i as int)[0] == answers@[i as int]);
        if let Some(data) = &answers[i] {
            return Some(data.clone());
        }
        assert(answers@.skip(i as int).drop_first() =~= answers@.skip(i + 1));
    }
    None
}

/// What a query does after it has looked at the answers.
#[derive(Debug)]
pub enum PollStep {
    /// An answer came.
    Found(ServerData),
    /// None came yet: look again after the interval.
    Wait,
    /// None came and there is no attempt left.
    GiveUp,
}

/// A query that looks for answers a limited number of times.
#[derive(Debug)]
pub struct DiscoveryPoll {
    attempts_left: usize,
}

impl DiscoveryPoll {
    /// The number of times it will still look.
    pub closed spec fn left(&self) -> usize {
        self.attempts_left
    }

    /// A query that looks `attempts` times.
    pub fn new(attempts: usize) -> (r: Self)
        ensures
            r.left() == attempts,
    {
        DiscoveryPoll { attempts_left: attempts }
    }

    /// Whether it will look at all.
    pub fn pending(&self) -> (r: bool)
        ensures
            r == (self.left() > 0),
    {
        self.attempts_left > 0
    }

    /// Takes the answers of one look.
    pub fn on_answers(&mut self, answers: &Vec<Option<ServerData>>) -> (step: PollStep)
        ensures
            final(self).left() == (if old(self).left() > 0 { old(self).left() - 1 } else { 0 }),
            match step {
                PollStep::Found(data) => first_answer(answers@) == Some(data@),
                PollStep::Wait => first_answer(answers@) is None && final(self).left() > 0,
                PollStep::GiveUp => first_answer(answers@) is None && final(self).left() == 0,
            },
    {
        if self.attempts_left > 0 {
            self.attempts_left = self.attempts_left - 1;
        }
        match first_server_data(answers) {
            Some(data) => PollStep::Found(data),
            None => if self.attempts_left > 0 {
                PollStep::Wait
            } else {
                PollStep::GiveUp
            },
        }
    }
}

// ---- laws ----

/// The name of a game type leads back to its number; every number without a name of its own
/// counts as survival.
pub proof fn law_game_type_name_maps_back(value: u8)
    ensures
        game_type_number(game_type_text(value)) == (if value == 2 || value == 3 { value } else { 1 }),
{
    reveal_strlit("Creative");
    reveal_strlit("Adventure");
    reveal_strlit("Survival");
    reveal_strlit("creative");
    reveal_strlit("adventure");
    let name = game_type_text(value);
    let lower = text::ascii_lowercase(name);
    assert(!text::is_digit(name[0]));
    assert(text::u8_text(name) is None);
    if value == 2 {
        assert(lower =~= "creative"@);
        assert(lower.subrange(0, 8) =~= "creative"@);
        assert(text::occurs_at(lower, "creative"@, 0));
    } else if value == 3 {
        assert(lower =~= "adventure"@);
        assert(lower.subrange(0, 9) =~= "adventure"@);
        assert(text::occurs_at(lower, "adventure"@, 0));
        assert forall|i: int| !text::occurs_at(lower, "creative"@, i) by {
            if text::occurs_at(lower, "creative"@, i) {
                assert(lower.subrange(i, i + 8)[0] == 'c');
                assert(lower[i] == 'c');
            }
        }
    } else {
        assert forall|i: int| !text::occurs_at(lower, "creative"@, i) by {
            if text::occurs_at(lower, "creative"@, i) {
                assert(lower.subrange(i, i + 8)[0] == 'c');
                assert(lower[i] == 'c');
            }
        }
        assert forall|i: int| !text::occurs_at(lower, "adventure"@, i) by {
        }
    }
}

/// A blank text is replaced and any other text kept; replacing again by a text that is not blank
/// changes nothing.
pub proof fn law_fallback_is_stable(value: Seq<char>, default: Seq<char>)
    ensures
        fallback_text(fallback_text(value, default), default) == fallback_text(value, default),
        !text::is_blank(default) ==> !text::is_blank(fallback_text(value, default)),
{
}

/// A text that holds a character other than white space is kept; any other is replaced.
pub proof fn law_fallback_only_for_blank_texts(value: Seq<char>, default: Seq<char>, i: int)
    ensures
        0 <= i < value.len() && !text::is_white_space(value[i]) ==> fallback_text(value, default)
            == value,
        (forall|k: int| 0 <= k < value.len() ==> text::is_white_space(#[trigger] value[k]))
            ==> fallback_text(value, default) == default,
{
}

/// A game type given by a number up to 255 is that number.
pub proof fn law_game_type_by_number(n: u8)
    ensures
        game_type_number(text::decimal(n as nat)) == n,
{
    text::law_read_of_decimal(n as nat);
}

/// A game type given by a name is creative where `creative` stands in it in any case of letters,
/// otherwise adventure where `adventure` does, otherwise survival.
pub proof fn law_game_type_by_name(input: Seq<char>)
    requires
        text::u8_text(input) is None,
    ensures
        text::contains_text(text::ascii_lowercase(input), "creative"@) ==> game_type_number(input)
            == 2,
        !text::contains_text(text::ascii_lowercase(input), "creative"@) && text::contains_text(
            text::ascii_lowercase(input),
            "adventure"@,
        ) ==> game_type_number(input) == 3,
        !text::contains_text(text::ascii_lowercase(input), "creative"@) && !text::contains_text(
            text::ascii_lowercase(input),
            "adventure"@,
        ) ==> game_type_number(input) == 1,
{
}

/// Two game types have the same name exactly where neither is creative or adventure, or they are
/// the same.
pub proof fn law_game_types_are_told_apart(a: u8, b: u8)
    ensures
        game_type_text(a) == game_type_text(b) <==> a == b || (a != 2 && a != 3 && b != 2 && b
            != 3),
        game_type_text(2) == "Creative"@,
        game_type_text(3) == "Adventure"@,
        a != 2 && a != 3 ==> game_type_text(a) == "Survival"@,
{
    reveal_strlit("Creative");
    reveal_strlit("Adventure");
    reveal_strlit("Survival");
    assert("Creative"@[0] == 'C' && "Adventure"@[0] == 'A' && "Survival"@[0] == 'S');
}

/// The first answer that could be read counts: those before it could not, and none counts only
/// where none could.
pub proof fn law_first_answer_counts(answers: Seq<Option<ServerData>>)
    ensures
        first_answer(answers) is None <==> forall|i: int|
            0 <= i < answers.len() ==> (#[trigger] answers[i]) is None,
        first_answer(answers) is Some ==> exists|i: int|
            {
                &&& 0 <= i < answers.len()
                &&& (#[trigger] answers[i]) matches Some(data)
                &&& data@ == first_answer(answers)->0
                &&& forall|j: int| 0 <= j < i ==> (#[trigger] answers[j]) is None
            },
    decreases answers.len(),
{
    if answers.len() > 0 && answers[0] is None {
        let rest = answers.drop_first();
        law_first_answer_counts(rest);
        if first_answer(answers) is Some {
            let k = choose|i: int|
                {
                    &&& 0 <= i < rest.len()
                    &&& (#[trigger] rest[i]) matches Some(data)
                    &&& data@ == first_answer(rest)->0
                    &&& forall|j: int| 0 <= j < i ==> (#[trigger] rest[j]) is None
                };
            assert(answers[k + 1] == rest[k]);
            assert forall|j: int| 0 <= j < k + 1 implies (#[trigger] answers[j]) is None by {
                if j > 0 {
                    assert(rest[j - 1] is None);
                }
            }
        } else {
            assert forall|i: int| 0 <= i < answers.len() implies (#[trigger] answers[i]) is None by {
                if i > 0 {
                    assert(rest[i - 1] is None);
                }
            }
        }
    } else if answers.len() > 0 {
        assert(answers[0] is Some);
    }
}

/// A look that finds nothing is made again after the interval at which the server is asked, and
/// all looks together take 1.2 seconds.
pub proof fn law_waits_of_discovery()
    ensures
        QUERY_BROADCAST_INTERVAL_MS == 250,
        QUERY_WAIT_MS == 450,
        ANNOUNCE_BROADCAST_INTERVAL_MS == 500,
        DISCOVERY_POLL_INTERVAL_MS == 150,
        DISCOVERY_POLL_INTERVAL_MS * crate::relay::DISCOVERY_POLL_ATTEMPTS == 1200,
{
}

} // verus!
