//! The relay: hosts and players meet in a room of a relay server and exchange framed packets.
//!
//! The caller does the sending and receiving; sockets, streams and tunnels are handles of types
//! that the caller chooses.

use vstd::prelude::*;
use vstd::utf8::*;

use crate::net::SocketAddr;
use crate::nethernet;
use crate::nethernet::{
    fallback_string, game_type_name, ServerData, ServerDataView, TransportLayer,
};
use crate::proto;
use crate::proto::{PingView, PongData, OFFLINE_MAGIC};
use crate::proxy;
use crate::proxy::{max_i32, ServerProtocol};
use crate::raknet;
use crate::raknet::{decode_packet, encode_pong, Packet};
use crate::text;
use crate::text::{chars_of, decimal_string, find_chars, str_contains_char};

verus! {

/// How often a host looks for the server's answer to a query.
pub const DISCOVERY_POLL_ATTEMPTS: usize = 8;

/// The milliseconds between two such looks.
pub const DISCOVERY_POLL_INTERVAL_MS: u64 = 150;

/// The size of the buffer that one datagram is read into.
pub const RELAY_BUFFER_SIZE: usize = 2048;

/// What the user asks of a relay host.
#[derive(Clone, Debug)]
pub struct RelayHostConfig {
    pub relay_url: String,
    pub room: String,
    pub target_server: SocketAddr,
    pub server_protocol: ServerProtocol,
}

/// What the user asks of a relay player.
#[derive(Clone, Debug)]
pub struct RelayPlayerConfig {
    pub relay_url: String,
    pub room: String,
    pub bind_port: u16,
}

// ---- the relay server's address ----

/// The character of a hexadecimal digit: `0` to `9`, then `A` onwards.
pub open spec fn hex_char(v: int) -> char {
    if v <= 9 {
        (0x30 + v) as char
    } else {
        (0x41 + (v - 10)) as char
    }
}

/// The character of a hexadecimal digit.
pub fn hex(v: u8) -> (r: char)
    requires
        v <= 200,
    ensures
        r == hex_char(v as int),
{
    if v <= 9 {
        (0x30u8 + v) as char
    } else {
        (0x41u8 + (v - 10)) as char
    }
}

/// The byte may stand in a URL's query as it is.
pub open spec fn is_unreserved(b: u8) -> bool {
    ||| 0x41 <= b <= 0x5a
    ||| 0x61 <= b <= 0x7a
    ||| 0x30 <= b <= 0x39
    ||| b == 0x2d
    ||| b == 0x5f
    ||| b == 0x2e
    ||| b == 0x7e
}

/// One byte in a URL's query: as it is, or as `%` and two hexadecimal digits.
pub open spec fn percent_byte(b: u8) -> Seq<char> {
    if is_unreserved(b) {
        seq![b as char]
    } else {
        seq!['%', hex_char(b as int / 16), hex_char(b as int % 16)]
    }
}

/// Bytes in a URL's query.
pub open spec fn percent_bytes(bytes: Seq<u8>) -> Seq<char>
    decreases bytes.len(),
{
    if bytes.len() == 0 {
        seq![]
    } else {
        percent_byte(bytes[0]) + percent_bytes(bytes.drop_first())
    }
}

/// A room's name in a URL's query.
pub open spec fn room_query(room: Seq<char>) -> Seq<char> {
    percent_bytes(encode_utf8(room))
}

/// A room's name in a URL's query.
pub fn encode_room(room: &str) -> (out: String)
    ensures
        out@ == room_query(room@),
{
    let bytes = room.as_bytes();
    let mut out = String::new();
    assert(bytes@.skip(0) =~= bytes@);
    assert(out@ + percent_bytes(bytes@) =~= percent_bytes(bytes@));
    for i in 0..bytes.len()
        invariant
            out@ + percent_bytes(bytes@.skip(i as int)) == percent_bytes(bytes@),
    {
        let b = bytes[i];
        let ghost before = out@;
        let ghost rest = bytes@.skip(i + 1);
        assert(bytes@.skip(i as int).drop_first() =~= rest);
        assert(bytes@.skip(i as int)[0] == b);
        if (0x41 <= b && b <= 0x5a) || (0x61 <= b && b <= 0x7a) || (0x30 <= b && b <= 0x39)
            || b == 0x2d || b == 0x5f || b == 0x2e || b == 0x7e {
            out.push(b as char);
        } else {
            out.push('%');
            out.push(hex(b / 16));
            out.push(hex(b % 16));
        }
        assert(out@ =~= before + percent_byte(b));
        assert(out@ + percent_bytes(rest) =~= before + (percent_byte(b) + percent_bytes(rest)));
    }
    assert(bytes@.skip(bytes@.len() as int) =~= seq![]);
    assert(out@ =~= percent_bytes(bytes@));
    out
}

/// The index at which `pat` first stands in `s`.
pub open spec fn first_index(s: Seq<char>, pat: Seq<char>) -> int {
    choose|i: int|
        text::occurs_at(s, pat, i) && forall|j: int|
            0 <= j < i ==> !#[trigger] text::occurs_at(s, pat, j)
}

/// A URL of a scheme and a host alone gets a `/` for its path.
pub open spec fn with_path(base: Seq<char>) -> Seq<char> {
    if text::contains_text(base, "://"@) && !base.skip(first_index(base, "://"@) + 3).contains(
        '/',
    ) {
        base.push('/')
    } else {
        base
    }
}

/// The address at which a relay server is asked for a room: role and room join the query.
pub open spec fn ws_url(base: Seq<char>, role: Seq<char>, room: Seq<char>) -> Seq<char> {
    let path = with_path(base);
    let sep = if path.contains('?') { '&' } else { '?' };
    path.push(sep) + "role="@ + role + "&room="@ + room_query(room)
}

proof fn lemma_first_index(s: Seq<char>, pat: Seq<char>, i: int)
    requires
        text::occurs_at(s, pat, i),
        forall|j: int| 0 <= j < i ==> !#[trigger] text::occurs_at(s, pat, j),
    ensures
        first_index(s, pat) == i,
{
    let k = first_index(s, pat);
    assert(text::occurs_at(s, pat, k) && forall|j: int|
        0 <= j < k ==> !#[trigger] text::occurs_at(s, pat, j));
    if k < i {
        assert(!text::occurs_at(s, pat, k));
    } else if i < k {
        assert(!text::occurs_at(s, pat, i));
    }
}

fn needs_path(base: &str) -> (r: bool)
    ensures
        with_path(base@) == (if r { base@.push('/') } else { base@ }),
        r ==> text::contains_text(base@, "://"@),
{
    let chars = chars_of(base);
    let pat = chars_of("://");
    proof {
        reveal_strlit("://");
    }
    match find_chars(&chars, &pat) {
        Some(at) => {
            proof {
                lemma_first_index(base@, "://"@, at as int);
                assert(text::contains_text(base@, "://"@));
            }
            let ghost rest = base@.skip(at + 3);
            assert(at + 3 <= chars.len());
            let mut i: usize = at + 3;
            while i < chars.len()
                invariant
                    at + 3 <= i <= chars.len(),
                    chars@ == base@,
                    rest == base@.skip(at + 3),
                    first_index(base@, "://"@) == at,
                    text::contains_text(base@, "://"@),
                    forall|j: int| 0 <= j < i - (at + 3) ==> rest[j] != '/',
                decreases chars.len() - i,
            {
                if chars[i] == '/' {
                    assert(rest[i - (at + 3)] == '/');
                    return false;
                }
                i += 1;
            }
            assert(!rest.contains('/'));
            true
        },
        None => false,
    }
}

/// The address at which a relay server is asked for a room.
pub fn relay_ws_url(base: &str, role: &str, room: &str) -> (out: String)
    ensures
        out@ == ws_url(base@, role@, room@),
{
    let mut out = base.to_owned();
    if needs_path(base) {
        out.push('/');
    }
    let sep = if str_contains_char(out.as_str(), '?') { '&' } else { '?' };
    out.push(sep);
    out.append("role=");
    out.append(role);
    out.append("&room=");
    let encoded = encode_room(room);
    out.append(encoded.as_str());
    out
}

// ---- frames ----

/// A packet of a player on its way between host and relay server.
pub open spec fn framed(player_id: u32, payload: Seq<u8>) -> Seq<u8> {
    raknet::be32(player_id) + payload
}

/// A packet of a player on its way between host and relay server.
pub fn frame(player_id: u32, payload: &[u8]) -> (out: Vec<u8>)
    ensures
        out@ == framed(player_id, payload@),
{
    let mut out: Vec<u8> = Vec::new();
    out.push((player_id / 0x100_0000) as u8);
    out.push((player_id / 0x1_0000 % 256) as u8);
    out.push((player_id / 0x100 % 256) as u8);
    out.push((player_id % 256) as u8);
    out.extend_from_slice(payload);
    assert(out@ =~= framed(player_id, payload@));
    out
}

/// The player that a frame belongs to and the packet in it; `None` for too short a frame.
pub fn unframe(bin: &[u8]) -> (r: Option<(u32, &[u8])>)
    ensures
        match r {
            Some((player_id, payload)) => {
                &&& bin@.len() >= 4
                &&& player_id == raknet::be32_value(bin@)
                &&& payload@ == bin@.skip(4)
            },
            None => bin@.len() < 4,
        },
{
    if bin.len() < 4 {
        return None;
    }
    let player_id: u32 = (bin[0] as u32) * 0x100_0000 + (bin[1] as u32) * 0x1_0000 + (bin[2] as u32)
        * 0x100 + (bin[3] as u32);
    let payload = vstd::slice::slice_subrange(bin, 4, bin.len());
    assert(payload@ =~= bin@.skip(4));
    Some((player_id, payload))
}

// ---- packets to and from a NetherNet server ----

/// Whether a packet has to arrive: every packet but those whose first byte has its three highest
/// bits clear.
pub fn is_raknet_reliable(payload: &[u8]) -> (r: bool)
    ensures
        r == (payload@.len() == 0 || payload@[0] >= 0x20),
{
    if payload.len() == 0 {
        return true;
    }
    let first: u8 = payload[0];
    assert((first & 0xE0 != 0) == (first >= 0x20)) by (bit_vector);
    first & 0xE0 != 0
}

/// The packet as RakNet writes it; bytes that are no packet stay as they are.
pub open spec fn normalized(payload: Seq<u8>) -> Option<Seq<u8>> {
    match raknet::reencoding(payload) {
        Some(encoded) => encoded,
        None => Some(payload),
    }
}

/// What is passed on for the bytes: the encoding of the packet that they were decoded to, or the
/// bytes themselves where they were refused.
pub fn passed_on(payload: &[u8], decoded: Option<Packet>) -> (r: Option<Vec<u8>>)
    ensures
        raknet::bytes_view(r) == (match decoded {
            Some(packet) => raknet::bytes_view(packet.encoded),
            None => Some(payload@),
        }),
{
    match decoded {
        Some(packet) => packet.encoded,
        None => Some(vstd::slice::slice_to_vec(payload)),
    }
}

/// The packet as RakNet writes it; bytes that are no packet stay as they are.
pub fn normalize_raknet_payload(payload: &[u8]) -> (r: Option<Vec<u8>>)
    ensures
        raknet::bytes_view(r) == normalized(payload@),
        r is Some,
        payload@.len() == 0 || !raknet::is_control_id(payload@[0]) ==> r->0@ == payload@,
        proxy::is_ping(payload@) ==> r->0@ == (if raknet::carries_ping(payload@) {
            payload@.take(25)
        } else {
            payload@
        }),
{
    match decode_packet(payload) {
        Ok(packet) => passed_on(payload, Some(packet)),
        Err(_) => passed_on(payload, None),
    }
}

/// The server data that a host answers with before it knows any.
pub open spec fn default_data() -> ServerDataView {
    ServerDataView {
        server_name: "phantom relay"@,
        level_name: "relay"@,
        game_type: 1,
        player_count: 0,
        max_player_count: 20,
        editor_world: false,
        hardcore: false,
        transport_layer: TransportLayer::NetherNet,
        connection_type: 4,
    }
}

/// The server data that a host answers with before it knows any.
pub fn default_nethernet_data() -> (r: ServerData)
    ensures
        r@ == default_data(),
{
    ServerData {
        server_name: "phantom relay".to_owned(),
        level_name: "relay".to_owned(),
        game_type: 1,
        player_count: 0,
        max_player_count: 20,
        editor_world: false,
        hardcore: false,
        transport_layer: TransportLayer::NetherNet,
        connection_type: 4,
    }
}

/// The fields with which a host advertises a NetherNet server.
pub open spec fn relay_fields(data: ServerDataView, server_id: u64) -> Seq<Seq<char>> {
    let players = proxy::larger(data.player_count, 0);
    seq![
        "MCPE"@,
        nethernet::fallback_text(data.server_name, "phantom relay"@),
        "649"@,
        "1.20.62"@,
        text::decimal(players as nat),
        text::decimal(proxy::larger(data.max_player_count, players) as nat),
        text::decimal(server_id as nat),
        nethernet::fallback_text(data.level_name, "relay"@),
        nethernet::game_type_text(data.game_type),
        "1"@,
        "19132"@,
        "19133"@,
    ]
}

/// The pong with which a host answers a ping.
pub open spec fn relay_pong(ping: Seq<u8>, data: ServerDataView, server_id: u64) -> Seq<u8> {
    raknet::pong_wire(
        raknet::be64_value(ping.skip(1)),
        server_id,
        OFFLINE_MAGIC@,
        encode_utf8(text::join(relay_fields(data, server_id), ';').push(';')),
    )
}

/// The pong with which a host answers a ping; `None` where the bytes hold no ping.
pub fn build_raknet_pong_from_nethernet_ping(
    ping_payload: &[u8],
    nether: &ServerData,
    server_id: u64,
) -> (r: Option<Vec<u8>>)
    ensures
        match r {
            Some(bytes) => raknet::carries_ping(ping_payload@) && bytes@ == relay_pong(
                ping_payload@,
                nether@,
                server_id,
            ),
            None => !raknet::carries_ping(ping_payload@),
        },
{
    let ping_time = match decode_packet(ping_payload) {
        Ok(packet) => match packet.ping_time {
            Some(time) => time,
            None => {
                return None;
            },
        },
        Err(_) => {
            return None;
        },
    };
    let players = max_i32(nether.player_count, 0);
    let max_players = max_i32(nether.max_player_count, players);
    let motd = PongData {
        edition: "MCPE".to_owned(),
        motd: fallback_string(nether.server_name.as_str(), "phantom relay"),
        protocol_version: "649".to_owned(),
        version: "1.20.62".to_owned(),
        players: decimal_string(players as u64),
        max_players: decimal_string(max_players as u64),
        server_id: decimal_string(server_id),
        sub_motd: fallback_string(nether.level_name.as_str(), "relay"),
        game_type: game_type_name(nether.game_type).to_owned(),
        nintendo_limited: "1".to_owned(),
        port4: "19132".to_owned(),
        port6: "19133".to_owned(),
    };
    assert(motd@ =~= relay_fields(nether@, server_id));
    let text = motd.to_string();
    let advertisement = vstd::slice::slice_to_vec(text.as_str().as_bytes());
    match encode_pong(ping_time, server_id, OFFLINE_MAGIC, advertisement) {
        Ok(bytes) => Some(bytes),
        Err(_) => None,
    }
}

// ---- laws ----

/// A frame gives back the player and the packet that it was made from.
pub proof fn law_unframe_of_frame(player_id: u32, payload: Seq<u8>)
    ensures
        framed(player_id, payload).len() == 4 + payload.len(),
        raknet::be32_value(framed(player_id, payload)) == player_id,
        framed(player_id, payload).skip(4) == payload,
{
    raknet::law_be32_read_of_written(player_id, payload);
    assert(framed(player_id, payload).skip(4) =~= payload);
}

/// The character may stand in a room's query as it is, or starts an encoded byte.
pub open spec fn is_query_char(c: char) -> bool {
    c == '%' || (c <= '~' && is_unreserved(c as u8))
}

proof fn lemma_percent_bytes_are_plain(bytes: Seq<u8>)
    ensures
        forall|i: int|
            0 <= i < percent_bytes(bytes).len() ==> is_query_char(#[trigger] percent_bytes(bytes)[i]),
    decreases bytes.len(),
{
    if bytes.len() > 0 {
        let head = percent_byte(bytes[0]);
        let rest = percent_bytes(bytes.drop_first());
        lemma_percent_bytes_are_plain(bytes.drop_first());
        assert forall|i: int| 0 <= i < percent_bytes(bytes).len() implies is_query_char(
            #[trigger] percent_bytes(bytes)[i],
        ) by {
            if i < head.len() {
                assert(percent_bytes(bytes)[i] == head[i]);
            } else {
                assert(percent_bytes(bytes)[i] == rest[i - head.len()]);
            }
        }
    }
}

/// A room's query holds nothing but letters, digits, `-`, `_`, `.`, `~` and `%`: no room can end
/// the query or add to it.
pub proof fn law_room_query_is_plain(room: Seq<char>)
    ensures
        forall|i: int| 0 <= i < room_query(room).len() ==> is_query_char(#[trigger] room_query(room)[i]),
{
    lemma_percent_bytes_are_plain(encode_utf8(room));
}

proof fn lemma_percent_bytes_injective(a: Seq<u8>, b: Seq<u8>)
    requires
        percent_bytes(a) == percent_bytes(b),
    ensures
        a == b,
    decreases a.len(),
{
    let enc = percent_bytes(a);
    if a.len() == 0 {
        if b.len() > 0 {
            assert(percent_byte(b[0]).len() > 0);
        }
        assert(a =~= b);
    } else if b.len() == 0 {
        assert(percent_byte(a[0]).len() > 0);
    } else {
        let ha = percent_byte(a[0]);
        let hb = percent_byte(b[0]);
        assert(enc[0] == ha[0]);
        assert(enc[0] == hb[0]);
        assert(is_unreserved(a[0]) == is_unreserved(b[0]));
        if !is_unreserved(a[0]) {
            assert(enc[1] == ha[1] && enc[1] == hb[1]);
            assert(enc[2] == ha[2] && enc[2] == hb[2]);
        }
        assert(a[0] == b[0]);
        let n = ha.len() as int;
        assert(enc.skip(n) =~= percent_bytes(a.drop_first()));
        assert(enc.skip(n) =~= percent_bytes(b.drop_first()));
        lemma_percent_bytes_injective(a.drop_first(), b.drop_first());
        assert(a =~= seq![a[0]] + a.drop_first());
        assert(b =~= seq![b[0]] + b.drop_first());
    }
}

/// Different rooms have different queries.
pub proof fn law_rooms_are_told_apart(a: Seq<char>, b: Seq<char>)
    requires
        room_query(a) == room_query(b),
    ensures
        a == b,
{
    lemma_percent_bytes_injective(encode_utf8(a), encode_utf8(b));
    encode_utf8_decode_utf8(a);
    encode_utf8_decode_utf8(b);
}

proof fn lemma_end_of_sum(a: Seq<char>, b: Seq<char>)
    ensures
        (a + b).skip(a.len() as int) == b,
{
    assert((a + b).skip(a.len() as int) =~= b);
}

/// Different rooms are asked for at different addresses.
pub proof fn law_addresses_tell_rooms_apart(
    base: Seq<char>,
    role: Seq<char>,
    a: Seq<char>,
    b: Seq<char>,
)
    requires
        ws_url(base, role, a) == ws_url(base, role, b),
    ensures
        a == b,
{
    let path = with_path(base);
    let sep = if path.contains('?') { '&' } else { '?' };
    let prefix = path.push(sep) + "role="@ + role + "&room="@;
    lemma_end_of_sum(prefix, room_query(a));
    lemma_end_of_sum(prefix, room_query(b));
    law_rooms_are_told_apart(a, b);
}

proof fn lemma_start_stays(a: Seq<char>, b: Seq<char>, n: int)
    requires
        0 <= n <= a.len(),
    ensures
        (a + b).len() >= a.len(),
        (a + b).take(n) == a.take(n),
{
    assert((a + b).take(n) =~= a.take(n));
}

proof fn lemma_parts_keep_start(
    start: Seq<char>,
    b: Seq<char>,
    c: Seq<char>,
    d: Seq<char>,
    e: Seq<char>,
    n: int,
)
    requires
        0 <= n <= start.len(),
    ensures
        (start + b + c + d + e).len() >= start.len(),
        (start + b + c + d + e).take(n) == start.take(n),
{
    lemma_start_stays(start, b, n);
    lemma_start_stays(start + b, c, n);
    lemma_start_stays(start + b + c, d, n);
    lemma_start_stays(start + b + c + d, e, n);
}

proof fn lemma_push_keeps_start(base: Seq<char>, path: Seq<char>, sep: char)
    requires
        path == base || path == base.push('/'),
    ensures
        path.push(sep).len() > base.len(),
        path.push(sep).take(base.len() as int) == base,
{
    assert(path.push(sep).take(base.len() as int) =~= base);
}

/// The address starts with the relay server's own URL.
pub proof fn law_address_keeps_base(base: Seq<char>, role: Seq<char>, room: Seq<char>)
    ensures
        ws_url(base, role, room).len() > base.len(),
        ws_url(base, role, room).take(base.len() as int) == base,
{
    let path = with_path(base);
    let sep = if path.contains('?') { '&' } else { '?' };
    lemma_push_keeps_start(base, path, sep);
    lemma_parts_keep_start(
        path.push(sep),
        "role="@,
        role,
        "&room="@,
        room_query(room),
        base.len() as int,
    );
}

/// The pong that a host sends can be read: it echoes the ping's time and holds the host's id and
/// the advertised fields, where the server's names do not hold the separator and the
/// advertisement fits the length field.
pub proof fn law_relay_pong_is_readable(ping: Seq<u8>, data: ServerDataView, server_id: u64)
    requires
        raknet::carries_ping(ping),
        !data.server_name.contains(';'),
        !data.level_name.contains(';'),
        proto::fits_length_field(relay_fields(data, server_id)),
    ensures
        proto::ping_read(relay_pong(ping, data, server_id)) == Ok::<PingView, Seq<char>>(
            PingView {
                ping_time: ping.subrange(1, 9),
                id: raknet::be64(server_id),
                magic: OFFLINE_MAGIC@,
                pong: relay_fields(data, server_id),
            },
        ),
{
    let fields = relay_fields(data, server_id);
    let packet = PingView {
        ping_time: ping.subrange(1, 9),
        id: raknet::be64(server_id),
        magic: OFFLINE_MAGIC@,
        pong: fields,
    };
    let players = proxy::larger(data.player_count, 0);
    reveal_strlit("MCPE");
    reveal_strlit("phantom relay");
    reveal_strlit("649");
    reveal_strlit("1.20.62");
    reveal_strlit("relay");
    reveal_strlit("Creative");
    reveal_strlit("Adventure");
    reveal_strlit("Survival");
    reveal_strlit("1");
    reveal_strlit("19132");
    reveal_strlit("19133");
    text::lemma_decimal_free_of(players as nat, ';');
    text::lemma_decimal_free_of(proxy::larger(data.max_player_count, players) as nat, ';');
    text::lemma_decimal_free_of(server_id as nat, ';');
    assert(proto::separator_free(fields));
    let joined = text::join(fields, ';');
    assert(joined.last() == '3');
    assert(text::trim_end(joined, ';') == joined);
    raknet::law_be64_written_of_read(ping.skip(1));
    assert(ping.skip(1).take(8) =~= ping.subrange(1, 9));
    raknet::law_be64_read_of_written(server_id, seq![]);
    let text = encode_utf8(proto::pong_text(fields));
    assert(text.take(text.len() as int) =~= text);
    assert(text.len() > 0) by {
        encode_utf8_decode_utf8(proto::pong_text(fields));
    }
    assert(relay_pong(ping, data, server_id) =~= proto::ping_wire(packet));
    proto::law_read_of_built_packet(packet);
}

/// The number that a capital hexadecimal digit denotes.
pub open spec fn hex_value(c: char) -> int {
    if '0' <= c && c <= '9' {
        c as int - 48
    } else {
        c as int - 55
    }
}

/// The bytes that a query stands for, as any reader of URLs takes them: `%` and two digits are one
/// byte, any other character is its own.
pub open spec fn query_bytes(query: Seq<char>) -> Seq<u8>
    decreases query.len(),
{
    if query.len() == 0 {
        seq![]
    } else if query[0] == '%' && query.len() >= 3 {
        seq![(hex_value(query[1]) * 16 + hex_value(query[2])) as u8] + query_bytes(query.skip(3))
    } else {
        seq![query[0] as u8] + query_bytes(query.skip(1))
    }
}

proof fn lemma_query_bytes_of_encoded(bytes: Seq<u8>)
    ensures
        query_bytes(percent_bytes(bytes)) == bytes,
    decreases bytes.len(),
{
    if bytes.len() > 0 {
        let b = bytes[0];
        let head = percent_byte(b);
        let rest = percent_bytes(bytes.drop_first());
        let query = percent_bytes(bytes);
        lemma_query_bytes_of_encoded(bytes.drop_first());
        assert(query[0] == head[0]);
        assert(query.skip(head.len() as int) =~= rest);
        if !is_unreserved(b) {
            assert(query[1] == head[1] && query[2] == head[2]);
            let hi = b as int / 16;
            let lo = b as int % 16;
            assert(hex_value(hex_char(hi)) == hi);
            assert(hex_value(hex_char(lo)) == lo);
            assert(hi * 16 + lo == b);
        } else {
            assert(query[0] == b as char);
        }
        assert(query_bytes(query) =~= bytes);
    } else {
        assert(query_bytes(percent_bytes(bytes)) =~= bytes);
    }
}

/// Whoever reads a room's query by the rules of URLs gets the room.
pub proof fn law_room_is_read_back(room: Seq<char>)
    ensures
        valid_utf8(query_bytes(room_query(room))),
        decode_utf8(query_bytes(room_query(room))) == room,
{
    lemma_query_bytes_of_encoded(encode_utf8(room));
    encode_utf8_valid_utf8(room);
    encode_utf8_decode_utf8(room);
}

proof fn lemma_plain_bytes_stay(bytes: Seq<u8>)
    requires
        forall|i: int| 0 <= i < bytes.len() ==> is_unreserved(#[trigger] bytes[i]),
    ensures
        percent_bytes(bytes).len() == bytes.len(),
        forall|i: int| 0 <= i < bytes.len() ==> #[trigger] percent_bytes(bytes)[i] == bytes[i] as char,
    decreases bytes.len(),
{
    if bytes.len() > 0 {
        let rest = bytes.drop_first();
        assert(is_unreserved(bytes[0]));
        assert forall|i: int| 0 <= i < rest.len() implies is_unreserved(#[trigger] rest[i]) by {
            assert(rest[i] == bytes[i + 1]);
        }
        lemma_plain_bytes_stay(rest);
        assert forall|i: int| 0 <= i < bytes.len() implies #[trigger] percent_bytes(bytes)[i]
            == bytes[i] as char by {
            if i > 0 {
                assert(percent_bytes(bytes)[i] == percent_bytes(rest)[i - 1]);
                assert(rest[i - 1] == bytes[i]);
            }
        }
    }
}

/// A room of letters, digits, `-`, `_`, `.` and `~` stands in the query as it is.
pub proof fn law_plain_room_stands_as_it_is(room: Seq<char>)
    requires
        forall|i: int|
            0 <= i < room.len() ==> ('A' <= #[trigger] room[i] && room[i] <= 'Z') || ('a' <= room[i]
                && room[i] <= 'z') || ('0' <= room[i] && room[i] <= '9') || room[i] == '-'
                || room[i] == '_' || room[i] == '.' || room[i] == '~',
    ensures
        room_query(room) == room,
{
    assert(is_ascii_chars(room));
    is_ascii_chars_encode_utf8(room);
    let bytes = encode_utf8(room);
    assert forall|i: int| 0 <= i < bytes.len() implies is_unreserved(#[trigger] bytes[i]) by {
        assert(bytes[i] as char == room[i]);
    }
    lemma_plain_bytes_stay(bytes);
    assert(room_query(room) =~= room);
}

/// The address is the relay server's URL, then a `/` or not, then `?`, or `&` where the URL has a
/// query already, then the role and the room.
pub proof fn law_parts_of_the_address(base: Seq<char>, role: Seq<char>, room: Seq<char>)
    ensures
        ({
            let sep = if base.contains('?') { '&' } else { '?' };
            let end = "role="@ + role + "&room="@ + room_query(room);
            ws_url(base, role, room) == base + seq![sep] + end || ws_url(base, role, room) == base
                + seq!['/', sep] + end
        }),
{
    let path = with_path(base);
    let sep = if base.contains('?') { '&' } else { '?' };
    lemma_query_mark_stays(base);
    lemma_address_parts(base, path, sep, "role="@, role, "&room="@, room_query(room));
}

proof fn lemma_address_parts(
    base: Seq<char>,
    path: Seq<char>,
    sep: char,
    b: Seq<char>,
    c: Seq<char>,
    d: Seq<char>,
    e: Seq<char>,
)
    requires
        path == base || path == base.push('/'),
    ensures
        path == base ==> path.push(sep) + b + c + d + e == base + seq![sep] + (b + c + d + e),
        path == base.push('/') ==> path.push(sep) + b + c + d + e == base + seq!['/', sep] + (b + c
            + d + e),
{
    lemma_same_parts(path.push(sep), b, c, d, e);
    if path == base {
        assert(path.push(sep) =~= base + seq![sep]);
    } else {
        assert(path.push(sep) =~= base + seq!['/', sep]);
    }
}

proof fn lemma_query_mark_stays(base: Seq<char>)
    ensures
        with_path(base) == base || with_path(base) == base.push('/'),
        with_path(base).contains('?') == base.contains('?'),
{
    let path = with_path(base);
    if base.contains('?') {
        let i = choose|i: int| 0 <= i < base.len() && base[i] == '?';
        assert(path[i] == '?');
    }
    if path.contains('?') {
        let i = choose|i: int| 0 <= i < path.len() && path[i] == '?';
        assert(base[i] == '?');
    }
}

proof fn lemma_same_parts(a: Seq<char>, b: Seq<char>, c: Seq<char>, d: Seq<char>, e: Seq<char>)
    ensures
        a + b + c + d + e == a + (b + c + d + e),
{
    assert(a + b + c + d + e =~= a + (b + c + d + e));
}

/// A URL of a scheme and a host alone gets a `/` behind it, and no other URL does.
pub proof fn law_bare_host_gets_a_path(
    scheme: Seq<char>,
    rest: Seq<char>,
    base: Seq<char>,
    role: Seq<char>,
    room: Seq<char>,
)
    requires
        forall|j: int|
            0 <= j < scheme.len() ==> !#[trigger] text::occurs_at(
                scheme + "://"@ + rest,
                "://"@,
                j,
            ),
    ensures
        ({
            let url = scheme + "://"@ + rest;
            let sent = ws_url(url, role, room);
            &&& !rest.contains('/') ==> sent[url.len() as int] == '/'
            &&& rest.contains('/') ==> sent[url.len() as int] == '?' || sent[url.len() as int] == '&'
        }),
        !text::contains_text(base, "://"@) ==> ws_url(base, role, room)[base.len() as int] != '/',
{
    reveal_strlit("://");
    let url = scheme + "://"@ + rest;
    let n = scheme.len() as int;
    assert(url.subrange(n, n + 3) =~= "://"@);
    assert(text::occurs_at(url, "://"@, n));
    lemma_first_index(url, "://"@, n);
    assert(url.skip(n + 3) =~= rest);
    lemma_char_behind_base(url, role, room);
    lemma_char_behind_base(base, role, room);
}

proof fn lemma_char_behind_base(base: Seq<char>, role: Seq<char>, room: Seq<char>)
    ensures
        with_path(base) == base.push('/') ==> ws_url(base, role, room)[base.len() as int] == '/',
        with_path(base) == base ==> ws_url(base, role, room)[base.len() as int] == '?' || ws_url(
            base,
            role,
            room,
        )[base.len() as int] == '&',
{
    let path = with_path(base);
    let sep = if path.contains('?') { '&' } else { '?' };
    let start = path.push(sep);
    let n = base.len() as int;
    lemma_same_parts(start, "role="@, role, "&room="@, room_query(room));
    if path == base.push('/') {
        assert(start[n] == '/');
    } else if path == base {
        assert(start[n] == sep);
    }
}

/// The pong that a host sends is a pong; it gives back the ping's time and magic and holds the
/// host's id, each at its place.
pub proof fn law_relay_pong_echoes_the_ping(ping: Seq<u8>, data: ServerDataView, server_id: u64)
    requires
        raknet::carries_ping(ping),
    ensures
        ({
            let pong = relay_pong(ping, data, server_id);
            &&& pong.len() >= 33
            &&& pong[0] == 0x1c
            &&& pong.subrange(1, 9) == ping.subrange(1, 9)
            &&& pong.subrange(9, 17) == raknet::be64(server_id)
            &&& pong.subrange(17, 33) == ping.subrange(9, 25)
        }),
{
    let pong = relay_pong(ping, data, server_id);
    raknet::law_be64_written_of_read(ping.skip(1));
    assert(ping.skip(1).take(8) =~= ping.subrange(1, 9));
    raknet::law_be64_read_of_written(server_id, seq![]);
    raknet::law_be64_read_of_written(raknet::be64_value(ping.skip(1)), seq![]);
    assert(pong.subrange(1, 9) =~= ping.subrange(1, 9));
    assert(pong.subrange(9, 17) =~= raknet::be64(server_id));
    assert(pong.subrange(17, 33) =~= OFFLINE_MAGIC@);
}

/// Fields of short names fit the length field.
pub proof fn lemma_relay_fields_are_short(data: ServerDataView, server_id: u64)
    requires
        data.server_name.len() <= 1300,
        data.level_name.len() <= 1300,
    ensures
        proto::fits_length_field(relay_fields(data, server_id)),
{
    let players = proxy::larger(data.player_count, 0);
    let most = proxy::larger(data.max_player_count, players);
    reveal_strlit("MCPE");
    reveal_strlit("phantom relay");
    reveal_strlit("649");
    reveal_strlit("1.20.62");
    reveal_strlit("relay");
    reveal_strlit("Creative");
    reveal_strlit("Adventure");
    reveal_strlit("Survival");
    reveal_strlit("1");
    reveal_strlit("19132");
    reveal_strlit("19133");
    text::lemma_decimal_u64_len(players as u64);
    text::lemma_decimal_u64_len(most as u64);
    text::lemma_decimal_u64_len(server_id);
    proto::law_short_fields_fit(relay_fields(data, server_id));
}

/// The fields of a host's pong, for any server data.
pub proof fn law_fields_of_a_relay_pong(data: ServerDataView, server_id: u64)
    ensures
        ({
            let got = relay_fields(data, server_id);
            &&& got.len() == 12
            &&& got[0] == "MCPE"@
            &&& got[1] == (if text::is_blank(data.server_name) {
                "phantom relay"@
            } else {
                data.server_name
            })
            &&& got[2] == "649"@
            &&& got[3] == "1.20.62"@
            &&& text::i32_text(got[4]) == Some(
                if data.player_count < 0 {
                    0i32
                } else {
                    data.player_count
                },
            )
            &&& text::i32_text(got[5]) is Some
            &&& text::i32_text(got[5])->0 >= data.max_player_count
            &&& text::i32_text(got[5])->0 >= text::i32_text(got[4])->0
            &&& text::i32_text(got[5])->0 == data.max_player_count || text::i32_text(got[5])
                == text::i32_text(got[4])
            &&& 0 <= data.player_count <= data.max_player_count ==> text::i32_text(got[5]) == Some(
                data.max_player_count,
            )
            &&& text::integer_text(got[6], false) == Some(server_id as int)
            &&& got[7] == (if text::is_blank(data.level_name) {
                "relay"@
            } else {
                data.level_name
            })
            &&& data.game_type == 2 ==> got[8] == "Creative"@
            &&& data.game_type == 3 ==> got[8] == "Adventure"@
            &&& data.game_type != 2 && data.game_type != 3 ==> got[8] == "Survival"@
            &&& got[9] == "1"@
            &&& got[10] == "19132"@
            &&& got[11] == "19133"@
        }),
{
    let players = proxy::larger(data.player_count, 0);
    let most = proxy::larger(data.max_player_count, players);
    let got = relay_fields(data, server_id);
    text::law_read_of_decimal(players as nat);
    text::law_read_of_decimal(most as nat);
    text::law_read_of_decimal(server_id as nat);
    assert(text::i32_text(got[4]) == Some(players));
    assert(text::i32_text(got[5]) == Some(most));
}

/// What a player reads of a host's pong: the server's names, with stand-ins for blank ones; its
/// number of players, and of places, which is never below it; the name of its game type; the
/// host's id; the ports on which a console looks for servers.
pub proof fn law_player_reads_the_servers_data(
    ping: Seq<u8>,
    data: ServerDataView,
    server_id: u64,
)
    requires
        raknet::carries_ping(ping),
        !data.server_name.contains(';'),
        !data.level_name.contains(';'),
        data.server_name.len() <= 1300,
        data.level_name.len() <= 1300,
    ensures
        ({
            let read = proto::ping_read(relay_pong(ping, data, server_id));
            let got = read->Ok_0.pong;
            &&& read is Ok
            &&& got.len() == 12
            &&& got[0] == "MCPE"@
            &&& got[1] == (if text::is_blank(data.server_name) {
                "phantom relay"@
            } else {
                data.server_name
            })
            &&& got[2] == "649"@
            &&& got[3] == "1.20.62"@
            &&& text::i32_text(got[4]) == Some(
                if data.player_count < 0 {
                    0i32
                } else {
                    data.player_count
                },
            )
            &&& text::i32_text(got[5]) is Some
            &&& text::i32_text(got[5])->0 >= data.max_player_count
            &&& text::i32_text(got[5])->0 >= text::i32_text(got[4])->0
            &&& text::i32_text(got[5])->0 == data.max_player_count || text::i32_text(got[5])
                == text::i32_text(got[4])
            &&& 0 <= data.player_count <= data.max_player_count ==> text::i32_text(got[5]) == Some(
                data.max_player_count,
            )
            &&& text::integer_text(got[6], false) == Some(server_id as int)
            &&& got[7] == (if text::is_blank(data.level_name) {
                "relay"@
            } else {
                data.level_name
            })
            &&& data.game_type == 2 ==> got[8] == "Creative"@
            &&& data.game_type == 3 ==> got[8] == "Adventure"@
            &&& data.game_type != 2 && data.game_type != 3 ==> got[8] == "Survival"@
            &&& got[9] == "1"@
            &&& got[10] == "19132"@
            &&& got[11] == "19133"@
        }),
{
    lemma_relay_fields_are_short(data, server_id);
    law_fields_of_a_relay_pong(data, server_id);
    law_relay_pong_is_readable(ping, data, server_id);
    let got = relay_fields(data, server_id);
    assert(proto::ping_read(relay_pong(ping, data, server_id))->Ok_0.pong == got);
}

/// Bytes that RakNet refuses go on as they are; what it reads goes on as it writes it.
pub proof fn law_refused_bytes_go_on(payload: Seq<u8>)
    ensures
        raknet::reencoding(payload) is None ==> normalized(payload) == Some(payload),
        raknet::reencoding(payload) is Some ==> normalized(payload) == raknet::reencoding(
            payload,
        )->0,
{
}

/// Behind the header a host's pong holds its twelve fields, each followed by a `;`, as much of them
/// as the length field can count.
pub proof fn law_text_of_a_relay_pong(ping: Seq<u8>, data: ServerDataView, server_id: u64)
    ensures
        ({
            let fields = relay_fields(data, server_id);
            let text = encode_utf8(text::join(fields, ';').push(';'));
            let pong = relay_pong(ping, data, server_id);
            &&& text.len() <= 65535 ==> pong.skip(35) == text && pong[33] * 256 + pong[34]
                == text.len()
            &&& text.len() > 65535 ==> pong.skip(35) == text.take(65535)
        }),
{
    let chars = text::join(relay_fields(data, server_id), ';').push(';');
    let text = encode_utf8(chars);
    encode_utf8_decode_utf8(chars);
    assert(text.len() > 0);
    raknet::law_layout_of_a_pong(
        raknet::be64_value(ping.skip(1)),
        server_id,
        OFFLINE_MAGIC@,
        text,
    );
    if text.len() <= 65535 {
        assert(text.take(text.len() as int) =~= text);
    }
}

} // verus!
