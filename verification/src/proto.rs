//! The discovery packets: unconnected pings and the pongs that answer them.

use vstd::prelude::*;
use vstd::utf8::*;

use crate::text;
use crate::text::{join_strings, split_str, trim_end_char};

verus! {

/// First byte of an unconnected ping.
pub const UNCONNECTED_PING_ID: u8 = 0x01;

/// First byte of an unconnected pong.
pub const UNCONNECTED_PONG_ID: u8 = 0x1C;

/// A discovery packet: a fixed header followed by the server's advertisement.
#[derive(Debug)]
pub struct UnconnectedPing {
    pub ping_time: [u8; 8],
    pub id: [u8; 8],
    pub magic: [u8; 16],
    pub pong: PongData,
}

/// The fields of a server's advertisement.
#[derive(Debug)]
pub struct PongData {
    pub edition: String,
    pub motd: String,
    pub protocol_version: String,
    pub version: String,
    pub players: String,
    pub max_players: String,
    pub server_id: String,
    pub sub_motd: String,
    pub game_type: String,
    pub nintendo_limited: String,
    pub port4: String,
    pub port6: String,
}

/// The number of fields in an advertisement.
pub const PONG_FIELDS: usize = 12;

impl View for PongData {
    type V = Seq<Seq<char>>;

    /// The twelve fields in the order in which they are sent.
    open spec fn view(&self) -> Seq<Seq<char>> {
        seq![
            self.edition@,
            self.motd@,
            self.protocol_version@,
            self.version@,
            self.players@,
            self.max_players@,
            self.server_id@,
            self.sub_motd@,
            self.game_type@,
            self.nintendo_limited@,
            self.port4@,
            self.port6@,
        ]
    }
}

/// A discovery packet as mathematical values.
#[verifier::ext_equal]
pub struct PingView {
    pub ping_time: Seq<u8>,
    pub id: Seq<u8>,
    pub magic: Seq<u8>,
    pub pong: Seq<Seq<char>>,
}

impl View for UnconnectedPing {
    type V = PingView;

    open spec fn view(&self) -> PingView {
        PingView {
            ping_time: self.ping_time@,
            id: self.id@,
            magic: self.magic@,
            pong: self.pong@,
        }
    }
}

impl Clone for PongData {
    fn clone(&self) -> (r: Self)
        ensures
            r@ == self@,
    {
        PongData {
            edition: self.edition.clone(),
            motd: self.motd.clone(),
            protocol_version: self.protocol_version.clone(),
            version: self.version.clone(),
            players: self.players.clone(),
            max_players: self.max_players.clone(),
            server_id: self.server_id.clone(),
            sub_motd: self.sub_motd.clone(),
            game_type: self.game_type.clone(),
            nintendo_limited: self.nintendo_limited.clone(),
            port4: self.port4.clone(),
            port6: self.port6.clone(),
        }
    }
}

impl Default for PongData {
    fn default() -> (r: Self)
        ensures
            r@ == Seq::new(PONG_FIELDS as nat, |i: int| Seq::<char>::empty()),
    {
        let r = PongData {
            edition: String::new(),
            motd: String::new(),
            protocol_version: String::new(),
            version: String::new(),
            players: String::new(),
            max_players: String::new(),
            server_id: String::new(),
            sub_motd: String::new(),
            game_type: String::new(),
            nintendo_limited: String::new(),
            port4: String::new(),
            port6: String::new(),
        };
        assert(r@ =~= Seq::new(PONG_FIELDS as nat, |i: int| Seq::<char>::empty()));
        r
    }
}

impl Clone for UnconnectedPing {
    fn clone(&self) -> (r: Self)
        ensures
            r@ == self@,
    {
        UnconnectedPing {
            ping_time: self.ping_time,
            id: self.id,
            magic: self.magic,
            pong: self.pong.clone(),
        }
    }
}

impl Default for UnconnectedPing {
    fn default() -> (r: Self)
        ensures
            r@.ping_time == Seq::new(8, |i: int| 0u8),
            r@.id == Seq::new(8, |i: int| 0u8),
            r@.magic == Seq::new(16, |i: int| 0u8),
            r@.pong == Seq::new(PONG_FIELDS as nat, |i: int| Seq::<char>::empty()),
    {
        UnconnectedPing { ping_time: [0; 8], id: [0; 8], magic: [0; 16], pong: PongData::default() }
    }
}

// ---- numbers on the wire ----

/// A 16-bit number, most significant byte first.
pub open spec fn be16(n: nat) -> Seq<u8> {
    seq![(n / 256 % 256) as u8, (n % 256) as u8]
}

/// The 16-bit number that two bytes denote, most significant byte first.
pub open spec fn be16_value(hi: u8, lo: u8) -> int {
    hi * 256 + lo
}

// ---- the advertisement as text ----

/// The part at `i`, or nothing where the list is shorter.
pub open spec fn nth_part(parts: Seq<Seq<char>>, i: int) -> Seq<char> {
    if 0 <= i < parts.len() {
        parts[i]
    } else {
        seq![]
    }
}

/// The text of an advertisement: the fields separated by `;`, with the empty fields at the end
/// left out and one `;` behind.
pub open spec fn pong_text(fields: Seq<Seq<char>>) -> Seq<char> {
    text::trim_end(text::join(fields, ';'), ';').push(';')
}

/// The fields that an advertisement's text denotes; a field that is not there is empty.
pub open spec fn pong_fields(raw: Seq<char>) -> Seq<Seq<char>> {
    Seq::new(PONG_FIELDS as nat, |i: int| nth_part(text::split(raw, ';'), i))
}

/// The part at `idx`, or the empty string where the list is shorter.
pub fn part(parts: &Vec<String>, idx: usize) -> (r: String)
    ensures
        r@ == nth_part(text::views(parts@), idx as int),
{
    if idx < parts.len() {
        parts[idx].clone()
    } else {
        String::new()
    }
}

/// Reads an advertisement's text.
pub fn read_pong(raw: &str) -> (r: PongData)
    ensures
        r@ == pong_fields(raw@),
{
    let parts = split_str(raw, ';');
    let r = PongData {
        edition: part(&parts, 0),
        motd: part(&parts, 1),
        protocol_version: part(&parts, 2),
        version: part(&parts, 3),
        players: part(&parts, 4),
        max_players: part(&parts, 5),
        server_id: part(&parts, 6),
        sub_motd: part(&parts, 7),
        game_type: part(&parts, 8),
        nintendo_limited: part(&parts, 9),
        port4: part(&parts, 10),
        port6: part(&parts, 11),
    };
    assert(r@ =~= pong_fields(raw@));
    r
}

impl PongData {
    /// The fields as a list, in the order in which they are sent.
    fn fields(&self) -> (r: Vec<String>)
        ensures
            text::views(r@) == self@,
    {
        let mut r: Vec<String> = Vec::new();
        r.push(self.edition.clone());
        r.push(self.motd.clone());
        r.push(self.protocol_version.clone());
        r.push(self.version.clone());
        r.push(self.players.clone());
        r.push(self.max_players.clone());
        r.push(self.server_id.clone());
        r.push(self.sub_motd.clone());
        r.push(self.game_type.clone());
        r.push(self.nintendo_limited.clone());
        r.push(self.port4.clone());
        r.push(self.port6.clone());
        assert(text::views(r@) =~= self@);
        r
    }

    /// All twelve fields, each followed by `;`.
    pub fn to_string(&self) -> (r: String)
        ensures
            r@ == text::join(self@, ';').push(';'),
    {
        let fields = self.fields();
        let mut r = join_strings(&fields, ';');
        r.push(';');
        r
    }
}

/// Writes an advertisement's text.
pub fn write_pong(pong: &PongData) -> (r: String)
    ensures
        r@ == pong_text(pong@),
{
    let fields = pong.fields();
    let joined = join_strings(&fields, ';');
    let mut r = trim_end_char(joined.as_str(), ';');
    r.push(';');
    r
}

// ---- the packet ----

/// The bytes of a pong. The length field holds the length of the text's bytes modulo 65536.
pub open spec fn ping_wire(p: PingView) -> Seq<u8> {
    let payload = encode_utf8(pong_text(p.pong));
    seq![UNCONNECTED_PONG_ID] + p.ping_time + p.id + p.magic + be16(payload.len()) + payload
}

impl UnconnectedPing {
    /// The packet's bytes, as a pong.
    pub fn build(&self) -> (out: Vec<u8>)
        ensures
            out@ == ping_wire(self@),
    {
        let mut out: Vec<u8> = Vec::new();
        out.push(UNCONNECTED_PONG_ID);
        out.extend_from_slice(self.ping_time.as_slice());
        out.extend_from_slice(self.id.as_slice());
        out.extend_from_slice(self.magic.as_slice());

        let pong_data = write_pong(&self.pong);
        let payload = pong_data.as_str().as_bytes();
        let pong_len: usize = payload.len();
        out.push((pong_len / 256 % 256) as u8);
        out.push((pong_len % 256) as u8);
        out.extend_from_slice(payload);
        assert(out@ =~= ping_wire(self@));
        out
    }
}

/// The text with which `std::str::from_utf8` refuses the bytes.
pub uninterp spec fn utf8_error_text(bytes: Seq<u8>) -> Seq<char>;

/// `std::str::from_utf8` accepts exactly the well-formed UTF-8 byte strings and gives the text
/// that they encode. It refuses the others with an error whose text depends on the bytes alone;
/// what that text says is not claimed.
#[verifier::external_body]
fn read_utf8(bytes: &[u8]) -> (r: Result<&str, String>)
    ensures
        match r {
            Ok(s) => valid_utf8(bytes@) && s@ == decode_utf8(bytes@),
            Err(e) => !valid_utf8(bytes@) && e@ == utf8_error_text(bytes@),
        },
{
    std::str::from_utf8(bytes).map_err(|e| e.to_string())
}

/// What reading a discovery packet gives: the packet, or the reason why there is none.
pub open spec fn ping_read(input: Seq<u8>) -> Result<PingView, Seq<char>> {
    if input.len() < 35 {
        Err("packet too short"@)
    } else if input[0] != UNCONNECTED_PONG_ID && input[0] != UNCONNECTED_PING_ID {
        Err("unsupported packet id"@)
    } else if 35 + be16_value(input[33], input[34]) > input.len() {
        Err("invalid pong length"@)
    } else {
        let payload = input.subrange(35, 35 + be16_value(input[33], input[34]));
        if valid_utf8(payload) {
            Ok(
                PingView {
                    ping_time: input.subrange(1, 9),
                    id: input.subrange(9, 17),
                    magic: input.subrange(17, 33),
                    pong: pong_fields(decode_utf8(payload)),
                },
            )
        } else {
            Err("invalid utf8 pong payload: "@ + utf8_error_text(payload))
        }
    }
}

/// Eight bytes from index `at` on.
pub fn bytes8(input: &[u8], at: usize) -> (r: [u8; 8])
    requires
        at + 8 <= input@.len(),
    ensures
        r@ == input@.subrange(at as int, at + 8),
{
    let r = [
        input[at],
        input[at + 1],
        input[at + 2],
        input[at + 3],
        input[at + 4],
        input[at + 5],
        input[at + 6],
        input[at + 7],
    ];
    assert(r@ =~= input@.subrange(at as int, at + 8));
    r
}

/// Sixteen bytes from index `at` on.
pub fn bytes16(input: &[u8], at: usize) -> (r: [u8; 16])
    requires
        at + 16 <= input@.len(),
    ensures
        r@ == input@.subrange(at as int, at + 16),
{
    let r = [
        input[at],
        input[at + 1],
        input[at + 2],
        input[at + 3],
        input[at + 4],
        input[at + 5],
        input[at + 6],
        input[at + 7],
        input[at + 8],
        input[at + 9],
        input[at + 10],
        input[at + 11],
        input[at + 12],
        input[at + 13],
        input[at + 14],
        input[at + 15],
    ];
    assert(r@ =~= input@.subrange(at as int, at + 16));
    r
}

/// The view of a reading's outcome.
pub open spec fn ping_outcome(r: Result<UnconnectedPing, String>) -> Result<PingView, Seq<char>> {
    match r {
        Ok(p) => Ok(p@),
        Err(e) => Err(e@),
    }
}

/// Reads a discovery packet.
pub fn read_unconnected_ping(input: &[u8]) -> (r: Result<UnconnectedPing, String>)
    ensures
        ping_outcome(r) == ping_read(input@),
{
    if input.len() < 35 {
        return Err("packet too short".to_owned());
    }
    if input[0] != UNCONNECTED_PONG_ID && input[0] != UNCONNECTED_PING_ID {
        return Err("unsupported packet id".to_owned());
    }
    let ping_time = bytes8(input, 1);
    let id = bytes8(input, 9);
    let magic = bytes16(input, 17);

    let pong_len: usize = (input[33] as usize) * 256 + (input[34] as usize);
    if pong_len > input.len() - 35 {
        return Err("invalid pong length".to_owned());
    }
    let payload = vstd::slice::slice_subrange(input, 35, 35 + pong_len);
    match read_utf8(payload) {
        Ok(raw) => Ok(UnconnectedPing { ping_time, id, magic, pong: read_pong(raw) }),
        Err(e) => {
            let mut message = "invalid utf8 pong payload: ".to_owned();
            message.append(e.as_str());
            Err(message)
        },
    }
}

/// The bytes that mark an offline packet.
pub const OFFLINE_MAGIC: [u8; 16] = [
    0x00, 0xff, 0xff, 0x00, 0xfe, 0xfe, 0xfe, 0xfe, 0xfd, 0xfd, 0xfd, 0xfd, 0x12, 0x34, 0x56, 0x78,
];

/// The packet that stands for a server that does not answer.
pub open spec fn offline_packet() -> PingView {
    PingView {
        ping_time: Seq::new(8, |i: int| 0u8),
        id: Seq::new(8, |i: int| 0u8),
        magic: OFFLINE_MAGIC@,
        pong: seq![
            "MCPE"@,
            "phantom §cServer offline"@,
            "390"@,
            "1.14.60"@,
            "0"@,
            "0"@,
            ""@,
            ""@,
            "Creative"@,
            "1"@,
            ""@,
            ""@,
        ],
    }
}

/// The pong of a server that does not answer.
pub fn offline_pong() -> (out: Vec<u8>)
    ensures
        out@ == ping_wire(offline_packet()),
{
    let packet = UnconnectedPing {
        ping_time: [0; 8],
        id: [0; 8],
        magic: OFFLINE_MAGIC,
        pong: PongData {
            edition: "MCPE".to_owned(),
            motd: "phantom §cServer offline".to_owned(),
            protocol_version: "390".to_owned(),
            version: "1.14.60".to_owned(),
            players: "0".to_owned(),
            max_players: "0".to_owned(),
            server_id: "".to_owned(),
            sub_motd: "".to_owned(),
            game_type: "Creative".to_owned(),
            nintendo_limited: "1".to_owned(),
            port4: "".to_owned(),
            port6: "".to_owned(),
        },
    };
    assert(packet@ =~= offline_packet());
    packet.build()
}

// ---- laws ----

/// No field holds the separator.
pub open spec fn separator_free(fields: Seq<Seq<char>>) -> bool {
    forall|i: int| 0 <= i < fields.len() ==> !(#[trigger] fields[i]).contains(';')
}

/// The advertisement's text fits the 16-bit length field.
pub open spec fn fits_length_field(fields: Seq<Seq<char>>) -> bool {
    encode_utf8(pong_text(fields)).len() < 0x1_0000
}

/// The header fields have their sizes and the advertisement has all its fields.
pub open spec fn well_sized(p: PingView) -> bool {
    &&& p.ping_time.len() == 8
    &&& p.id.len() == 8
    &&& p.magic.len() == 16
    &&& p.pong.len() == PONG_FIELDS
}

proof fn lemma_parts_of_trimmed(s: Seq<char>, i: int)
    ensures
        nth_part(text::split(text::trim_end(s, ';'), ';'), i) == nth_part(text::split(s, ';'), i),
    decreases s.len(),
{
    if s.len() > 0 && s.last() == ';' {
        lemma_parts_of_trimmed(s.drop_last(), i);
        assert(s.drop_last().push(';') =~= s);
        text::lemma_split_push_sep(s.drop_last(), ';');
    }
}

/// Reading an advertisement's text gives back the fields it was written from, for fields that do
/// not hold the separator.
pub proof fn law_read_of_written_fields(fields: Seq<Seq<char>>)
    requires
        fields.len() == PONG_FIELDS,
        separator_free(fields),
    ensures
        pong_fields(pong_text(fields)) == fields,
{
    let joined = text::join(fields, ';');
    let trimmed = text::trim_end(joined, ';');
    text::lemma_split_join(fields, ';');
    assert forall|i: int| 0 <= i < PONG_FIELDS implies #[trigger] pong_fields(pong_text(fields))[i]
        == fields[i] by {
        text::lemma_split_push_sep(trimmed, ';');
        lemma_parts_of_trimmed(joined, i);
    }
    assert(pong_fields(pong_text(fields)) =~= fields);
}

/// Reading the text of all twelve fields gives them back, for fields that do not hold the
/// separator.
pub proof fn law_read_of_displayed_fields(fields: Seq<Seq<char>>)
    requires
        fields.len() == PONG_FIELDS,
        separator_free(fields),
    ensures
        pong_fields(text::join(fields, ';').push(';')) == fields,
{
    text::lemma_split_join(fields, ';');
    text::lemma_split_push_sep(text::join(fields, ';'), ';');
    assert(pong_fields(text::join(fields, ';').push(';')) =~= fields);
}

/// What is read never holds the separator.
pub proof fn law_read_fields_are_separator_free(raw: Seq<char>)
    ensures
        pong_fields(raw).len() == PONG_FIELDS,
        separator_free(pong_fields(raw)),
{
    text::lemma_split_pieces(raw, ';');
}

/// Reading a built packet gives back the packet, where no field holds the separator and the
/// advertisement fits its length field.
pub proof fn law_read_of_built_packet(p: PingView)
    requires
        well_sized(p),
        separator_free(p.pong),
        fits_length_field(p.pong),
    ensures
        ping_read(ping_wire(p)) == Ok::<PingView, Seq<char>>(p),
{
    let wire = ping_wire(p);
    let payload = encode_utf8(pong_text(p.pong));
    let n = payload.len() as int;
    assert(wire.len() == 35 + n);
    assert(be16_value(wire[33], wire[34]) == n);
    assert(wire.subrange(35, 35 + n) =~= payload);
    assert(wire.subrange(1, 9) =~= p.ping_time);
    assert(wire.subrange(9, 17) =~= p.id);
    assert(wire.subrange(17, 33) =~= p.magic);
    encode_utf8_valid_utf8(pong_text(p.pong));
    encode_utf8_decode_utf8(pong_text(p.pong));
    law_read_of_written_fields(p.pong);
}

/// A packet that was read survives being built and read again, where its advertisement still
/// fits the length field.
pub proof fn law_reread(input: Seq<u8>)
    requires
        ping_read(input) is Ok,
        fits_length_field(ping_read(input)->Ok_0.pong),
    ensures
        ping_read(ping_wire(ping_read(input)->Ok_0)) == ping_read(input),
{
    let p = ping_read(input)->Ok_0;
    let payload = input.subrange(35, 35 + be16_value(input[33], input[34]));
    law_read_fields_are_separator_free(decode_utf8(payload));
    law_read_of_built_packet(p);
}

/// Fields of at most 1300 characters each fit the length field.
pub proof fn law_short_fields_fit(fields: Seq<Seq<char>>)
    requires
        fields.len() == PONG_FIELDS,
        forall|i: int| 0 <= i < fields.len() ==> (#[trigger] fields[i]).len() <= 1300,
    ensures
        fits_length_field(fields),
{
    text::lemma_join_len(fields, ';', 1300);
    text::lemma_trim_end_len(text::join(fields, ';'), ';');
    text::lemma_encode_utf8_len(pong_text(fields));
}

proof fn lemma_padded_total(parts: Seq<Seq<char>>, n: nat)
    ensures
        text::total(Seq::new(n, |i: int| nth_part(parts, i))) <= text::total(parts),
    decreases n,
{
    let fields = Seq::new(n, |i: int| nth_part(parts, i));
    if n <= parts.len() {
        assert(fields =~= parts.take(n as int));
        text::lemma_total_take(parts, n as int);
    } else {
        lemma_padded_total(parts, (n - 1) as nat);
        assert(fields.drop_last() =~= Seq::new((n - 1) as nat, |i: int| nth_part(parts, i)));
        assert(fields.last().len() == 0);
    }
}

/// The fields of an advertisement hold no more characters than its text.
pub proof fn lemma_fields_total(raw: Seq<char>)
    ensures
        text::total(pong_fields(raw)) <= raw.len(),
{
    let parts = text::split(raw, ';');
    lemma_padded_total(parts, PONG_FIELDS as nat);
    text::lemma_split_total(raw, ';');
    assert(pong_fields(raw) =~= Seq::new(PONG_FIELDS as nat, |i: int| nth_part(parts, i)));
}

/// Fields of few characters in all fit the length field.
pub proof fn lemma_short_total_fits(fields: Seq<Seq<char>>)
    requires
        fields.len() == PONG_FIELDS,
        text::total(fields) <= 16_000,
    ensures
        fits_length_field(fields),
{
    text::lemma_join_total(fields, ';');
    text::lemma_trim_end_len(text::join(fields, ';'), ';');
    text::lemma_encode_utf8_len(pong_text(fields));
}

/// The pong of a server that does not answer can be read, and gives its fields.
pub proof fn law_offline_pong_is_readable()
    ensures
        ping_read(ping_wire(offline_packet())) == Ok::<PingView, Seq<char>>(offline_packet()),
{
    reveal_strlit("MCPE");
    reveal_strlit("phantom §cServer offline");
    reveal_strlit("390");
    reveal_strlit("1.14.60");
    reveal_strlit("0");
    reveal_strlit("");
    reveal_strlit("Creative");
    reveal_strlit("1");
    law_short_fields_fit(offline_packet().pong);
    law_read_of_built_packet(offline_packet());
}

/// The bytes of a packet: a pong's first byte, time, id and magic at their places, the length of
/// the rest modulo 65536, and the fields as text, each up to a `;`, with one `;` at the end and
/// none before it for the empty fields at the end.
pub proof fn law_layout_of_a_built_packet(p: PingView)
    requires
        well_sized(p),
        separator_free(p.pong),
    ensures
        ({
            let wire = ping_wire(p);
            let text = decode_utf8(wire.skip(35));
            let parts = text::split(text, ';');
            &&& wire.len() >= 35
            &&& wire[0] == 0x1c
            &&& wire.subrange(1, 9) == p.ping_time
            &&& wire.subrange(9, 17) == p.id
            &&& wire.subrange(17, 33) == p.magic
            &&& wire[33] * 256 + wire[34] == (wire.len() - 35) % 65536
            &&& valid_utf8(wire.skip(35))
            &&& text.len() > 0
            &&& text[text.len() - 1] == ';'
            &&& text.len() > 1 ==> text[text.len() - 2] != ';'
            &&& forall|i: int|
                0 <= i < 12 ==> #[trigger] p.pong[i] == (if i < parts.len() {
                    parts[i]
                } else {
                    Seq::<char>::empty()
                })
        }),
{
    let wire = ping_wire(p);
    let payload = encode_utf8(pong_text(p.pong));
    assert(wire.skip(35) =~= payload);
    assert(wire.subrange(1, 9) =~= p.ping_time);
    assert(wire.subrange(9, 17) =~= p.id);
    assert(wire.subrange(17, 33) =~= p.magic);
    encode_utf8_valid_utf8(pong_text(p.pong));
    encode_utf8_decode_utf8(pong_text(p.pong));
    let trimmed = text::trim_end(text::join(p.pong, ';'), ';');
    text::law_trim_end_cuts_the_whole_run(text::join(p.pong, ';'), ';');
    assert(pong_text(p.pong) == trimmed.push(';'));
    law_read_of_written_fields(p.pong);
    let parts = text::split(pong_text(p.pong), ';');
    assert forall|i: int| 0 <= i < 12 implies #[trigger] p.pong[i] == (if i < parts.len() {
        parts[i]
    } else {
        Seq::<char>::empty()
    }) by {
        assert(pong_fields(pong_text(p.pong))[i] == nth_part(parts, i));
        assert(p.pong[i] == pong_fields(pong_text(p.pong))[i]);
    }
}

/// What is read of bytes: a packet exactly where the header is whole, the first byte is that of a
/// ping or a pong, the text is as long as it says and is well-formed. Then each part of the packet
/// is what stands at its place.
pub proof fn law_layout_of_a_read_packet(input: Seq<u8>)
    ensures
        ping_read(input) is Ok <==> input.len() >= 35 && (input[0] == 0x1c || input[0] == 0x01)
            && 35 + input[33] * 256 + input[34] <= input.len() && valid_utf8(
            input.subrange(35, 35 + input[33] * 256 + input[34]),
        ),
        ping_read(input) is Ok ==> ({
            let read = ping_read(input)->Ok_0;
            let parts = text::split(
                decode_utf8(input.subrange(35, 35 + input[33] * 256 + input[34])),
                ';',
            );
            &&& read.ping_time == input.subrange(1, 9)
            &&& read.id == input.subrange(9, 17)
            &&& read.magic == input.subrange(17, 33)
            &&& read.pong.len() == 12
            &&& forall|i: int|
                0 <= i < 12 ==> #[trigger] read.pong[i] == (if i < parts.len() {
                    parts[i]
                } else {
                    Seq::<char>::empty()
                })
        }),
{
    if ping_read(input) is Ok {
        let read = ping_read(input)->Ok_0;
        let payload = input.subrange(35, 35 + be16_value(input[33], input[34]));
        let raw = decode_utf8(payload);
        let parts = text::split(raw, ';');
        assert(read.pong == pong_fields(raw));
        assert forall|i: int| 0 <= i < 12 implies #[trigger] read.pong[i] == (if i < parts.len() {
            parts[i]
        } else {
            Seq::<char>::empty()
        }) by {
            assert(read.pong[i] == nth_part(parts, i));
        }
    }
}

/// An advertisement's text is its fields with a `;` between them, without the run of `;` that
/// empty fields leave at the end, and with one `;` behind, whatever the fields hold.
pub proof fn law_text_of_fields(fields: Seq<Seq<char>>)
    ensures
        ({
            let joined = text::join(fields, ';');
            let text = pong_text(fields);
            &&& 1 <= text.len() <= joined.len() + 1
            &&& text[text.len() - 1] == ';'
            &&& text.len() > 1 ==> text[text.len() - 2] != ';'
            &&& forall|i: int| 0 <= i < text.len() - 1 ==> #[trigger] text[i] == joined[i]
            &&& forall|i: int| text.len() - 1 <= i < joined.len() ==> #[trigger] joined[i] == ';'
        }),
{
    text::law_trim_end_cuts_the_whole_run(text::join(fields, ';'), ';');
}

/// A packet's bytes are a pong's first byte, its time, id and magic, and its text, whatever the
/// fields hold.
pub proof fn law_bytes_of_a_packet(p: PingView)
    requires
        well_sized(p),
    ensures
        ping_wire(p).take(33) == seq![0x1cu8] + p.ping_time + p.id + p.magic,
        ping_wire(p).skip(35) == encode_utf8(pong_text(p.pong)),
        ping_wire(p)[33] * 256 + ping_wire(p)[34] == encode_utf8(pong_text(p.pong)).len() % 65536,
{
    assert(ping_wire(p).take(33) =~= seq![0x1cu8] + p.ping_time + p.id + p.magic);
    assert(ping_wire(p).skip(35) =~= encode_utf8(pong_text(p.pong)));
}

} // verus!
