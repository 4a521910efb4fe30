//! RakNet packets as the relay needs them: decoding, re-encoding and the pong.

use vstd::arithmetic::div_mod::*;
use vstd::prelude::*;

use crate::proto;
use crate::proto::UNCONNECTED_PONG_ID;
use crate::proxy;

use tokio_raknet::protocol::packet::{DecodeError, EncodeError, RaknetPacket, UnconnectedPong};
use tokio_raknet::protocol::types::{Advertisement, RaknetTime};

verus! {

/// A 32-bit number, most significant byte first.
pub open spec fn be32(n: u32) -> Seq<u8> {
    seq![
        (n / 0x100_0000) as u8,
        (n / 0x1_0000 % 256) as u8,
        (n / 0x100 % 256) as u8,
        (n % 256) as u8,
    ]
}

/// The 32-bit number that the first four bytes denote, most significant byte first.
pub open spec fn be32_value(b: Seq<u8>) -> u32 {
    (b[0] * 0x100_0000 + b[1] * 0x1_0000 + b[2] * 0x100 + b[3]) as u32
}

/// A 64-bit number, most significant byte first.
pub open spec fn be64(n: u64) -> Seq<u8> {
    be32((n / 0x1_0000_0000) as u32) + be32((n % 0x1_0000_0000) as u32)
}

/// The 64-bit number that the first eight bytes denote, most significant byte first.
pub open spec fn be64_value(b: Seq<u8>) -> u64 {
    (be32_value(b) * 0x1_0000_0000 + be32_value(b.skip(4))) as u64
}

/// The bytes hold a well-formed unconnected ping of either kind: id, time, magic. Whatever comes
/// behind does not matter.
pub open spec fn carries_ping(bytes: Seq<u8>) -> bool {
    &&& proxy::is_ping(bytes)
    &&& bytes.len() >= 25
    &&& bytes.subrange(9, 25) == proto::OFFLINE_MAGIC@
}

/// The first byte of a packet that RakNet gives a meaning to.
pub open spec fn is_control_id(id: u8) -> bool {
    ||| id <= 0x09
    ||| 0x10 <= id <= 0x17
    ||| 0x19 <= id <= 0x1d
    ||| id == 0xa0
    ||| id == 0xc0
}

/// A decoded RakNet packet: the time that a ping carries, and the packet's own encoding.
#[derive(Debug)]
pub struct Packet {
    pub ping_time: Option<u64>,
    pub encoded: Option<Vec<u8>>,
}

/// The view of bytes that may not be there.
pub open spec fn bytes_view(bytes: Option<Vec<u8>>) -> Option<Seq<u8>> {
    match bytes {
        Some(b) => Some(b@),
        None => None,
    }
}

/// Why the bytes are no RakNet packet.
#[verifier::external_type_specification]
#[verifier::external_body]
pub struct ExDecodeError(DecodeError);

/// Why a RakNet packet has no encoding.
#[verifier::external_type_specification]
#[verifier::external_body]
pub struct ExEncodeError(EncodeError);

/// The encoding of the packet that `RaknetPacket::decode` reads from the bytes, as
/// `RaknetPacket::encode` gives it (`Some(None)` where it gives none); `None` where the bytes are
/// refused.
pub uninterp spec fn reencoding(bytes: Seq<u8>) -> Option<Option<Seq<u8>>>;

/// `RaknetPacket::decode` reads one packet, and `RaknetPacket::encode` writes what was read.
///
/// Both depend on the bytes alone, and what was read can always be written. No packet is read
/// from no bytes. A first byte that has no meaning leaves the bytes as they are. A ping of either
/// kind is read exactly where time and magic stand behind the first byte; it carries that time,
/// and what comes behind the magic is dropped. No other packet counts as a ping. What becomes of
/// the other packets is not claimed beyond its name.
#[verifier::external_body]
pub(crate) fn decode_packet(payload: &[u8]) -> (r: Result<Packet, DecodeError>)
    ensures
        match r {
            Ok(packet) => {
                &&& reencoding(payload@) == Some(bytes_view(packet.encoded))
                &&& packet.encoded is Some
                &&& packet.ping_time == (if proxy::is_ping(payload@) {
                    Some(be64_value(payload@.skip(1)))
                } else {
                    None
                })
            },
            Err(_) => reencoding(payload@) is None,
        },
        payload@.len() == 0 ==> r is Err,
        payload@.len() > 0 && !is_control_id(payload@[0]) ==> r is Ok && bytes_view(
            r->Ok_0.encoded,
        ) == Some(payload@),
        proxy::is_ping(payload@) ==> (r is Ok <==> carries_ping(payload@)),
        carries_ping(payload@) && r is Ok ==> bytes_view(r->Ok_0.encoded) == Some(payload@.take(25)),
{
    let packet = RaknetPacket::decode(&mut bytes::Bytes::copy_from_slice(payload))?;
    let mut out = bytes::BytesMut::new();
    let encoded = packet.encode(&mut out).ok().map(|_| out.to_vec());
    let ping_time = match packet {
        RaknetPacket::UnconnectedPing(p) => Some(p.ping_time.0),
        RaknetPacket::UnconnectedPingOpenConnections(p) => Some(p.ping_time.0),
        _ => None,
    };
    Ok(Packet { ping_time, encoded })
}

/// The bytes of a pong. An advertisement is cut off where its length field ends; an empty one is
/// left out with its length.
pub open spec fn pong_wire(
    ping_time: u64,
    server_guid: u64,
    magic: Seq<u8>,
    advertisement: Seq<u8>,
) -> Seq<u8> {
    let len = if advertisement.len() < 0xffff { advertisement.len() } else { 0xffff };
    let tail = if advertisement.len() == 0 {
        seq![]
    } else {
        proto::be16(len) + advertisement.take(len as int)
    };
    seq![UNCONNECTED_PONG_ID] + be64(ping_time) + be64(server_guid) + magic + tail
}

/// `RaknetPacket::encode` writes an unconnected pong as its first byte, time, id, magic and
/// advertisement, and never fails on one.
#[verifier::external_body]
pub(crate) fn encode_pong(
    ping_time: u64,
    server_guid: u64,
    magic: [u8; 16],
    advertisement: Vec<u8>,
) -> (r: Result<Vec<u8>, EncodeError>)
    ensures
        r is Ok,
        r->Ok_0@ == pong_wire(ping_time, server_guid, magic@, advertisement@),
{
    let pong = RaknetPacket::UnconnectedPong(UnconnectedPong {
        ping_time: RaknetTime(ping_time),
        server_guid,
        magic,
        advertisement: Advertisement(Some(bytes::Bytes::from(advertisement))),
    });
    let mut out = bytes::BytesMut::new();
    pong.encode(&mut out)?;
    Ok(out.to_vec())
}

// ---- laws ----

/// A 32-bit number survives being written and read, whatever comes behind it.
pub proof fn law_be32_read_of_written(n: u32, tail: Seq<u8>)
    ensures
        be32(n).len() == 4,
        be32_value(be32(n) + tail) == n,
{
    let b = be32(n) + tail;
    assert(b[0] == n / 0x100_0000);
    assert(b[1] == n / 0x1_0000 % 256);
    assert(b[2] == n / 0x100 % 256);
    assert(b[3] == n % 256);
}

proof fn lemma_bytes_of_number(b0: u8, b1: u8, b2: u8, b3: u8, n: u32)
    requires
        n == b0 * 0x100_0000 + b1 * 0x1_0000 + b2 * 0x100 + b3,
    ensures
        n / 0x100_0000 == b0,
        n / 0x1_0000 % 256 == b1,
        n / 0x100 % 256 == b2,
        n % 256 == b3,
{
    let top = b0 as int;
    let two = top * 256 + b1;
    let three = two * 256 + b2;
    lemma_fundamental_div_mod_converse(
        n as int,
        0x100_0000,
        top,
        b1 * 0x1_0000 + b2 * 0x100 + b3,
    );
    lemma_fundamental_div_mod_converse(n as int, 0x1_0000, two, b2 * 0x100 + b3);
    lemma_fundamental_div_mod_converse(n as int, 0x100, three, b3 as int);
    lemma_fundamental_div_mod_converse(two, 256, top, b1 as int);
    lemma_fundamental_div_mod_converse(three, 256, two, b2 as int);
}

/// Four bytes survive being read and written as a 32-bit number.
pub proof fn law_be32_written_of_read(b: Seq<u8>)
    requires
        b.len() >= 4,
    ensures
        be32(be32_value(b)) == b.take(4),
{
    let n = be32_value(b);
    lemma_bytes_of_number(b[0], b[1], b[2], b[3], n);
    let w = be32(n);
    assert(w[0] == b[0]);
    assert(w[1] == b[1]);
    assert(w[2] == b[2]);
    assert(w[3] == b[3]);
    assert(w =~= b.take(4));
}

/// A 64-bit number survives being written and read, whatever comes behind it.
pub proof fn law_be64_read_of_written(n: u64, tail: Seq<u8>)
    ensures
        be64(n).len() == 8,
        be64_value(be64(n) + tail) == n,
{
    let hi = (n / 0x1_0000_0000) as u32;
    let lo = (n % 0x1_0000_0000) as u32;
    law_be32_read_of_written(hi, be32(lo) + tail);
    law_be32_read_of_written(lo, tail);
    assert(be64(n) + tail =~= be32(hi) + (be32(lo) + tail));
    assert((be64(n) + tail).skip(4) =~= be32(lo) + tail);
}

proof fn lemma_halves_of_number(hi: u32, lo: u32, n: u64)
    requires
        n == hi * 0x1_0000_0000 + lo,
    ensures
        n / 0x1_0000_0000 == hi,
        n % 0x1_0000_0000 == lo,
{
    lemma_fundamental_div_mod_converse(n as int, 0x1_0000_0000, hi as int, lo as int);
}

/// Eight bytes survive being read and written as a 64-bit number.
pub proof fn law_be64_written_of_read(b: Seq<u8>)
    requires
        b.len() >= 8,
    ensures
        be64(be64_value(b)) == b.take(8),
{
    let hi = be32_value(b);
    let lo = be32_value(b.skip(4));
    lemma_halves_of_number(hi, lo, be64_value(b));
    law_be32_written_of_read(b);
    law_be32_written_of_read(b.skip(4));
    assert(be64(be64_value(b)) == be32(hi) + be32(lo));
    assert(b.take(4) + b.skip(4).take(4) =~= b.take(8));
}

/// The bytes of a number count by their places, the first the most.
pub proof fn law_places_of_bytes(n: u32, m: u64)
    ensures
        be32(n)[0] * 16777216 + be32(n)[1] * 65536 + be32(n)[2] * 256 + be32(n)[3] == n,
        be64(m).len() == 8,
        (be64(m)[0] * 16777216 + be64(m)[1] * 65536 + be64(m)[2] * 256 + be64(m)[3]) * 4294967296
            + (be64(m)[4] * 16777216 + be64(m)[5] * 65536 + be64(m)[6] * 256 + be64(m)[7]) == m,
{
    lemma_places_of_four_bytes(n);
    let hi = (m / 0x1_0000_0000) as u32;
    let lo = (m % 0x1_0000_0000) as u32;
    lemma_places_of_four_bytes(hi);
    lemma_places_of_four_bytes(lo);
    let b = be64(m);
    assert(b[0] == be32(hi)[0] && b[1] == be32(hi)[1] && b[2] == be32(hi)[2] && b[3] == be32(
        hi,
    )[3]);
    assert(b[4] == be32(lo)[0] && b[5] == be32(lo)[1] && b[6] == be32(lo)[2] && b[7] == be32(
        lo,
    )[3]);
    assert(hi * 4294967296 + lo == m);
}

proof fn lemma_places_of_four_bytes(n: u32)
    ensures
        be32(n).len() == 4,
        be32(n)[0] * 16777216 + be32(n)[1] * 65536 + be32(n)[2] * 256 + be32(n)[3] == n,
{
    let b = be32(n);
    assert(b[0] == n / 0x100_0000);
    assert(b[1] == n / 0x1_0000 % 256);
    assert(b[2] == n / 0x100 % 256);
    assert(b[3] == n % 256);
}

/// The bytes of a pong with an advertisement: first byte, time, id and magic at their places, the
/// length of the advertisement and as much of it as the length field can count.
pub proof fn law_layout_of_a_pong(
    ping_time: u64,
    server_guid: u64,
    magic: Seq<u8>,
    advertisement: Seq<u8>,
)
    requires
        magic.len() == 16,
        advertisement.len() > 0,
    ensures
        ({
            let pong = pong_wire(ping_time, server_guid, magic, advertisement);
            let n = if advertisement.len() < 65535 {
                advertisement.len() as int
            } else {
                65535
            };
            &&& pong[0] == 0x1c
            &&& pong.subrange(1, 9) == be64(ping_time)
            &&& pong.subrange(9, 17) == be64(server_guid)
            &&& pong.subrange(17, 33) == magic
            &&& pong[33] * 256 + pong[34] == n
            &&& pong.skip(35) == advertisement.take(n)
        }),
{
    let pong = pong_wire(ping_time, server_guid, magic, advertisement);
    let time = be64(ping_time);
    let id = be64(server_guid);
    law_places_of_bytes(0, ping_time);
    law_places_of_bytes(0, server_guid);
    lemma_layout_of_parts(pong[0], time, id, magic, advertisement, pong);
}

proof fn lemma_layout_of_parts(
    first: u8,
    time: Seq<u8>,
    id: Seq<u8>,
    magic: Seq<u8>,
    advertisement: Seq<u8>,
    pong: Seq<u8>,
)
    requires
        time.len() == 8,
        id.len() == 8,
        magic.len() == 16,
        advertisement.len() > 0,
        ({
            let len = if advertisement.len() < 0xffff { advertisement.len() } else { 0xffff };
            pong == seq![first] + time + id + magic + (proto::be16(len) + advertisement.take(
                len as int,
            ))
        }),
    ensures
        ({
            let n = if advertisement.len() < 65535 {
                advertisement.len() as int
            } else {
                65535
            };
            &&& pong.subrange(1, 9) == time
            &&& pong.subrange(9, 17) == id
            &&& pong.subrange(17, 33) == magic
            &&& pong[33] * 256 + pong[34] == n
            &&& pong.skip(35) == advertisement.take(n)
        }),
{
    let n = if advertisement.len() < 65535 {
        advertisement.len() as int
    } else {
        65535
    };
    assert(pong.subrange(1, 9) =~= time);
    assert(pong.subrange(9, 17) =~= id);
    assert(pong.subrange(17, 33) =~= magic);
    assert(pong[33] == n / 256 % 256);
    assert(pong[34] == n % 256);
    assert(pong.skip(35) =~= advertisement.take(n));
}

} // verus!
