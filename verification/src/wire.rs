//! The wire format of a packet.
//!
//! ```text
//! [ length:4 ][ id:4 ][ type:4 ][ body:N bytes ][ 0x00 0x00 ]
//! ```
//!
//! All integers are signed, 32 bits wide and little-endian. `length` counts
//! everything behind the length field itself: `4 + 4 + N + 2`.

use bytes::BufMut;
use vstd::prelude::*;
use vstd::utf8::encode_utf8;

verus! {

/// Bytes of a packet besides its body that the length field counts: the id,
/// the type and the terminator.
pub const LENGTH_OVERHEAD: i32 = 10;

/// Bytes of a packet besides its body: the length field and what
/// [`LENGTH_OVERHEAD`] counts.
pub const PACKET_OVERHEAD: usize = 14;

/// The unsigned value of the 32-bit two's complement pattern of `x`.
pub open spec fn pattern(x: i32) -> int {
    if x < 0 {
        x + 0x1_0000_0000
    } else {
        x as int
    }
}

/// The signed integer whose 32-bit two's complement pattern has the
/// unsigned value `u`.
pub open spec fn of_pattern(u: int) -> i32
    recommends
        0 <= u < 0x1_0000_0000,
{
    if u < 0x8000_0000 {
        u as i32
    } else {
        (u - 0x1_0000_0000) as i32
    }
}

/// The four bytes of `x`, least significant first.
pub open spec fn le_bytes(x: i32) -> Seq<u8> {
    let u = pattern(x);
    seq![
        (u % 256) as u8,
        (u / 256 % 256) as u8,
        (u / 65536 % 256) as u8,
        (u / 16777216) as u8,
    ]
}

/// The integer that the first four bytes of `b` spell, least significant
/// first.
pub open spec fn le_value(b: Seq<u8>) -> i32
    recommends
        b.len() >= 4,
{
    of_pattern(b[0] + 256 * b[1] + 65536 * b[2] + 16777216 * b[3])
}

/// Writes `x` as four little-endian bytes.
pub fn i32_to_le(x: i32) -> (b: [u8; 4])
    ensures
        b@ == le_bytes(x),
{
    let u: u64 = if x < 0 {
        (x as i64 + 0x1_0000_0000) as u64
    } else {
        x as u64
    };
    let b: [u8; 4] = [
        (u % 256) as u8,
        (u / 256 % 256) as u8,
        (u / 65536 % 256) as u8,
        (u / 16777216) as u8,
    ];
    assert(b@ =~= le_bytes(x));
    b
}

/// Reads four little-endian bytes as a signed integer.
pub fn i32_from_le(b: [u8; 4]) -> (x: i32)
    ensures
        x == le_value(b@),
{
    let u: i64 = b[0] as i64 + 256 * (b[1] as i64) + 65536 * (b[2] as i64) + 16777216 * (
    b[3] as i64);
    if u < 0x8000_0000 {
        u as i32
    } else {
        (u - 0x1_0000_0000) as i32
    }
}

/// Decoding undoes encoding.
pub proof fn lemma_le_round_trip(x: i32)
    ensures
        le_bytes(x).len() == 4,
        le_value(le_bytes(x)) == x,
{
}

/// Encoding undoes decoding: four bytes spell exactly one integer.
pub proof fn lemma_le_bytes_of_value(b: Seq<u8>)
    requires
        b.len() == 4,
    ensures
        le_bytes(le_value(b)) == b,
{
    let b0 = b[0] as int;
    let b1 = b[1] as int;
    let b2 = b[2] as int;
    let b3 = b[3] as int;
    let u = b0 + 256 * b1 + 65536 * b2 + 16777216 * b3;
    let u1 = b1 + 256 * b2 + 65536 * b3;
    let u2 = b2 + 256 * b3;
    assert(pattern(le_value(b)) == u);
    assert(u == 256 * u1 + b0 && u1 == 256 * u2 + b1 && u2 == 256 * b3 + b2);
    assert(u % 256 == b0 && u / 256 == u1);
    assert(u1 % 256 == b1 && u1 / 256 == u2);
    assert(u2 % 256 == b2 && u2 / 256 == b3);
    assert(u / 65536 == u2 && u / 16777216 == b3);
    assert(le_bytes(le_value(b)) =~= b);
}

/// The packet that carries `body` under `id` and `kind`: the length field,
/// the id, the type, the body and two zero bytes.
pub open spec fn packet(id: i32, kind: i32, body: Seq<u8>) -> Seq<u8>
    recommends
        body.len() + LENGTH_OVERHEAD <= i32::MAX,
{
    le_bytes((body.len() + LENGTH_OVERHEAD) as i32) + le_bytes(id) + le_bytes(kind) + body
        + seq![0u8, 0u8]
}

/// Whether a body of `n` bytes can be framed: its length field must fit in
/// 32 signed bits, and the packet in a buffer.
pub open spec fn fits_packet(n: nat) -> bool {
    n + LENGTH_OVERHEAD <= i32::MAX && n + PACKET_OVERHEAD <= isize::MAX
}

/// `bytes::BufMut::put_slice` on a `Vec<u8>`, which appends all of `src` to
/// the vector. The vector takes at most `isize::MAX` bytes; the
/// precondition keeps the call within that.
#[verifier::external_body]
fn put_slice(buf: &mut Vec<u8>, src: &[u8])
    requires
        old(buf)@.len() + src@.len() <= isize::MAX,
    ensures
        final(buf)@ == old(buf)@ + src@,
{
    buf.put_slice(src);
}

/// Whether `payload`, as UTF-8, can be framed as the body of a packet.
pub fn fits_in_packet(payload: &str) -> (yes: bool)
    ensures
        yes == fits_packet(encode_utf8(payload@).len()),
{
    let n: usize = payload.as_bytes().len();
    n <= (i32::MAX - LENGTH_OVERHEAD) as usize && n <= isize::MAX as usize - PACKET_OVERHEAD
}

/// Frames a request: `payload`, as UTF-8, as the body of a packet with the
/// given id and type.
pub fn encode_request(id: i32, kind: i32, payload: &str) -> (buf: Vec<u8>)
    requires
        fits_packet(encode_utf8(payload@).len()),
    ensures
        buf@ == packet(id, kind, encode_utf8(payload@)),
{
    let body = payload.as_bytes();
    let declared: i32 = body.len() as i32 + LENGTH_OVERHEAD;
    let mut buf: Vec<u8> = Vec::with_capacity(body.len() + PACKET_OVERHEAD);
    put_slice(&mut buf, i32_to_le(declared).as_slice());
    put_slice(&mut buf, i32_to_le(id).as_slice());
    put_slice(&mut buf, i32_to_le(kind).as_slice());
    put_slice(&mut buf, body);
    let terminator: [u8; 2] = [0, 0];
    put_slice(&mut buf, terminator.as_slice());
    assert(terminator@ =~= seq![0u8, 0u8]);
    buf
}

/// A framed packet is fourteen bytes longer than its body. Its first four
/// bytes spell the length of the body plus ten, the next eight the id and the
/// type; then comes the body, unchanged, and two zero bytes end it.
pub proof fn lemma_packet_shape(id: i32, kind: i32, body: Seq<u8>)
    requires
        body.len() + LENGTH_OVERHEAD <= i32::MAX,
    ensures
        packet(id, kind, body).len() == body.len() + PACKET_OVERHEAD,
        le_value(packet(id, kind, body).subrange(0, 4)) == body.len() + LENGTH_OVERHEAD,
        le_value(packet(id, kind, body).subrange(4, 8)) == id,
        le_value(packet(id, kind, body).subrange(8, 12)) == kind,
        packet(id, kind, body).subrange(12, body.len() as int + 12) == body,
        packet(id, kind, body)[body.len() as int + 12] == 0,
        packet(id, kind, body)[body.len() as int + 13] == 0,
{
    let p = packet(id, kind, body);
    let declared = (body.len() + LENGTH_OVERHEAD) as i32;
    lemma_le_round_trip(declared);
    lemma_le_round_trip(id);
    lemma_le_round_trip(kind);
    assert(p.subrange(0, 4) =~= le_bytes(declared));
    assert(p.subrange(4, 8) =~= le_bytes(id));
    assert(p.subrange(8, 12) =~= le_bytes(kind));
    assert(p.subrange(12, body.len() as int + 12) =~= body);
}

} // verus!
