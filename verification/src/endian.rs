//! Numbers as big-endian bytes, and the calls into the `byteorder` crate.

use vstd::prelude::*;

verus! {

/// The byte of a number at a place, counted from the least significant one.
pub open spec fn byte_at(v: u64, place: nat) -> u8
    decreases place,
{
    if place == 0 {
        (v % 256) as u8
    } else {
        byte_at(v / 256, (place - 1) as nat)
    }
}

/// The eight bytes of a 64-bit number, most significant first.
#[verifier::opaque]
pub open spec fn be_bytes(v: u64) -> Seq<u8> {
    seq![
        byte_at(v, 7),
        byte_at(v, 6),
        byte_at(v, 5),
        byte_at(v, 4),
        byte_at(v, 3),
        byte_at(v, 2),
        byte_at(v, 1),
        byte_at(v, 0),
    ]
}

/// The number that starts a byte string, read as eight bytes with the most
/// significant first.
pub open spec fn be_u64(s: Seq<u8>) -> int {
    ((((((s[0] * 256 + s[1]) * 256 + s[2]) * 256 + s[3]) * 256 + s[4]) * 256 + s[5]) * 256
        + s[6]) * 256 + s[7]
}

/// Reading back the bytes of a number gives the number.
pub proof fn lemma_be_round_trip(v: u64)
    ensures
        be_bytes(v).len() == 8,
        be_u64(be_bytes(v)) == v,
{
    reveal(be_bytes);
    reveal_with_fuel(byte_at, 8);
    let v1 = v / 256;
    let v2 = v1 / 256;
    let v3 = v2 / 256;
    let v4 = v3 / 256;
    let v5 = v4 / 256;
    let v6 = v5 / 256;
    let v7 = v6 / 256;
    assert(v7 < 256);
    assert(byte_at(v, 0) == v % 256);
    assert(byte_at(v, 1) == v1 % 256);
    assert(byte_at(v, 2) == v2 % 256);
    assert(byte_at(v, 3) == v3 % 256);
    assert(byte_at(v, 4) == v4 % 256);
    assert(byte_at(v, 5) == v5 % 256);
    assert(byte_at(v, 6) == v6 % 256);
    assert(byte_at(v, 7) == v7);
}

/// A 64-bit pattern read as a signed number in two's complement.
pub open spec fn as_signed(n: int) -> int {
    if n < 0x8000_0000_0000_0000 {
        n
    } else {
        n - 0x1_0000_0000_0000_0000
    }
}

/// `BigEndian::read_u64`: the first eight bytes of the slice as a number,
/// most significant byte first. It panics on a shorter slice, which is left
/// out.
#[verifier::external_body]
pub(crate) fn read_u64(buf: &[u8]) -> (v: u64)
    requires
        buf@.len() >= 8,
    ensures
        v == be_u64(buf@),
{
    <byteorder::BigEndian as byteorder::ByteOrder>::read_u64(buf)
}

/// `BigEndian::read_i64`: what `read_u64` reads, taken as a signed number
/// in two's complement. It panics on a slice shorter than eight bytes, which
/// is left out.
#[verifier::external_body]
pub(crate) fn read_i64(buf: &[u8]) -> (v: i64)
    requires
        buf@.len() >= 8,
    ensures
        v == as_signed(be_u64(buf@)),
{
    <byteorder::BigEndian as byteorder::ByteOrder>::read_i64(buf)
}

} // verus!
