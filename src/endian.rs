use byteorder::{BigEndian, ByteOrder, LittleEndian};
use vstd::prelude::*;

verus! {

/// The two's-complement bit pattern of `v`, read as an unsigned value.
pub open spec fn bits16(v: i16) -> u16 {
    if v < 0 {
        (v + 65536) as u16
    } else {
        v as u16
    }
}

/// The signed value whose two's-complement bit pattern is `u`.
pub open spec fn signed16(u: u16) -> i16 {
    if u >= 32768 {
        (u - 65536) as i16
    } else {
        u as i16
    }
}

/// `u` as two bytes, least significant first.
pub open spec fn le_u16_bytes(u: u16) -> Seq<u8> {
    seq![(u % 256) as u8, (u / 256) as u8]
}

/// `v` as two bytes of its two's-complement pattern, least significant first.
pub open spec fn le_i16_bytes(v: i16) -> Seq<u8> {
    le_u16_bytes(bits16(v))
}

/// The unsigned value of a low and a high byte.
pub open spec fn u16_of(lo: u8, hi: u8) -> u16 {
    (lo + 256 * hi) as u16
}

/// The signed value of a low and a high byte.
pub open spec fn i16_of(lo: u8, hi: u8) -> i16 {
    signed16(u16_of(lo, hi))
}

/// Reading back the two little-endian bytes of an unsigned value gives the value.
pub proof fn lemma_u16_le_round_trip(u: u16)
    ensures
        u16_of(le_u16_bytes(u)[0], le_u16_bytes(u)[1]) == u,
{
}

/// Reading back the two little-endian bytes of a signed value gives the value.
pub proof fn lemma_i16_le_round_trip(v: i16)
    ensures
        i16_of(le_i16_bytes(v)[0], le_i16_bytes(v)[1]) == v,
{
    lemma_u16_le_round_trip(bits16(v));
}

/// Relies on byteorder's `LittleEndian::write_i16`: it stores the
/// two's-complement pattern of `v`, low byte first.
#[verifier::external_body]
fn i16_le_bytes(v: i16) -> (r: [u8; 2])
    ensures
        r@ == le_i16_bytes(v),
{
    let mut buf = [0u8; 2];
    LittleEndian::write_i16(&mut buf, v);
    buf
}

/// Relies on byteorder's `LittleEndian::write_u16`: it stores `v` low byte
/// first.
#[verifier::external_body]
fn u16_le_bytes(v: u16) -> (r: [u8; 2])
    ensures
        r@ == le_u16_bytes(v),
{
    let mut buf = [0u8; 2];
    LittleEndian::write_u16(&mut buf, v);
    buf
}

/// Relies on byteorder's `LittleEndian::read_u16`: the first two bytes, low
/// byte first (it panics on fewer than two).
#[verifier::external_body]
fn read_u16_le(b: &[u8]) -> (r: u16)
    requires
        b@.len() >= 2,
    ensures
        r == u16_of(b@[0], b@[1]),
{
    LittleEndian::read_u16(b)
}

/// Relies on byteorder's `LittleEndian::read_i16`: the first two bytes, low
/// byte first, as a two's-complement value (it panics on fewer than two).
#[verifier::external_body]
fn read_i16_le(b: &[u8]) -> (r: i16)
    requires
        b@.len() >= 2,
    ensures
        r == i16_of(b@[0], b@[1]),
{
    LittleEndian::read_i16(b)
}

/// Relies on byteorder's `BigEndian::read_i16`: the first two bytes, high
/// byte first, as a two's-complement value (it panics on fewer than two).
#[verifier::external_body]
fn read_i16_be(b: &[u8]) -> (r: i16)
    requires
        b@.len() >= 2,
    ensures
        r == i16_of(b@[1], b@[0]),
{
    BigEndian::read_i16(b)
}

/// Appends `v` as two little-endian bytes.
pub fn push_i16_le(out: &mut Vec<u8>, v: i16)
    ensures
        final(out)@ == old(out)@ + le_i16_bytes(v),
{
    let b = i16_le_bytes(v);
    out.push(b[0]);
    out.push(b[1]);
    assert(final(out)@ =~= old(out)@ + le_i16_bytes(v));
}

/// Appends `v` as two little-endian bytes.
pub fn push_u16_le(out: &mut Vec<u8>, v: u16)
    ensures
        final(out)@ == old(out)@ + le_u16_bytes(v),
{
    let b = u16_le_bytes(v);
    out.push(b[0]);
    out.push(b[1]);
    assert(final(out)@ =~= old(out)@ + le_u16_bytes(v));
}

/// The little-endian unsigned value at byte offset `at`.
pub fn u16_le_at(b: &[u8], at: usize) -> (r: u16)
    requires
        at + 2 <= b@.len(),
    ensures
        r == u16_of(b@[at as int], b@[at + 1]),
{
    let len = b.len();
    assert(at + 2 <= len);
    read_u16_le(vstd::slice::slice_subrange(b, at, at + 2))
}

/// The little-endian signed value at byte offset `at`.
pub fn i16_le_at(b: &[u8], at: usize) -> (r: i16)
    requires
        at + 2 <= b@.len(),
    ensures
        r == i16_of(b@[at as int], b@[at + 1]),
{
    let len = b.len();
    assert(at + 2 <= len);
    read_i16_le(vstd::slice::slice_subrange(b, at, at + 2))
}

/// The big-endian signed value at byte offset `at`.
pub fn i16_be_at(b: &[u8], at: usize) -> (r: i16)
    requires
        at + 2 <= b@.len(),
    ensures
        r == i16_of(b@[at + 1], b@[at as int]),
{
    let len = b.len();
    assert(at + 2 <= len);
    read_i16_be(vstd::slice::slice_subrange(b, at, at + 2))
}

} // verus!
