//! Little-endian integer encoding, as written and read by `byteorder`.

use byteorder::{ByteOrder, LittleEndian, WriteBytesExt};
use vstd::prelude::*;

verus! {

/// The two bytes of `v`, least significant first.
pub open spec fn u16_le(v: u16) -> Seq<u8> {
    seq![(v % 256) as u8, (v / 256) as u8]
}

/// The four bytes of `v`, least significant first.
pub open spec fn u32_le(v: u32) -> Seq<u8> {
    seq![
        (v % 256) as u8,
        ((v / 256) % 256) as u8,
        ((v / 65536) % 256) as u8,
        (v / 16777216) as u8,
    ]
}

/// The two's complement bit pattern of `v`, read as an unsigned number.
pub open spec fn i32_bits(v: i32) -> u32 {
    if v < 0 {
        (v + 0x1_0000_0000) as u32
    } else {
        v as u32
    }
}

/// The signed number whose two's complement bit pattern is `u`.
pub open spec fn i32_of_bits(u: u32) -> i32 {
    if u < 0x8000_0000 {
        u as i32
    } else {
        (u - 0x1_0000_0000) as i32
    }
}

/// The four bytes of the two's complement of `v`, least significant first.
pub open spec fn i32_le(v: i32) -> Seq<u8> {
    u32_le(i32_bits(v))
}

/// The number held by the first two bytes of `b`, least significant first.
pub open spec fn u16_from_le(b: Seq<u8>) -> u16 {
    (b[0] + 256 * b[1]) as u16
}

/// The number held by the first four bytes of `b`, least significant first.
pub open spec fn u32_from_le(b: Seq<u8>) -> u32 {
    (b[0] + 256 * b[1] + 65536 * b[2] + 16777216 * b[3]) as u32
}

/// The signed number held by the first four bytes of `b` in two's complement.
pub open spec fn i32_from_le(b: Seq<u8>) -> i32 {
    i32_of_bits(u32_from_le(b))
}

/// Reading back the two bytes written for `v` gives `v`.
pub proof fn lemma_u16_roundtrip(v: u16)
    ensures
        u16_le(v).len() == 2,
        u16_from_le(u16_le(v)) == v,
{
    assert((v % 256) + 256 * (v / 256) == v) by (nonlinear_arith);
}

/// Reading back the four bytes written for `v` gives `v`.
pub proof fn lemma_u32_roundtrip(v: u32)
    ensures
        u32_le(v).len() == 4,
        u32_from_le(u32_le(v)) == v,
{
    let q1 = v / 256;
    let q2 = q1 / 256;
    let q3 = q2 / 256;
    assert(v == 256 * q1 + v % 256) by (nonlinear_arith)
        requires
            q1 == v / 256,
    ;
    assert(q1 == 256 * q2 + q1 % 256) by (nonlinear_arith)
        requires
            q2 == q1 / 256,
    ;
    assert(q2 == 256 * q3 + q2 % 256) by (nonlinear_arith)
        requires
            q3 == q2 / 256,
    ;
    assert(q2 == v / 65536) by (nonlinear_arith)
        requires
            q1 == v / 256,
            q2 == q1 / 256,
    ;
    assert(q3 == v / 16777216) by (nonlinear_arith)
        requires
            q1 == v / 256,
            q2 == q1 / 256,
            q3 == q2 / 256,
    ;
    assert(q3 < 256) by (nonlinear_arith)
        requires
            q3 == v / 16777216,
            v < 0x1_0000_0000,
    ;
}

/// Reading back the four bytes written for a signed `v` gives `v`.
pub proof fn lemma_i32_roundtrip(v: i32)
    ensures
        i32_le(v).len() == 4,
        i32_from_le(i32_le(v)) == v,
{
    lemma_u32_roundtrip(i32_bits(v));
}

/// Appends one byte to `buf`.
/// Trusted: `byteorder::WriteBytesExt::write_u8` on a `Vec<u8>` appends the
/// byte; writing to a vector never fails.
#[verifier::external_body]
pub(crate) fn write_u8(buf: &mut Vec<u8>, v: u8)
    ensures
        final(buf)@ == old(buf)@.push(v),
{
    let _ = buf.write_u8(v);
}

/// Appends the two little-endian bytes of `v` to `buf`.
/// Trusted: `byteorder::WriteBytesExt::write_u16::<LittleEndian>` on a
/// `Vec<u8>` appends `v.to_le_bytes()`; writing to a vector never fails.
#[verifier::external_body]
pub(crate) fn write_u16_le(buf: &mut Vec<u8>, v: u16)
    ensures
        final(buf)@ == old(buf)@ + u16_le(v),
{
    let _ = buf.write_u16::<LittleEndian>(v);
}

/// Appends the four little-endian bytes of `v` to `buf`.
/// Trusted: `byteorder::WriteBytesExt::write_u32::<LittleEndian>` on a
/// `Vec<u8>` appends `v.to_le_bytes()`; writing to a vector never fails.
#[verifier::external_body]
pub(crate) fn write_u32_le(buf: &mut Vec<u8>, v: u32)
    ensures
        final(buf)@ == old(buf)@ + u32_le(v),
{
    let _ = buf.write_u32::<LittleEndian>(v);
}

/// Appends the four little-endian two's complement bytes of `v` to `buf`.
/// Trusted: `byteorder::WriteBytesExt::write_i32::<LittleEndian>` on a
/// `Vec<u8>` appends `v.to_le_bytes()`; writing to a vector never fails.
#[verifier::external_body]
pub(crate) fn write_i32_le(buf: &mut Vec<u8>, v: i32)
    ensures
        final(buf)@ == old(buf)@ + i32_le(v),
{
    let _ = buf.write_i32::<LittleEndian>(v);
}

/// Reads the little-endian `u16` that starts at `pos`.
/// Trusted: `byteorder::LittleEndian::read_u16` reads the first two bytes of
/// its slice (it panics on a shorter slice, which `requires` rules out).
#[verifier::external_body]
pub(crate) fn read_u16_le(buf: &[u8], pos: usize) -> (r: u16)
    requires
        pos + 2 <= buf@.len(),
    ensures
        r == u16_from_le(buf@.subrange(pos as int, pos + 2)),
{
    LittleEndian::read_u16(&buf[pos..])
}

/// Reads the little-endian `u32` that starts at `pos`.
/// Trusted: `byteorder::LittleEndian::read_u32` reads the first four bytes of
/// its slice (it panics on a shorter slice, which `requires` rules out).
#[verifier::external_body]
pub(crate) fn read_u32_le(buf: &[u8], pos: usize) -> (r: u32)
    requires
        pos + 4 <= buf@.len(),
    ensures
        r == u32_from_le(buf@.subrange(pos as int, pos + 4)),
{
    LittleEndian::read_u32(&buf[pos..])
}

/// Reads the little-endian two's complement `i32` that starts at `pos`.
/// Trusted: `byteorder::LittleEndian::read_i32` is `read_u32` cast to `i32`
/// (it panics on a shorter slice, which `requires` rules out).
#[verifier::external_body]
pub(crate) fn read_i32_le(buf: &[u8], pos: usize) -> (r: i32)
    requires
        pos + 4 <= buf@.len(),
    ensures
        r == i32_from_le(buf@.subrange(pos as int, pos + 4)),
{
    LittleEndian::read_i32(&buf[pos..])
}

} // verus!
