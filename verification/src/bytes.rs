//! Big-endian fields of a byte sequence, read at a position.

use crate::types::{u1, u2, u4};
use crate::Error;
use byteorder::ByteOrder;
use vstd::prelude::*;
use vstd::slice::slice_subrange;

verus! {

/// The two bytes at `i` as a big-endian number.
pub open spec fn u2_at(b: Seq<u8>, i: int) -> int {
    b[i] * 0x100 + b[i + 1]
}

/// The four bytes at `i` as a big-endian number.
pub open spec fn u4_at(b: Seq<u8>, i: int) -> int {
    u2_at(b, i) * 0x1_0000 + u2_at(b, i + 2)
}

/// The eight bytes at `i` as a big-endian number.
pub open spec fn wide_at(b: Seq<u8>, i: int) -> int {
    u4_at(b, i) * 0x1_0000_0000 + u4_at(b, i + 4)
}

/// The number that the 32-bit pattern `v` stands for in two's complement.
pub open spec fn signed32(v: int) -> int {
    if v < 0x8000_0000 {
        v
    } else {
        v - 0x1_0000_0000
    }
}

/// The number that the 64-bit pattern `v` stands for in two's complement.
pub open spec fn signed64(v: int) -> int {
    if v < 0x8000_0000_0000_0000 {
        v
    } else {
        v - 0x1_0000_0000_0000_0000
    }
}

/// Whether `n` bytes lie at `pos`.
pub open spec fn has_bytes(b: Seq<u8>, pos: int, n: int) -> bool {
    0 <= pos && pos + n <= b.len()
}

/// `byteorder::BigEndian::read_u16`: the first two bytes of `buf`, the
/// first being the more significant. It panics on a shorter slice.
#[verifier::external_body]
fn be_u16(buf: &[u8]) -> (r: u16)
    requires
        buf@.len() >= 2,
    ensures
        r == u2_at(buf@, 0),
{
    byteorder::BigEndian::read_u16(buf)
}

/// `byteorder::BigEndian::read_u32`: the first four bytes of `buf`, most
/// significant first. It panics on a shorter slice.
#[verifier::external_body]
fn be_u32(buf: &[u8]) -> (r: u32)
    requires
        buf@.len() >= 4,
    ensures
        r == u4_at(buf@, 0),
{
    byteorder::BigEndian::read_u32(buf)
}

/// `byteorder::BigEndian::read_u64`: the first eight bytes of `buf`, most
/// significant first. It panics on a shorter slice.
#[verifier::external_body]
fn be_u64(buf: &[u8]) -> (r: u64)
    requires
        buf@.len() >= 8,
    ensures
        r == wide_at(buf@, 0),
{
    byteorder::BigEndian::read_u64(buf)
}

/// Whether `n` bytes lie at `pos`.
pub fn available(bytes: &[u8], pos: usize, n: usize) -> (b: bool)
    ensures
        b == has_bytes(bytes@, pos as int, n as int),
        b ==> pos + n <= usize::MAX,
{
    pos <= bytes.len() && n <= bytes.len() - pos
}

/// The byte at `pos`.
pub fn read_u1(bytes: &[u8], pos: usize) -> (r: Result<u1, Error>)
    ensures
        r == (if has_bytes(bytes@, pos as int, 1) {
            Ok::<u1, Error>(bytes@[pos as int])
        } else {
            Err(Error::UnexpectedEof)
        }),
        r is Ok ==> pos + 1 <= usize::MAX,
{
    if !available(bytes, pos, 1) {
        return Err(Error::UnexpectedEof);
    }
    Ok(bytes[pos])
}

/// The two-byte big-endian number at `pos`.
pub fn read_u2(bytes: &[u8], pos: usize) -> (r: Result<u2, Error>)
    ensures
        r == (if has_bytes(bytes@, pos as int, 2) {
            Ok::<u2, Error>(u2_at(bytes@, pos as int) as u16)
        } else {
            Err(Error::UnexpectedEof)
        }),
        r is Ok ==> pos + 2 <= usize::MAX,
{
    if !available(bytes, pos, 2) {
        return Err(Error::UnexpectedEof);
    }
    Ok(be_u16(slice_subrange(bytes, pos, pos + 2)))
}

/// The four-byte big-endian number at `pos`.
pub fn read_u4(bytes: &[u8], pos: usize) -> (r: Result<u4, Error>)
    ensures
        r == (if has_bytes(bytes@, pos as int, 4) {
            Ok::<u4, Error>(u4_at(bytes@, pos as int) as u32)
        } else {
            Err(Error::UnexpectedEof)
        }),
        r is Ok ==> pos + 4 <= usize::MAX,
{
    if !available(bytes, pos, 4) {
        return Err(Error::UnexpectedEof);
    }
    Ok(be_u32(slice_subrange(bytes, pos, pos + 4)))
}

/// The eight-byte big-endian number at `pos`.
pub fn read_wide(bytes: &[u8], pos: usize) -> (r: Result<u64, Error>)
    ensures
        r == (if has_bytes(bytes@, pos as int, 8) {
            Ok::<u64, Error>(wide_at(bytes@, pos as int) as u64)
        } else {
            Err(Error::UnexpectedEof)
        }),
        r is Ok ==> pos + 8 <= usize::MAX,
{
    if !available(bytes, pos, 8) {
        return Err(Error::UnexpectedEof);
    }
    Ok(be_u64(slice_subrange(bytes, pos, pos + 8)))
}

/// The 32-bit pattern `v` read as a signed number.
pub fn to_i32(v: u32) -> (r: i32)
    ensures
        r == signed32(v as int),
{
    if v < 0x8000_0000 {
        v as i32
    } else {
        (v - 0x8000_0000) as i32 + i32::MIN
    }
}

/// The 64-bit pattern `v` read as a signed number.
pub fn to_i64(v: u64) -> (r: i64)
    ensures
        r == signed64(v as int),
{
    if v < 0x8000_0000_0000_0000 {
        v as i64
    } else {
        (v - 0x8000_0000_0000_0000) as i64 + i64::MIN
    }
}

} // verus!
