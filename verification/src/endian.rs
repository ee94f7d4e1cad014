//! Big-endian integers: what they are as numbers, and how they are read.

use byteorder::BigEndian;
use byteorder::ByteOrder;
use vstd::prelude::*;

verus! {

/// The unsigned 16-bit integer stored big-endian in `s[at]` and `s[at + 1]`.
pub open spec fn be_u16(s: Seq<u8>, at: int) -> int {
    s[at] as int * 0x100 + s[at + 1] as int
}

/// The signed 16-bit integer stored big-endian, in two's complement, in
/// `s[at]` and `s[at + 1]`.
pub open spec fn be_i16(s: Seq<u8>, at: int) -> int {
    if be_u16(s, at) >= 0x8000 {
        be_u16(s, at) - 0x1_0000
    } else {
        be_u16(s, at)
    }
}

/// The unsigned 32-bit integer stored big-endian in `s[at]` to `s[at + 3]`.
pub open spec fn be_u32(s: Seq<u8>, at: int) -> int {
    s[at] as int * 0x100_0000 + s[at + 1] as int * 0x1_0000 + s[at + 2] as int * 0x100 + s[at
        + 3] as int
}

/// `byteorder::BigEndian::read_u16`: the first two bytes of `buf` are taken
/// as an unsigned big-endian integer. It panics on a shorter slice, which
/// the precondition rules out.
#[verifier::external_body]
pub(crate) fn read_be_u16(buf: &[u8]) -> (value: u16)
    requires
        buf@.len() >= 2,
    ensures
        value as int == be_u16(buf@, 0),
{
    BigEndian::read_u16(buf)
}

/// `byteorder::ByteOrder::read_i16` for `BigEndian`: the first two bytes of
/// `buf` are taken as a big-endian integer in two's complement. It panics on
/// a shorter slice, which the precondition rules out.
#[verifier::external_body]
pub(crate) fn read_be_i16(buf: &[u8]) -> (value: i16)
    requires
        buf@.len() >= 2,
    ensures
        value as int == be_i16(buf@, 0),
{
    BigEndian::read_i16(buf)
}

/// `byteorder::BigEndian::read_u32`: the first four bytes of `buf` are taken
/// as an unsigned big-endian integer. It panics on a shorter slice, which
/// the precondition rules out.
#[verifier::external_body]
pub(crate) fn read_be_u32(buf: &[u8]) -> (value: u32)
    requires
        buf@.len() >= 4,
    ensures
        value as int == be_u32(buf@, 0),
{
    BigEndian::read_u32(buf)
}

} // verus!
