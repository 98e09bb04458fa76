//! Byte order: the number that a run of bytes spells, read with the most or the
//! least significant byte first.

use byteorder::{BigEndian, ByteOrder, LittleEndian};
use vstd::prelude::*;

verus! {

/// The convention by which several bytes make one number.
#[derive(Clone, Copy, Debug, PartialEq, Eq, Structural)]
pub enum Endian {
    /// Most significant byte first.
    Big,
    /// Least significant byte first.
    Little,
}

/// How many different numbers `width` bytes can spell: 256 to the power `width`.
pub open spec fn span(width: nat) -> nat
    decreases width,
{
    if width == 0 {
        1
    } else {
        256 * span((width - 1) as nat)
    }
}

/// The number that `bytes` spell with the most significant byte first.
pub open spec fn be_value(bytes: Seq<u8>) -> nat
    decreases bytes.len(),
{
    if bytes.len() == 0 {
        0
    } else {
        256 * be_value(bytes.drop_last()) + bytes.last() as nat
    }
}

/// The number that `bytes` spell with the least significant byte first.
pub open spec fn le_value(bytes: Seq<u8>) -> nat
    decreases bytes.len(),
{
    if bytes.len() == 0 {
        0
    } else {
        bytes.first() as nat + 256 * le_value(bytes.drop_first())
    }
}

/// The number that `bytes` spell under the byte order `endian`.
pub open spec fn decode(bytes: Seq<u8>, endian: Endian) -> nat {
    match endian {
        Endian::Big => be_value(bytes),
        Endian::Little => le_value(bytes),
    }
}

/// The two's complement reading of `value` as a signed number of `width` bytes:
/// the upper half of the range stands for the negative numbers.
pub open spec fn signed(value: nat, width: nat) -> int {
    if 2 * value >= span(width) {
        value - span(width)
    } else {
        value as int
    }
}

/// The other byte order.
pub open spec fn opposite(endian: Endian) -> Endian {
    match endian {
        Endian::Big => Endian::Little,
        Endian::Little => Endian::Big,
    }
}

/// The `width` bytes that spell `value` with the most significant byte first.
pub open spec fn be_bytes(value: nat, width: nat) -> Seq<u8>
    decreases width,
{
    if width == 0 {
        Seq::empty()
    } else {
        be_bytes(value / 256, (width - 1) as nat).push((value % 256) as u8)
    }
}

/// The `width` bytes that spell `value` with the least significant byte first.
pub open spec fn le_bytes(value: nat, width: nat) -> Seq<u8>
    decreases width,
{
    if width == 0 {
        Seq::empty()
    } else {
        seq![(value % 256) as u8] + le_bytes(value / 256, (width - 1) as nat)
    }
}

/// The `width` bytes that spell `value` under the byte order `endian`.
pub open spec fn encode(value: nat, width: nat, endian: Endian) -> Seq<u8> {
    match endian {
        Endian::Big => be_bytes(value, width),
        Endian::Little => le_bytes(value, width),
    }
}

/// The spans of the widths that the typed reads use.
pub proof fn lemma_span_values()
    ensures
        span(0) == 1,
        span(1) == 0x100,
        span(2) == 0x1_0000,
        span(4) == 0x1_0000_0000,
        span(8) == 0x1_0000_0000_0000_0000,
{
    reveal_with_fuel(span, 9);
}

/// A run of bytes spells a number below the span of its length, big end first.
pub proof fn lemma_be_value_bound(bytes: Seq<u8>)
    ensures
        be_value(bytes) < span(bytes.len()),
    decreases bytes.len(),
{
    if bytes.len() > 0 {
        lemma_be_value_bound(bytes.drop_last());
    }
}

/// A run of bytes spells a number below the span of its length, little end first.
pub proof fn lemma_le_value_bound(bytes: Seq<u8>)
    ensures
        le_value(bytes) < span(bytes.len()),
    decreases bytes.len(),
{
    if bytes.len() > 0 {
        lemma_le_value_bound(bytes.drop_first());
    }
}

/// A single byte spells itself under either byte order.
pub proof fn lemma_decode_single(bytes: Seq<u8>, endian: Endian)
    requires
        bytes.len() == 1,
    ensures
        decode(bytes, endian) == bytes[0],
{
    reveal_with_fuel(be_value, 2);
    reveal_with_fuel(le_value, 2);
}

/// `byteorder::BigEndian::read_u16` on exactly two bytes. Trusted: the result
/// is the number that the bytes spell with the first byte most significant.
#[verifier::external_body]
pub(crate) fn be_u16(buf: &[u8]) -> (r: u16)
    requires
        buf@.len() == 2,
    ensures
        r as nat == be_value(buf@),
{
    BigEndian::read_u16(buf)
}

/// `byteorder::BigEndian::read_u32` on exactly four bytes. Trusted: the result
/// is the number that the bytes spell with the first byte most significant.
#[verifier::external_body]
pub(crate) fn be_u32(buf: &[u8]) -> (r: u32)
    requires
        buf@.len() == 4,
    ensures
        r as nat == be_value(buf@),
{
    BigEndian::read_u32(buf)
}

/// `byteorder::BigEndian::read_u64` on exactly eight bytes. Trusted: the result
/// is the number that the bytes spell with the first byte most significant.
#[verifier::external_body]
pub(crate) fn be_u64(buf: &[u8]) -> (r: u64)
    requires
        buf@.len() == 8,
    ensures
        r as nat == be_value(buf@),
{
    BigEndian::read_u64(buf)
}

/// `byteorder::BigEndian::read_i16` on exactly two bytes. Trusted: the result
/// is the two's complement reading of the number that the bytes spell with the
/// first byte most significant.
#[verifier::external_body]
pub(crate) fn be_i16(buf: &[u8]) -> (r: i16)
    requires
        buf@.len() == 2,
    ensures
        r as int == signed(be_value(buf@), 2),
{
    BigEndian::read_i16(buf)
}

/// `byteorder::BigEndian::read_i32` on exactly four bytes. Trusted: the result
/// is the two's complement reading of the number that the bytes spell with the
/// first byte most significant.
#[verifier::external_body]
pub(crate) fn be_i32(buf: &[u8]) -> (r: i32)
    requires
        buf@.len() == 4,
    ensures
        r as int == signed(be_value(buf@), 4),
{
    BigEndian::read_i32(buf)
}

/// `byteorder::BigEndian::read_i64` on exactly eight bytes. Trusted: the result
/// is the two's complement reading of the number that the bytes spell with the
/// first byte most significant.
#[verifier::external_body]
pub(crate) fn be_i64(buf: &[u8]) -> (r: i64)
    requires
        buf@.len() == 8,
    ensures
        r as int == signed(be_value(buf@), 8),
{
    BigEndian::read_i64(buf)
}

/// `byteorder::LittleEndian::read_u16` on exactly two bytes. Trusted: the result
/// is the number that the bytes spell with the first byte least significant.
#[verifier::external_body]
pub(crate) fn le_u16(buf: &[u8]) -> (r: u16)
    requires
        buf@.len() == 2,
    ensures
        r as nat == le_value(buf@),
{
    LittleEndian::read_u16(buf)
}

/// `byteorder::LittleEndian::read_u32` on exactly four bytes. Trusted: the result
/// is the number that the bytes spell with the first byte least significant.
#[verifier::external_body]
pub(crate) fn le_u32(buf: &[u8]) -> (r: u32)
    requires
        buf@.len() == 4,
    ensures
        r as nat == le_value(buf@),
{
    LittleEndian::read_u32(buf)
}

/// `byteorder::LittleEndian::read_u64` on exactly eight bytes. Trusted: the result
/// is the number that the bytes spell with the first byte least significant.
#[verifier::external_body]
pub(crate) fn le_u64(buf: &[u8]) -> (r: u64)
    requires
        buf@.len() == 8,
    ensures
        r as nat == le_value(buf@),
{
    LittleEndian::read_u64(buf)
}

/// `byteorder::LittleEndian::read_i16` on exactly two bytes. Trusted: the result
/// is the two's complement reading of the number that the bytes spell with the
/// first byte least significant.
#[verifier::external_body]
pub(crate) fn le_i16(buf: &[u8]) -> (r: i16)
    requires
        buf@.len() == 2,
    ensures
        r as int == signed(le_value(buf@), 2),
{
    LittleEndian::read_i16(buf)
}

/// `byteorder::LittleEndian::read_i32` on exactly four bytes. Trusted: the result
/// is the two's complement reading of the number that the bytes spell with the
/// first byte least significant.
#[verifier::external_body]
pub(crate) fn le_i32(buf: &[u8]) -> (r: i32)
    requires
        buf@.len() == 4,
    ensures
        r as int == signed(le_value(buf@), 4),
{
    LittleEndian::read_i32(buf)
}

/// `byteorder::LittleEndian::read_i64` on exactly eight bytes. Trusted: the result
/// is the two's complement reading of the number that the bytes spell with the
/// first byte least significant.
#[verifier::external_body]
pub(crate) fn le_i64(buf: &[u8]) -> (r: i64)
    requires
        buf@.len() == 8,
    ensures
        r as int == signed(le_value(buf@), 8),
{
    LittleEndian::read_i64(buf)
}

} // verus!
