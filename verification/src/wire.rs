//! Little-endian integers read out of a byte buffer.
use byteorder::{ByteOrder, LittleEndian};
use vstd::prelude::*;

verus! {

/// The unsigned 16-bit integer stored little-endian at `s[i..i + 2]`.
pub open spec fn le_u16(s: Seq<u8>, i: int) -> u16 {
    (s[i] as int + 0x100 * s[i + 1] as int) as u16
}

/// The unsigned 32-bit integer stored little-endian at `s[i..i + 4]`.
pub open spec fn le_u32(s: Seq<u8>, i: int) -> u32 {
    (le_u16(s, i) as int + 0x1_0000 * le_u16(s, i + 2) as int) as u32
}

/// The unsigned 64-bit integer stored little-endian at `s[i..i + 8]`.
pub open spec fn le_u64(s: Seq<u8>, i: int) -> u64 {
    (le_u32(s, i) as int + 0x1_0000_0000 * le_u32(s, i + 4) as int) as u64
}

/// `byteorder`'s `LittleEndian::read_u16` on `data[pos..]`: the first two
/// bytes taken as a little-endian `u16`.
#[verifier::external_body]
pub(crate) fn read_u16_le(data: &[u8], pos: usize) -> (r: u16)
    requires
        pos + 2 <= data@.len(),
    ensures
        r == le_u16(data@, pos as int),
{
    LittleEndian::read_u16(&data[pos..])
}

/// `byteorder`'s `LittleEndian::read_u32` on `data[pos..]`: the first four
/// bytes taken as a little-endian `u32`.
#[verifier::external_body]
pub(crate) fn read_u32_le(data: &[u8], pos: usize) -> (r: u32)
    requires
        pos + 4 <= data@.len(),
    ensures
        r == le_u32(data@, pos as int),
{
    LittleEndian::read_u32(&data[pos..])
}

/// `byteorder`'s `LittleEndian::read_u64` on `data[pos..]`: the first eight
/// bytes taken as a little-endian `u64`.
#[verifier::external_body]
pub(crate) fn read_u64_le(data: &[u8], pos: usize) -> (r: u64)
    requires
        pos + 8 <= data@.len(),
    ensures
        r == le_u64(data@, pos as int),
{
    LittleEndian::read_u64(&data[pos..])
}

} // verus!
