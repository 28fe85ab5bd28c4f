//! Little-endian integers read from byte slices.

use vstd::prelude::*;

verus! {

/// The unsigned 16 bit integer that the first two bytes of `bytes` encode,
/// least significant byte first.
pub open spec fn le_u16(bytes: Seq<u8>) -> int
    recommends
        bytes.len() >= 2,
{
    bytes[0] + 0x100 * bytes[1]
}

/// The unsigned 32 bit integer that the first four bytes of `bytes` encode,
/// least significant byte first.
pub open spec fn le_u32(bytes: Seq<u8>) -> int
    recommends
        bytes.len() >= 4,
{
    bytes[0] + 0x100 * bytes[1] + 0x1_0000 * bytes[2] + 0x100_0000 * bytes[3]
}

/// Reads an unsigned 16 bit integer from the start of `buf`.
pub fn read_u16(buf: &[u8]) -> (value: u16)
    requires
        buf@.len() >= 2,
    ensures
        value == le_u16(buf@),
{
    let b0: u16 = buf[0] as u16;
    let b1: u16 = buf[1] as u16;
    b0 + b1 * 0x100
}

/// Reads an unsigned 32 bit integer from the start of `buf`.
pub fn read_u32(buf: &[u8]) -> (value: u32)
    requires
        buf@.len() >= 4,
    ensures
        value == le_u32(buf@),
{
    let b0: u32 = buf[0] as u32;
    let b1: u32 = buf[1] as u32;
    let b2: u32 = buf[2] as u32;
    let b3: u32 = buf[3] as u32;
    b0 + b1 * 0x100 + b2 * 0x1_0000 + b3 * 0x100_0000
}

} // verus!
