//! Little-endian integers in a byte sequence.

use vstd::prelude::*;

verus! {

/// The 16-bit little-endian integer whose first byte stands at `at`.
pub open spec fn le_u16_at(bytes: Seq<u8>, at: int) -> int {
    bytes[at] as int + 0x100 * (bytes[at + 1] as int)
}

/// The 32-bit little-endian integer whose first byte stands at `at`.
pub open spec fn le_u32_at(bytes: Seq<u8>, at: int) -> int {
    bytes[at] as int + 0x100 * (bytes[at + 1] as int) + 0x1_0000 * (bytes[at + 2] as int)
        + 0x100_0000 * (bytes[at + 3] as int)
}

/// Whether `count` bytes starting at `at` lie inside a sequence of `len` bytes.
pub open spec fn in_range(len: nat, at: int, count: int) -> bool {
    0 <= at && 0 <= count && at + count <= len
}

/// The 16-bit little-endian integer at `at`.
pub(crate) fn u16_at(input: &[u8], at: usize) -> (value: u16)
    requires
        in_range(input@.len(), at as int, 2),
    ensures
        value as int == le_u16_at(input@, at as int),
{
    let low: u16 = input[at] as u16;
    let high: u16 = input[at + 1] as u16;
    low + 0x100 * high
}

/// The 32-bit little-endian integer at `at`.
pub(crate) fn u32_at(input: &[u8], at: usize) -> (value: u32)
    requires
        in_range(input@.len(), at as int, 4),
    ensures
        value as int == le_u32_at(input@, at as int),
{
    let b0: u32 = input[at] as u32;
    let b1: u32 = input[at + 1] as u32;
    let b2: u32 = input[at + 2] as u32;
    let b3: u32 = input[at + 3] as u32;
    b0 + 0x100 * b1 + 0x1_0000 * b2 + 0x100_0000 * b3
}

/// Reads a 16-bit little-endian integer at `at`, if two bytes are there.
pub fn read_u16(input: &[u8], at: usize) -> (value: Option<u16>)
    ensures
        value is Some <==> in_range(input@.len(), at as int, 2),
        value matches Some(v) ==> v as int == le_u16_at(input@, at as int),
{
    if input.len() < 2 || at > input.len() - 2 {
        None
    } else {
        Some(u16_at(input, at))
    }
}

/// Reads a 32-bit little-endian integer at `at`, if four bytes are there.
pub fn read_u32(input: &[u8], at: usize) -> (value: Option<u32>)
    ensures
        value is Some <==> in_range(input@.len(), at as int, 4),
        value matches Some(v) ==> v as int == le_u32_at(input@, at as int),
{
    if input.len() < 4 || at > input.len() - 4 {
        None
    } else {
        Some(u32_at(input, at))
    }
}

} // verus!
