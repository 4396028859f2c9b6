//! Little-endian integers inside byte strings.

use vstd::prelude::*;

verus! {

/// The 16-bit value whose little-endian encoding starts at index `at` of `bytes`.
pub open spec fn le_u16(bytes: Seq<u8>, at: int) -> u16
    recommends
        0 <= at,
        at + 2 <= bytes.len(),
{
    (bytes[at] + 0x100 * bytes[at + 1]) as u16
}

/// The 32-bit value whose little-endian encoding starts at index `at` of `bytes`.
pub open spec fn le_u32(bytes: Seq<u8>, at: int) -> u32
    recommends
        0 <= at,
        at + 4 <= bytes.len(),
{
    (le_u16(bytes, at) + 0x1_0000 * le_u16(bytes, at + 2)) as u32
}

/// The 64-bit value whose little-endian encoding starts at index `at` of `bytes`.
pub open spec fn le_u64(bytes: Seq<u8>, at: int) -> u64
    recommends
        0 <= at,
        at + 8 <= bytes.len(),
{
    (le_u32(bytes, at) + 0x1_0000_0000 * le_u32(bytes, at + 4)) as u64
}

/// The two bytes that store `value`, low byte first.
pub open spec fn le_bytes_u16(value: u16) -> Seq<u8> {
    seq![(value % 0x100) as u8, (value / 0x100) as u8]
}

/// The four bytes that store `value`, low byte first.
pub open spec fn le_bytes_u32(value: u32) -> Seq<u8> {
    le_bytes_u16((value % 0x1_0000) as u16) + le_bytes_u16((value / 0x1_0000) as u16)
}

/// The eight bytes that store `value`, low byte first.
pub open spec fn le_bytes_u64(value: u64) -> Seq<u8> {
    le_bytes_u32((value % 0x1_0000_0000) as u32) + le_bytes_u32((value / 0x1_0000_0000) as u32)
}

/// Reading at the place where a 16-bit value is stored gives that value back.
pub proof fn lemma_le_u16_of_le_bytes(bytes: Seq<u8>, at: int, value: u16)
    requires
        0 <= at,
        at + 2 <= bytes.len(),
        bytes.subrange(at, at + 2) == le_bytes_u16(value),
    ensures
        le_u16(bytes, at) == value,
{
    let stored = bytes.subrange(at, at + 2);
    assert(bytes[at] == stored[0]);
    assert(bytes[at + 1] == stored[1]);
}

/// Reading at the place where a 32-bit value is stored gives that value back.
pub proof fn lemma_le_u32_of_le_bytes(bytes: Seq<u8>, at: int, value: u32)
    requires
        0 <= at,
        at + 4 <= bytes.len(),
        bytes.subrange(at, at + 4) == le_bytes_u32(value),
    ensures
        le_u32(bytes, at) == value,
{
    let stored = bytes.subrange(at, at + 4);
    let low = (value % 0x1_0000) as u16;
    let high = (value / 0x1_0000) as u16;
    assert(bytes.subrange(at, at + 2) =~= stored.subrange(0, 2));
    assert(bytes.subrange(at + 2, at + 4) =~= stored.subrange(2, 4));
    assert(stored.subrange(0, 2) =~= le_bytes_u16(low));
    assert(stored.subrange(2, 4) =~= le_bytes_u16(high));
    lemma_le_u16_of_le_bytes(bytes, at, low);
    lemma_le_u16_of_le_bytes(bytes, at + 2, high);
}

/// Reading at the place where a 64-bit value is stored gives that value back.
pub proof fn lemma_le_u64_of_le_bytes(bytes: Seq<u8>, at: int, value: u64)
    requires
        0 <= at,
        at + 8 <= bytes.len(),
        bytes.subrange(at, at + 8) == le_bytes_u64(value),
    ensures
        le_u64(bytes, at) == value,
{
    let stored = bytes.subrange(at, at + 8);
    let low = (value % 0x1_0000_0000) as u32;
    let high = (value / 0x1_0000_0000) as u32;
    assert(bytes.subrange(at, at + 4) =~= stored.subrange(0, 4));
    assert(bytes.subrange(at + 4, at + 8) =~= stored.subrange(4, 8));
    assert(stored.subrange(0, 4) =~= le_bytes_u32(low));
    assert(stored.subrange(4, 8) =~= le_bytes_u32(high));
    lemma_le_u32_of_le_bytes(bytes, at, low);
    lemma_le_u32_of_le_bytes(bytes, at + 4, high);
}

/// Reads the two bytes at `at` as a little-endian integer.
pub fn read_u16(bytes: &[u8], at: usize) -> (value: u16)
    requires
        at + 2 <= bytes.len(),
    ensures
        value == le_u16(bytes@, at as int),
{
    let low: u16 = bytes[at] as u16;
    let high: u16 = bytes[at + 1] as u16;
    low + 0x100 * high
}

/// Reads the four bytes at `at` as a little-endian integer.
pub fn read_u32(bytes: &[u8], at: usize) -> (value: u32)
    requires
        at + 4 <= bytes.len(),
    ensures
        value == le_u32(bytes@, at as int),
{
    let low: u32 = read_u16(bytes, at) as u32;
    let high: u32 = read_u16(bytes, at + 2) as u32;
    low + 0x1_0000 * high
}

/// Reads the eight bytes at `at` as a little-endian integer.
pub fn read_u64(bytes: &[u8], at: usize) -> (value: u64)
    requires
        at + 8 <= bytes.len(),
    ensures
        value == le_u64(bytes@, at as int),
{
    let low: u64 = read_u32(bytes, at) as u64;
    let high: u64 = read_u32(bytes, at + 4) as u64;
    low + 0x1_0000_0000 * high
}

} // verus!
