//! Big-endian integer reads from a byte buffer, with their mathematical
//! counterparts over `Seq<u8>`.

use vstd::prelude::*;

verus! {

/// The unsigned 32-bit big-endian value of the four bytes of `s` starting at `i`.
pub open spec fn spec_u32_at(s: Seq<u8>, i: int) -> u32
    recommends
        0 <= i,
        i + 4 <= s.len(),
{
    ((s[i] as int) * 0x1000000 + (s[i + 1] as int) * 0x10000 + (s[i + 2] as int) * 0x100
        + (s[i + 3] as int)) as u32
}

/// The signed 32-bit big-endian value (two's complement) at `i`.
pub open spec fn spec_i32_at(s: Seq<u8>, i: int) -> i32
    recommends
        0 <= i,
        i + 4 <= s.len(),
{
    spec_u32_at(s, i) as i32
}

/// The unsigned 64-bit big-endian value of the eight bytes of `s` starting at `i`.
pub open spec fn spec_u64_at(s: Seq<u8>, i: int) -> u64
    recommends
        0 <= i,
        i + 8 <= s.len(),
{
    ((s[i] as int) * 0x100000000000000 + (s[i + 1] as int) * 0x1000000000000
        + (s[i + 2] as int) * 0x10000000000 + (s[i + 3] as int) * 0x100000000
        + (s[i + 4] as int) * 0x1000000 + (s[i + 5] as int) * 0x10000
        + (s[i + 6] as int) * 0x100 + (s[i + 7] as int)) as u64
}

/// The signed 64-bit big-endian value (two's complement) at `i`.
pub open spec fn spec_i64_at(s: Seq<u8>, i: int) -> i64
    recommends
        0 <= i,
        i + 8 <= s.len(),
{
    spec_u64_at(s, i) as i64
}

pub(crate) fn read_u32(bytes: &Vec<u8>, pos: usize) -> (r: u32)
    requires
        pos + 4 <= bytes@.len(),
    ensures
        r == spec_u32_at(bytes@, pos as int),
{
    // Observing the length tells the verifier it fits in usize.
    let _len = bytes.len();
    (bytes[pos] as u32) * 0x1000000 + (bytes[pos + 1] as u32) * 0x10000
        + (bytes[pos + 2] as u32) * 0x100 + (bytes[pos + 3] as u32)
}

#[verifier::truncate]
pub(crate) fn read_i32(bytes: &Vec<u8>, pos: usize) -> (r: i32)
    requires
        pos + 4 <= bytes@.len(),
    ensures
        r == spec_i32_at(bytes@, pos as int),
{
    read_u32(bytes, pos) as i32
}

pub(crate) fn read_u64(bytes: &Vec<u8>, pos: usize) -> (r: u64)
    requires
        pos + 8 <= bytes@.len(),
    ensures
        r == spec_u64_at(bytes@, pos as int),
{
    let _len = bytes.len();
    (bytes[pos] as u64) * 0x100000000000000 + (bytes[pos + 1] as u64) * 0x1000000000000
        + (bytes[pos + 2] as u64) * 0x10000000000 + (bytes[pos + 3] as u64) * 0x100000000
        + (bytes[pos + 4] as u64) * 0x1000000 + (bytes[pos + 5] as u64) * 0x10000
        + (bytes[pos + 6] as u64) * 0x100 + (bytes[pos + 7] as u64)
}

#[verifier::truncate]
pub(crate) fn read_i64(bytes: &Vec<u8>, pos: usize) -> (r: i64)
    requires
        pos + 8 <= bytes@.len(),
    ensures
        r == spec_i64_at(bytes@, pos as int),
{
    read_u64(bytes, pos) as i64
}

} // verus!
