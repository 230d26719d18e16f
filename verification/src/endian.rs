//! Fixed-width integers as they lie in a file, in either byte order.

use vstd::prelude::*;

verus! {

/// The unsigned 32-bit value of the four bytes that start at `at`: least
/// significant byte first when `little`, most significant first otherwise.
pub open spec fn u32_at(s: Seq<u8>, at: int, little: bool) -> int
    recommends
        0 <= at,
        at + 4 <= s.len(),
{
    if little {
        s[at] + 256 * s[at + 1] + 65536 * s[at + 2] + 16777216 * s[at + 3]
    } else {
        s[at + 3] + 256 * s[at + 2] + 65536 * s[at + 1] + 16777216 * s[at]
    }
}

/// The same four bytes read as a signed value in two's complement.
pub open spec fn i32_at(s: Seq<u8>, at: int, little: bool) -> int
    recommends
        0 <= at,
        at + 4 <= s.len(),
{
    let u = u32_at(s, at, little);
    if u >= 0x8000_0000 {
        u - 0x1_0000_0000
    } else {
        u
    }
}

/// Reads an unsigned 32-bit integer at `at`.
pub fn read_u32(data: &[u8], at: usize, little: bool) -> (v: u32)
    requires
        at + 4 <= data@.len(),
    ensures
        v == u32_at(data@, at as int, little),
{
    let b0: u32 = data[at] as u32;
    let b1: u32 = data[at + 1] as u32;
    let b2: u32 = data[at + 2] as u32;
    let b3: u32 = data[at + 3] as u32;
    if little {
        b0 + 256 * b1 + 65536 * b2 + 16777216 * b3
    } else {
        b3 + 256 * b2 + 65536 * b1 + 16777216 * b0
    }
}

/// Reads a signed 32-bit integer at `at`.
pub fn read_i32(data: &[u8], at: usize, little: bool) -> (v: i32)
    requires
        at + 4 <= data@.len(),
    ensures
        v == i32_at(data@, at as int, little),
{
    let u: u32 = read_u32(data, at, little);
    if u >= 0x8000_0000 {
        let low: i64 = (u - 0x8000_0000) as i64;
        (low - 0x8000_0000) as i32
    } else {
        u as i32
    }
}

} // verus!
