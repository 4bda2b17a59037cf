//! Little-endian fixed-width integer fields read out of byte buffers.
use vstd::prelude::*;

verus! {

/// The unsigned integer stored little-endian in `s[off]`, `s[off + 1]`.
pub open spec fn le_u16(s: Seq<u8>, off: int) -> int {
    s[off] + 256 * s[off + 1]
}

/// The unsigned integer stored little-endian in the four bytes at `off`.
pub open spec fn le_u32(s: Seq<u8>, off: int) -> int {
    le_u16(s, off) + 65536 * le_u16(s, off + 2)
}

/// The unsigned integer stored little-endian in the eight bytes at `off`.
pub open spec fn le_u64(s: Seq<u8>, off: int) -> int {
    le_u32(s, off) + 4294967296 * le_u32(s, off + 4)
}

/// Reads the little-endian `u16` at `off`.
pub fn read_u16(s: &[u8], off: usize) -> (r: u16)
    requires
        off + 2 <= s@.len(),
    ensures
        r == le_u16(s@, off as int),
{
    let b0 = s[off] as u16;
    let b1 = s[off + 1] as u16;
    b0 + 256 * b1
}

/// Reads the little-endian `u32` at `off`.
pub fn read_u32(s: &[u8], off: usize) -> (r: u32)
    requires
        off + 4 <= s@.len(),
    ensures
        r == le_u32(s@, off as int),
{
    let n = s.len();
    assert(off + 2 < n);
    let lo = read_u16(s, off) as u32;
    let hi = read_u16(s, off + 2) as u32;
    lo + 65536 * hi
}

/// Reads the little-endian `u64` at `off`.
pub fn read_u64(s: &[u8], off: usize) -> (r: u64)
    requires
        off + 8 <= s@.len(),
    ensures
        r == le_u64(s@, off as int),
{
    let n = s.len();
    assert(off + 4 < n);
    let lo = read_u32(s, off) as u64;
    let hi = read_u32(s, off + 4) as u64;
    lo + 4294967296 * hi
}

} // verus!
