//! Little-endian and big-endian integer views of a byte sequence, and the
//! executable readers that realise them.
use vstd::prelude::*;

verus! {

/// Value of the two-byte little-endian integer stored at `i` in `d`.
pub open spec fn le16(d: Seq<u8>, i: int) -> int {
    d[i] + 0x100 * d[i + 1]
}

/// Value of the four-byte little-endian integer stored at `i` in `d`.
pub open spec fn le32(d: Seq<u8>, i: int) -> int {
    le16(d, i) + 0x1_0000 * le16(d, i + 2)
}

/// Value of the eight-byte little-endian integer stored at `i` in `d`.
pub open spec fn le64(d: Seq<u8>, i: int) -> int {
    le32(d, i) + 0x1_0000_0000 * le32(d, i + 4)
}

/// Value of the six-byte big-endian integer stored at `i` in `d`:
/// byte `i` is the most significant.
pub open spec fn be48(d: Seq<u8>, i: int) -> int {
    ((((d[i] * 0x100 + d[i + 1]) * 0x100 + d[i + 2]) * 0x100 + d[i + 3]) * 0x100 + d[i + 4])
        * 0x100 + d[i + 5]
}

/// Reads the two-byte little-endian integer at `i`.
pub fn read_le16(d: &[u8], i: usize) -> (r: u16)
    requires
        i + 2 <= d@.len(),
    ensures
        r == le16(d@, i as int),
{
    d[i] as u16 + 0x100 * (d[i + 1] as u16)
}

/// Reads the four-byte little-endian integer at `i`.
pub fn read_le32(d: &[u8], i: usize) -> (r: u32)
    requires
        i + 4 <= d@.len(),
    ensures
        r == le32(d@, i as int),
{
    d[i] as u32 + 0x100 * (d[i + 1] as u32) + 0x1_0000 * (d[i + 2] as u32) + 0x100_0000 * (d[i
        + 3] as u32)
}

/// Reads the eight-byte little-endian integer at `i`.
pub fn read_le64(d: &[u8], i: usize) -> (r: u64)
    requires
        i + 8 <= d@.len(),
    ensures
        r == le64(d@, i as int),
{
    d[i] as u64 + 0x100 * (d[i + 1] as u64) + 0x1_0000 * (d[i + 2] as u64) + 0x100_0000 * (d[i
        + 3] as u64) + 0x1_0000_0000 * (d[i + 4] as u64) + 0x100_0000_0000 * (d[i + 5] as u64)
        + 0x1_0000_0000_0000 * (d[i + 6] as u64) + 0x100_0000_0000_0000 * (d[i + 7] as u64)
}

/// Reads the six-byte big-endian integer at `i`.
pub fn read_be48(d: &[u8], i: usize) -> (r: u64)
    requires
        i + 6 <= d@.len(),
    ensures
        r == be48(d@, i as int),
{
    ((((d[i] as u64 * 0x100 + d[i + 1] as u64) * 0x100 + d[i + 2] as u64) * 0x100 + d[i
        + 3] as u64) * 0x100 + d[i + 4] as u64) * 0x100 + d[i + 5] as u64
}

/// Copies the bytes `a..b` of `d` into a fresh vector.
pub fn copy_range(d: &[u8], a: usize, b: usize) -> (v: Vec<u8>)
    requires
        a <= b,
        b <= d@.len(),
    ensures
        v@ == d@.subrange(a as int, b as int),
{
    let mut v: Vec<u8> = Vec::new();
    let mut i: usize = a;
    while i < b
        invariant
            a <= i <= b,
            b <= d@.len(),
            v@ == d@.subrange(a as int, i as int),
        decreases b - i,
    {
        v.push(d[i]);
        proof {
            assert(v@ =~= d@.subrange(a as int, i + 1 as int));
        }
        i = i + 1;
    }
    v
}

} // verus!
