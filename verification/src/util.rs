//! Little-endian integers in byte buffers.

use vstd::prelude::*;

verus! {

/// The 16-bit little-endian integer whose first byte is `s[at]`.
pub open spec fn spec_le_u16(s: Seq<u8>, at: int) -> u16 {
    (s[at] as int + 0x100 * (s[at + 1] as int)) as u16
}

/// The 32-bit little-endian integer whose first byte is `s[at]`.
pub open spec fn spec_le_u32(s: Seq<u8>, at: int) -> u32 {
    (s[at] as int + 0x100 * (s[at + 1] as int) + 0x1_0000 * (s[at + 2] as int) + 0x100_0000 * (s[at
        + 3] as int)) as u32
}

/// The 64-bit little-endian integer whose first byte is `s[at]`.
pub open spec fn spec_le_u64(s: Seq<u8>, at: int) -> u64 {
    (spec_le_u32(s, at) as int + 0x1_0000_0000 * (spec_le_u32(s, at + 4) as int)) as u64
}

/// Reads the 16-bit little-endian integer at `buf[at..at + 2]`.
pub fn le_u16(buf: &[u8], at: usize) -> (r: u16)
    requires
        at + 2 <= buf.len(),
    ensures
        r == spec_le_u16(buf@, at as int),
{
    buf[at] as u16 + 0x100 * (buf[at + 1] as u16)
}

/// Reads the 32-bit little-endian integer at `buf[at..at + 4]`.
pub fn le_u32(buf: &[u8], at: usize) -> (r: u32)
    requires
        at + 4 <= buf.len(),
    ensures
        r == spec_le_u32(buf@, at as int),
{
    buf[at] as u32 + 0x100 * (buf[at + 1] as u32) + 0x1_0000 * (buf[at + 2] as u32) + 0x100_0000
        * (buf[at + 3] as u32)
}

/// Reads the 64-bit little-endian integer at `buf[at..at + 8]`.
pub fn le_u64(buf: &[u8], at: usize) -> (r: u64)
    requires
        at + 8 <= buf.len(),
    ensures
        r == spec_le_u64(buf@, at as int),
{
    le_u32(buf, at) as u64 + 0x1_0000_0000 * (le_u32(buf, at + 4) as u64)
}

/// Copies `src[from..from + len]` over `dst[at..at + len]` and leaves the
/// rest of `dst` as it is.
pub fn copy_into(dst: &mut [u8], at: usize, src: &[u8], from: usize, len: usize)
    requires
        at + len <= old(dst).len(),
        from + len <= src.len(),
    ensures
        final(dst)@ == old(dst)@.subrange(0, at as int) + src@.subrange(from as int, from + len)
            + old(dst)@.skip(at + len),
{
    let mut i: usize = 0;
    while i < len
        invariant
            i <= len,
            at + len <= dst.len(),
            from + len <= src.len(),
            dst.len() == old(dst).len(),
            forall|j: int| 0 <= j < at ==> dst@[j] == old(dst)@[j],
            forall|j: int| at <= j < at + i ==> dst@[j] == src@[from + (j - at)],
            forall|j: int| at + i <= j < dst.len() ==> dst@[j] == old(dst)@[j],
        decreases len - i,
    {
        dst[at + i] = src[from + i];
        i += 1;
    }
    assert(dst@ =~= old(dst)@.subrange(0, at as int) + src@.subrange(from as int, from + len)
        + old(dst)@.skip(at + len));
}

} // verus!
