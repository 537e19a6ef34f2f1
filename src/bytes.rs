//! Little-endian decoding of on-disk fields, and byte copies.
use vstd::prelude::*;
use vstd::arithmetic::div_mod::lemma_fundamental_div_mod_converse;

verus! {

/// The 16-bit little-endian value stored at `off`.
pub open spec fn le16(b: Seq<u8>, off: int) -> u16 {
    (b[off] + 256 * b[off + 1]) as u16
}

/// The 32-bit little-endian value stored at `off`.
pub open spec fn le32(b: Seq<u8>, off: int) -> u32 {
    (b[off] + 256 * b[off + 1] + 65536 * b[off + 2] + 16777216 * b[off + 3]) as u32
}

/// Reads the little-endian `u16` at `off`.
pub fn read_u16(b: &[u8], off: usize) -> (r: u16)
    requires
        off + 2 <= b@.len(),
    ensures
        r == le16(b@, off as int),
{
    let lo = b[off] as u16;
    let hi = b[off + 1] as u16;
    lo + 256 * hi
}

/// Reads the little-endian `u32` at `off`.
pub fn read_u32(b: &[u8], off: usize) -> (r: u32)
    requires
        off + 4 <= b@.len(),
    ensures
        r == le32(b@, off as int),
{
    let b0 = b[off] as u32;
    let b1 = b[off + 1] as u32;
    let b2 = b[off + 2] as u32;
    let b3 = b[off + 3] as u32;
    b0 + 256 * b1 + 65536 * b2 + 16777216 * b3
}

/// Position `pos + j` lies in the same block as `pos`, `j` bytes further in.
pub proof fn lemma_within_block(bs: int, pos: int, block: int, loc: int, j: int)
    requires
        bs > 0,
        0 <= loc,
        0 <= j,
        loc + j < bs,
        pos == block * bs + loc,
    ensures
        (pos + j) / bs == block,
        (pos + j) % bs == loc + j,
{
    lemma_fundamental_div_mod_converse(pos + j, bs, block, loc + j);
}

/// Copies `data` into `buffer` from index `at` on.
pub fn copy_at(buffer: &mut [u8], at: usize, data: &[u8])
    requires
        at + data@.len() <= old(buffer)@.len(),
    ensures
        final(buffer)@.len() == old(buffer)@.len(),
        forall|i: int| 0 <= i < data@.len() ==> final(buffer)@[at + i] == data@[i],
        forall|i: int|
            0 <= i < old(buffer)@.len() && !(at <= i < at + data@.len()) ==> final(buffer)@[i]
                == old(buffer)@[i],
{
    let n = buffer.len();
    let mut j: usize = 0;
    while j < data.len()
        invariant
            n == old(buffer)@.len(),
            at + data@.len() <= old(buffer)@.len(),
            j <= data@.len(),
            buffer@.len() == old(buffer)@.len(),
            forall|i: int| 0 <= i < j ==> buffer@[at + i] == data@[i],
            forall|i: int|
                0 <= i < old(buffer)@.len() && !(at <= i < at + j) ==> buffer@[i] == old(buffer)@[i],
        decreases data@.len() - j,
    {
        buffer[at + j] = data[j];
        j = j + 1;
    }
}

} // verus!
