//! The read interface that a file system uses to reach its volume, and a
//! device that serves it from memory.
use vstd::prelude::*;

verus! {

/// Bytes in one sector, the unit of `read_block`.
pub const SECTOR_SIZE: usize = 512;

/// A device that hands out bytes at byte or sector offsets.
///
/// A read either fills the whole destination with the device's bytes at
/// that place, or fails and leaves the destination as it was.
pub trait BlockDevice {
    /// The bytes of the device, from byte 0 on. A device that does not
    /// state them holds bytes that nothing here knows.
    closed spec fn contents(&self) -> Seq<u8> {
        arbitrary()
    }

    /// Holds of a device on which no read that lies inside `contents` fails.
    /// A device that does not state it promises no success.
    open spec fn infallible(&self) -> bool {
        false
    }

    /// Reads `buffer.len()` bytes starting at byte `offset`.
    fn read(&self, offset: usize, buffer: &mut [u8]) -> (r: Option<usize>)
        ensures
            r is Some ==> {
                &&& r.unwrap() == old(buffer)@.len()
                &&& offset + old(buffer)@.len() <= self.contents().len()
                &&& final(buffer)@ == self.contents().subrange(
                    offset as int,
                    offset + old(buffer)@.len(),
                )
            },
            r is None ==> final(buffer)@ == old(buffer)@,
            self.infallible() && offset + old(buffer)@.len() <= self.contents().len()
                ==> r is Some,
    ;

    /// Reads `buffer.len()` bytes starting at the first byte of sector `index`.
    fn read_block(&self, index: usize, buffer: &mut [u8]) -> (r: Option<usize>)
        ensures
            r is Some ==> {
                &&& r.unwrap() == old(buffer)@.len()
                &&& index * SECTOR_SIZE + old(buffer)@.len() <= self.contents().len()
                &&& final(buffer)@ == self.contents().subrange(
                    index * SECTOR_SIZE,
                    index * SECTOR_SIZE + old(buffer)@.len(),
                )
            },
            r is None ==> final(buffer)@ == old(buffer)@,
            self.infallible() && index * SECTOR_SIZE + old(buffer)@.len()
                <= self.contents().len() ==> r is Some,
    ;
}

/// The whole sectors that cover a byte range: `count` sectors from `first`,
/// the range starting `skip` bytes into the first of them.
#[derive(Debug, Copy, Clone, PartialEq, Eq, Structural)]
pub struct SectorSpan {
    pub first: usize,
    pub count: usize,
    pub skip: usize,
}

impl SectorSpan {
    /// The fewest whole sectors that cover `len` bytes from byte `offset`.
    pub fn covering(offset: usize, len: usize) -> (r: SectorSpan)
        requires
            offset + len + SECTOR_SIZE <= usize::MAX,
        ensures
            r.first == offset / SECTOR_SIZE,
            r.skip == offset % SECTOR_SIZE,
            r.count == (r.skip + len + SECTOR_SIZE - 1) / SECTOR_SIZE as int,
            r.first * SECTOR_SIZE + r.skip == offset,
            offset + len <= (r.first + r.count) * SECTOR_SIZE,
            (r.first + r.count) * SECTOR_SIZE < offset + len + SECTOR_SIZE,
    {
        let first = offset / SECTOR_SIZE;
        let skip = offset % SECTOR_SIZE;
        let count = (skip + len + SECTOR_SIZE - 1) / SECTOR_SIZE;
        proof {
            assert((first + count) * SECTOR_SIZE == first * SECTOR_SIZE + count * SECTOR_SIZE)
                by (nonlinear_arith);
        }
        SectorSpan { first, count, skip }
    }
}

/// A block device whose bytes live in memory.
pub struct MemoryDisk {
    bytes: Vec<u8>,
}

impl MemoryDisk {
    pub fn new(bytes: Vec<u8>) -> (r: MemoryDisk)
        ensures
            r.contents() == bytes@,
    {
        MemoryDisk { bytes }
    }

    /// Number of bytes on the device.
    pub fn len(&self) -> (r: usize)
        ensures
            r == self.contents().len(),
    {
        self.bytes.len()
    }
}

impl BlockDevice for MemoryDisk {
    closed spec fn contents(&self) -> Seq<u8> {
        self.bytes@
    }

    open spec fn infallible(&self) -> bool {
        true
    }

    fn read(&self, offset: usize, buffer: &mut [u8]) -> (r: Option<usize>) {
        let n = buffer.len();
        if offset > self.bytes.len() || n > self.bytes.len() - offset {
            return None;
        }
        let end = offset + n;
        let mut i: usize = 0;
        while i < n
            invariant
                i <= n,
                end == offset + n,
                n == old(buffer)@.len(),
                offset + n <= self.bytes@.len(),
                buffer@.len() == n,
                forall|j: int| 0 <= j < i ==> buffer@[j] == self.bytes@[offset + j],
            decreases n - i,
        {
            buffer[i] = self.bytes[offset + i];
            i = i + 1;
        }
        assert(buffer@ =~= self.bytes@.subrange(offset as int, offset + n));
        Some(n)
    }

    fn read_block(&self, index: usize, buffer: &mut [u8]) -> (r: Option<usize>) {
        let size = self.bytes.len();
        if index > size / SECTOR_SIZE {
            return None;
        }
        self.read(index * SECTOR_SIZE, buffer)
    }
}

} // verus!
