//! DMA requests: a sector range split into physically contiguous buffers.
use vstd::prelude::*;
use vstd::slice::slice_subrange;

use crate::block::SECTOR_SIZE;
use crate::bytes::{copy_at, lemma_within_block};

verus! {

/// Largest number of bytes that one DMA buffer holds.
pub const DMA_BUFFER_MAX: usize = 0x2000;

/// Bytes in one page; a buffer larger than this needs a multi-page region.
pub const PAGE_SIZE: usize = 0x1000;

/// Sectors that one full DMA buffer holds.
pub const SECTORS_PER_BUFFER: usize = 16;

/// Largest sector number that a 28-bit LBA command can address.
pub const LBA28_MAX: usize = 0x0FFF_FFFF;

/// Source of physical memory for DMA buffers.
pub trait FrameAllocator {
    /// Allocates a physically contiguous region of one page, or of two pages
    /// where `huge` holds, and returns its physical start address.
    fn allocate_frame(&mut self, huge: bool) -> Option<u64>;
}

/// Direction of a DMA request.
#[derive(Debug, Copy, Clone, PartialEq, Eq, Structural)]
pub enum DmaCommand {
    Read,
}

/// The ATA commands that a host-to-device FIS can carry.
#[derive(Debug, Copy, Clone, PartialEq, Eq, Structural)]
pub enum AtaCommand {
    AtaCommandWriteDma,
    AtaCommandWriteDmaQueued,
    AtaCommandWriteMultiple,
    AtaCommandWriteSectors,
    AtaCommandReadDma,
    AtaCommandReadDmaQueued,
    AtaCommandReadMultiple,
    AtaCommandReadSectors,
    AtaCommandWriteDmaExt,
    AtaCommandWriteDmaQueuedExt,
    AtaCommandWriteMultipleExt,
    AtaCommandWriteSectorsExt,
    AtaCommandReadDmaExt,
    AtaCommandReadDmaQueuedExt,
    AtaCommandReadMultipleExt,
    AtaCommandReadSectorsExt,
    AtaCommandPacket,
    AtaCommandDeviceReset,
    AtaCommandService,
    AtaCommandNop,
    AtaCommandNopNopAutopoll,
    AtaCommandGetMediaStatus,
    AtaCommandFlushCache,
    AtaCommandFlushCacheExt,
    AtaCommandDataSetManagement,
    AtaCommandMediaEject,
    AtaCommandIdentifyPacketDevice,
    AtaCommandIdentifyDevice,
    AtaCommandSetFeatures,
    AtaCommandSetFeaturesEnableReleaseInt,
    AtaCommandSetFeaturesEnableServiceInt,
    AtaCommandSetFeaturesDisableReleaseInt,
    AtaCommandSetFeaturesDisableServiceInt,
}

impl AtaCommand {
    /// The command's opcode, as the ATA command set assigns it.
    pub open spec fn spec_code(self) -> u8 {
        match self {
            AtaCommand::AtaCommandWriteDma => 0xCA,
            AtaCommand::AtaCommandWriteDmaQueued => 0xCC,
            AtaCommand::AtaCommandWriteMultiple => 0xC5,
            AtaCommand::AtaCommandWriteSectors => 0x30,
            AtaCommand::AtaCommandReadDma => 0xC8,
            AtaCommand::AtaCommandReadDmaQueued => 0xC7,
            AtaCommand::AtaCommandReadMultiple => 0xC4,
            AtaCommand::AtaCommandReadSectors => 0x20,
            AtaCommand::AtaCommandWriteDmaExt => 0x35,
            AtaCommand::AtaCommandWriteDmaQueuedExt => 0x36,
            AtaCommand::AtaCommandWriteMultipleExt => 0x39,
            AtaCommand::AtaCommandWriteSectorsExt => 0x34,
            AtaCommand::AtaCommandReadDmaExt => 0x25,
            AtaCommand::AtaCommandReadDmaQueuedExt => 0x26,
            AtaCommand::AtaCommandReadMultipleExt => 0x29,
            AtaCommand::AtaCommandReadSectorsExt => 0x24,
            AtaCommand::AtaCommandPacket => 0xA0,
            AtaCommand::AtaCommandDeviceReset => 0x08,
            AtaCommand::AtaCommandService => 0xA2,
            AtaCommand::AtaCommandNop => 0,
            AtaCommand::AtaCommandNopNopAutopoll => 1,
            AtaCommand::AtaCommandGetMediaStatus => 0xDA,
            AtaCommand::AtaCommandFlushCache => 0xE7,
            AtaCommand::AtaCommandFlushCacheExt => 0xEA,
            AtaCommand::AtaCommandDataSetManagement => 0x06,
            AtaCommand::AtaCommandMediaEject => 0xED,
            AtaCommand::AtaCommandIdentifyPacketDevice => 0xA1,
            AtaCommand::AtaCommandIdentifyDevice => 0xEC,
            AtaCommand::AtaCommandSetFeatures => 0xEF,
            AtaCommand::AtaCommandSetFeaturesEnableReleaseInt => 0x5D,
            AtaCommand::AtaCommandSetFeaturesEnableServiceInt => 0x5E,
            AtaCommand::AtaCommandSetFeaturesDisableReleaseInt => 0xDD,
            AtaCommand::AtaCommandSetFeaturesDisableServiceInt => 0xDE,
        }
    }

    /// The command's opcode, as the device reads it from the FIS.
    pub fn code(&self) -> (r: u8)
        ensures
            r == self.spec_code(),
    {
        match self {
            AtaCommand::AtaCommandWriteDma => 0xCA,
            AtaCommand::AtaCommandWriteDmaQueued => 0xCC,
            AtaCommand::AtaCommandWriteMultiple => 0xC5,
            AtaCommand::AtaCommandWriteSectors => 0x30,
            AtaCommand::AtaCommandReadDma => 0xC8,
            AtaCommand::AtaCommandReadDmaQueued => 0xC7,
            AtaCommand::AtaCommandReadMultiple => 0xC4,
            AtaCommand::AtaCommandReadSectors => 0x20,
            AtaCommand::AtaCommandWriteDmaExt => 0x35,
            AtaCommand::AtaCommandWriteDmaQueuedExt => 0x36,
            AtaCommand::AtaCommandWriteMultipleExt => 0x39,
            AtaCommand::AtaCommandWriteSectorsExt => 0x34,
            AtaCommand::AtaCommandReadDmaExt => 0x25,
            AtaCommand::AtaCommandReadDmaQueuedExt => 0x26,
            AtaCommand::AtaCommandReadMultipleExt => 0x29,
            AtaCommand::AtaCommandReadSectorsExt => 0x24,
            AtaCommand::AtaCommandPacket => 0xA0,
            AtaCommand::AtaCommandDeviceReset => 0x08,
            AtaCommand::AtaCommandService => 0xA2,
            AtaCommand::AtaCommandNop => 0,
            AtaCommand::AtaCommandNopNopAutopoll => 1,
            AtaCommand::AtaCommandGetMediaStatus => 0xDA,
            AtaCommand::AtaCommandFlushCache => 0xE7,
            AtaCommand::AtaCommandFlushCacheExt => 0xEA,
            AtaCommand::AtaCommandDataSetManagement => 0x06,
            AtaCommand::AtaCommandMediaEject => 0xED,
            AtaCommand::AtaCommandIdentifyPacketDevice => 0xA1,
            AtaCommand::AtaCommandIdentifyDevice => 0xEC,
            AtaCommand::AtaCommandSetFeatures => 0xEF,
            AtaCommand::AtaCommandSetFeaturesEnableReleaseInt => 0x5D,
            AtaCommand::AtaCommandSetFeaturesEnableServiceInt => 0x5E,
            AtaCommand::AtaCommandSetFeaturesDisableReleaseInt => 0xDD,
            AtaCommand::AtaCommandSetFeaturesDisableServiceInt => 0xDE,
        }
    }

    /// Whether the command moves data to the device.
    pub open spec fn spec_is_write(self) -> bool {
        self == AtaCommand::AtaCommandWriteDmaExt || self == AtaCommand::AtaCommandWriteDma
    }
}

/// One physically contiguous region that backs part of a request.
#[derive(Debug, Copy, Clone)]
pub struct DmaBuffer {
    /// Physical start address.
    pub start: u64,
    /// Bytes of the request that the buffer holds.
    pub data_size: usize,
    /// The buffer needed more than one page.
    pub huge: bool,
}

/// A read of `count` sectors from sector `sector`, with its buffers.
#[derive(Debug)]
pub struct DmaRequest {
    pub sector: usize,
    pub count: usize,
    pub buffer: Vec<DmaBuffer>,
    pub command: DmaCommand,
}

/// Number of sectors that hold `len` bytes.
pub fn sectors_for(len: usize) -> (r: usize)
    ensures
        r == (len + SECTOR_SIZE - 1) / SECTOR_SIZE as int,
        request_bytes(r as int) < len + SECTOR_SIZE,
        len <= request_bytes(r as int),
{
    let r = len / SECTOR_SIZE + if len % SECTOR_SIZE == 0 {
        0
    } else {
        1
    };
    r
}

/// Whether buffer `i` of a request of `count` sectors needs a multi-page
/// region: the part of the request from that buffer on exceeds one page.
pub fn buffer_is_huge(count: usize, i: usize) -> (r: bool)
    requires
        request_bytes(count as int) <= usize::MAX,
        i * DMA_BUFFER_MAX < request_bytes(count as int),
    ensures
        r == (request_bytes(count as int) - i * DMA_BUFFER_MAX > PAGE_SIZE),
{
    count * SECTOR_SIZE - i * DMA_BUFFER_MAX > PAGE_SIZE
}

/// Bytes in a request of `count` sectors.
pub open spec fn request_bytes(count: int) -> int {
    count * SECTOR_SIZE
}

/// Number of buffers that a request of `count` sectors is split into.
pub open spec fn buffer_count(count: int) -> int {
    (request_bytes(count) + DMA_BUFFER_MAX - 1) / DMA_BUFFER_MAX as int
}

/// Bytes that buffer `i` of a request of `count` sectors holds: a full
/// buffer, or what remains of the request.
pub open spec fn buffer_size(count: int, i: int) -> int {
    let remaining = request_bytes(count) - i * DMA_BUFFER_MAX;
    if remaining < DMA_BUFFER_MAX {
        remaining
    } else {
        DMA_BUFFER_MAX as int
    }
}

/// Sum of the sizes of the first `n` buffers of `b`.
pub open spec fn total_size(b: Seq<DmaBuffer>, n: int) -> int
    decreases n,
{
    if n <= 0 {
        0
    } else {
        total_size(b, n - 1) + b[n - 1].data_size
    }
}

/// `b` is buffer `i` of a request of `count` sectors: its size is
/// `buffer_size(count, i)`, and it is huge when the part of the request from
/// it on exceeds one page.
pub open spec fn planned(count: int, b: DmaBuffer, i: int) -> bool {
    &&& b.data_size == buffer_size(count, i)
    &&& b.huge == (request_bytes(count) - i * DMA_BUFFER_MAX > PAGE_SIZE)
}

impl DmaRequest {
    /// The buffers are those of a split of `count` sectors: full 8 KiB
    /// buffers, the last one holding the rest, each marked huge when the
    /// part of the request it starts exceeds one page.
    pub open spec fn wf(&self) -> bool {
        &&& request_bytes(self.count as int) <= usize::MAX
        &&& self.sector + self.count <= usize::MAX
        &&& self.buffer@.len() == buffer_count(self.count as int)
        &&& forall|i: int|
            0 <= i < self.buffer@.len() ==> #[trigger] planned(self.count as int, self.buffer@[i], i)
    }

    /// Builds the request for `count` sectors from `sector` whose buffer `i`
    /// starts at physical address `frames[i]`.
    pub fn with_frames(sector: usize, count: usize, frames: &[u64]) -> (r: DmaRequest)
        requires
            request_bytes(count as int) <= usize::MAX,
            sector + count <= usize::MAX,
            frames@.len() == buffer_count(count as int),
        ensures
            r.wf(),
            r.sector == sector,
            r.count == count,
            r.command == DmaCommand::Read,
            forall|i: int| 0 <= i < frames@.len() ==> #[trigger] r.buffer@[i].start == frames@[i],
    {
        let total = count * SECTOR_SIZE;
        let mut size = total;
        let mut buffer: Vec<DmaBuffer> = Vec::new();
        proof {
            assert(total <= frames@.len() * DMA_BUFFER_MAX) by (nonlinear_arith)
                requires
                    frames@.len() == (total + DMA_BUFFER_MAX - 1) / DMA_BUFFER_MAX as int,
                    total >= 0,
            ;
        }
        while size > 0
            invariant
                total == request_bytes(count as int),
                total <= usize::MAX,
                sector + count <= usize::MAX,
                frames@.len() == buffer_count(count as int),
                total <= frames@.len() * DMA_BUFFER_MAX,
                buffer@.len() * DMA_BUFFER_MAX <= total,
                size == total - buffer@.len() * DMA_BUFFER_MAX,
                forall|i: int| 0 <= i < buffer@.len() ==> #[trigger] planned(count as int, buffer@[i], i),
                forall|i: int| 0 <= i < buffer@.len() ==> #[trigger] buffer@[i].start == frames@[i],
            decreases size,
        {
            let huge = size > PAGE_SIZE;
            let data_size = if size < DMA_BUFFER_MAX {
                size
            } else {
                DMA_BUFFER_MAX
            };
            proof {
                assert(buffer@.len() < frames@.len()) by (nonlinear_arith)
                    requires
                        buffer@.len() * DMA_BUFFER_MAX < total,
                        total <= frames@.len() * DMA_BUFFER_MAX,
                ;
            }
            let start = frames[buffer.len()];
            buffer.push(DmaBuffer { start, data_size, huge });
            assert(planned(count as int, buffer@[buffer@.len() - 1], buffer@.len() - 1));
            if data_size < DMA_BUFFER_MAX {
                let r = DmaRequest { sector, count, buffer, command: DmaCommand::Read };
                proof {
                    assert(buffer_count(count as int) == r.buffer@.len()) by (nonlinear_arith)
                        requires
                            total == (r.buffer@.len() - 1) * DMA_BUFFER_MAX + data_size,
                            0 < data_size < DMA_BUFFER_MAX,
                            total == request_bytes(count as int),
                    ;
                }
                return r;
            }
            size = size - data_size;
        }
        let r = DmaRequest { sector, count, buffer, command: DmaCommand::Read };
        proof {
            assert(buffer_count(count as int) == r.buffer@.len()) by (nonlinear_arith)
                requires
                    total == r.buffer@.len() * DMA_BUFFER_MAX,
                    total == request_bytes(count as int),
            ;
        }
        r
    }

    /// Creates a new DMA request for `count` sectors from `sector`, taking
    /// one region from `frames` for each buffer: a two-page one for a
    /// buffer marked huge, a page otherwise.
    ///
    /// Fails where `frames` cannot supply a region; a request of no sectors
    /// asks for none and always succeeds. Buffer `i` is asked for with
    /// `huge` set to `buffer_is_huge(count, i)`.
    pub fn new<A: FrameAllocator>(sector: usize, count: usize, frames: &mut A) -> (r: Option<
        DmaRequest,
    >)
        requires
            request_bytes(count as int) <= usize::MAX,
            sector + count <= usize::MAX,
        ensures
            r is Some ==> {
                &&& r.unwrap().wf()
                &&& r.unwrap().sector == sector
                &&& r.unwrap().count == count
                &&& r.unwrap().command == DmaCommand::Read
            },
            count == 0 ==> r is Some && r.unwrap().buffer@.len() == 0,
    {
        let total = count * SECTOR_SIZE;
        let n = total / DMA_BUFFER_MAX + if total % DMA_BUFFER_MAX == 0 {
            0
        } else {
            1
        };
        let mut starts: Vec<u64> = Vec::new();
        let mut i: usize = 0;
        while i < n
            invariant
                total == request_bytes(count as int),
                n == buffer_count(count as int),
                i <= n,
                starts@.len() == i,
            decreases n - i,
        {
            proof {
                assert(i * DMA_BUFFER_MAX < total) by (nonlinear_arith)
                    requires
                        i < n,
                        n == (total + DMA_BUFFER_MAX - 1) / DMA_BUFFER_MAX as int,
                ;
            }
            let huge = buffer_is_huge(count, i);
            match frames.allocate_frame(huge) {
                Some(a) => starts.push(a),
                None => return None,
            }
            i = i + 1;
        }
        Some(DmaRequest::with_frames(sector, count, starts.as_slice()))
    }

    /// Copies the request's data from the buffers into `into`, in order, up
    /// to `into`'s length; `data[i]` holds the bytes of buffer `i`.
    pub fn copy_into(&self, data: &Vec<Vec<u8>>, into: &mut [u8])
        requires
            self.wf(),
            data@.len() == self.buffer@.len(),
            forall|i: int|
                0 <= i < data@.len() ==> #[trigger] data@[i]@.len() == self.buffer@[i].data_size,
            old(into)@.len() <= request_bytes(self.count as int),
        ensures
            final(into)@.len() == old(into)@.len(),
            forall|k: int|
                0 <= k < old(into)@.len() ==> #[trigger] final(into)@[k] == data@[k
                    / DMA_BUFFER_MAX as int]@[k % DMA_BUFFER_MAX as int],
    {
        let n = into.len();
        let mut offset: usize = 0;
        let mut remaining: usize = n;
        let mut i: usize = 0;
        while i < self.buffer.len()
            invariant
                self.wf(),
                data@.len() == self.buffer@.len(),
                forall|b: int|
                    0 <= b < data@.len() ==> #[trigger] data@[b]@.len() == self.buffer@[b].data_size,
                n == old(into)@.len(),
                n <= request_bytes(self.count as int),
                into@.len() == n,
                i <= self.buffer@.len(),
                offset + remaining == n,
                remaining > 0 ==> offset == i * DMA_BUFFER_MAX,
                remaining == 0 ==> offset == n,
                forall|k: int|
                    0 <= k < offset ==> #[trigger] into@[k] == data@[k
                        / DMA_BUFFER_MAX as int]@[k % DMA_BUFFER_MAX as int],
            decreases self.buffer@.len() - i,
        {
            let count = if remaining < DMA_BUFFER_MAX {
                remaining
            } else {
                DMA_BUFFER_MAX
            };
            if count > 0 {
                assert(planned(self.count as int, self.buffer@[i as int], i as int));
                let part = slice_subrange(data[i].as_slice(), 0, count);
                let ghost before = into@;
                copy_at(into, offset, part);
                proof {
                    assert forall|k: int| 0 <= k < offset + count implies #[trigger] into@[k]
                        == data@[k / DMA_BUFFER_MAX as int]@[k % DMA_BUFFER_MAX as int] by {
                        if k >= offset {
                            assert(part@[k - offset] == data@[i as int]@[k - offset]);
                            assert(into@[offset + (k - offset)] == part@[k - offset]);
                            lemma_within_block(
                                DMA_BUFFER_MAX as int,
                                offset as int,
                                i as int,
                                0,
                                k - offset,
                            );
                        } else {
                            assert(into@[k] == before[k]);
                        }
                    }
                }
            }
            remaining = remaining - count;
            offset = offset + count;
            i = i + 1;
        }
        proof {
            if remaining > 0 {
                assert(offset >= request_bytes(self.count as int)) by (nonlinear_arith)
                    requires
                        offset == i * DMA_BUFFER_MAX,
                        i == buffer_count(self.count as int),
                        request_bytes(self.count as int) >= 0,
                ;
            }
        }
    }

    /// The read command that can address the request's first sector: the
    /// 48-bit form past the 28-bit range.
    pub open spec fn spec_into_command(&self) -> AtaCommand {
        if self.sector > LBA28_MAX {
            AtaCommand::AtaCommandReadDmaExt
        } else {
            AtaCommand::AtaCommandReadDma
        }
    }

    /// Picks the read command that can address the request's first sector.
    pub fn into_command(&self) -> (r: AtaCommand)
        ensures
            r == self.spec_into_command(),
    {
        let lba48 = self.sector > LBA28_MAX;
        match self.command {
            DmaCommand::Read => {
                if lba48 {
                    AtaCommand::AtaCommandReadDmaExt
                } else {
                    AtaCommand::AtaCommandReadDma
                }
            },
        }
    }

    /// The buffers from the one that holds sector `offset` of the request on.
    pub fn at_offset(&self, offset: usize) -> (r: &[DmaBuffer])
        requires
            offset / SECTORS_PER_BUFFER <= self.buffer@.len(),
        ensures
            r@ == self.buffer@.subrange(
                (offset / SECTORS_PER_BUFFER) as int,
                self.buffer@.len() as int,
            ),
    {
        slice_subrange(self.buffer.as_slice(), offset / SECTORS_PER_BUFFER, self.buffer.len())
    }
}

/// Splitting a request of `count > 0` sectors gives `ceil(count * 512 / 8192)`
/// buffers, none larger than 8192 bytes, whose sizes add up to exactly
/// `count * 512` bytes.
pub proof fn lemma_split_covers_request(r: &DmaRequest)
    requires
        r.wf(),
        r.count > 0,
    ensures
        r.buffer@.len() == (r.count * SECTOR_SIZE + DMA_BUFFER_MAX - 1) / DMA_BUFFER_MAX as int,
        forall|i: int| 0 <= i < r.buffer@.len() ==> #[trigger] r.buffer@[i].data_size <= DMA_BUFFER_MAX,
        total_size(r.buffer@, r.buffer@.len() as int) == r.count * SECTOR_SIZE,
{
    let total = request_bytes(r.count as int);
    let len = r.buffer@.len() as int;
    assert forall|i: int| 0 <= i < len implies #[trigger] r.buffer@[i].data_size <= DMA_BUFFER_MAX by {
        assert(planned(r.count as int, r.buffer@[i], i));
    }
    assert((len - 1) * DMA_BUFFER_MAX < total && total <= len * DMA_BUFFER_MAX) by (nonlinear_arith)
        requires
            len == (total + DMA_BUFFER_MAX - 1) / DMA_BUFFER_MAX as int,
            total > 0,
    ;
    lemma_prefix_total(r, len);
}

/// The first `k` buffers of a split request hold `min(k * 8192, count * 512)` bytes.
proof fn lemma_prefix_total(r: &DmaRequest, k: int)
    requires
        r.wf(),
        0 <= k <= r.buffer@.len(),
        (r.buffer@.len() - 1) * DMA_BUFFER_MAX < request_bytes(r.count as int),
    ensures
        total_size(r.buffer@, k) == (if k * DMA_BUFFER_MAX <= request_bytes(r.count as int) {
            k * DMA_BUFFER_MAX
        } else {
            request_bytes(r.count as int)
        }),
    decreases k,
{
    if k > 0 {
        lemma_prefix_total(r, k - 1);
        assert(planned(r.count as int, r.buffer@[k - 1], k - 1));
    }
}

/// A buffer of a split request is marked huge exactly when its size exceeds
/// one page.
pub proof fn lemma_huge_iff_over_page(r: &DmaRequest)
    requires
        r.wf(),
    ensures
        forall|i: int|
            0 <= i < r.buffer@.len() ==> (#[trigger] r.buffer@[i].huge <==> r.buffer@[i].data_size
                > PAGE_SIZE),
{
    assert forall|i: int| 0 <= i < r.buffer@.len() implies (#[trigger] r.buffer@[i].huge
        <==> r.buffer@[i].data_size > PAGE_SIZE) by {
        assert(planned(r.count as int, r.buffer@[i], i));
    }
}

} // verus!
