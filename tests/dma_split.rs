use aero_storage::dma::{AtaCommand, DmaRequest, FrameAllocator};
use aero_storage::block::SectorSpan;

struct Frames {
    next: u64,
}

impl FrameAllocator for Frames {
    fn allocate_frame(&mut self, huge: bool) -> Option<u64> {
        let a = self.next;
        self.next += if huge { 0x2000 } else { 0x1000 };
        Some(a)
    }
}

struct NoFrames;

impl FrameAllocator for NoFrames {
    fn allocate_frame(&mut self, _huge: bool) -> Option<u64> {
        None
    }
}

fn split(sector: usize, count: usize) -> DmaRequest {
    DmaRequest::new(sector, count, &mut Frames { next: 0x10_0000 }).unwrap()
}

#[test]
fn ten_kib_request_gives_two_buffers() {
    let r = split(0, 20);
    let b = r.at_offset(0);
    assert_eq!(b.len(), 2);
    assert_eq!(b[0].data_size, 8192);
    assert_eq!(b[1].data_size, 2048);
    assert!(b[0].huge);
    assert!(!b[1].huge);
    assert_eq!(b[0].start, 0x10_0000);
    assert_eq!(b[1].start, 0x10_2000);
}

#[test]
fn split_sizes_sum_to_request() {
    for n in 1..200usize {
        let r = split(0, n);
        let b = r.at_offset(0);
        assert_eq!(b.len(), (n * 512 + 8191) / 8192);
        assert!(b.iter().all(|x| x.data_size <= 8192));
        assert_eq!(b.iter().map(|x| x.data_size).sum::<usize>(), n * 512);
        assert!(b.iter().all(|x| x.huge == (x.data_size > 4096)));
    }
}

#[test]
fn single_sector_is_one_small_buffer() {
    let r = split(5, 1);
    let b = r.at_offset(0);
    assert_eq!(b.len(), 1);
    assert_eq!(b[0].data_size, 512);
    assert!(!b[0].huge);
}

#[test]
fn eight_sectors_is_not_huge_nine_is() {
    assert!(!split(0, 8).at_offset(0)[0].huge);
    assert!(split(0, 9).at_offset(0)[0].huge);
}

#[test]
fn empty_request_has_no_buffers() {
    assert_eq!(split(0, 0).at_offset(0).len(), 0);
}

#[test]
fn allocation_failure_gives_no_request() {
    assert!(DmaRequest::new(0, 4, &mut NoFrames).is_none());
}

#[test]
fn at_offset_skips_whole_buffers() {
    let r = split(0, 40);
    assert_eq!(r.at_offset(0).len(), 3);
    assert_eq!(r.at_offset(16).len(), 2);
    assert_eq!(r.at_offset(31).len(), 2);
    assert_eq!(r.at_offset(32).len(), 1);
    assert_eq!(r.at_offset(32)[0].data_size, 4096);
}

#[test]
fn command_depends_on_first_sector() {
    assert_eq!(split(0x0FFF_FFFF, 1).into_command(), AtaCommand::AtaCommandReadDma);
    assert_eq!(split(0x1000_0000, 1).into_command(), AtaCommand::AtaCommandReadDmaExt);
    assert_eq!(AtaCommand::AtaCommandReadDma.code(), 0xC8);
    assert_eq!(AtaCommand::AtaCommandReadDmaExt.code(), 0x25);
}

#[test]
fn copy_into_fills_destination_in_buffer_order() {
    let r = split(0, 20);
    let data = vec![vec![1u8; 8192], vec![2u8; 2048]];
    let mut into = vec![0u8; 10000];
    r.copy_into(&data, &mut into);
    assert!(into[..8192].iter().all(|b| *b == 1));
    assert!(into[8192..].iter().all(|b| *b == 2));
    assert_eq!(into.len(), 10000);
}

#[test]
fn copy_into_short_destination() {
    let r = split(0, 20);
    let data = vec![(0..8192).map(|i| (i % 7) as u8).collect::<Vec<u8>>(), vec![9u8; 2048]];
    let mut into = vec![0u8; 100];
    r.copy_into(&data, &mut into);
    for i in 0..100 {
        assert_eq!(into[i], (i % 7) as u8);
    }
}

#[test]
fn with_frames_places_buffers_at_given_addresses() {
    let r = DmaRequest::with_frames(7, 40, &[0xA000, 0xC000, 0xE000]);
    assert_eq!(r.sector, 7);
    assert_eq!(r.count, 40);
    let b = r.at_offset(0);
    assert_eq!(b.iter().map(|x| x.start).collect::<Vec<_>>(), vec![0xA000, 0xC000, 0xE000]);
    assert_eq!(b.iter().map(|x| x.data_size).collect::<Vec<_>>(), vec![8192, 8192, 4096]);
    assert_eq!(b.iter().map(|x| x.huge).collect::<Vec<_>>(), vec![true, true, false]);
}

#[test]
fn sectors_for_rounds_up() {
    assert_eq!(aero_storage::dma::sectors_for(0), 0);
    assert_eq!(aero_storage::dma::sectors_for(1), 1);
    assert_eq!(aero_storage::dma::sectors_for(512), 1);
    assert_eq!(aero_storage::dma::sectors_for(513), 2);
    assert_eq!(aero_storage::dma::sectors_for(10000), 20);
    assert_eq!(aero_storage::dma::sectors_for(10240), 20);
}

#[test]
fn sector_span_covers_unaligned_range() {
    assert_eq!(SectorSpan::covering(1000, 20), SectorSpan { first: 1, count: 1, skip: 488 });
    assert_eq!(SectorSpan::covering(1000, 24), SectorSpan { first: 1, count: 1, skip: 488 });
    assert_eq!(SectorSpan::covering(1000, 100), SectorSpan { first: 1, count: 2, skip: 488 });
    assert_eq!(SectorSpan::covering(1024, 1024), SectorSpan { first: 2, count: 2, skip: 0 });
    assert_eq!(SectorSpan::covering(0, 0), SectorSpan { first: 0, count: 0, skip: 0 });
}

#[test]
fn empty_request_needs_no_frames() {
    let r = DmaRequest::new(3, 0, &mut NoFrames).unwrap();
    assert_eq!(r.count, 0);
    assert_eq!(r.at_offset(0).len(), 0);
}

#[test]
fn huge_flag_follows_remaining_bytes() {
    assert!(aero_storage::dma::buffer_is_huge(20, 0));
    assert!(!aero_storage::dma::buffer_is_huge(20, 1));
    assert!(!aero_storage::dma::buffer_is_huge(8, 0));
    assert!(aero_storage::dma::buffer_is_huge(9, 0));
    assert!(aero_storage::dma::buffer_is_huge(40, 1));
    assert!(!aero_storage::dma::buffer_is_huge(40, 2));
}

struct Recording {
    asked: Vec<bool>,
}

impl FrameAllocator for Recording {
    fn allocate_frame(&mut self, huge: bool) -> Option<u64> {
        self.asked.push(huge);
        Some(0x1000 * self.asked.len() as u64)
    }
}

#[test]
fn allocator_is_asked_for_huge_regions_where_needed() {
    let mut frames = Recording { asked: Vec::new() };
    let r = DmaRequest::new(0, 40, &mut frames).unwrap();
    assert_eq!(frames.asked, vec![true, true, false]);
    assert_eq!(r.at_offset(0).iter().map(|b| b.huge).collect::<Vec<_>>(), frames.asked);
}

#[test]
fn opcodes_of_all_commands() {
    let cases = [
        (AtaCommand::AtaCommandWriteDma, 0xCA),
        (AtaCommand::AtaCommandWriteSectors, 0x30),
        (AtaCommand::AtaCommandReadSectorsExt, 0x24),
        (AtaCommand::AtaCommandPacket, 0xA0),
        (AtaCommand::AtaCommandNop, 0),
        (AtaCommand::AtaCommandNopNopAutopoll, 1),
        (AtaCommand::AtaCommandFlushCacheExt, 0xEA),
        (AtaCommand::AtaCommandIdentifyDevice, 0xEC),
        (AtaCommand::AtaCommandSetFeaturesDisableServiceInt, 0xDE),
    ];
    for (c, code) in cases {
        assert_eq!(c.code(), code);
    }
}
