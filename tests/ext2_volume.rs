use aero_storage::block::{BlockDevice, MemoryDisk};
use aero_storage::ext2::{Ext2, FileSystemError, ROOT_INODE_ID};
use aero_storage::ondisk::{FileType, SuperBlock};
use aero_storage::ondisk::{DiskINode, NodeType};
use aero_storage::ext2::{DirEntryIter, S_IFDIR, S_IFREG};

const BLOCK: usize = 1024;
const INODE_TABLE_BLOCK: usize = 5;
const ROOT_DIR_BLOCK: usize = 10;
const FILE_SIZE: usize = 1500;

fn put16(img: &mut [u8], at: usize, v: u16) {
    img[at..at + 2].copy_from_slice(&v.to_le_bytes());
}

fn put32(img: &mut [u8], at: usize, v: u32) {
    img[at..at + 4].copy_from_slice(&v.to_le_bytes());
}

fn inode_at(id: usize) -> usize {
    INODE_TABLE_BLOCK * BLOCK + (id - 1) * 128
}

fn put_entry(img: &mut [u8], at: usize, inode: u32, size: u16, name: &[u8]) {
    put32(img, at, inode);
    put16(img, at + 4, size);
    img[at + 6] = name.len() as u8;
    img[at + 7] = 1;
    img[at + 8..at + 8 + name.len()].copy_from_slice(name);
}

fn file_pattern(p: usize) -> u8 {
    (p % 251) as u8
}

/// A 16 KiB volume with 1 KiB blocks: a root directory holding ".", ".."
/// and "hello.txt" (inode 12, 1500 bytes over blocks 11 and 12), an inode
/// 13 too large for the direct pointers, and an inode 14 whose block lies
/// off the device.
fn image() -> Vec<u8> {
    let mut img = vec![0u8; 16 * BLOCK];
    let sb = 1024;
    put32(&mut img, sb, 16);
    put32(&mut img, sb + 4, 16);
    put32(&mut img, sb + 20, 1);
    put32(&mut img, sb + 24, 0);
    put32(&mut img, sb + 32, 8192);
    put32(&mut img, sb + 40, 16);
    put16(&mut img, sb + 56, 0xEF53);
    put16(&mut img, sb + 88, 128);
    put32(&mut img, 2 * BLOCK + 8, INODE_TABLE_BLOCK as u32);

    let root = inode_at(2);
    put16(&mut img, root, 0x41ED);
    put32(&mut img, root + 4, BLOCK as u32);
    put32(&mut img, root + 40, ROOT_DIR_BLOCK as u32);

    let file = inode_at(12);
    put16(&mut img, file, 0x81A4);
    put32(&mut img, file + 4, FILE_SIZE as u32);
    put32(&mut img, file + 40, 11);
    put32(&mut img, file + 44, 12);

    let big = inode_at(13);
    put16(&mut img, big, 0x81A4);
    put32(&mut img, big + 4, 20 * BLOCK as u32);
    for i in 0..15 {
        put32(&mut img, big + 40 + 4 * i, 11);
    }

    let lost = inode_at(14);
    put16(&mut img, lost, 0x81A4);
    put32(&mut img, lost + 4, 100);
    put32(&mut img, lost + 40, 1000);

    let dir = ROOT_DIR_BLOCK * BLOCK;
    put_entry(&mut img, dir, 2, 12, b".");
    put_entry(&mut img, dir + 12, 2, 12, b"..");
    put_entry(&mut img, dir + 24, 12, 1000, b"hello.txt");

    for p in 0..2 * BLOCK {
        img[11 * BLOCK + p] = file_pattern(p);
    }
    img
}

fn mount(img: Vec<u8>) -> Option<Ext2<MemoryDisk>> {
    Ext2::new(MemoryDisk::new(img))
}

/// A device on which every read fails.
struct DeadDevice;

impl BlockDevice for DeadDevice {
    fn read(&self, _offset: usize, _buffer: &mut [u8]) -> Option<usize> {
        None
    }

    fn read_block(&self, _index: usize, _buffer: &mut [u8]) -> Option<usize> {
        None
    }
}

#[test]
fn mounts_valid_volume() {
    assert!(mount(image()).is_some());
}

#[test]
fn mount_rejects_bad_magic() {
    let mut img = image();
    put16(&mut img, 1024 + 56, 0xEF54);
    assert!(mount(img).is_none());
}

#[test]
fn mount_rejects_other_inode_size() {
    let mut img = image();
    put16(&mut img, 1024 + 88, 256);
    assert!(mount(img).is_none());
}

#[test]
fn mount_rejects_short_device() {
    assert!(mount(vec![0u8; 1200]).is_none());
}

#[test]
fn mount_fails_when_reads_fail() {
    assert!(Ext2::new(DeadDevice).is_none());
}

#[test]
fn root_inode_found_after_mount() {
    let fs = mount(image()).unwrap();
    let root = fs.find_inode(ROOT_INODE_ID).unwrap();
    assert_eq!(root.id, 2);
    assert_eq!(root.inode.file_type(), FileType::Directory);
    assert_eq!(root.inode.size_lower, 1024);
    let again = fs.root_dir().unwrap();
    assert_eq!(again.id, 2);
    assert_eq!(again.inode.data_ptr[0], ROOT_DIR_BLOCK as u32);
}

#[test]
fn find_inode_rejects_zero_and_out_of_range() {
    let fs = mount(image()).unwrap();
    assert!(fs.find_inode(0).is_none());
    assert!(fs.find_inode(17).is_none());
}

#[test]
fn lookup_finds_file() {
    let fs = mount(image()).unwrap();
    let root = fs.root_dir().unwrap();
    let e = root.lookup(&fs, b"hello.txt").unwrap();
    assert_eq!(e.name, b"hello.txt".to_vec());
    assert_eq!(e.inode.id, 12);
    assert_eq!(e.inode.inode.size_lower, FILE_SIZE as u32);
    assert_eq!(e.inode.inode.file_type(), FileType::File);
}

#[test]
fn lookup_missing_name_is_entry_not_found() {
    let fs = mount(image()).unwrap();
    let root = fs.root_dir().unwrap();
    let r = root.lookup(&fs, b"missing");
    assert!(matches!(r, Err(FileSystemError::EntryNotFound)));
}

#[test]
fn dirent_lists_entries_in_order() {
    let fs = mount(image()).unwrap();
    let root = fs.root_dir().unwrap();
    assert_eq!(root.dirent(&fs, 0).unwrap().name, b".".to_vec());
    assert_eq!(root.dirent(&fs, 1).unwrap().name, b"..".to_vec());
    let third = root.dirent(&fs, 2).unwrap();
    assert_eq!(third.name, b"hello.txt".to_vec());
    assert_eq!(third.inode.id, 12);
    assert!(root.dirent(&fs, 3).is_none());
}

#[test]
fn zero_entry_size_ends_listing() {
    let mut img = image();
    put16(&mut img, ROOT_DIR_BLOCK * BLOCK + 12, 0);
    let fs = mount(img).unwrap();
    let root = fs.root_dir().unwrap();
    assert!(root.dirent(&fs, 0).is_some());
    assert!(root.dirent(&fs, 1).is_none());
    assert!(matches!(root.lookup(&fs, b"hello.txt"), Err(FileSystemError::EntryNotFound)));
}

#[test]
fn read_at_whole_file() {
    let fs = mount(image()).unwrap();
    let file = fs.find_inode(12).unwrap();
    let mut buf = vec![0u8; 2000];
    let n = file.read_at(&fs, 0, &mut buf).unwrap();
    assert_eq!(n, FILE_SIZE);
    for p in 0..FILE_SIZE {
        assert_eq!(buf[p], file_pattern(p));
    }
    assert!(buf[FILE_SIZE..].iter().all(|b| *b == 0));
}

#[test]
fn read_at_clamps_to_file_end_and_leaves_rest() {
    let fs = mount(image()).unwrap();
    let file = fs.find_inode(12).unwrap();
    let mut buf = vec![0xEEu8; 1000];
    let n = file.read_at(&fs, 1000, &mut buf).unwrap();
    assert_eq!(n, 500);
    for i in 0..500 {
        assert_eq!(buf[i], file_pattern(1000 + i));
    }
    assert!(buf[500..].iter().all(|b| *b == 0xEE));
}

#[test]
fn read_at_short_buffer_across_blocks() {
    let fs = mount(image()).unwrap();
    let file = fs.find_inode(12).unwrap();
    let mut buf = vec![0u8; 100];
    assert_eq!(file.read_at(&fs, 1000, &mut buf).unwrap(), 100);
    for i in 0..100 {
        assert_eq!(buf[i], file_pattern(1000 + i));
    }
}

#[test]
fn read_at_past_end_reads_nothing() {
    let fs = mount(image()).unwrap();
    let file = fs.find_inode(12).unwrap();
    let mut buf = vec![7u8; 10];
    assert_eq!(file.read_at(&fs, FILE_SIZE, &mut buf).unwrap(), 0);
    assert_eq!(file.read_at(&fs, FILE_SIZE + 10, &mut buf).unwrap(), 0);
    assert!(buf.iter().all(|b| *b == 7));
}

#[test]
fn read_at_beyond_direct_pointers_not_supported() {
    let fs = mount(image()).unwrap();
    let big = fs.find_inode(13).unwrap();
    let mut buf = vec![0u8; 10];
    assert!(matches!(big.read_at(&fs, 15 * BLOCK, &mut buf), Err(FileSystemError::NotSupported)));
    assert_eq!(big.read_at(&fs, 14 * BLOCK, &mut buf).unwrap(), 10);
}

#[test]
fn read_at_block_off_device_fails() {
    let fs = mount(image()).unwrap();
    let lost = fs.find_inode(14).unwrap();
    let mut buf = vec![3u8; 10];
    assert!(matches!(lost.read_at(&fs, 0, &mut buf), Err(FileSystemError::DeviceError)));
}

#[test]
fn superblock_geometry() {
    let img = image();
    let mut sb = SuperBlock::from_bytes(&img[1024..1024 + 336]);
    assert_eq!(sb.magic, SuperBlock::MAGIC);
    assert_eq!(sb.inode_size, 128);
    assert_eq!(sb.block_size(), 1024);
    assert_eq!(sb.bgdt_sector(), 4);
    assert_eq!(sb.bgdt_len(), 1);
    sb.log_block_size = 2;
    assert_eq!(sb.block_size(), 4096);
    assert_eq!(sb.bgdt_sector(), 8);
    sb.blocks_count = 20000;
    assert_eq!(sb.bgdt_len(), 3);
    sb.blocks_count = 16384;
    assert_eq!(sb.bgdt_len(), 2);
}

#[test]
fn memory_disk_reads() {
    let disk = MemoryDisk::new((0..=255u8).collect());
    let mut buf = [0u8; 4];
    assert_eq!(disk.read(10, &mut buf), Some(4));
    assert_eq!(buf, [10, 11, 12, 13]);
    assert_eq!(disk.read(253, &mut buf), None);
    assert_eq!(buf, [10, 11, 12, 13]);
    assert_eq!(disk.len(), 256);
    let big = MemoryDisk::new((0..1024u32).map(|i| (i / 4) as u8).collect());
    assert_eq!(big.read_block(1, &mut buf), Some(4));
    assert_eq!(buf, [128, 128, 128, 128]);
    assert_eq!(big.read_block(2, &mut buf), None);
}

#[test]
fn file_type_from_mode() {
    let fs = mount(image()).unwrap();
    let mut n: DiskINode = fs.find_inode(12).unwrap().inode;
    let cases = [
        (0x1000u16, FileType::Fifo, NodeType::File),
        (0x2000, FileType::CharDev, NodeType::Device),
        (0x4000, FileType::Directory, NodeType::Directory),
        (0x6000, FileType::BlockDev, NodeType::Device),
        (0x8000, FileType::File, NodeType::File),
        (0xA000, FileType::Symlink, NodeType::Symlink),
        (0xC000, FileType::Socket, NodeType::File),
        (0x3000, FileType::Unknown, NodeType::File),
    ];
    for (mode, ty, node) in cases {
        n.type_and_perm = mode | 0o644;
        assert_eq!(n.file_type(), ty);
        assert_eq!(n.file_type().node_type(), node);
    }
}

#[test]
fn metadata_and_stat() {
    let fs = mount(image()).unwrap();
    let file = fs.find_inode(12).unwrap();
    let m = file.metadata();
    assert_eq!(m.id, 12);
    assert_eq!(m.file_type, NodeType::File);
    assert_eq!(m.size, FILE_SIZE);
    assert_eq!(m.children_len, 0);
    let st = file.stat(&fs);
    assert_eq!(st.st_ino, 12);
    assert_eq!(st.st_blksize, 1024);
    assert_eq!(st.st_size, FILE_SIZE as u64);
    assert_eq!(st.st_mode, S_IFREG | 0o777);
    let root = fs.root_dir().unwrap();
    assert_eq!(root.stat(&fs).st_mode, S_IFDIR | 0o777);
    assert_eq!(root.sref().id, 2);
}

#[test]
fn walk_yields_entries_then_ends() {
    let fs = mount(image()).unwrap();
    let root = fs.root_dir().unwrap();
    let mut walk = DirEntryIter::new(root);
    let mut names = Vec::new();
    while let Some(e) = walk.next(&fs) {
        names.push(e.name);
    }
    assert_eq!(names, vec![b".".to_vec(), b"..".to_vec(), b"hello.txt".to_vec()]);
    assert_eq!(walk.offset, 1024);
}

#[test]
fn entry_naming_unreadable_inode_ends_listing() {
    let mut img = image();
    put32(&mut img, ROOT_DIR_BLOCK * BLOCK + 12, 0);
    let fs = mount(img).unwrap();
    let root = fs.root_dir().unwrap();
    assert!(root.dirent(&fs, 0).is_some());
    assert!(root.dirent(&fs, 1).is_none());
}

#[test]
fn larger_blocks_place_descriptor_table_after_superblock_block() {
    let bs = 4096;
    let mut img = vec![0u8; 8 * bs];
    let sb = 1024;
    put32(&mut img, sb + 4, 8);
    put32(&mut img, sb + 24, 2);
    put32(&mut img, sb + 32, 32768);
    put32(&mut img, sb + 40, 8);
    put16(&mut img, sb + 56, 0xEF53);
    put16(&mut img, sb + 88, 128);
    put32(&mut img, bs + 8, 3);
    let root = 3 * bs + 128;
    put16(&mut img, root, 0x41ED);
    put32(&mut img, root + 4, 77);
    let fs = mount(img).unwrap();
    let r = fs.find_inode(2).unwrap();
    assert_eq!(r.inode.size_lower, 77);
    assert_eq!(r.inode.file_type(), FileType::Directory);
}

#[test]
fn failed_read_leaves_whole_buffer_unchanged() {
    let mut img = image();
    let torn = inode_at(15);
    put16(&mut img, torn, 0x81A4);
    put32(&mut img, torn + 4, 2000);
    put32(&mut img, torn + 40, 11);
    put32(&mut img, torn + 44, 1000);
    let fs = mount(img).unwrap();
    let file = fs.find_inode(15).unwrap();
    let mut buf = vec![0x5Au8; 2000];
    assert!(matches!(file.read_at(&fs, 0, &mut buf), Err(FileSystemError::DeviceError)));
    assert!(buf.iter().all(|b| *b == 0x5A));
    let mut head = vec![0u8; 1024];
    assert_eq!(file.read_at(&fs, 0, &mut head).unwrap(), 1024);
    assert_eq!(head[5], file_pattern(5));
}

#[test]
fn walk_stays_put_at_end_and_advances_by_entry_size() {
    let fs = mount(image()).unwrap();
    let root = fs.root_dir().unwrap();
    let mut walk = DirEntryIter::new(root);
    assert!(walk.next(&fs).is_some());
    assert_eq!(walk.offset, 12);
    assert!(walk.next(&fs).is_some());
    assert_eq!(walk.offset, 24);
    assert!(walk.next(&fs).is_some());
    assert_eq!(walk.offset, 1024);
    assert!(walk.next(&fs).is_none());
    assert_eq!(walk.offset, 1024);
    assert!(walk.next(&fs).is_none());
    assert_eq!(walk.offset, 1024);
}
