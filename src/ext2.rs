//! A read-only ext2 volume over a block device: mounting, inode lookup,
//! directory listing and file reads.
use vstd::prelude::*;
use vstd::slice::slice_subrange;
use vstd::arithmetic::div_mod::{lemma_div_is_ordered, lemma_fundamental_div_mod};

use crate::block::{BlockDevice, SECTOR_SIZE};
use crate::bytes::{copy_at, lemma_within_block};
use crate::ondisk::{
    DiskDirEntry, DiskINode, GroupDescriptor, NodeType, SuperBlock, DATA_POINTERS,
    DIR_ENTRY_HEAD_LEN, GROUP_DESCRIPTOR_LEN, INODE_LEN, SUPERBLOCK_LEN,
};

verus! {

/// Byte offset of the superblock on the volume.
pub const SUPERBLOCK_OFFSET: usize = 1024;

/// Sector that holds the start of the superblock.
pub const SUPERBLOCK_SECTOR: usize = 2;

/// Inode number of the root directory.
pub const ROOT_INODE_ID: usize = 2;

/// Why a file system request was not served.
#[derive(Debug, Copy, Clone, PartialEq, Eq, Structural)]
pub enum FileSystemError {
    /// No entry of that name or number.
    EntryNotFound,
    /// The request needs what this reader does not implement.
    NotSupported,
    /// The device failed a read, or an address did not fit.
    DeviceError,
}

/// An inode resolved from disk: its number and its record.
#[derive(Debug, Copy, Clone)]
pub struct INode {
    pub id: usize,
    pub inode: DiskINode,
}

/// One entry of a directory: the name it is listed under and the inode it
/// names.
#[derive(Debug)]
pub struct DirEntry {
    pub name: Vec<u8>,
    pub inode: INode,
}

/// What the file layer learns of a node.
#[derive(Debug, Copy, Clone, PartialEq, Eq, Structural)]
pub struct Metadata {
    pub id: usize,
    pub file_type: NodeType,
    pub size: usize,
    pub children_len: usize,
}

/// File-type bits of a mode: regular file.
pub const S_IFREG: u32 = 0o100000;
/// File-type bits of a mode: directory.
pub const S_IFDIR: u32 = 0o040000;
/// File-type bits of a mode: character device.
pub const S_IFCHR: u32 = 0o020000;
/// File-type bits of a mode: socket.
pub const S_IFSOCK: u32 = 0o140000;
/// File-type bits of a mode: symbolic link.
pub const S_IFLNK: u32 = 0o120000;
/// Read, write and execute for owner, group and others.
pub const S_IRWXUGO: u32 = 0o777;

/// The status of a node, as `stat` reports it.
#[derive(Debug, Copy, Clone, PartialEq, Eq, Structural)]
pub struct Stat {
    pub st_ino: u64,
    pub st_blksize: u64,
    pub st_size: u64,
    pub st_mode: u32,
}

/// File-type bits of the mode of a node of kind `t`.
pub open spec fn mode_type_bits(t: NodeType) -> u32 {
    match t {
        NodeType::File => S_IFREG,
        NodeType::Directory => S_IFDIR,
        NodeType::Device => S_IFCHR,
        NodeType::Socket => S_IFSOCK,
        NodeType::Symlink => S_IFLNK,
    }
}

/// A mounted ext2 volume.
pub struct Ext2<D: BlockDevice> {
    superblock: SuperBlock,
    bgdt: Vec<GroupDescriptor>,
    block: D,
}

/// The superblock that a volume with bytes `disk` holds.
pub open spec fn superblock_of(disk: Seq<u8>) -> SuperBlock {
    SuperBlock::decode(disk.subrange(SUPERBLOCK_OFFSET as int, SUPERBLOCK_OFFSET + SUPERBLOCK_LEN))
}

/// Byte offset of the group descriptor table on a volume with superblock `sb`.
pub open spec fn bgdt_offset(sb: SuperBlock) -> int {
    sb.spec_bgdt_sector() * SECTOR_SIZE
}

/// Descriptor `i` of the table on a volume with bytes `disk`.
pub open spec fn group_of(disk: Seq<u8>, i: int) -> GroupDescriptor {
    let at = bgdt_offset(superblock_of(disk)) + i * GROUP_DESCRIPTOR_LEN;
    GroupDescriptor::decode(disk.subrange(at, at + GROUP_DESCRIPTOR_LEN))
}

/// Superblock `sb` describes a volume this reader can mount: the ext2 magic,
/// 128-byte inode records, a block size that a 32-bit `usize` holds, and
/// block groups of at least one block.
pub open spec fn superblock_accepted(sb: SuperBlock) -> bool {
    &&& sb.magic == SuperBlock::MAGIC
    &&& sb.inode_size == INODE_LEN
    &&& sb.log_block_size < 22
    &&& sb.blocks_per_group > 0
}

/// The bytes `disk` hold a volume that mounting accepts: an ext2 superblock
/// with 128-byte inodes, and a group descriptor table, both on the device.
pub open spec fn mountable(disk: Seq<u8>) -> bool {
    let sb = superblock_of(disk);
    &&& SUPERBLOCK_OFFSET + SUPERBLOCK_LEN <= disk.len()
    &&& superblock_accepted(sb)
    &&& bgdt_offset(sb) + sb.spec_bgdt_len() * GROUP_DESCRIPTOR_LEN <= disk.len()
    &&& sb.spec_bgdt_len() * GROUP_DESCRIPTOR_LEN <= usize::MAX
}

impl<D: BlockDevice> Ext2<D> {
    pub closed spec fn superblock(&self) -> SuperBlock {
        self.superblock
    }

    pub closed spec fn groups(&self) -> Seq<GroupDescriptor> {
        self.bgdt@
    }

    pub closed spec fn device(&self) -> &D {
        &self.block
    }

    /// The bytes of the volume.
    pub open spec fn disk(&self) -> Seq<u8> {
        self.device().contents()
    }

    /// What mounting establishes: the superblock and descriptor table are
    /// those on the device, and the superblock was accepted.
    pub open spec fn wf(&self) -> bool {
        &&& mountable(self.disk())
        &&& self.superblock() == superblock_of(self.disk())
        &&& self.groups().len() == self.superblock().spec_bgdt_len()
        &&& forall|i: int|
            0 <= i < self.groups().len() ==> #[trigger] self.groups()[i] == group_of(self.disk(), i)
    }

    /// Size of a block in bytes.
    pub open spec fn block_size(&self) -> int {
        self.superblock().spec_block_size()
    }

    /// Byte offset of the record of inode `id`, where the volume's tables
    /// place it at an address that fits in `usize`.
    pub open spec fn inode_location(&self, id: int) -> Option<int> {
        let ipg = self.superblock().inodes_per_group as int;
        if id >= 1 && ipg > 0 && (id - 1) / ipg < self.groups().len() {
            let table = self.groups()[(id - 1) / ipg].inode_table as int;
            let at = table * self.block_size() + ((id - 1) % ipg) * INODE_LEN;
            if at <= usize::MAX {
                Some(at)
            } else {
                None
            }
        } else {
            None
        }
    }

    /// Inode `id` has a location, and its whole record lies on the device.
    pub open spec fn inode_readable(&self, id: int) -> bool {
        &&& self.inode_location(id) is Some
        &&& self.inode_location(id).unwrap() + INODE_LEN <= self.disk().len()
    }

    /// The bytes of the record of inode `id`.
    pub open spec fn inode_bytes(&self, id: int) -> Seq<u8> {
        let at = self.inode_location(id).unwrap();
        self.disk().subrange(at, at + INODE_LEN)
    }

    /// `n` is inode `id` as the volume stores it.
    pub open spec fn resolves(&self, n: INode, id: int) -> bool {
        &&& n.id == id
        &&& self.inode_readable(id)
        &&& n.inode.decodes(self.inode_bytes(id))
    }

    /// Byte offset on the volume of the first data block of `dir`.
    pub open spec fn first_block_at(&self, dir: DiskINode) -> int {
        dir.data_ptr[0] * self.block_size()
    }

    /// The listing of directory `dir` from the entry at byte `off` of its
    /// first data block on, as pairs of a name and an inode number.
    ///
    /// The listing ends where the next entry head would pass the directory's
    /// size, at an entry whose size field is zero, and at the first entry
    /// whose bytes or inode cannot be read.
    pub open spec fn entries_from(&self, dir: DiskINode, off: int) -> Seq<(Seq<u8>, int)>
        decreases dir.size_lower - off,
    {
        let size = dir.size_lower as int;
        let at = self.first_block_at(dir) + off;
        let head_end = at + DIR_ENTRY_HEAD_LEN;
        if off < 0 || off + DIR_ENTRY_HEAD_LEN > size || head_end > self.disk().len()
            || head_end > usize::MAX {
            seq![]
        } else {
            let head = DiskDirEntry::decode(self.disk().subrange(at, head_end));
            let next = off + head.entry_size;
            if head.entry_size == 0 || head_end + head.name_size > self.disk().len()
                || !self.inode_readable(head.inode as int) || next > usize::MAX {
                seq![]
            } else {
                let entry = (
                    self.disk().subrange(head_end, head_end + head.name_size),
                    head.inode as int,
                );
                if next <= size {
                    seq![entry] + self.entries_from(dir, next)
                } else {
                    seq![entry]
                }
            }
        }
    }

    /// The whole listing of directory `dir`.
    pub open spec fn entries(&self, dir: DiskINode) -> Seq<(Seq<u8>, int)> {
        self.entries_from(dir, 0)
    }

    /// `e` is the listed entry `entry`, with its inode read from the volume.
    pub open spec fn entry_matches(&self, e: DirEntry, entry: (Seq<u8>, int)) -> bool {
        &&& e.name@ == entry.0
        &&& self.resolves(e.inode, entry.1)
    }

    /// Volume address of byte `p` of file `f`: the byte at `p % block_size`
    /// of the block that direct pointer `p / block_size` names.
    pub open spec fn file_addr(&self, f: DiskINode, p: int) -> int {
        f.data_ptr[p / self.block_size()] * self.block_size() + p % self.block_size()
    }

    /// Byte `p` of file `f`.
    pub open spec fn file_byte(&self, f: DiskINode, p: int) -> u8 {
        self.disk()[self.file_addr(f, p)]
    }

    /// Every byte of `f` from `offset` to `offset + count` lies in a block that
    /// a direct pointer names, on the device.
    pub open spec fn file_readable(&self, f: DiskINode, offset: int, count: int) -> bool {
        forall|p: int| offset <= p < offset + count ==> #[trigger] self.byte_readable(f, p)
    }

    /// Byte `p` of file `f` lies in a block that a direct pointer names, on
    /// the device.
    pub open spec fn byte_readable(&self, f: DiskINode, p: int) -> bool {
        &&& p / self.block_size() < DATA_POINTERS
        &&& self.file_addr(f, p) < self.disk().len()
        &&& self.file_addr(f, p) < usize::MAX
    }

    /// Reads `chunk` bytes of file `f` from byte `pos` on, all of them in
    /// one block.
    fn read_chunk(&self, f: &DiskINode, pos: usize, chunk: usize) -> (r: Result<
        Vec<u8>,
        FileSystemError,
    >)
        requires
            self.wf(),
            chunk > 0,
            pos as int % self.block_size() + chunk <= self.block_size(),
        ensures
            r is Ok ==> r.unwrap()@.len() == chunk,
            r is Ok ==> forall|j: int|
                0 <= j < chunk ==> r.unwrap()@[j] == self.file_byte(*f, pos + j),
            r is Err ==> r == Err::<Vec<u8>, FileSystemError>(FileSystemError::NotSupported) || r
                == Err::<Vec<u8>, FileSystemError>(FileSystemError::DeviceError),
            r == Err::<Vec<u8>, FileSystemError>(FileSystemError::NotSupported) ==> pos as int
                / self.block_size() >= DATA_POINTERS,
            self.device().infallible() && self.file_readable(*f, pos as int, chunk as int)
                ==> r is Ok,
    {
        let block_size = self.superblock.block_size();
        let ghost bs = block_size as int;
        let block = pos / block_size;
        let loc = pos % block_size;
        proof {
            lemma_fundamental_div_mod(pos as int, bs);
            assert(pos == block * bs + loc) by (nonlinear_arith)
                requires
                    pos == bs * (pos as int / bs) + pos as int % bs,
                    block == pos as int / bs,
                    loc == pos as int % bs,
            ;
            lemma_within_block(bs, pos as int, block as int, loc as int, 0);
            lemma_within_block(bs, pos as int, block as int, loc as int, chunk - 1);
            if self.file_readable(*f, pos as int, chunk as int) {
                assert(self.byte_readable(*f, pos as int));
                assert(self.byte_readable(*f, pos + chunk - 1));
            }
        }
        if block >= DATA_POINTERS {
            return Err(FileSystemError::NotSupported);
        }
        let pointer = f.data_ptr[block] as usize;
        proof {
            assert(pointer * block_size >= 0) by (nonlinear_arith)
                requires
                    pointer >= 0,
                    block_size >= 0,
            ;
        }
        let base = match pointer.checked_mul(block_size) {
            Some(v) => v,
            None => return Err(FileSystemError::DeviceError),
        };
        let at = match base.checked_add(loc) {
            Some(v) => v,
            None => return Err(FileSystemError::DeviceError),
        };
        let mut data = vec![0u8; chunk];
        if self.block.read(at, data.as_mut_slice()).is_none() {
            return Err(FileSystemError::DeviceError);
        }
        proof {
            assert forall|j: int| 0 <= j < chunk implies data@[j] == self.file_byte(*f, pos + j) by {
                lemma_within_block(bs, pos as int, block as int, loc as int, j);
            }
        }
        Ok(data)
    }

    /// Mounts the volume on `block`.
    ///
    /// Fails where the superblock is not that of an ext2 volume with
    /// 128-byte inodes, and where a read fails.
    pub fn new(block: D) -> (r: Option<Ext2<D>>)
        ensures
            r is Some ==> {
                &&& r.unwrap().wf()
                &&& *r.unwrap().device() == block
            },
            r is Some ==> superblock_of(block.contents()).magic == SuperBlock::MAGIC,
            r is Some ==> mountable(block.contents()),
            block.infallible() && mountable(block.contents()) ==> r is Some,
    {
        let mut raw = vec![0u8; SUPERBLOCK_LEN];
        if block.read_block(SUPERBLOCK_SECTOR, raw.as_mut_slice()).is_none() {
            return None;
        }
        assert(raw@ =~= block.contents().subrange(
            SUPERBLOCK_OFFSET as int,
            SUPERBLOCK_OFFSET + SUPERBLOCK_LEN,
        ));
        let superblock = SuperBlock::from_bytes(raw.as_slice());
        if superblock.magic != SuperBlock::MAGIC {
            return None;
        }
        if superblock.inode_size as usize != INODE_LEN {
            return None;
        }
        if superblock.log_block_size >= 22 || superblock.blocks_per_group == 0 {
            return None;
        }
        let len = superblock.bgdt_len();
        if len > usize::MAX / GROUP_DESCRIPTOR_LEN {
            return None;
        }
        let mut table = vec![0u8; len * GROUP_DESCRIPTOR_LEN];
        let sector = superblock.bgdt_sector();
        if block.read_block(sector, table.as_mut_slice()).is_none() {
            return None;
        }
        let ghost disk = block.contents();
        let ghost at = bgdt_offset(superblock);
        let mut bgdt: Vec<GroupDescriptor> = Vec::new();
        let mut i: usize = 0;
        while i < len
            invariant
                i <= len,
                len * GROUP_DESCRIPTOR_LEN <= usize::MAX,
                at + len * GROUP_DESCRIPTOR_LEN <= disk.len(),
                table@.len() == len * GROUP_DESCRIPTOR_LEN,
                table@ == disk.subrange(at, at + len * GROUP_DESCRIPTOR_LEN),
                superblock == superblock_of(disk),
                at == bgdt_offset(superblock_of(disk)),
                bgdt@.len() == i,
                forall|k: int| 0 <= k < i ==> #[trigger] bgdt@[k] == group_of(disk, k),
            decreases len - i,
        {
            assert(i * GROUP_DESCRIPTOR_LEN + GROUP_DESCRIPTOR_LEN <= len * GROUP_DESCRIPTOR_LEN)
                by (nonlinear_arith)
                requires
                    i < len,
            ;
            let start = i * GROUP_DESCRIPTOR_LEN;
            let raw = slice_subrange(table.as_slice(), start, start + GROUP_DESCRIPTOR_LEN);
            assert(raw@ =~= disk.subrange(
                at + i * GROUP_DESCRIPTOR_LEN,
                at + i * GROUP_DESCRIPTOR_LEN + GROUP_DESCRIPTOR_LEN,
            ));
            bgdt.push(GroupDescriptor::from_bytes(raw));
            i = i + 1;
        }
        Some(Ext2 { superblock, bgdt, block })
    }

    /// The root directory's inode.
    pub fn root_dir(&self) -> (r: Option<INode>)
        requires
            self.wf(),
        ensures
            r is Some ==> self.resolves(r.unwrap(), ROOT_INODE_ID as int),
            self.device().infallible() && self.inode_readable(ROOT_INODE_ID as int) ==> r is Some,
    {
        self.find_inode(ROOT_INODE_ID)
    }

    /// On a mounted volume with at least two inodes per group and at least
    /// one group, whose first group's inode table holds its first two
    /// records on the device, the root inode can be read; `find_inode` and
    /// `root_dir` then return it on a device that does not fail.
    pub proof fn lemma_root_inode_readable(&self)
        requires
            self.wf(),
            self.superblock().inodes_per_group >= 2,
            self.groups().len() >= 1,
            self.groups()[0].inode_table * self.block_size() + 2 * INODE_LEN <= self.disk().len(),
            self.groups()[0].inode_table * self.block_size() + INODE_LEN <= usize::MAX,
        ensures
            self.inode_readable(ROOT_INODE_ID as int),
            self.inode_location(ROOT_INODE_ID as int) == Some(
                self.groups()[0].inode_table * self.block_size() + INODE_LEN,
            ),
    {
        let ipg = self.superblock().inodes_per_group as int;
        assert(1int / ipg == 0 && 1int % ipg == 1) by (nonlinear_arith)
            requires
                ipg >= 2,
        ;
    }

    /// Resolves inode `id` from the volume's inode tables.
    pub fn find_inode(&self, id: usize) -> (r: Option<INode>)
        requires
            self.wf(),
        ensures
            r is Some ==> self.resolves(r.unwrap(), id as int),
            self.device().infallible() && self.inode_readable(id as int) ==> r is Some,
    {
        INode::new(self, id)
    }
}

/// Number of bytes that a read of `len` bytes at `offset` of a file of
/// `size` bytes returns.
pub open spec fn read_len(size: int, offset: int, len: int) -> int {
    if offset >= size {
        0
    } else if len < size - offset {
        len
    } else {
        size - offset
    }
}

/// Whether `a` and `b` hold the same bytes.
fn same_bytes(a: &[u8], b: &[u8]) -> (r: bool)
    ensures
        r == (a@ == b@),
{
    if a.len() != b.len() {
        return false;
    }
    let mut i: usize = 0;
    while i < a.len()
        invariant
            i <= a@.len(),
            a@.len() == b@.len(),
            forall|j: int| 0 <= j < i ==> a@[j] == b@[j],
        decreases a@.len() - i,
    {
        if a[i] != b[i] {
            return false;
        }
        i = i + 1;
    }
    assert(a@ =~= b@);
    true
}

/// A walk over the entries of a directory's first data block.
pub struct DirEntryIter {
    pub inode: INode,
    /// Byte offset, in the directory's first block, of the next entry.
    pub offset: usize,
}

impl DirEntryIter {
    pub fn new(inode: INode) -> (r: DirEntryIter)
        ensures
            r.inode == inode,
            r.offset == 0,
    {
        DirEntryIter { inode, offset: 0 }
    }

    /// The entries that the walk has yet to yield.
    pub open spec fn rest<D: BlockDevice>(&self, fs: &Ext2<D>) -> Seq<(Seq<u8>, int)> {
        fs.entries_from(self.inode.inode, self.offset as int)
    }

    /// Yields the next entry of the directory, or `None` at its end.
    pub fn next<D: BlockDevice>(&mut self, fs: &Ext2<D>) -> (r: Option<DirEntry>)
        requires
            fs.wf(),
        ensures
            final(self).inode == old(self).inode,
            r is None ==> *final(self) == *old(self),
            r is Some ==> final(self).offset == old(self).offset + DiskDirEntry::decode(
                fs.disk().subrange(
                    fs.first_block_at(old(self).inode.inode) + old(self).offset,
                    fs.first_block_at(old(self).inode.inode) + old(self).offset
                        + DIR_ENTRY_HEAD_LEN,
                ),
            ).entry_size,
            r is Some ==> {
                &&& old(self).rest(fs).len() > 0
                &&& fs.entry_matches(r.unwrap(), old(self).rest(fs)[0])
                &&& final(self).rest(fs) == old(self).rest(fs).drop_first()
            },
            r is None && fs.device().infallible() ==> old(self).rest(fs).len() == 0,
    {
        let ghost rest = self.rest(fs);
        let dir = self.inode.inode;
        let size = dir.size_lower as usize;
        if self.offset > size || size - self.offset < DIR_ENTRY_HEAD_LEN {
            return None;
        }
        let block_size = fs.superblock.block_size();
        let first = dir.data_ptr[0] as usize;
        proof {
            assert(first * block_size >= 0) by (nonlinear_arith)
                requires first >= 0, block_size >= 0;
        }
        let base = match first.checked_mul(block_size) {
            Some(v) => v,
            None => return None,
        };
        let at = match base.checked_add(self.offset) {
            Some(v) => v,
            None => return None,
        };
        let head_end = match at.checked_add(DIR_ENTRY_HEAD_LEN) {
            Some(v) => v,
            None => return None,
        };
        let mut raw = vec![0u8; DIR_ENTRY_HEAD_LEN];
        if fs.block.read(at, raw.as_mut_slice()).is_none() {
            return None;
        }
        let head = DiskDirEntry::from_bytes(raw.as_slice());
        if head.entry_size == 0 {
            return None;
        }
        let mut name = vec![0u8; head.name_size as usize];
        if fs.block.read(head_end, name.as_mut_slice()).is_none() {
            return None;
        }
        let next = match self.offset.checked_add(head.entry_size as usize) {
            Some(v) => v,
            None => return None,
        };
        let entry = match self.inode.make_dir_entry(fs, name, &head) {
            Some(e) => e,
            None => return None,
        };
        self.offset = next;
        proof {
            if next > size {
                assert(fs.entries_from(dir, next as int) =~= seq![]);
            }
            assert(rest.drop_first() =~= fs.entries_from(dir, next as int));
        }
        Some(entry)
    }
}

impl INode {
    /// Reads inode `id` of volume `fs`: the record at index `(id - 1) %
    /// inodes_per_group` of the inode table of group `(id - 1) /
    /// inodes_per_group`.
    pub fn new<D: BlockDevice>(fs: &Ext2<D>, id: usize) -> (r: Option<INode>)
        requires
            fs.wf(),
        ensures
            r is Some ==> fs.resolves(r.unwrap(), id as int),
            fs.device().infallible() && fs.inode_readable(id as int) ==> r is Some,
    {
        let ipg = fs.superblock.inodes_per_group as usize;
        if id == 0 || ipg == 0 {
            return None;
        }
        let group = (id - 1) / ipg;
        let index = (id - 1) % ipg;
        if group >= fs.bgdt.len() {
            return None;
        }
        let size = fs.superblock.block_size();
        let table = fs.bgdt[group].inode_table as usize;
        let ghost loc = fs.inode_location(id as int);
        proof {
            assert(index < ipg);
            assert(table * size >= 0) by (nonlinear_arith)
                requires table >= 0, size >= 0;
        }
        let base = match table.checked_mul(size) {
            Some(v) => v,
            None => {
                assert(loc is None) by (nonlinear_arith)
                    requires
                        table * size > usize::MAX,
                        loc == (if table * size + index * INODE_LEN <= usize::MAX {
                            Some(table * size + index * INODE_LEN)
                        } else {
                            None
                        }),
                        index >= 0;
                return None;
            },
        };
        let within = match index.checked_mul(INODE_LEN) {
            Some(v) => v,
            None => return None,
        };
        let at = match base.checked_add(within) {
            Some(v) => v,
            None => return None,
        };
        assert(loc == Some(at as int));
        let mut raw = vec![0u8; INODE_LEN];
        if fs.block.read(at, raw.as_mut_slice()).is_none() {
            return None;
        }
        let inode = DiskINode::from_bytes(raw.as_slice());
        Some(INode { id, inode })
    }

    /// The node's number, kind and size.
    pub fn metadata(&self) -> (r: Metadata)
        ensures
            r == (Metadata {
                id: self.id,
                file_type: self.inode.spec_file_type().spec_node_type(),
                size: self.inode.size_lower as usize,
                children_len: 0,
            }),
    {
        Metadata {
            id: self.id,
            file_type: self.inode.file_type().node_type(),
            size: self.inode.size_lower as usize,
            children_len: 0,
        }
    }

    /// The node's status: its number, the volume's block size, its size,
    /// and a mode of its kind's type bits with every permission granted.
    pub fn stat<D: BlockDevice>(&self, fs: &Ext2<D>) -> (r: Stat)
        requires
            fs.wf(),
        ensures
            r.st_ino == self.id,
            r.st_blksize == fs.block_size(),
            r.st_size == self.inode.size_lower,
            r.st_mode == mode_type_bits(self.inode.spec_file_type().spec_node_type()) | S_IRWXUGO,
    {
        let kind = self.metadata().file_type;
        let type_bits = match kind {
            NodeType::File => S_IFREG,
            NodeType::Directory => S_IFDIR,
            NodeType::Device => S_IFCHR,
            NodeType::Socket => S_IFSOCK,
            NodeType::Symlink => S_IFLNK,
        };
        Stat {
            st_ino: self.id as u64,
            st_blksize: fs.superblock.block_size() as u64,
            st_size: self.inode.size_lower as u64,
            st_mode: type_bits | S_IRWXUGO,
        }
    }

    /// Returns a handle to this same inode.
    pub fn sref(&self) -> (r: INode)
        ensures
            r == *self,
    {
        *self
    }

    /// Makes the directory entry `name` for the inode that `entry` names.
    pub fn make_dir_entry<D: BlockDevice>(
        &self,
        fs: &Ext2<D>,
        name: Vec<u8>,
        entry: &DiskDirEntry,
    ) -> (r: Option<DirEntry>)
        requires
            fs.wf(),
        ensures
            r is Some ==> r.unwrap().name == name && fs.resolves(
                r.unwrap().inode,
                entry.inode as int,
            ),
            fs.device().infallible() && fs.inode_readable(entry.inode as int) ==> r is Some,
    {
        let inode = match fs.find_inode(entry.inode as usize) {
            Some(n) => n,
            None => return None,
        };
        Some(DirEntry { name, inode })
    }

    /// Reads the file's bytes from `offset` into `buffer`, up to the end of
    /// the file, and returns how many it read.
    ///
    /// Bytes of `buffer` past that count are left as they were, and a read
    /// that fails leaves all of `buffer` as it was. Only the
    /// direct block pointers are followed: a read that reaches past the blocks
    /// they name fails with `NotSupported`.
    pub fn read_at<D: BlockDevice>(&self, fs: &Ext2<D>, offset: usize, buffer: &mut [u8]) -> (r:
        Result<usize, FileSystemError>)
        requires
            fs.wf(),
        ensures
            final(buffer)@.len() == old(buffer)@.len(),
            forall|i: int|
                read_len(self.inode.size_lower as int, offset as int, old(buffer)@.len() as int)
                    <= i < old(buffer)@.len() ==> final(buffer)@[i] == old(buffer)@[i],
            r is Ok ==> r.unwrap() == read_len(
                self.inode.size_lower as int,
                offset as int,
                old(buffer)@.len() as int,
            ),
            r is Ok ==> forall|i: int|
                0 <= i < r.unwrap() ==> final(buffer)@[i] == fs.file_byte(self.inode, offset + i),
            r is Err ==> final(buffer)@ == old(buffer)@,
            r is Err ==> r == Err::<usize, FileSystemError>(FileSystemError::NotSupported) || r
                == Err::<usize, FileSystemError>(FileSystemError::DeviceError),
            r == Err::<usize, FileSystemError>(FileSystemError::NotSupported) ==> (offset
                + read_len(self.inode.size_lower as int, offset as int, old(buffer)@.len() as int)
                - 1) / fs.block_size() >= DATA_POINTERS,
            fs.device().infallible() && fs.file_readable(
                self.inode,
                offset as int,
                read_len(self.inode.size_lower as int, offset as int, old(buffer)@.len() as int),
            ) ==> r is Ok,
    {
        let size = self.inode.size_lower as usize;
        let count = if offset >= size {
            0
        } else if buffer.len() < size - offset {
            buffer.len()
        } else {
            size - offset
        };
        let block_size = fs.superblock.block_size();
        let ghost f = self.inode;
        let ghost bs = block_size as int;
        let mut staged = vec![0u8; count];
        let mut progress: usize = 0;
        while progress < count
            invariant
                fs.wf(),
                f == self.inode,
                bs == fs.block_size(),
                block_size == bs,
                1024 <= bs,
                count == read_len(size as int, offset as int, old(buffer)@.len() as int),
                size == f.size_lower,
                count > 0 ==> offset + count <= size,
                count <= old(buffer)@.len(),
                progress <= count,
                buffer@ == old(buffer)@,
                staged@.len() == count,
                forall|i: int| 0 <= i < progress ==> staged@[i] == fs.file_byte(f, offset + i),
                fs.device().infallible() && fs.file_readable(f, offset as int, count as int)
                    ==> fs.file_readable(f, (offset + progress) as int, (count - progress) as int),
            decreases count - progress,
        {
            let pos = offset + progress;
            let loc = pos % block_size;
            let mut chunk = count - progress;
            if chunk > block_size - loc {
                chunk = block_size - loc;
            }
            proof {
                if fs.device().infallible() && fs.file_readable(f, offset as int, count as int) {
                    assert forall|p: int| pos <= p < pos + chunk implies #[trigger] fs.byte_readable(
                        f,
                        p,
                    ) by {
                        assert(fs.file_readable(f, pos as int, (count - progress) as int));
                    }
                    assert(fs.file_readable(f, pos as int, chunk as int));
                }
            }
            let data = match fs.read_chunk(&self.inode, pos, chunk) {
                Ok(d) => d,
                Err(e) => {
                    proof {
                        if e == FileSystemError::NotSupported {
                            lemma_div_is_ordered(pos as int, offset + count - 1, bs);
                        }
                    }
                    return Err(e);
                },
            };
            copy_at(staged.as_mut_slice(), progress, data.as_slice());
            proof {
                assert forall|i: int| 0 <= i < progress + chunk implies staged@[i] == fs.file_byte(
                    f,
                    offset + i,
                ) by {
                    if i >= progress {
                        assert(data@[i - progress] == fs.file_byte(f, pos + (i - progress)));
                    }
                }
                if fs.device().infallible() && fs.file_readable(f, offset as int, count as int) {
                    assert forall|p: int|
                        pos + chunk <= p < offset + count implies #[trigger] fs.byte_readable(
                        f,
                        p,
                    ) by {
                        assert(fs.file_readable(f, pos as int, (count - progress) as int));
                    }
                    assert(fs.file_readable(
                        f,
                        (pos + chunk) as int,
                        (count - progress - chunk) as int,
                    ));
                }
            }
            progress = progress + chunk;
        }
        // Every read succeeded: only now does `buffer` change.
        copy_at(buffer, 0, staged.as_slice());
        proof {
            assert forall|i: int| 0 <= i < count implies buffer@[i] == fs.file_byte(f, offset + i) by {
                assert(buffer@[0 + i] == staged@[i]);
            }
        }
        Ok(count)
    }

    /// Returns entry `index` of this directory.
    pub fn dirent<D: BlockDevice>(&self, fs: &Ext2<D>, index: usize) -> (r: Option<DirEntry>)
        requires
            fs.wf(),
        ensures
            r is Some ==> index < fs.entries(self.inode).len() && fs.entry_matches(
                r.unwrap(),
                fs.entries(self.inode)[index as int],
            ),
            fs.device().infallible() && index < fs.entries(self.inode).len() ==> r is Some,
    {
        let ghost all = fs.entries(self.inode);
        let mut walk = DirEntryIter::new(self.sref());
        let mut k: usize = 0;
        loop
            invariant
                fs.wf(),
                all == fs.entries(self.inode),
                walk.inode == *self,
                k <= index,
                k <= all.len(),
                walk.rest(fs) == all.subrange(k as int, all.len() as int),
            decreases index - k,
        {
            let ghost before = walk.rest(fs);
            let entry = match walk.next(fs) {
                Some(e) => e,
                None => return None,
            };
            assert(before[0] == all[k as int]);
            if k == index {
                return Some(entry);
            }
            assert(walk.rest(fs) =~= all.subrange(k + 1, all.len() as int));
            k = k + 1;
        }
    }

    /// Finds the first entry of this directory listed under `name`.
    pub fn lookup<D: BlockDevice>(&self, fs: &Ext2<D>, name: &[u8]) -> (r: Result<
        DirEntry,
        FileSystemError,
    >)
        requires
            fs.wf(),
        ensures
            r is Ok ==> exists|k: int|
                0 <= k < fs.entries(self.inode).len() && fs.entries(self.inode)[k].0 == name@
                    && (forall|j: int| 0 <= j < k ==> fs.entries(self.inode)[j].0 != name@)
                    && fs.entry_matches(r.unwrap(), #[trigger] fs.entries(self.inode)[k]),
            r is Err ==> r == Err::<DirEntry, FileSystemError>(FileSystemError::EntryNotFound),
            r is Err && fs.device().infallible() ==> forall|k: int|
                0 <= k < fs.entries(self.inode).len() ==> #[trigger] fs.entries(
                    self.inode,
                )[k].0 != name@,
    {
        let ghost all = fs.entries(self.inode);
        let mut walk = DirEntryIter::new(self.sref());
        let ghost mut k: int = 0;
        loop
            invariant
                fs.wf(),
                all == fs.entries(self.inode),
                walk.inode == *self,
                0 <= k <= all.len(),
                walk.rest(fs) == all.subrange(k, all.len() as int),
                forall|j: int| 0 <= j < k ==> all[j].0 != name@,
            decreases all.len() - k,
        {
            let ghost before = walk.rest(fs);
            let entry = match walk.next(fs) {
                Some(e) => e,
                None => return Err(FileSystemError::EntryNotFound),
            };
            assert(before[0] == all[k]);
            if same_bytes(entry.name.as_slice(), name) {
                return Ok(entry);
            }
            assert(walk.rest(fs) =~= all.subrange(k + 1, all.len() as int));
            proof {
                k = k + 1;
            }
        }
    }
}

} // verus!
