//! The on-disk records of an ext2 volume and their decoding from bytes.
use vstd::prelude::*;

use crate::bytes::{le16, le32, read_u16, read_u32};
use vstd::arithmetic::power2::{pow2, lemma2_to64, lemma_pow2_strictly_increases};
use vstd::bits::lemma_usize_shl_is_mul;

verus! {

/// Bytes of the superblock record that this reader decodes.
pub const SUPERBLOCK_LEN: usize = 336;

/// Bytes of one block group descriptor.
pub const GROUP_DESCRIPTOR_LEN: usize = 32;

/// Bytes of one inode record.
pub const INODE_LEN: usize = 128;

/// Bytes of a directory entry's fixed head; the name follows it.
pub const DIR_ENTRY_HEAD_LEN: usize = 8;

/// Number of block pointers in an inode record.
pub const DATA_POINTERS: usize = 15;

/// The volume's global parameters (the scalar fields of the ext2 superblock,
/// extended fields included).
#[derive(Debug, Copy, Clone)]
pub struct SuperBlock {
    pub inodes_count: u32,
    pub blocks_count: u32,
    pub r_blocks_count: u32,
    pub free_blocks_count: u32,
    pub free_inodes_count: u32,
    pub first_data_block: u32,
    pub log_block_size: u32,
    pub log_frag_size: u32,
    pub blocks_per_group: u32,
    pub frags_per_group: u32,
    pub inodes_per_group: u32,
    pub mtime: u32,
    pub wtime: u32,
    pub mnt_count: u16,
    pub max_mnt_count: u16,
    pub magic: u16,
    pub state: u16,
    pub errors: u16,
    pub minor_rev_level: u16,
    pub lastcheck: u32,
    pub checkinterval: u32,
    pub creator_os: u32,
    pub rev_level: u32,
    pub def_resuid: u16,
    pub def_gid: u16,
    pub first_ino: u32,
    pub inode_size: u16,
    pub block_group_nr: u16,
    pub feature_compat: u32,
    pub feature_incompat: u32,
    pub feature_ro_compat: u32,
    pub compression_info: u32,
    pub prealloc_blocks: u8,
    pub prealloc_dir_blocks: u8,
    pub reserved_gdt_blocks: u16,
    pub journal_inum: u32,
    pub journal_dev: u32,
    pub last_orphan: u32,
    pub def_hash_version: u8,
    pub jnl_backup_type: u8,
    pub group_desc_size: u16,
    pub default_mount_opts: u32,
    pub first_meta_bg: u32,
    pub mkfs_time: u32,
}

/// Where one block group keeps its bitmaps and its inode table.
#[derive(Debug, Copy, Clone)]
pub struct GroupDescriptor {
    pub block_bitmap: u32,
    pub inode_bitmap: u32,
    pub inode_table: u32,
    pub free_blocks_count: u16,
    pub free_inodes_count: u16,
    pub used_dirs_count: u16,
    pub pad: u16,
}

/// The kind of file an inode holds, from the top four bits of its mode.
#[derive(Debug, Copy, Clone, PartialEq, Eq, Structural)]
pub enum FileType {
    Fifo,
    CharDev,
    Directory,
    BlockDev,
    File,
    Symlink,
    Socket,
    Unknown,
}

/// The kinds of node that the kernel's file layer tells apart.
#[derive(Debug, Copy, Clone, PartialEq, Eq, Structural)]
pub enum NodeType {
    File,
    Directory,
    Device,
    Socket,
    Symlink,
}

impl FileType {
    pub open spec fn spec_node_type(self) -> NodeType {
        match self {
            FileType::Symlink => NodeType::Symlink,
            FileType::Directory => NodeType::Directory,
            FileType::BlockDev | FileType::CharDev => NodeType::Device,
            _ => NodeType::File,
        }
    }

    /// The node kind that the file layer sees: devices of both kinds are
    /// devices, and every kind it has no name for is a plain file.
    pub fn node_type(&self) -> (r: NodeType)
        ensures
            r == self.spec_node_type(),
    {
        match self {
            FileType::Symlink => NodeType::Symlink,
            FileType::Directory => NodeType::Directory,
            FileType::BlockDev | FileType::CharDev => NodeType::Device,
            _ => NodeType::File,
        }
    }
}

/// One inode record as it is stored on disk.
#[derive(Debug, Copy, Clone)]
pub struct DiskINode {
    pub type_and_perm: u16,
    pub user_id: u16,
    pub size_lower: u32,
    pub last_access: u32,
    pub creation_time: u32,
    pub last_modification: u32,
    pub deletion_time: u32,
    pub group_id: u16,
    pub hl_count: u16,
    pub sector_count: u32,
    pub flags: u32,
    pub os_specific: u32,
    pub data_ptr: [u32; 15],
    pub gen_number: u32,
    pub ext_attr_block: u32,
    pub size_or_acl: u32,
    pub fragment_address: u32,
}

/// The fixed head of a directory entry: the name's bytes follow it.
#[derive(Debug, Copy, Clone)]
pub struct DiskDirEntry {
    pub inode: u32,
    pub entry_size: u16,
    pub name_size: u8,
    pub file_type: u8,
}

impl SuperBlock {
    /// Value of `magic` on an ext2 volume.
    pub const MAGIC: u16 = 0xef53;

    /// The superblock that the bytes `b` (at least `SUPERBLOCK_LEN` of them) encode.
    pub open spec fn decode(b: Seq<u8>) -> SuperBlock {
        SuperBlock {
            inodes_count: le32(b, 0),
            blocks_count: le32(b, 4),
            r_blocks_count: le32(b, 8),
            free_blocks_count: le32(b, 12),
            free_inodes_count: le32(b, 16),
            first_data_block: le32(b, 20),
            log_block_size: le32(b, 24),
            log_frag_size: le32(b, 28),
            blocks_per_group: le32(b, 32),
            frags_per_group: le32(b, 36),
            inodes_per_group: le32(b, 40),
            mtime: le32(b, 44),
            wtime: le32(b, 48),
            mnt_count: le16(b, 52),
            max_mnt_count: le16(b, 54),
            magic: le16(b, 56),
            state: le16(b, 58),
            errors: le16(b, 60),
            minor_rev_level: le16(b, 62),
            lastcheck: le32(b, 64),
            checkinterval: le32(b, 68),
            creator_os: le32(b, 72),
            rev_level: le32(b, 76),
            def_resuid: le16(b, 80),
            def_gid: le16(b, 82),
            first_ino: le32(b, 84),
            inode_size: le16(b, 88),
            block_group_nr: le16(b, 90),
            feature_compat: le32(b, 92),
            feature_incompat: le32(b, 96),
            feature_ro_compat: le32(b, 100),
            compression_info: le32(b, 200),
            prealloc_blocks: b[204],
            prealloc_dir_blocks: b[205],
            reserved_gdt_blocks: le16(b, 206),
            journal_inum: le32(b, 224),
            journal_dev: le32(b, 228),
            last_orphan: le32(b, 232),
            def_hash_version: b[252],
            jnl_backup_type: b[253],
            group_desc_size: le16(b, 254),
            default_mount_opts: le32(b, 256),
            first_meta_bg: le32(b, 260),
            mkfs_time: le32(b, 264),
        }
    }

    /// Size of a block in bytes.
    pub open spec fn spec_block_size(self) -> int {
        (1024 * pow2(self.log_block_size as nat)) as int
    }

    /// Number of block groups, and so of group descriptors.
    pub open spec fn spec_bgdt_len(self) -> int {
        (self.blocks_count + self.blocks_per_group - 1) / self.blocks_per_group as int
    }

    /// Sector at which the group descriptor table starts: the block that
    /// follows the superblock.
    pub open spec fn spec_bgdt_sector(self) -> int {
        if self.spec_block_size() == 1024 {
            4
        } else {
            self.spec_block_size() / 512
        }
    }

    /// Returns the size of a block in bytes. Block sizes past 2 GiB, which
    /// a 32-bit `usize` cannot hold, are left out.
    pub fn block_size(&self) -> (r: usize)
        requires
            self.log_block_size < 22,
        ensures
            r == self.spec_block_size(),
            1024 <= r <= 0x8000_0000,
    {
        let shift = self.log_block_size as usize;
        proof {
            lemma2_to64();
            if shift < 21 {
                lemma_pow2_strictly_increases(shift as nat, 21);
            }
            assert(pow2(shift as nat) >= 1) by {
                if shift > 0 {
                    lemma_pow2_strictly_increases(0, shift as nat);
                }
            }
            lemma_usize_shl_is_mul(1024, shift);
        }
        1024usize << shift
    }

    /// Returns the length of the BGDT.
    pub fn bgdt_len(&self) -> (r: usize)
        requires
            self.blocks_per_group > 0,
        ensures
            r == self.spec_bgdt_len(),
    {
        let n = self.blocks_count as u64 + self.blocks_per_group as u64 - 1;
        let d = self.blocks_per_group as u64;
        let q = n / d;
        assert(q <= self.blocks_count) by (nonlinear_arith)
            requires
                q == n / d,
                n == self.blocks_count + d - 1,
                d >= 1,
        ;
        q as usize
    }

    /// Returns the sector where the BGDT starts.
    pub fn bgdt_sector(&self) -> (r: usize)
        requires
            self.log_block_size < 22,
        ensures
            r == self.spec_bgdt_sector(),
    {
        let size = self.block_size();
        if size == 1024 {
            4
        } else {
            size / 512
        }
    }

    /// Decodes the superblock in the first `SUPERBLOCK_LEN` bytes of `b`.
    pub fn from_bytes(b: &[u8]) -> (r: SuperBlock)
        requires
            b@.len() >= SUPERBLOCK_LEN,
        ensures
            r == SuperBlock::decode(b@),
    {
        SuperBlock {
            inodes_count: read_u32(b, 0),
            blocks_count: read_u32(b, 4),
            r_blocks_count: read_u32(b, 8),
            free_blocks_count: read_u32(b, 12),
            free_inodes_count: read_u32(b, 16),
            first_data_block: read_u32(b, 20),
            log_block_size: read_u32(b, 24),
            log_frag_size: read_u32(b, 28),
            blocks_per_group: read_u32(b, 32),
            frags_per_group: read_u32(b, 36),
            inodes_per_group: read_u32(b, 40),
            mtime: read_u32(b, 44),
            wtime: read_u32(b, 48),
            mnt_count: read_u16(b, 52),
            max_mnt_count: read_u16(b, 54),
            magic: read_u16(b, 56),
            state: read_u16(b, 58),
            errors: read_u16(b, 60),
            minor_rev_level: read_u16(b, 62),
            lastcheck: read_u32(b, 64),
            checkinterval: read_u32(b, 68),
            creator_os: read_u32(b, 72),
            rev_level: read_u32(b, 76),
            def_resuid: read_u16(b, 80),
            def_gid: read_u16(b, 82),
            first_ino: read_u32(b, 84),
            inode_size: read_u16(b, 88),
            block_group_nr: read_u16(b, 90),
            feature_compat: read_u32(b, 92),
            feature_incompat: read_u32(b, 96),
            feature_ro_compat: read_u32(b, 100),
            compression_info: read_u32(b, 200),
            prealloc_blocks: b[204],
            prealloc_dir_blocks: b[205],
            reserved_gdt_blocks: read_u16(b, 206),
            journal_inum: read_u32(b, 224),
            journal_dev: read_u32(b, 228),
            last_orphan: read_u32(b, 232),
            def_hash_version: b[252],
            jnl_backup_type: b[253],
            group_desc_size: read_u16(b, 254),
            default_mount_opts: read_u32(b, 256),
            first_meta_bg: read_u32(b, 260),
            mkfs_time: read_u32(b, 264),
        }
    }
}

impl GroupDescriptor {
    /// The descriptor that the bytes `b` (at least `GROUP_DESCRIPTOR_LEN` of them) encode.
    pub open spec fn decode(b: Seq<u8>) -> GroupDescriptor {
        GroupDescriptor {
            block_bitmap: le32(b, 0),
            inode_bitmap: le32(b, 4),
            inode_table: le32(b, 8),
            free_blocks_count: le16(b, 12),
            free_inodes_count: le16(b, 14),
            used_dirs_count: le16(b, 16),
            pad: le16(b, 18),
        }
    }

    /// Decodes the descriptor in the first `GROUP_DESCRIPTOR_LEN` bytes of `b`.
    pub fn from_bytes(b: &[u8]) -> (r: GroupDescriptor)
        requires
            b@.len() >= GROUP_DESCRIPTOR_LEN,
        ensures
            r == GroupDescriptor::decode(b@),
    {
        GroupDescriptor {
            block_bitmap: read_u32(b, 0),
            inode_bitmap: read_u32(b, 4),
            inode_table: read_u32(b, 8),
            free_blocks_count: read_u16(b, 12),
            free_inodes_count: read_u16(b, 14),
            used_dirs_count: read_u16(b, 16),
            pad: read_u16(b, 18),
        }
    }
}

impl DiskINode {
    /// This record is what the bytes `b` (at least `INODE_LEN` of them) encode.
    pub open spec fn decodes(self, b: Seq<u8>) -> bool {
        &&& self.type_and_perm == le16(b, 0)
        &&& self.user_id == le16(b, 2)
        &&& self.size_lower == le32(b, 4)
        &&& self.last_access == le32(b, 8)
        &&& self.creation_time == le32(b, 12)
        &&& self.last_modification == le32(b, 16)
        &&& self.deletion_time == le32(b, 20)
        &&& self.group_id == le16(b, 24)
        &&& self.hl_count == le16(b, 26)
        &&& self.sector_count == le32(b, 28)
        &&& self.flags == le32(b, 32)
        &&& self.os_specific == le32(b, 36)
        &&& self.gen_number == le32(b, 100)
        &&& self.ext_attr_block == le32(b, 104)
        &&& self.size_or_acl == le32(b, 108)
        &&& self.fragment_address == le32(b, 112)
        &&& forall|i: int| 0 <= i < 15 ==> #[trigger] self.data_ptr[i] == le32(b, 40 + 4 * i)
    }

    /// Decodes the record in the first `INODE_LEN` bytes of `b`.
    pub fn from_bytes(b: &[u8]) -> (r: DiskINode)
        requires
            b@.len() >= INODE_LEN,
        ensures
            r.decodes(b@),
    {
        let data_ptr: [u32; 15] = [
            read_u32(b, 40),
            read_u32(b, 44),
            read_u32(b, 48),
            read_u32(b, 52),
            read_u32(b, 56),
            read_u32(b, 60),
            read_u32(b, 64),
            read_u32(b, 68),
            read_u32(b, 72),
            read_u32(b, 76),
            read_u32(b, 80),
            read_u32(b, 84),
            read_u32(b, 88),
            read_u32(b, 92),
            read_u32(b, 96),
        ];
        let r = DiskINode {
            type_and_perm: read_u16(b, 0),
            user_id: read_u16(b, 2),
            size_lower: read_u32(b, 4),
            last_access: read_u32(b, 8),
            creation_time: read_u32(b, 12),
            last_modification: read_u32(b, 16),
            deletion_time: read_u32(b, 20),
            group_id: read_u16(b, 24),
            hl_count: read_u16(b, 26),
            sector_count: read_u32(b, 28),
            flags: read_u32(b, 32),
            os_specific: read_u32(b, 36),
            data_ptr,
            gen_number: read_u32(b, 100),
            ext_attr_block: read_u32(b, 104),
            size_or_acl: read_u32(b, 108),
            fragment_address: read_u32(b, 112),
        };
        r
    }

    /// The kind that the top four bits of the mode name.
    pub open spec fn spec_file_type(self) -> FileType {
        let ty = self.type_and_perm / 4096;
        if ty == 0x1 {
            FileType::Fifo
        } else if ty == 0x2 {
            FileType::CharDev
        } else if ty == 0x4 {
            FileType::Directory
        } else if ty == 0x6 {
            FileType::BlockDev
        } else if ty == 0x8 {
            FileType::File
        } else if ty == 0xa {
            FileType::Symlink
        } else if ty == 0xc {
            FileType::Socket
        } else {
            FileType::Unknown
        }
    }

    /// The kind of file the record holds.
    pub fn file_type(&self) -> (r: FileType)
        ensures
            r == self.spec_file_type(),
    {
        let ty = self.type_and_perm / 4096;
        match ty {
            0x1 => FileType::Fifo,
            0x2 => FileType::CharDev,
            0x4 => FileType::Directory,
            0x6 => FileType::BlockDev,
            0x8 => FileType::File,
            0xa => FileType::Symlink,
            0xc => FileType::Socket,
            _ => FileType::Unknown,
        }
    }
}

impl DiskDirEntry {
    /// The entry head that the bytes `b` (at least `DIR_ENTRY_HEAD_LEN` of them) encode.
    pub open spec fn decode(b: Seq<u8>) -> DiskDirEntry {
        DiskDirEntry {
            inode: le32(b, 0),
            entry_size: le16(b, 4),
            name_size: b[6],
            file_type: b[7],
        }
    }

    /// Decodes the entry head in the first `DIR_ENTRY_HEAD_LEN` bytes of `b`.
    pub fn from_bytes(b: &[u8]) -> (r: DiskDirEntry)
        requires
            b@.len() >= DIR_ENTRY_HEAD_LEN,
        ensures
            r == DiskDirEntry::decode(b@),
    {
        DiskDirEntry {
            inode: read_u32(b, 0),
            entry_size: read_u16(b, 4),
            name_size: b[6],
            file_type: b[7],
        }
    }
}

} // verus!
