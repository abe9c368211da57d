use crate::error::DecodeError;
use crate::reader::{get_u16, get_u32, u16_at, u32_at, Record};
use vstd::prelude::*;

verus! {

/// The magic number of an ext-family superblock.
pub const EXT_MAGIC: u16 = 0xEF53;

/// Where the superblock lies, counted from the start of its partition.
pub const SUPERBLOCK_OFFSET: u64 = 1024;

/// Incompatible feature: block numbers are 64 bits wide.
pub const INCOMPAT_64BIT: u32 = 0x80;

/// Incompatible feature: directories may have three index levels.
pub const INCOMPAT_LARGEDIR: u32 = 0x4000;

/// Read-only compatible feature: group descriptors carry a CRC-16.
pub const RO_COMPAT_GDT_CSUM: u32 = 0x10;

/// Read-only compatible feature: metadata carries CRC-32C checksums.
pub const RO_COMPAT_METADATA_CSUM: u32 = 0x400;

/// What the decoder needs of an ext-family superblock.
#[derive(Clone, Copy, Debug)]
pub struct Superblock {
    pub inodes_count: u32,
    pub blocks_count_lo: u32,
    pub blocks_count_hi: u32,
    pub log_block_size: u32,
    pub blocks_per_group: u32,
    pub inodes_per_group: u32,
    pub magic: u16,
    pub inode_size: u16,
    pub feature_compat: u32,
    pub feature_incompat: u32,
    pub feature_ro_compat: u32,
    pub uuid: [u8; 16],
    pub desc_size: u16,
    pub checksum_seed: u32,
}

impl Superblock {
    /// Whether block numbers are 64 bits wide.
    pub open spec fn spec_uses_64bit(self) -> bool {
        self.feature_incompat & INCOMPAT_64BIT != 0
    }

    /// Whether metadata carries CRC-32C checksums.
    pub open spec fn spec_metadata_csum(self) -> bool {
        self.feature_ro_compat & RO_COMPAT_METADATA_CSUM != 0
    }

    /// Whether group descriptors carry the older CRC-16.
    pub open spec fn spec_has_feature_gdt_csum(self) -> bool {
        self.feature_ro_compat & RO_COMPAT_GDT_CSUM != 0
    }

    /// Whether directories may have three index levels.
    pub open spec fn spec_largedir(self) -> bool {
        self.feature_incompat & INCOMPAT_LARGEDIR != 0
    }

    /// The constraints on a superblock: the magic number is there, the block
    /// size is one of 1 KiB to 64 KiB, groups hold blocks, and wide
    /// descriptors have room for their high half.
    pub open spec fn well_formed(self) -> bool {
        &&& self.magic == EXT_MAGIC
        &&& self.log_block_size <= 6
        &&& self.blocks_per_group != 0
        &&& (self.spec_uses_64bit() ==> self.desc_size >= 64)
    }

    /// Which error a superblock that is not well formed gives.
    pub open spec fn spec_check(self) -> Result<(), DecodeError> {
        if self.magic != EXT_MAGIC {
            Err(DecodeError::MagicMismatch)
        } else if self.log_block_size > 6 || self.blocks_per_group == 0 || (self.spec_uses_64bit()
            && self.desc_size < 64) {
            Err(DecodeError::InvariantViolation)
        } else {
            Ok(())
        }
    }

    /// The size of a block in bytes.
    pub open spec fn spec_block_size(self) -> u32 {
        1024u32 << self.log_block_size
    }

    /// The number of blocks: the low word alone, or both words where block
    /// numbers are 64 bits wide.
    pub open spec fn spec_blocks_count(self) -> u64 {
        if self.spec_uses_64bit() {
            (self.blocks_count_lo + 0x1_0000_0000 * self.blocks_count_hi) as u64
        } else {
            self.blocks_count_lo as u64
        }
    }

    /// The number of block groups: the blocks divided by the blocks of a
    /// group, rounded up.
    pub open spec fn spec_number_of_groups(self) -> u64 {
        let blocks = self.spec_blocks_count() as int;
        let per_group = self.blocks_per_group as int;
        if blocks % per_group == 0 {
            (blocks / per_group) as u64
        } else {
            (blocks / per_group + 1) as u64
        }
    }

    /// The size of one group descriptor in the table.
    pub open spec fn spec_descriptor_size(self) -> u16 {
        if self.spec_uses_64bit() {
            self.desc_size
        } else {
            32
        }
    }

    /// The byte in the image at which the descriptor table of a filesystem
    /// starts whose partition starts at `start`: the block after the one that
    /// holds the superblock.
    pub open spec fn spec_table_offset(self, start: u64) -> int {
        if self.spec_block_size() == 1024 {
            start + 2 * 1024
        } else {
            start + self.spec_block_size()
        }
    }

    /// The byte in the image at which the inode with the number `n` lies,
    /// where `table` is the byte at which the inode table of its group starts.
    pub open spec fn spec_inode_offset(self, table: u64, n: u32) -> int {
        table + ((n - 1) % (self.inodes_per_group as int)) * self.inode_size
    }

    /// The group that holds the inode with the number `n`.
    pub open spec fn spec_inode_group(self, n: u32) -> int {
        (n - 1) / (self.inodes_per_group as int)
    }

    /// Checks the constraints on a superblock.
    pub fn check(&self) -> (r: Result<(), DecodeError>)
        ensures
            r == self.spec_check(),
            r is Ok <==> self.well_formed(),
    {
        if self.magic != EXT_MAGIC {
            return Err(DecodeError::MagicMismatch);
        }
        if self.log_block_size > 6 || self.blocks_per_group == 0 {
            return Err(DecodeError::InvariantViolation);
        }
        if self.uses_64bit() && self.desc_size < 64 {
            return Err(DecodeError::InvariantViolation);
        }
        Ok(())
    }

    /// Whether block numbers are 64 bits wide.
    pub fn uses_64bit(&self) -> (r: bool)
        ensures
            r == self.spec_uses_64bit(),
    {
        self.feature_incompat & INCOMPAT_64BIT != 0
    }

    /// Whether metadata carries CRC-32C checksums.
    pub fn metadata_csum(&self) -> (r: bool)
        ensures
            r == self.spec_metadata_csum(),
    {
        self.feature_ro_compat & RO_COMPAT_METADATA_CSUM != 0
    }

    /// Whether group descriptors carry the older CRC-16.
    pub fn has_feature_gdt_csum(&self) -> (r: bool)
        ensures
            r == self.spec_has_feature_gdt_csum(),
    {
        self.feature_ro_compat & RO_COMPAT_GDT_CSUM != 0
    }

    /// Whether directories may have three index levels.
    pub fn largedir(&self) -> (r: bool)
        ensures
            r == self.spec_largedir(),
    {
        self.feature_incompat & INCOMPAT_LARGEDIR != 0
    }

    /// The size of a block in bytes.
    pub fn block_size(&self) -> (r: u32)
        requires
            self.log_block_size <= 6,
        ensures
            r == self.spec_block_size(),
            1024 <= r <= 65536,
    {
        let n = self.log_block_size;
        assert(n <= 6 ==> 1024u32 <= (1024u32 << n) <= 65536u32) by (bit_vector);
        1024u32 << n
    }

    /// The number of blocks of the filesystem.
    pub fn blocks_count(&self) -> (r: u64)
        ensures
            r == self.spec_blocks_count(),
    {
        if self.uses_64bit() {
            let hi: u64 = self.blocks_count_hi as u64;
            hi * 0x1_0000_0000 + self.blocks_count_lo as u64
        } else {
            self.blocks_count_lo as u64
        }
    }

    /// The number of block groups.
    pub fn number_of_groups(&self) -> (r: u64)
        requires
            self.blocks_per_group != 0,
        ensures
            r == self.spec_number_of_groups(),
    {
        let blocks = self.blocks_count();
        let per_group: u64 = self.blocks_per_group as u64;
        if blocks % per_group == 0 {
            blocks / per_group
        } else {
            assert(per_group >= 2) by {
                if per_group == 1 {
                    assert(blocks % 1 == 0);
                }
            }
            assert(blocks / per_group < u64::MAX) by (nonlinear_arith)
                requires
                    per_group >= 2,
                    blocks <= u64::MAX,
            ;
            blocks / per_group + 1
        }
    }

    /// The size of one group descriptor in the table.
    pub fn descriptor_size(&self) -> (r: u16)
        ensures
            r == self.spec_descriptor_size(),
    {
        if self.uses_64bit() {
            self.desc_size
        } else {
            32
        }
    }

    /// The byte in the image at which the descriptor table starts, for a
    /// partition that starts at `start`.
    pub fn get_group_descriptor_table_offset(&self, start: u64) -> (r: u64)
        requires
            self.log_block_size <= 6,
            self.spec_table_offset(start) <= u64::MAX,
        ensures
            r == self.spec_table_offset(start),
    {
        let bs = self.block_size();
        if bs == 1024 {
            start + 2048
        } else {
            start + bs as u64
        }
    }

    /// The byte in the image at which the inode `n` lies, where `table` is
    /// the byte at which the inode table of its group starts. `None` where
    /// that byte is beyond what 64 bits can address.
    pub fn inode_offset(&self, table: u64, n: u32) -> (r: Option<u64>)
        requires
            n >= 1,
            self.inodes_per_group != 0,
        ensures
            r == (if self.spec_inode_offset(table, n) <= u64::MAX {
                Some(self.spec_inode_offset(table, n) as u64)
            } else {
                None
            }),
    {
        let index: u64 = ((n - 1) % self.inodes_per_group) as u64;
        let size: u64 = self.inode_size as u64;
        assert(index * size <= 0xFFFF_FFFF * 0xFFFF) by (nonlinear_arith)
            requires
                index <= 0xFFFF_FFFF,
                size <= 0xFFFF,
        ;
        let within: u64 = index * size;
        if within > u64::MAX - table {
            None
        } else {
            Some(table + within)
        }
    }

    /// The group that holds the inode with the number `n`.
    pub fn inode_group(&self, n: u32) -> (r: u32)
        requires
            n >= 1,
            self.inodes_per_group != 0,
        ensures
            r == self.spec_inode_group(n),
    {
        (n - 1) / self.inodes_per_group
    }
}

impl Record for Superblock {
    open spec fn size() -> nat {
        1024
    }

    open spec fn parse(s: Seq<u8>) -> Superblock {
        Superblock {
            inodes_count: u32_at(s, 0x00),
            blocks_count_lo: u32_at(s, 0x04),
            blocks_count_hi: u32_at(s, 0x150),
            log_block_size: u32_at(s, 0x18),
            blocks_per_group: u32_at(s, 0x20),
            inodes_per_group: u32_at(s, 0x28),
            magic: u16_at(s, 0x38),
            inode_size: u16_at(s, 0x58),
            feature_compat: u32_at(s, 0x5C),
            feature_incompat: u32_at(s, 0x60),
            feature_ro_compat: u32_at(s, 0x64),
            uuid: [
                s[0x68],
                s[0x69],
                s[0x6A],
                s[0x6B],
                s[0x6C],
                s[0x6D],
                s[0x6E],
                s[0x6F],
                s[0x70],
                s[0x71],
                s[0x72],
                s[0x73],
                s[0x74],
                s[0x75],
                s[0x76],
                s[0x77],
            ],
            desc_size: u16_at(s, 0xFE),
            checksum_seed: u32_at(s, 0x270),
        }
    }

    fn record_size() -> (n: usize) {
        1024
    }

    fn decode(bytes: &[u8]) -> (r: Superblock) {
        Superblock {
            inodes_count: get_u32(bytes, 0x00),
            blocks_count_lo: get_u32(bytes, 0x04),
            blocks_count_hi: get_u32(bytes, 0x150),
            log_block_size: get_u32(bytes, 0x18),
            blocks_per_group: get_u32(bytes, 0x20),
            inodes_per_group: get_u32(bytes, 0x28),
            magic: get_u16(bytes, 0x38),
            inode_size: get_u16(bytes, 0x58),
            feature_compat: get_u32(bytes, 0x5C),
            feature_incompat: get_u32(bytes, 0x60),
            feature_ro_compat: get_u32(bytes, 0x64),
            uuid: [
                bytes[0x68],
                bytes[0x69],
                bytes[0x6A],
                bytes[0x6B],
                bytes[0x6C],
                bytes[0x6D],
                bytes[0x6E],
                bytes[0x6F],
                bytes[0x70],
                bytes[0x71],
                bytes[0x72],
                bytes[0x73],
                bytes[0x74],
                bytes[0x75],
                bytes[0x76],
                bytes[0x77],
            ],
            desc_size: get_u16(bytes, 0xFE),
            checksum_seed: get_u32(bytes, 0x270),
        }
    }
}

/// What reading the superblock of a partition gives: the image has to hold
/// the 1024 bytes of the superblock, and the superblock has to pass its
/// checks.
pub open spec fn spec_read_superblock(image: Seq<u8>, start: u64) -> Result<
    Superblock,
    DecodeError,
> {
    if start + SUPERBLOCK_OFFSET + 1024 > image.len() {
        Err(DecodeError::IoError)
    } else {
        let sb = Superblock::parse(
            image.subrange(start + SUPERBLOCK_OFFSET, start + SUPERBLOCK_OFFSET + 1024),
        );
        match sb.spec_check() {
            Ok(_) => Ok(sb),
            Err(e) => Err(e),
        }
    }
}

/// Reads and checks the superblock of the partition that starts at the byte
/// `start` of `image`.
pub fn read_superblock(image: &[u8], start: u64) -> (r: Result<Superblock, DecodeError>)
    ensures
        r == spec_read_superblock(image@, start),
        r is Ok ==> r->Ok_0.well_formed(),
{
    let len = image.len();
    if start > len as u64 || (len - start as usize) < 2048 {
        return Err(DecodeError::IoError);
    }
    let at: usize = start as usize + 1024;
    let sb = Superblock::decode(vstd::slice::slice_subrange(image, at, at + 1024));
    match sb.check() {
        Ok(_) => Ok(sb),
        Err(e) => Err(e),
    }
}

} // verus!
