use crate::reader::{get_u16, get_u32, u16_at, u16_bytes, u32_at, u32_bytes, Record};
use crate::reader::{lemma_u16_round_trip, lemma_u32_round_trip};
use crate::superblock::Superblock;
use vstd::prelude::*;

verus! {

/// The low half of a block-group descriptor: 32 bytes, always there.
#[derive(Clone, Copy, Debug, PartialEq, Eq, Structural)]
pub struct BlockGroupDescriptor32 {
    pub block_bitmap_lo: u32,
    pub inode_bitmap_lo: u32,
    pub inode_table_lo: u32,
    pub free_blocks_count_lo: u16,
    pub free_inodes_count_lo: u16,
    pub used_dirs_count_lo: u16,
    pub flags: u16,
    pub exclude_bitmap_lo: u32,
    pub block_bitmap_csum_lo: u16,
    pub inode_bitmap_csum_lo: u16,
    pub itable_unused_lo: u16,
    pub checksum: u16,
}

/// The high half of a block-group descriptor: 32 more bytes where block
/// numbers are 64 bits wide.
#[derive(Clone, Copy, Debug, PartialEq, Eq, Structural)]
pub struct BlockGroupDescriptor64 {
    pub block_bitmap_hi: u32,
    pub inode_bitmap_hi: u32,
    pub inode_table_hi: u32,
    pub free_blocks_count_hi: u16,
    pub free_inodes_count_hi: u16,
    pub used_dirs_count_hi: u16,
    pub itable_unused_hi: u16,
    pub exclude_bitmap_hi: u32,
    pub block_bitmap_csum_hi: u16,
    pub inode_bitmap_csum_hi: u16,
    pub reserved: u32,
}

impl BlockGroupDescriptor32 {
    /// The record laid out in bytes.
    pub open spec fn bytes(self) -> Seq<u8> {
        u32_bytes(self.block_bitmap_lo) + u32_bytes(self.inode_bitmap_lo) + u32_bytes(
            self.inode_table_lo,
        ) + u16_bytes(self.free_blocks_count_lo) + u16_bytes(self.free_inodes_count_lo) + u16_bytes(
            self.used_dirs_count_lo,
        ) + u16_bytes(self.flags) + u32_bytes(self.exclude_bitmap_lo) + u16_bytes(
            self.block_bitmap_csum_lo,
        ) + u16_bytes(self.inode_bitmap_csum_lo) + u16_bytes(self.itable_unused_lo) + u16_bytes(
            self.checksum,
        )
    }
}

impl BlockGroupDescriptor64 {
    /// The record laid out in bytes.
    pub open spec fn bytes(self) -> Seq<u8> {
        u32_bytes(self.block_bitmap_hi) + u32_bytes(self.inode_bitmap_hi) + u32_bytes(
            self.inode_table_hi,
        ) + u16_bytes(self.free_blocks_count_hi) + u16_bytes(self.free_inodes_count_hi) + u16_bytes(
            self.used_dirs_count_hi,
        ) + u16_bytes(self.itable_unused_hi) + u32_bytes(self.exclude_bitmap_hi) + u16_bytes(
            self.block_bitmap_csum_hi,
        ) + u16_bytes(self.inode_bitmap_csum_hi) + u32_bytes(self.reserved)
    }
}

/// The pieces of a descriptor's half, in the widths of its low half.
spec fn pieces_low(s: Seq<u8>) -> Seq<u8> {
    s.subrange(0, 4) + s.subrange(4, 8) + s.subrange(8, 12) + s.subrange(12, 14) + s.subrange(
        14,
        16,
    ) + s.subrange(16, 18) + s.subrange(18, 20) + s.subrange(20, 24) + s.subrange(24, 26)
        + s.subrange(26, 28) + s.subrange(28, 30) + s.subrange(30, 32)
}

/// The pieces of a descriptor's half, in the widths of its high half.
spec fn pieces_high(s: Seq<u8>) -> Seq<u8> {
    s.subrange(0, 4) + s.subrange(4, 8) + s.subrange(8, 12) + s.subrange(12, 14) + s.subrange(
        14,
        16,
    ) + s.subrange(16, 18) + s.subrange(18, 20) + s.subrange(20, 24) + s.subrange(24, 26)
        + s.subrange(26, 28) + s.subrange(28, 32)
}

/// Laying out the low half of a descriptor that 32 bytes hold gives these
/// bytes back.
pub proof fn lemma_descriptor32_round_trip(s: Seq<u8>)
    requires
        s.len() == 32,
    ensures
        BlockGroupDescriptor32::parse(s).bytes() == s,
{
    lemma_u32_round_trip(s, 0);
    lemma_u32_round_trip(s, 4);
    lemma_u32_round_trip(s, 8);
    lemma_u16_round_trip(s, 12);
    lemma_u16_round_trip(s, 14);
    lemma_u16_round_trip(s, 16);
    lemma_u16_round_trip(s, 18);
    lemma_u32_round_trip(s, 20);
    lemma_u16_round_trip(s, 24);
    lemma_u16_round_trip(s, 26);
    lemma_u16_round_trip(s, 28);
    lemma_u16_round_trip(s, 30);
    assert(BlockGroupDescriptor32::parse(s).bytes() =~= pieces_low(s));
    assert(pieces_low(s) =~= s);
}

/// Laying out the high half of a descriptor that 32 bytes hold gives these
/// bytes back.
pub proof fn lemma_descriptor64_round_trip(s: Seq<u8>)
    requires
        s.len() == 32,
    ensures
        BlockGroupDescriptor64::parse(s).bytes() == s,
{
    lemma_u32_round_trip(s, 0);
    lemma_u32_round_trip(s, 4);
    lemma_u32_round_trip(s, 8);
    lemma_u16_round_trip(s, 12);
    lemma_u16_round_trip(s, 14);
    lemma_u16_round_trip(s, 16);
    lemma_u16_round_trip(s, 18);
    lemma_u32_round_trip(s, 20);
    lemma_u16_round_trip(s, 24);
    lemma_u16_round_trip(s, 26);
    lemma_u32_round_trip(s, 28);
    assert(BlockGroupDescriptor64::parse(s).bytes() =~= pieces_high(s));
    assert(pieces_high(s) =~= s);
}

impl Record for BlockGroupDescriptor32 {
    open spec fn size() -> nat {
        32
    }

    open spec fn parse(s: Seq<u8>) -> BlockGroupDescriptor32 {
        BlockGroupDescriptor32 {
            block_bitmap_lo: u32_at(s, 0x00),
            inode_bitmap_lo: u32_at(s, 0x04),
            inode_table_lo: u32_at(s, 0x08),
            free_blocks_count_lo: u16_at(s, 0x0C),
            free_inodes_count_lo: u16_at(s, 0x0E),
            used_dirs_count_lo: u16_at(s, 0x10),
            flags: u16_at(s, 0x12),
            exclude_bitmap_lo: u32_at(s, 0x14),
            block_bitmap_csum_lo: u16_at(s, 0x18),
            inode_bitmap_csum_lo: u16_at(s, 0x1A),
            itable_unused_lo: u16_at(s, 0x1C),
            checksum: u16_at(s, 0x1E),
        }
    }

    fn record_size() -> (n: usize) {
        32
    }

    fn decode(bytes: &[u8]) -> (r: BlockGroupDescriptor32) {
        BlockGroupDescriptor32 {
            block_bitmap_lo: get_u32(bytes, 0x00),
            inode_bitmap_lo: get_u32(bytes, 0x04),
            inode_table_lo: get_u32(bytes, 0x08),
            free_blocks_count_lo: get_u16(bytes, 0x0C),
            free_inodes_count_lo: get_u16(bytes, 0x0E),
            used_dirs_count_lo: get_u16(bytes, 0x10),
            flags: get_u16(bytes, 0x12),
            exclude_bitmap_lo: get_u32(bytes, 0x14),
            block_bitmap_csum_lo: get_u16(bytes, 0x18),
            inode_bitmap_csum_lo: get_u16(bytes, 0x1A),
            itable_unused_lo: get_u16(bytes, 0x1C),
            checksum: get_u16(bytes, 0x1E),
        }
    }
}

impl Record for BlockGroupDescriptor64 {
    open spec fn size() -> nat {
        32
    }

    open spec fn parse(s: Seq<u8>) -> BlockGroupDescriptor64 {
        BlockGroupDescriptor64 {
            block_bitmap_hi: u32_at(s, 0x00),
            inode_bitmap_hi: u32_at(s, 0x04),
            inode_table_hi: u32_at(s, 0x08),
            free_blocks_count_hi: u16_at(s, 0x0C),
            free_inodes_count_hi: u16_at(s, 0x0E),
            used_dirs_count_hi: u16_at(s, 0x10),
            itable_unused_hi: u16_at(s, 0x12),
            exclude_bitmap_hi: u32_at(s, 0x14),
            block_bitmap_csum_hi: u16_at(s, 0x18),
            inode_bitmap_csum_hi: u16_at(s, 0x1A),
            reserved: u32_at(s, 0x1C),
        }
    }

    fn record_size() -> (n: usize) {
        32
    }

    fn decode(bytes: &[u8]) -> (r: BlockGroupDescriptor64) {
        BlockGroupDescriptor64 {
            block_bitmap_hi: get_u32(bytes, 0x00),
            inode_bitmap_hi: get_u32(bytes, 0x04),
            inode_table_hi: get_u32(bytes, 0x08),
            free_blocks_count_hi: get_u16(bytes, 0x0C),
            free_inodes_count_hi: get_u16(bytes, 0x0E),
            used_dirs_count_hi: get_u16(bytes, 0x10),
            itable_unused_hi: get_u16(bytes, 0x12),
            exclude_bitmap_hi: get_u32(bytes, 0x14),
            block_bitmap_csum_hi: get_u16(bytes, 0x18),
            inode_bitmap_csum_hi: get_u16(bytes, 0x1A),
            reserved: get_u32(bytes, 0x1C),
        }
    }
}

/// One block group: where its descriptor lies in the image, the
/// descriptor's halves, and, once it has been located, the byte at which
/// the group's inode table starts.
#[derive(Clone, Copy, Debug, PartialEq, Eq, Structural)]
pub struct Bg {
    pub start: u64,
    pub b32: BlockGroupDescriptor32,
    pub b64: Option<BlockGroupDescriptor64>,
    pub inode_table: Option<u64>,
}

impl Bg {
    /// The block group whose descriptor lies at the byte `off` of `image`,
    /// with its high half where `wide`.
    pub open spec fn spec_at(image: Seq<u8>, off: int, wide: bool) -> Bg {
        Bg {
            start: off as u64,
            b32: BlockGroupDescriptor32::parse(image.subrange(off, off + 32)),
            b64: if wide {
                Some(BlockGroupDescriptor64::parse(image.subrange(off + 32, off + 64)))
            } else {
                None
            },
            inode_table: None,
        }
    }

    /// The block at which the group's inode table starts.
    pub open spec fn spec_inode_table_block(self) -> u64 {
        match self.b64 {
            Some(high) => (self.b32.inode_table_lo + 0x1_0000_0000 * high.inode_table_hi) as u64,
            None => self.b32.inode_table_lo as u64,
        }
    }

    /// The byte in the image at which the group's inode table starts, in a
    /// filesystem `s` whose partition starts at `start`; `None` where 64
    /// bits cannot hold it.
    pub open spec fn spec_inode_table(self, s: Superblock, start: u64) -> Option<u64> {
        let at = start + self.spec_inode_table_block() * s.spec_block_size();
        if at <= u64::MAX {
            Some(at as u64)
        } else {
            None
        }
    }

    /// A block group from the place of its descriptor and the descriptor's
    /// halves. Its inode table is not located yet.
    pub fn init(start: u64, b32: BlockGroupDescriptor32, b64: Option<BlockGroupDescriptor64>) -> (r:
        Bg)
        ensures
            r == (Bg { start, b32, b64, inode_table: None }),
    {
        Bg { start, b32, b64, inode_table: None }
    }

    /// The block at which the group's inode table starts.
    pub fn inode_table_block(&self) -> (r: u64)
        ensures
            r == self.spec_inode_table_block(),
    {
        match self.b64 {
            Some(high) => {
                let hi: u64 = high.inode_table_hi as u64;
                hi * 0x1_0000_0000 + self.b32.inode_table_lo as u64
            },
            None => self.b32.inode_table_lo as u64,
        }
    }

    /// Locates the group's inode table in the image.
    pub fn populate_inodes(&mut self, s: &Superblock, start: u64)
        requires
            s.log_block_size <= 6,
        ensures
            *final(self) == (Bg { inode_table: old(self).spec_inode_table(*s, start), ..*old(self) }),
    {
        let block: u128 = self.inode_table_block() as u128;
        let bs: u128 = s.block_size() as u128;
        assert(block * bs <= 0xFFFF_FFFF_FFFF_FFFF * 65536) by (nonlinear_arith)
            requires
                block <= 0xFFFF_FFFF_FFFF_FFFF,
                bs <= 65536,
        ;
        let at: u128 = start as u128 + block * bs;
        if at <= u64::MAX as u128 {
            self.inode_table = Some(at as u64);
        } else {
            self.inode_table = None;
        }
    }
}

} // verus!
