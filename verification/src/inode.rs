use crate::reader::{get_u16, get_u32, u16_at, u32_at, Record};
use vstd::prelude::*;

verus! {

/// Inode flag: the directory has a hashed index.
pub const INDEX_FL: u32 = 0x1000;

/// The bits of an inode's mode that give the file's type.
pub const MODE_TYPE_MASK: u16 = 0xF000;

/// The file type of a directory.
pub const MODE_DIRECTORY: u16 = 0x4000;

/// What the decoder needs of the first 128 bytes of an inode.
#[derive(Clone, Copy, Debug, PartialEq, Eq, Structural)]
pub struct Inode {
    pub mode: u16,
    pub uid: u16,
    pub size_lo: u32,
    pub gid: u16,
    pub links_count: u16,
    pub blocks_lo: u32,
    pub flags: u32,
    pub size_high: u32,
}

impl Inode {
    /// Whether the inode is a directory.
    pub open spec fn spec_is_directory(self) -> bool {
        self.mode & MODE_TYPE_MASK == MODE_DIRECTORY
    }

    /// Whether the inode is a directory with a hashed index.
    pub open spec fn spec_is_indexed(self) -> bool {
        self.flags & INDEX_FL != 0
    }

    /// The size of the file in bytes.
    pub open spec fn spec_size(self) -> u64 {
        (self.size_lo + 0x1_0000_0000 * self.size_high) as u64
    }

    /// Whether the inode is a directory.
    pub fn is_directory(&self) -> (r: bool)
        ensures
            r == self.spec_is_directory(),
    {
        self.mode & MODE_TYPE_MASK == MODE_DIRECTORY
    }

    /// Whether the inode is a directory with a hashed index.
    pub fn is_indexed(&self) -> (r: bool)
        ensures
            r == self.spec_is_indexed(),
    {
        self.flags & INDEX_FL != 0
    }

    /// The size of the file in bytes.
    pub fn size(&self) -> (r: u64)
        ensures
            r == self.spec_size(),
    {
        let high: u64 = self.size_high as u64;
        high * 0x1_0000_0000 + self.size_lo as u64
    }
}

impl Record for Inode {
    open spec fn size() -> nat {
        128
    }

    open spec fn parse(s: Seq<u8>) -> Inode {
        Inode {
            mode: u16_at(s, 0x00),
            uid: u16_at(s, 0x02),
            size_lo: u32_at(s, 0x04),
            gid: u16_at(s, 0x18),
            links_count: u16_at(s, 0x1A),
            blocks_lo: u32_at(s, 0x1C),
            flags: u32_at(s, 0x20),
            size_high: u32_at(s, 0x6C),
        }
    }

    fn record_size() -> (n: usize) {
        128
    }

    fn decode(bytes: &[u8]) -> (r: Inode) {
        Inode {
            mode: get_u16(bytes, 0x00),
            uid: get_u16(bytes, 0x02),
            size_lo: get_u32(bytes, 0x04),
            gid: get_u16(bytes, 0x18),
            links_count: get_u16(bytes, 0x1A),
            blocks_lo: get_u32(bytes, 0x1C),
            flags: get_u32(bytes, 0x20),
            size_high: get_u32(bytes, 0x6C),
        }
    }
}

} // verus!
