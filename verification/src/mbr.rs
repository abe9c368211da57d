use crate::error::DecodeError;
use crate::reader::{get_u16, get_u32, lemma_u32_round_trip, u16_at, u32_at, u32_bytes, Record};
use vstd::prelude::*;

verus! {

/// The boot signature: the bytes `0x55 0xAA` at the end of the sector.
pub const BOOT_SIGNATURE: u16 = 0xAA55;

/// The partition type of the entry that guards a GPT disk.
pub const PROTECTIVE_TYPE: u8 = 0xEE;

/// Bytes of a sector, the unit that block addresses count.
pub const SECTOR_SIZE: u64 = 512;

/// One of the four partition entries of an MBR.
#[derive(Clone, Copy, Debug)]
pub struct MbrEntry {
    pub status: u8,
    pub first_chs: [u8; 3],
    pub partition_type: u8,
    pub last_chs: [u8; 3],
    /// The sector at which the partition starts.
    pub first_lba: u32,
    /// How many sectors the partition has.
    pub sectors: u32,
}

impl MbrEntry {
    /// The record laid out in bytes.
    pub open spec fn bytes(self) -> Seq<u8> {
        seq![self.status] + self.first_chs@ + seq![self.partition_type] + self.last_chs@
            + u32_bytes(self.first_lba) + u32_bytes(self.sectors)
    }

    /// The byte of the image at which the partition starts.
    pub open spec fn spec_start(self) -> u64 {
        (self.first_lba * SECTOR_SIZE) as u64
    }

    /// The length of the partition in bytes.
    pub open spec fn spec_length(self) -> u64 {
        (self.sectors * SECTOR_SIZE) as u64
    }

    /// The byte of the image at which the partition starts.
    pub fn start(&self) -> (r: u64)
        ensures
            r == self.spec_start(),
    {
        self.first_lba as u64 * SECTOR_SIZE
    }

    /// The length of the partition in bytes.
    pub fn length(&self) -> (r: u64)
        ensures
            r == self.spec_length(),
    {
        self.sectors as u64 * SECTOR_SIZE
    }
}

impl Record for MbrEntry {
    open spec fn size() -> nat {
        16
    }

    open spec fn parse(s: Seq<u8>) -> MbrEntry {
        MbrEntry {
            status: s[0],
            first_chs: [s[1], s[2], s[3]],
            partition_type: s[4],
            last_chs: [s[5], s[6], s[7]],
            first_lba: u32_at(s, 8),
            sectors: u32_at(s, 12),
        }
    }

    fn record_size() -> (n: usize) {
        16
    }

    fn decode(bytes: &[u8]) -> (r: MbrEntry) {
        MbrEntry {
            status: bytes[0],
            first_chs: [bytes[1], bytes[2], bytes[3]],
            partition_type: bytes[4],
            last_chs: [bytes[5], bytes[6], bytes[7]],
            first_lba: get_u32(bytes, 8),
            sectors: get_u32(bytes, 12),
        }
    }
}

/// The first sector of an image, without its 440 bytes of bootstrap code.
#[derive(Clone, Copy, Debug)]
pub struct Mbr {
    pub disk_signature: u32,
    pub reserved: u16,
    pub first: MbrEntry,
    pub second: MbrEntry,
    pub third: MbrEntry,
    pub fourth: MbrEntry,
    pub boot_sig: u16,
}

impl Mbr {
    /// The four partition entries in their order on disk.
    pub open spec fn spec_entries(self) -> Seq<MbrEntry> {
        seq![self.first, self.second, self.third, self.fourth]
    }

    /// Whether one of the four entries is the one that guards a GPT disk.
    pub open spec fn spec_is_protective(self) -> bool {
        exists|i: int|
            0 <= i < 4 && (#[trigger] self.spec_entries()[i]).partition_type == PROTECTIVE_TYPE
    }

    /// The four partition entries in their order on disk.
    pub fn entries(&self) -> (r: [MbrEntry; 4])
        ensures
            r@ == self.spec_entries(),
    {
        let r = [self.first, self.second, self.third, self.fourth];
        assert(r@ =~= self.spec_entries());
        r
    }

    /// Whether one of the four entries is the one that guards a GPT disk.
    pub fn is_protective(&self) -> (r: bool)
        ensures
            r == self.spec_is_protective(),
    {
        let r = self.first.partition_type == PROTECTIVE_TYPE || self.second.partition_type
            == PROTECTIVE_TYPE || self.third.partition_type == PROTECTIVE_TYPE
            || self.fourth.partition_type == PROTECTIVE_TYPE;
        proof {
            let e = self.spec_entries();
            assert(e[0] == self.first && e[1] == self.second && e[2] == self.third && e[3]
                == self.fourth);
        }
        r
    }
}

impl Record for Mbr {
    open spec fn size() -> nat {
        512
    }

    open spec fn parse(s: Seq<u8>) -> Mbr {
        Mbr {
            disk_signature: u32_at(s, 440),
            reserved: u16_at(s, 444),
            first: MbrEntry::parse(s.subrange(446, 462)),
            second: MbrEntry::parse(s.subrange(462, 478)),
            third: MbrEntry::parse(s.subrange(478, 494)),
            fourth: MbrEntry::parse(s.subrange(494, 510)),
            boot_sig: u16_at(s, 510),
        }
    }

    fn record_size() -> (n: usize) {
        512
    }

    fn decode(bytes: &[u8]) -> (r: Mbr) {
        let _len = bytes.len();
        Mbr {
            disk_signature: get_u32(bytes, 440),
            reserved: get_u16(bytes, 444),
            first: MbrEntry::decode(vstd::slice::slice_subrange(bytes, 446, 462)),
            second: MbrEntry::decode(vstd::slice::slice_subrange(bytes, 462, 478)),
            third: MbrEntry::decode(vstd::slice::slice_subrange(bytes, 478, 494)),
            fourth: MbrEntry::decode(vstd::slice::slice_subrange(bytes, 494, 510)),
            boot_sig: get_u16(bytes, 510),
        }
    }
}

/// Laying out the partition entry that sixteen bytes hold gives these
/// bytes back.
pub proof fn lemma_mbr_entry_round_trip(s: Seq<u8>)
    requires
        s.len() == 16,
    ensures
        MbrEntry::parse(s).bytes() == s,
{
    let e = MbrEntry::parse(s);
    lemma_u32_round_trip(s, 8);
    lemma_u32_round_trip(s, 12);
    assert(seq![e.status] =~= s.subrange(0, 1));
    assert(e.first_chs@ =~= s.subrange(1, 4));
    assert(seq![e.partition_type] =~= s.subrange(4, 5));
    assert(e.last_chs@ =~= s.subrange(5, 8));
    assert(e.bytes() =~= s.subrange(0, 1) + s.subrange(1, 4) + s.subrange(4, 5) + s.subrange(5, 8)
        + s.subrange(8, 12) + s.subrange(12, 16));
    assert(s.subrange(0, 1) + s.subrange(1, 4) + s.subrange(4, 5) + s.subrange(5, 8) + s.subrange(
        8,
        12,
    ) + s.subrange(12, 16) =~= s);
}

/// What reading the MBR of an image gives: the first 512 bytes have to be
/// there and have to end in the boot signature.
pub open spec fn spec_read_mbr(image: Seq<u8>) -> Result<Mbr, DecodeError> {
    if image.len() < 512 {
        Err(DecodeError::IoError)
    } else if u16_at(image, 510) != BOOT_SIGNATURE {
        Err(DecodeError::MagicMismatch)
    } else {
        Ok(Mbr::parse(image.subrange(0, 512)))
    }
}

/// Reads the MBR from the first sector of `image`.
pub fn read_mbr(image: &[u8]) -> (r: Result<Mbr, DecodeError>)
    ensures
        r == spec_read_mbr(image@),
        r is Ok ==> image@.len() >= 512 && r->Ok_0.boot_sig == BOOT_SIGNATURE && image@[510]
            == 0x55 && image@[511] == 0xAA,
{
    if image.len() < 512 {
        return Err(DecodeError::IoError);
    }
    let mbr = Mbr::decode(vstd::slice::slice_subrange(image, 0, 512));
    if mbr.boot_sig != BOOT_SIGNATURE {
        return Err(DecodeError::MagicMismatch);
    }
    Ok(mbr)
}

} // verus!
