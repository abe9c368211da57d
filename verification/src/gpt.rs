use crate::error::DecodeError;
use crate::reader::{get_u128, get_u32, get_u64, u128_at, u32_at, u32_bytes, u64_at, u64_bytes, Record};
use crate::reader::{lemma_u32_round_trip, lemma_u64_round_trip};
use crate::summer::{crc32_bytes, gpt_algorithm, spec_crc32, zero_ranges, zeroed, Algorithm};
use vstd::prelude::*;
use vstd::slice::slice_subrange;

verus! {

/// The byte of the image at which the GPT header lies: the second sector.
pub const GPT_HEADER_OFFSET: u64 = 512;

/// The header of a GUID partition table, without the reserved rest of its
/// sector.
#[derive(Clone, Copy, Debug)]
pub struct Gpt {
    /// The eight bytes `EFI PART`.
    pub signature: [u8; 8],
    pub revision: [u8; 4],
    /// The size of the header in bytes.
    pub size: u32,
    /// CRC-32 of the header, computed with this field zeroed.
    pub crc32: u32,
    pub reserved: [u8; 4],
    pub self_lba: u64,
    pub alt_lba: u64,
    pub first_usable_block: u64,
    pub last_usable_block: u64,
    pub guid: [u8; 16],
    /// The sector at which the array of partition entries starts.
    pub gpe_table_start: u64,
    /// How many partition entries the array has.
    pub gpe_table_entries: u32,
    /// The size of one partition entry in bytes.
    pub gpe_table_entry_size: u32,
    /// CRC-32 of the array of partition entries.
    pub gpe_table_crc32: u32,
}

/// The bytes `EFI PART`.
pub open spec fn efi_part() -> Seq<u8> {
    seq![0x45u8, 0x46u8, 0x49u8, 0x20u8, 0x50u8, 0x41u8, 0x52u8, 0x54u8]
}

/// The CRC profile of the GPT.
pub open spec fn gpt_profile() -> Algorithm {
    Algorithm { poly: 0x04C1_1DB7, init: 0xFFFF_FFFF, refin: true, refout: true, xorout: 0xFFFF_FFFF }
}

impl Gpt {
    /// The header laid out in its 92 bytes.
    pub open spec fn bytes(self) -> Seq<u8> {
        self.signature@ + self.revision@ + u32_bytes(self.size) + u32_bytes(self.crc32)
            + self.reserved@ + u64_bytes(self.self_lba) + u64_bytes(self.alt_lba) + u64_bytes(
            self.first_usable_block,
        ) + u64_bytes(self.last_usable_block) + self.guid@ + u64_bytes(self.gpe_table_start)
            + u32_bytes(self.gpe_table_entries) + u32_bytes(self.gpe_table_entry_size) + u32_bytes(
            self.gpe_table_crc32,
        )
    }

    /// Whether the signature is `EFI PART`.
    pub open spec fn spec_signature_ok(self) -> bool {
        self.signature@ == efi_part()
    }

    /// The byte of the image at which the array of partition entries starts.
    pub open spec fn spec_table_offset(self) -> int {
        self.gpe_table_start * 512
    }

    /// The length of the array of partition entries in bytes.
    pub open spec fn spec_table_length(self) -> int {
        self.gpe_table_entries * self.gpe_table_entry_size
    }

    /// Whether the size of an entry is 128 times a power of two.
    pub open spec fn spec_entry_size_ok(self) -> bool {
        self.gpe_table_entry_size >= 128 && self.gpe_table_entry_size & ((
        self.gpe_table_entry_size - 1) as u32) == 0
    }

    /// The outcome of checking the header's checksum against an image: the
    /// header's bytes have to lie in the image, and the CRC-32 over them,
    /// with the checksum's own four bytes zeroed, has to be the stored one.
    pub open spec fn spec_check_header_crc(self, image: Seq<u8>) -> Result<(), DecodeError> {
        if GPT_HEADER_OFFSET + self.size > image.len() {
            Err(DecodeError::IoError)
        } else if spec_crc32(
            gpt_profile(),
            zeroed(
                image.subrange(GPT_HEADER_OFFSET as int, GPT_HEADER_OFFSET + self.size),
                seq![(16usize, 20usize)],
            ),
        ) != self.crc32 {
            Err(DecodeError::ChecksumMismatch)
        } else {
            Ok(())
        }
    }

    /// The outcome of checking the checksum of the entry array against an
    /// image: the array has to lie in the image, and the CRC-32 over it has
    /// to be the stored one.
    pub open spec fn spec_check_table_crc(self, image: Seq<u8>) -> Result<(), DecodeError> {
        if self.spec_table_offset() + self.spec_table_length() > image.len() {
            Err(DecodeError::IoError)
        } else if spec_crc32(
            gpt_profile(),
            image.subrange(
                self.spec_table_offset(),
                self.spec_table_offset() + self.spec_table_length(),
            ),
        ) != self.gpe_table_crc32 {
            Err(DecodeError::ChecksumMismatch)
        } else {
            Ok(())
        }
    }

    /// Whether the signature is `EFI PART`.
    pub fn signature_ok(&self) -> (r: bool)
        ensures
            r == self.spec_signature_ok(),
    {
        let s = &self.signature;
        let r = s[0] == 0x45 && s[1] == 0x46 && s[2] == 0x49 && s[3] == 0x20 && s[4] == 0x50
            && s[5] == 0x41 && s[6] == 0x52 && s[7] == 0x54;
        proof {
            if r {
                assert(self.signature@ =~= efi_part());
            } else {
                assert(efi_part()[0] == 0x45 && efi_part()[1] == 0x46 && efi_part()[2] == 0x49
                    && efi_part()[3] == 0x20 && efi_part()[4] == 0x50 && efi_part()[5] == 0x41
                    && efi_part()[6] == 0x52 && efi_part()[7] == 0x54);
            }
        }
        r
    }

    /// Whether the size of an entry is 128 times a power of two.
    pub fn entry_size_ok(&self) -> (r: bool)
        ensures
            r == self.spec_entry_size_ok(),
    {
        let n = self.gpe_table_entry_size;
        n >= 128 && n & (n - 1) == 0
    }

    /// Checks the header's checksum against `image`.
    pub fn check_header_crc(&self, image: &[u8]) -> (r: Result<(), DecodeError>)
        ensures
            r == self.spec_check_header_crc(image@),
    {
        let len: usize = image.len();
        if len < 512 || self.size as u64 > (len - 512) as u64 {
            return Err(DecodeError::IoError);
        }
        let header = slice_subrange(image, 512, 512 + self.size as usize);
        let ranges: [(usize, usize); 1] = [(16, 20)];
        assert(ranges@ =~= seq![(16usize, 20usize)]);
        let input = zero_ranges(header, ranges.as_slice());
        let algo = gpt_algorithm();
        if crc32_bytes(&algo, input.as_slice()) != self.crc32 {
            return Err(DecodeError::ChecksumMismatch);
        }
        Ok(())
    }

    /// Checks the checksum of the entry array against `image`.
    pub fn check_table_crc(&self, image: &[u8]) -> (r: Result<(), DecodeError>)
        ensures
            r == self.spec_check_table_crc(image@),
    {
        let len: u64 = image.len() as u64;
        let count: u64 = self.gpe_table_entries as u64;
        let each: u64 = self.gpe_table_entry_size as u64;
        assert(count * each <= 0xFFFF_FFFF * 0xFFFF_FFFF) by (nonlinear_arith)
            requires
                count <= 0xFFFF_FFFF,
                each <= 0xFFFF_FFFF,
        ;
        let bytes: u64 = count * each;
        if self.gpe_table_start > len / 512 {
            return Err(DecodeError::IoError);
        }
        let at: u64 = self.gpe_table_start * 512;
        if bytes > len - at {
            return Err(DecodeError::IoError);
        }
        let table = slice_subrange(image, at as usize, (at + bytes) as usize);
        let algo = gpt_algorithm();
        if crc32_bytes(&algo, table) != self.gpe_table_crc32 {
            return Err(DecodeError::ChecksumMismatch);
        }
        Ok(())
    }
}

impl Record for Gpt {
    open spec fn size() -> nat {
        92
    }

    open spec fn parse(s: Seq<u8>) -> Gpt {
        Gpt {
            signature: [s[0], s[1], s[2], s[3], s[4], s[5], s[6], s[7]],
            revision: [s[8], s[9], s[10], s[11]],
            size: u32_at(s, 12),
            crc32: u32_at(s, 16),
            reserved: [s[20], s[21], s[22], s[23]],
            self_lba: u64_at(s, 24),
            alt_lba: u64_at(s, 32),
            first_usable_block: u64_at(s, 40),
            last_usable_block: u64_at(s, 48),
            guid: [
                s[56],
                s[57],
                s[58],
                s[59],
                s[60],
                s[61],
                s[62],
                s[63],
                s[64],
                s[65],
                s[66],
                s[67],
                s[68],
                s[69],
                s[70],
                s[71],
            ],
            gpe_table_start: u64_at(s, 72),
            gpe_table_entries: u32_at(s, 80),
            gpe_table_entry_size: u32_at(s, 84),
            gpe_table_crc32: u32_at(s, 88),
        }
    }

    fn record_size() -> (n: usize) {
        92
    }

    fn decode(bytes: &[u8]) -> (r: Gpt) {
        let s = bytes;
        Gpt {
            signature: [s[0], s[1], s[2], s[3], s[4], s[5], s[6], s[7]],
            revision: [s[8], s[9], s[10], s[11]],
            size: get_u32(s, 12),
            crc32: get_u32(s, 16),
            reserved: [s[20], s[21], s[22], s[23]],
            self_lba: get_u64(s, 24),
            alt_lba: get_u64(s, 32),
            first_usable_block: get_u64(s, 40),
            last_usable_block: get_u64(s, 48),
            guid: [
                s[56],
                s[57],
                s[58],
                s[59],
                s[60],
                s[61],
                s[62],
                s[63],
                s[64],
                s[65],
                s[66],
                s[67],
                s[68],
                s[69],
                s[70],
                s[71],
            ],
            gpe_table_start: get_u64(s, 72),
            gpe_table_entries: get_u32(s, 80),
            gpe_table_entry_size: get_u32(s, 84),
            gpe_table_crc32: get_u32(s, 88),
        }
    }
}

/// One entry of the GPT's array. The two GUIDs are held as the 128-bit
/// little-endian values of their sixteen bytes on disk; the name is left
/// in the image.
#[derive(Clone, Copy, Debug, PartialEq, Eq, Structural)]
pub struct GptEntry {
    pub type_guid: u128,
    pub unique_guid: u128,
    pub first_lba: u64,
    pub last_lba: u64,
    pub attributes: u64,
}

impl GptEntry {
    /// Whether the entry describes a partition: its type GUID is not zero.
    pub open spec fn spec_in_use(self) -> bool {
        self.type_guid != 0
    }

    /// Whether the entry describes a partition: its type GUID is not zero.
    pub fn in_use(&self) -> (r: bool)
        ensures
            r == self.spec_in_use(),
    {
        self.type_guid != 0
    }
}

impl Record for GptEntry {
    open spec fn size() -> nat {
        56
    }

    open spec fn parse(s: Seq<u8>) -> GptEntry {
        GptEntry {
            type_guid: u128_at(s, 0),
            unique_guid: u128_at(s, 16),
            first_lba: u64_at(s, 32),
            last_lba: u64_at(s, 40),
            attributes: u64_at(s, 48),
        }
    }

    fn record_size() -> (n: usize) {
        56
    }

    fn decode(bytes: &[u8]) -> (r: GptEntry) {
        GptEntry {
            type_guid: get_u128(bytes, 0),
            unique_guid: get_u128(bytes, 16),
            first_lba: get_u64(bytes, 32),
            last_lba: get_u64(bytes, 40),
            attributes: get_u64(bytes, 48),
        }
    }
}

/// The fields of a header, cut out of its 92 bytes.
spec fn header_pieces(s: Seq<u8>) -> Seq<u8> {
    s.subrange(0, 8) + s.subrange(8, 12) + s.subrange(12, 16) + s.subrange(16, 20) + s.subrange(
        20,
        24,
    ) + s.subrange(24, 32) + s.subrange(32, 40) + s.subrange(40, 48) + s.subrange(48, 56)
        + s.subrange(56, 72) + s.subrange(72, 80) + s.subrange(80, 84) + s.subrange(84, 88)
        + s.subrange(88, 92)
}

/// Laying out the GPT header that 92 bytes hold gives these bytes back.
#[verifier::rlimit(100)]
pub proof fn lemma_gpt_round_trip(s: Seq<u8>)
    requires
        s.len() == 92,
    ensures
        Gpt::parse(s).bytes() == s,
{
    let g = Gpt::parse(s);
    assert(g.signature@ =~= s.subrange(0, 8));
    assert(g.revision@ =~= s.subrange(8, 12));
    assert(u32_bytes(g.size) == s.subrange(12, 16)) by {
        lemma_u32_round_trip(s, 12);
    }
    assert(u32_bytes(g.crc32) == s.subrange(16, 20)) by {
        lemma_u32_round_trip(s, 16);
    }
    assert(g.reserved@ =~= s.subrange(20, 24));
    assert(u64_bytes(g.self_lba) == s.subrange(24, 32)) by {
        lemma_u64_round_trip(s, 24);
    }
    assert(u64_bytes(g.alt_lba) == s.subrange(32, 40)) by {
        lemma_u64_round_trip(s, 32);
    }
    assert(u64_bytes(g.first_usable_block) == s.subrange(40, 48)) by {
        lemma_u64_round_trip(s, 40);
    }
    assert(u64_bytes(g.last_usable_block) == s.subrange(48, 56)) by {
        lemma_u64_round_trip(s, 48);
    }
    assert(g.guid@ =~= s.subrange(56, 72));
    assert(u64_bytes(g.gpe_table_start) == s.subrange(72, 80)) by {
        lemma_u64_round_trip(s, 72);
    }
    assert(u32_bytes(g.gpe_table_entries) == s.subrange(80, 84)) by {
        lemma_u32_round_trip(s, 80);
    }
    assert(u32_bytes(g.gpe_table_entry_size) == s.subrange(84, 88)) by {
        lemma_u32_round_trip(s, 84);
    }
    assert(u32_bytes(g.gpe_table_crc32) == s.subrange(88, 92)) by {
        lemma_u32_round_trip(s, 88);
    }
    lemma_header_assembly(g, s);
}

/// A header whose fields lay out to the pieces of `s` lays out to `s`.
proof fn lemma_header_assembly(g: Gpt, s: Seq<u8>)
    requires
        s.len() == 92,
        g.signature@ == s.subrange(0, 8),
        g.revision@ == s.subrange(8, 12),
        u32_bytes(g.size) == s.subrange(12, 16),
        u32_bytes(g.crc32) == s.subrange(16, 20),
        g.reserved@ == s.subrange(20, 24),
        u64_bytes(g.self_lba) == s.subrange(24, 32),
        u64_bytes(g.alt_lba) == s.subrange(32, 40),
        u64_bytes(g.first_usable_block) == s.subrange(40, 48),
        u64_bytes(g.last_usable_block) == s.subrange(48, 56),
        g.guid@ == s.subrange(56, 72),
        u64_bytes(g.gpe_table_start) == s.subrange(72, 80),
        u32_bytes(g.gpe_table_entries) == s.subrange(80, 84),
        u32_bytes(g.gpe_table_entry_size) == s.subrange(84, 88),
        u32_bytes(g.gpe_table_crc32) == s.subrange(88, 92),
    ensures
        g.bytes() == s,
{
    assert(g.bytes() == header_pieces(s));
    assert(header_pieces(s) =~= s);
}

/// What reading the GPT header of an image gives: the second sector has to
/// be there and has to start with the signature.
pub open spec fn spec_read_gpt(image: Seq<u8>) -> Result<Gpt, DecodeError> {
    if image.len() < 1024 {
        Err(DecodeError::IoError)
    } else if !Gpt::parse(image.subrange(512, 1024)).spec_signature_ok() {
        Err(DecodeError::MagicMismatch)
    } else {
        Ok(Gpt::parse(image.subrange(512, 1024)))
    }
}

/// Reads the GPT header from the second sector of `image`.
pub fn read_gpt(image: &[u8]) -> (r: Result<Gpt, DecodeError>)
    ensures
        r == spec_read_gpt(image@),
{
    if image.len() < 1024 {
        return Err(DecodeError::IoError);
    }
    let gpt = Gpt::decode(slice_subrange(image, 512, 1024));
    if !gpt.signature_ok() {
        return Err(DecodeError::MagicMismatch);
    }
    Ok(gpt)
}

} // verus!
