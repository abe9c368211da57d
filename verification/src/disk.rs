use crate::error::DecodeError;
use crate::gpt::{read_gpt, spec_read_gpt, Gpt, GptEntry};
use crate::mbr::{read_mbr, spec_read_mbr, Mbr, MbrEntry};
use crate::part::{descriptor_inside, report_agrees, spec_descriptors, spec_groups, table_fits, CsumReport, Part};
use crate::reader::{get_u16, u16_at, HasRawHeader, Record};
use crate::superblock::{read_superblock, spec_read_superblock, EXT_MAGIC};
use vstd::prelude::*;
use vstd::slice::slice_subrange;

verus! {

/// Type GUID of a Linux filesystem, `0FC63DAF-8483-4772-8E79-3D69D8477DE4`,
/// as the little-endian value of its sixteen bytes on disk.
pub const GUID_LINUX_FILESYSTEM: u128 = 0xE47D_47D8_693D_798E_4772_8483_0FC6_3DAF;

/// Type GUID of an EFI system partition, `C12A7328-F81F-11D2-BA4B-00A0C93EC93B`.
pub const GUID_EFI_SYSTEM: u128 = 0x3BC9_3EC9_A000_4BBA_11D2_F81F_C12A_7328;

/// Type GUID of a BIOS boot partition, `21686148-6449-6E6F-744E-656564454649`.
pub const GUID_BIOS_BOOT: u128 = 0x4946_4564_6565_4E74_6E6F_6449_2168_6148;

/// Type GUID of Linux swap, `0657FD6D-A4AB-43C4-84E5-0933C84B4F4F`.
pub const GUID_LINUX_SWAP: u128 = 0x4F4F_4BC8_3309_E584_43C4_A4AB_0657_FD6D;

/// Type GUID of a Linux LVM volume, `E6D6D379-F507-44C2-A23C-238F2A3DF928`.
pub const GUID_LINUX_LVM: u128 = 0x28F9_3D2A_8F23_3CA2_44C2_F507_E6D6_D379;

/// How an image is partitioned.
#[derive(Clone, Copy, Debug, PartialEq, Eq, Structural)]
pub enum PartitionTableType {
    Mbr,
    Gpt,
}

/// What a partition holds. `Unknown` carries the type as the table gives
/// it: the type byte of an MBR entry, or the type GUID of a GPT entry as
/// the little-endian value of its bytes.
#[derive(Clone, Copy, Debug, PartialEq, Eq, Structural)]
pub enum PartitionType {
    Unused,
    Ext4,
    Swap,
    LinuxLvm,
    EfiSystem,
    BiosBoot,
    Unknown(u128),
}

/// A partition: where it starts in the image, how long it is, both in
/// bytes, and what it holds.
#[derive(Clone, Copy, Debug, PartialEq, Eq, Structural)]
pub struct Partition {
    pub start: u64,
    pub length: u64,
    pub p_type: PartitionType,
}

/// An image with its partition table.
pub struct Disk {
    pub file_arg: String,
    pub mbr: Mbr,
    pub pt_type: PartitionTableType,
    pub partitions: Vec<Partition>,
}

/// Whether an ext-family superblock lies in the partition that starts at
/// `start`: the image holds the superblock's bytes, and the magic number is
/// there.
pub open spec fn spec_has_ext_magic(image: Seq<u8>, start: u64) -> bool {
    start + 2048 <= image.len() && u16_at(image, start + 1024 + 0x38) == EXT_MAGIC
}

/// What a partition that may hold an ext-family filesystem turns out to be.
pub open spec fn refined(image: Seq<u8>, start: u64, raw: u128) -> PartitionType {
    if spec_has_ext_magic(image, start) {
        PartitionType::Ext4
    } else {
        PartitionType::Unknown(raw)
    }
}

/// The partition that an MBR entry describes.
pub open spec fn mbr_partition(image: Seq<u8>, e: MbrEntry) -> Partition {
    let t = e.partition_type;
    Partition {
        start: e.spec_start(),
        length: e.spec_length(),
        p_type: if t == 0x00 {
            PartitionType::Unused
        } else if t == 0x83 {
            refined(image, e.spec_start(), t as u128)
        } else if t == 0x82 {
            PartitionType::Swap
        } else if t == 0x8E {
            PartitionType::LinuxLvm
        } else if t == 0xEF {
            PartitionType::EfiSystem
        } else {
            PartitionType::Unknown(t as u128)
        },
    }
}

/// Whether the partition of an MBR entry lies inside an image of `len`
/// bytes. An unused entry describes nothing.
pub open spec fn mbr_inside(len: nat, e: MbrEntry) -> bool {
    e.partition_type == 0 || e.spec_start() + e.spec_length() <= len
}

/// The partitions of a classical MBR: one for each of the four entries, in
/// their order; none where a used entry reaches beyond the image.
pub open spec fn spec_register_mbr(image: Seq<u8>, mbr: Mbr) -> Result<
    Seq<Partition>,
    DecodeError,
> {
    if exists|i: int| 0 <= i < 4 && !mbr_inside(image.len(), #[trigger] mbr.spec_entries()[i]) {
        Err(DecodeError::OutOfRange)
    } else {
        Ok(Seq::new(4, |i: int| mbr_partition(image, mbr.spec_entries()[i])))
    }
}

/// The entry with the index `i` of the array that `gpt` describes.
#[verifier::opaque]
pub open spec fn gpt_entry_at(image: Seq<u8>, gpt: Gpt, i: int) -> GptEntry {
    let at = gpt.spec_table_offset() + i * gpt.gpe_table_entry_size;
    GptEntry::parse(image.subrange(at, at + 56))
}

/// Whether the sectors of a GPT entry are in order and inside an image of
/// `len` bytes.
pub open spec fn gpt_inside(len: nat, e: GptEntry) -> bool {
    e.first_lba <= e.last_lba && (e.last_lba + 1) * 512 <= len
}

/// The partition that a GPT entry describes.
pub open spec fn gpt_partition(image: Seq<u8>, e: GptEntry) -> Partition {
    let g = e.type_guid;
    let start = (e.first_lba * 512) as u64;
    Partition {
        start: start,
        length: ((e.last_lba - e.first_lba + 1) * 512) as u64,
        p_type: if g == GUID_LINUX_FILESYSTEM {
            refined(image, start, g)
        } else if g == GUID_EFI_SYSTEM {
            PartitionType::EfiSystem
        } else if g == GUID_BIOS_BOOT {
            PartitionType::BiosBoot
        } else if g == GUID_LINUX_SWAP {
            PartitionType::Swap
        } else if g == GUID_LINUX_LVM {
            PartitionType::LinuxLvm
        } else {
            PartitionType::Unknown(g)
        },
    }
}

/// The partitions of the first `n` entries of the array: one for each
/// entry that is in use, in their order.
pub open spec fn gpt_partitions(image: Seq<u8>, gpt: Gpt, n: nat) -> Seq<Partition>
    decreases n,
{
    if n == 0 {
        Seq::empty()
    } else {
        let before = gpt_partitions(image, gpt, (n - 1) as nat);
        let e = gpt_entry_at(image, gpt, n - 1);
        if e.spec_in_use() {
            before.push(gpt_partition(image, e))
        } else {
            before
        }
    }
}

/// The warnings that the checksums of a GPT give: what the check of the
/// header says, then what the check of the entry array says.
pub open spec fn gpt_warnings(image: Seq<u8>, gpt: Gpt) -> Seq<DecodeError> {
    let head = match gpt.spec_check_header_crc(image) {
        Ok(_) => Seq::<DecodeError>::empty(),
        Err(e) => seq![e],
    };
    match gpt.spec_check_table_crc(image) {
        Ok(_) => head,
        Err(e) => head.push(e),
    }
}

/// The partitions of a GPT image and the warnings that come with them.
/// Reading is given up where the header cannot be read, where the size of
/// an entry breaks the format, where the entry array does not lie in the
/// image, and where an entry in use reaches beyond the image.
pub open spec fn spec_register_gpt(image: Seq<u8>) -> Result<
    (Seq<Partition>, Seq<DecodeError>),
    DecodeError,
> {
    match spec_read_gpt(image) {
        Err(e) => Err(e),
        Ok(gpt) => {
            if !gpt.spec_entry_size_ok() {
                Err(DecodeError::InvariantViolation)
            } else if gpt.spec_table_offset() + gpt.spec_table_length() > image.len() {
                Err(DecodeError::IoError)
            } else if exists|i: int|
                0 <= i < gpt.gpe_table_entries && (#[trigger] gpt_entry_at(
                    image,
                    gpt,
                    i,
                )).spec_in_use() && !gpt_inside(image.len(), gpt_entry_at(image, gpt, i)) {
                Err(DecodeError::OutOfRange)
            } else {
                Ok(
                    (
                        gpt_partitions(image, gpt, gpt.gpe_table_entries as nat),
                        gpt_warnings(image, gpt),
                    ),
                )
            }
        },
    }
}

/// Whether an ext-family superblock lies in the partition that starts at
/// `start`.
pub fn has_ext_magic(image: &[u8], start: u64) -> (r: bool)
    ensures
        r == spec_has_ext_magic(image@, start),
{
    let len: usize = image.len();
    if start > len as u64 || (len - start as usize) < 2048 {
        return false;
    }
    get_u16(image, start as usize + 1024 + 0x38) == EXT_MAGIC
}

fn refine(image: &[u8], start: u64, raw: u128) -> (r: PartitionType)
    ensures
        r == refined(image@, start, raw),
{
    if has_ext_magic(image, start) {
        PartitionType::Ext4
    } else {
        PartitionType::Unknown(raw)
    }
}

/// The partition that an MBR entry describes.
pub fn partition_of_mbr_entry(image: &[u8], e: &MbrEntry) -> (r: Partition)
    ensures
        r == mbr_partition(image@, *e),
{
    let t = e.partition_type;
    let start = e.start();
    let p_type = if t == 0x00 {
        PartitionType::Unused
    } else if t == 0x83 {
        refine(image, start, t as u128)
    } else if t == 0x82 {
        PartitionType::Swap
    } else if t == 0x8E {
        PartitionType::LinuxLvm
    } else if t == 0xEF {
        PartitionType::EfiSystem
    } else {
        PartitionType::Unknown(t as u128)
    };
    Partition { start: start, length: e.length(), p_type: p_type }
}

/// The partition that a GPT entry describes.
pub fn partition_of_gpt_entry(image: &[u8], e: &GptEntry) -> (r: Partition)
    requires
        gpt_inside(image@.len(), *e),
    ensures
        r == gpt_partition(image@, *e),
{
    let _len = image.len();
    let g = e.type_guid;
    let start: u64 = e.first_lba * 512;
    let p_type = if g == GUID_LINUX_FILESYSTEM {
        refine(image, start, g)
    } else if g == GUID_EFI_SYSTEM {
        PartitionType::EfiSystem
    } else if g == GUID_BIOS_BOOT {
        PartitionType::BiosBoot
    } else if g == GUID_LINUX_SWAP {
        PartitionType::Swap
    } else if g == GUID_LINUX_LVM {
        PartitionType::LinuxLvm
    } else {
        PartitionType::Unknown(g)
    };
    Partition { start: start, length: (e.last_lba - e.first_lba + 1) * 512, p_type: p_type }
}

/// Lists the partitions of a classical MBR.
pub fn register_mbr(image: &[u8], mbr: &Mbr) -> (r: Result<Vec<Partition>, DecodeError>)
    ensures
        match (r, spec_register_mbr(image@, *mbr)) {
            (Ok(v), Ok(s)) => v@ == s,
            (Err(e), Err(f)) => e == f,
            _ => false,
        },
{
    let len: u64 = image.len() as u64;
    let entries = mbr.entries();
    let mut found: Vec<Partition> = Vec::new();
    let mut i: usize = 0;
    while i < 4
        invariant
            i <= 4,
            len == image@.len(),
            entries@ == mbr.spec_entries(),
            forall|k: int| 0 <= k < i ==> mbr_inside(image@.len(), #[trigger] mbr.spec_entries()[k]),
            found@ == Seq::new(i as nat, |k: int| mbr_partition(image@, mbr.spec_entries()[k])),
        decreases 4 - i,
    {
        let e = &entries[i];
        if e.partition_type != 0 && e.start() + e.length() > len {
            assert(!mbr_inside(image@.len(), mbr.spec_entries()[i as int]));
            return Err(DecodeError::OutOfRange);
        }
        found.push(partition_of_mbr_entry(image, e));
        assert(found@ =~= Seq::new(
            (i + 1) as nat,
            |k: int| mbr_partition(image@, mbr.spec_entries()[k]),
        ));
        i += 1;
    }
    Ok(found)
}

/// Reads the entry with the index `i` of the array that `gpt` describes.
pub fn read_gpt_entry(image: &[u8], gpt: &Gpt, i: u64) -> (e: GptEntry)
    requires
        i < gpt.gpe_table_entries,
        gpt.gpe_table_entry_size >= 56,
        gpt.spec_table_offset() + gpt.spec_table_length() <= image@.len(),
    ensures
        e == gpt_entry_at(image@, *gpt, i as int),
{
    let _len = image.len();
    let n: u64 = gpt.gpe_table_entries as u64;
    let each: u64 = gpt.gpe_table_entry_size as u64;
    assert(i * each + each <= n * each) by (nonlinear_arith)
        requires
            i < n,
    ;
    let at: usize = (gpt.gpe_table_start * 512 + i * each) as usize;
    proof {
        reveal(gpt_entry_at);
    }
    GptEntry::decode(slice_subrange(image, at, at + 56))
}

/// Lists the partitions of a GPT image, with the warnings that its
/// checksums give.
pub fn register_gpt(image: &[u8]) -> (r: Result<(Vec<Partition>, Vec<DecodeError>), DecodeError>)
    ensures
        match (r, spec_register_gpt(image@)) {
            (Ok(v), Ok(s)) => v.0@ == s.0 && v.1@ == s.1,
            (Err(e), Err(f)) => e == f,
            _ => false,
        },
{
    let gpt = match read_gpt(image) {
        Ok(g) => g,
        Err(e) => {
            return Err(e);
        },
    };
    if !gpt.entry_size_ok() {
        return Err(DecodeError::InvariantViolation);
    }
    let len: u64 = image.len() as u64;
    let n: u64 = gpt.gpe_table_entries as u64;
    let each: u64 = gpt.gpe_table_entry_size as u64;
    assert(n * each <= 0xFFFF_FFFF * 0xFFFF_FFFF) by (nonlinear_arith)
        requires
            n <= 0xFFFF_FFFF,
            each <= 0xFFFF_FFFF,
    ;
    if gpt.gpe_table_start > len / 512 {
        return Err(DecodeError::IoError);
    }
    let table: u64 = gpt.gpe_table_start * 512;
    if n * each > len - table {
        return Err(DecodeError::IoError);
    }
    let mut found: Vec<Partition> = Vec::new();
    let mut i: u64 = 0;
    while i < n
        invariant
            i <= n,
            n == gpt.gpe_table_entries,
            each == gpt.gpe_table_entry_size,
            each >= 128,
            len == image@.len(),
            len <= usize::MAX,
            gpt.spec_table_offset() + gpt.spec_table_length() <= image@.len(),
            spec_read_gpt(image@) == Ok::<Gpt, DecodeError>(gpt),
            gpt.spec_entry_size_ok(),
            forall|k: int|
                0 <= k < i && (#[trigger] gpt_entry_at(image@, gpt, k)).spec_in_use() ==> gpt_inside(
                    image@.len(),
                    gpt_entry_at(image@, gpt, k),
                ),
            found@ == gpt_partitions(image@, gpt, i as nat),
        decreases n - i,
    {
        let e = read_gpt_entry(image, &gpt, i);
        if e.in_use() {
            if e.first_lba > e.last_lba || e.last_lba >= len / 512 {
                assert(!gpt_inside(image@.len(), gpt_entry_at(image@, gpt, i as int)));
                return Err(DecodeError::OutOfRange);
            }
            found.push(partition_of_gpt_entry(image, &e));
        }
        i += 1;
    }
    let mut warnings: Vec<DecodeError> = Vec::new();
    match gpt.check_header_crc(image) {
        Ok(_) => {},
        Err(e) => {
            warnings.push(e);
        },
    }
    match gpt.check_table_crc(image) {
        Ok(_) => {},
        Err(e) => {
            warnings.push(e);
        },
    }
    assert(warnings@ =~= gpt_warnings(image@, gpt));
    Ok((found, warnings))
}

/// What became of one partition when the image was gone through.
pub enum Inspection {
    /// The partition is not in use.
    Skipped,
    /// The partition holds something that this decoder does not read.
    NotImplemented(PartitionType),
    /// The ext-family filesystem of the partition, with its block groups
    /// read and their checksums checked.
    Filesystem(Part, CsumReport),
    /// The filesystem of the partition had to be given up.
    Failed(DecodeError),
}

/// The error on which the filesystem of the partition at `start` has to be
/// given up, if there is one: its superblock cannot be read, its descriptor
/// table does not lie in the image, or it has more checksummed block groups
/// than 32 bits can number.
pub open spec fn filesystem_error(image: Seq<u8>, start: u64) -> Option<DecodeError> {
    match spec_read_superblock(image, start) {
        Err(e) => Some(e),
        Ok(sb) => if !table_fits(image, sb, start) {
            Some(DecodeError::IoError)
        } else if sb.spec_metadata_csum() && sb.spec_number_of_groups() > u32::MAX {
            Some(DecodeError::OutOfRange)
        } else {
            None
        },
    }
}

/// Whether `p` and `report` are what reading the filesystem of the
/// partition at `start` gives.
pub open spec fn filesystem_agrees(image: Seq<u8>, file: Seq<char>, start: u64, p: Part, report: CsumReport) -> bool {
    &&& spec_read_superblock(image, start) == Ok::<crate::superblock::Superblock, DecodeError>(p.s)
    &&& p.file@ == file
    &&& p.start == start
    &&& p.bg@ == spec_groups(image, p.s, start)
    &&& report_agrees(image, p.s, spec_descriptors(image, p.s, start), report)
}

/// Whether `outcome` is what going through the partition `part` gives.
pub open spec fn inspection_agrees(image: Seq<u8>, file: Seq<char>, part: Partition, outcome: Inspection) -> bool {
    match part.p_type {
        PartitionType::Unused => outcome is Skipped,
        PartitionType::Ext4 => match outcome {
            Inspection::Filesystem(p, report) => filesystem_error(image, part.start) is None
                && filesystem_agrees(image, file, part.start, p, report),
            Inspection::Failed(e) => filesystem_error(image, part.start) == Some(e),
            _ => false,
        },
        other => outcome == Inspection::NotImplemented(other),
    }
}

impl HasRawHeader<PartitionTableType, Mbr> for PartitionTableType {
    open spec fn spec_from_raw(raw: Mbr) -> PartitionTableType {
        if raw.spec_is_protective() {
            PartitionTableType::Gpt
        } else {
            PartitionTableType::Mbr
        }
    }

    /// The scheme that an MBR announces: a GPT where one of its four
    /// entries is the protective one.
    fn from_raw(raw: &Mbr) -> (h: PartitionTableType) {
        if raw.is_protective() {
            PartitionTableType::Gpt
        } else {
            PartitionTableType::Mbr
        }
    }
}

impl Disk {
    /// Opens an image: reads its MBR. The table counts as a classical MBR
    /// until it is classified, and no partition is listed yet.
    pub fn open(file_arg: String, image: &[u8]) -> (r: Result<Disk, DecodeError>)
        ensures
            match r {
                Ok(d) => spec_read_mbr(image@) == Ok::<Mbr, DecodeError>(d.mbr) && d.file_arg
                    == file_arg && d.pt_type == PartitionTableType::Mbr && d.partitions@.len() == 0
                    && d.mbr.boot_sig == 0xAA55,
                Err(e) => spec_read_mbr(image@) == Err::<Mbr, DecodeError>(e),
            },
    {
        match read_mbr(image) {
            Ok(mbr) => Ok(
                Disk {
                    file_arg: file_arg,
                    mbr: mbr,
                    pt_type: PartitionTableType::Mbr,
                    partitions: Vec::new(),
                },
            ),
            Err(e) => Err(e),
        }
    }

    /// Classifies the image: it has a GPT where one of the four MBR entries
    /// is the protective one, and a classical MBR otherwise.
    pub fn set_partition_table_type(&mut self)
        ensures
            final(self).pt_type == (if old(self).mbr.spec_is_protective() {
                PartitionTableType::Gpt
            } else {
                PartitionTableType::Mbr
            }),
            final(self).mbr == old(self).mbr,
            final(self).file_arg == old(self).file_arg,
            final(self).partitions == old(self).partitions,
    {
        if self.mbr.is_protective() {
            self.pt_type = PartitionTableType::Gpt;
        } else {
            self.pt_type = PartitionTableType::Mbr;
        }
    }

    /// Lists the partitions of the image by the table that it was
    /// classified with, and returns the warnings that came up. Where the
    /// table has to be given up, the disk stays as it was.
    pub fn register_partitions(&mut self, image: &[u8]) -> (r: Result<Vec<DecodeError>, DecodeError>)
        ensures
            final(self).pt_type == old(self).pt_type,
            final(self).mbr == old(self).mbr,
            final(self).file_arg == old(self).file_arg,
            old(self).pt_type == PartitionTableType::Mbr ==> (match (
                r,
                spec_register_mbr(image@, old(self).mbr),
            ) {
                (Ok(w), Ok(s)) => final(self).partitions@ == s && w@.len() == 0,
                (Err(e), Err(f)) => e == f && final(self).partitions == old(self).partitions,
                _ => false,
            }),
            old(self).pt_type == PartitionTableType::Gpt ==> (match (r, spec_register_gpt(image@)) {
                (Ok(w), Ok(s)) => final(self).partitions@ == s.0 && w@ == s.1,
                (Err(e), Err(f)) => e == f && final(self).partitions == old(self).partitions,
                _ => false,
            }),
    {
        match self.pt_type {
            PartitionTableType::Mbr => {
                match register_mbr(image, &self.mbr) {
                    Ok(found) => {
                        self.partitions = found;
                        Ok(Vec::new())
                    },
                    Err(e) => Err(e),
                }
            },
            PartitionTableType::Gpt => {
                match register_gpt(image) {
                    Ok(pair) => {
                        let (found, warnings) = pair;
                        self.partitions = found;
                        Ok(warnings)
                    },
                    Err(e) => Err(e),
                }
            },
        }
    }

    /// Reads the superblock of `part` and sets up the reader of its
    /// filesystem.
    pub fn make_ext4_reader(&self, part: &Partition, image: &[u8]) -> (r: Result<Part, DecodeError>)
        ensures
            match (r, spec_read_superblock(image@, part.start)) {
                (Ok(p), Ok(sb)) => p.s == sb && p.start == part.start && p.bg@.len() == 0
                    && p.file@ == self.file_arg@ && p.s.well_formed(),
                (Err(e), Err(f)) => e == f,
                _ => false,
            },
    {
        match read_superblock(image, part.start) {
            Ok(sb) => Ok(Part::init(self.file_arg.clone(), sb, part.start)),
            Err(e) => Err(e),
        }
    }

    /// Reads the filesystem of `part`: its superblock and block groups,
    /// with the descriptors' checksums checked and the inode tables located.
    pub fn read_filesystem(&self, part: &Partition, image: &[u8]) -> (r: Result<
        (Part, CsumReport),
        DecodeError,
    >)
        ensures
            match r {
                Ok(v) => filesystem_error(image@, part.start) is None && filesystem_agrees(
                    image@,
                    self.file_arg@,
                    part.start,
                    v.0,
                    v.1,
                ),
                Err(e) => filesystem_error(image@, part.start) == Some(e),
            },
    {
        let mut reader = match self.make_ext4_reader(part, image) {
            Ok(p) => p,
            Err(e) => {
                return Err(e);
            },
        };
        let ghost s = reader.s;
        let ghost start = part.start;
        match reader.populate_block_groups(image) {
            Ok(_) => {},
            Err(e) => {
                return Err(e);
            },
        }
        proof {
            let found = spec_descriptors(image@, s, start);
            assert(reader.bg@ =~= found);
            let size = s.spec_descriptor_size() as int;
            let groups = s.spec_number_of_groups() as int;
            assert forall|i: int| 0 <= i < groups implies descriptor_inside(
                image@,
                s,
                #[trigger] found[i],
            ) by {
                assert(size * i + size <= groups * size) by (nonlinear_arith)
                    requires
                        0 <= i < groups,
                        0 <= size,
                ;
            }
        }
        let report = match reader.validate_block_groups(image) {
            Ok(report) => report,
            Err(e) => {
                return Err(e);
            },
        };
        reader.populate_inodes();
        assert(reader.bg@ =~= spec_groups(image@, s, start));
        Ok((reader, report))
    }

    /// Goes through the partitions in their order. An unused partition is
    /// skipped, an ext-family filesystem is read, and of any other kind it
    /// is noted that it is not read. A filesystem that has to be given up
    /// does not stop the others from being read.
    pub fn inspect(&self, image: &[u8]) -> (r: Vec<Inspection>)
        ensures
            r@.len() == self.partitions@.len(),
            forall|i: int|
                0 <= i < r@.len() ==> inspection_agrees(
                    image@,
                    self.file_arg@,
                    self.partitions@[i],
                    #[trigger] r@[i],
                ),
    {
        let mut out: Vec<Inspection> = Vec::new();
        let mut i: usize = 0;
        while i < self.partitions.len()
            invariant
                i <= self.partitions@.len(),
                out@.len() == i,
                forall|k: int|
                    0 <= k < i ==> inspection_agrees(
                        image@,
                        self.file_arg@,
                        self.partitions@[k],
                        #[trigger] out@[k],
                    ),
            decreases self.partitions@.len() - i,
        {
            let part = self.partitions[i];
            let outcome = match part.p_type {
                PartitionType::Unused => Inspection::Skipped,
                PartitionType::Ext4 => match self.read_filesystem(&part, image) {
                    Ok(pair) => {
                        let (p, report) = pair;
                        Inspection::Filesystem(p, report)
                    },
                    Err(e) => Inspection::Failed(e),
                },
                other => Inspection::NotImplemented(other),
            };
            out.push(outcome);
            i += 1;
        }
        out
    }
}

} // verus!
