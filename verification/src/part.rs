use crate::bg::{Bg, BlockGroupDescriptor32, BlockGroupDescriptor64};
use crate::error::DecodeError;
use crate::inode::Inode;
use crate::reader::{read_header_from_file, spec_read_header, Record};
use crate::summer::{crc32_bytes, descriptor_csum_bytes, descriptor_csum_input, ext_algorithm, spec_crc32, Algorithm};
use crate::superblock::Superblock;
use vstd::prelude::*;
use vstd::slice::slice_subrange;

verus! {

/// An ext-family filesystem inside an image: the image's name, the byte at
/// which the partition starts, the superblock, and the block groups found so
/// far.
pub struct Part {
    pub file: String,
    pub start: u64,
    pub s: Superblock,
    pub bg: Vec<Bg>,
}

/// What came of checking the checksums of the group descriptors.
pub enum CsumReport {
    /// The filesystem has no checksums on its descriptors.
    Unprotected,
    /// The descriptors carry the older CRC-16, which is not checked.
    Skipped,
    /// For each block group, whether its stored checksum is the computed one.
    Checked(Vec<bool>),
}

/// Whether the descriptor table of the filesystem `s`, whose partition
/// starts at `start`, lies inside the image.
pub open spec fn table_fits(image: Seq<u8>, s: Superblock, start: u64) -> bool {
    s.spec_table_offset(start) + s.spec_number_of_groups() * s.spec_descriptor_size()
        <= image.len()
}

/// The block groups that the descriptor table of `s` holds, in order.
pub open spec fn spec_descriptors(image: Seq<u8>, s: Superblock, start: u64) -> Seq<Bg> {
    Seq::new(
        s.spec_number_of_groups() as nat,
        |i: int|
            Bg::spec_at(
                image,
                s.spec_table_offset(start) + s.spec_descriptor_size() * i,
                s.spec_uses_64bit(),
            ),
    )
}

/// Whether the descriptor of `bg`, as it lies in `image`, lies inside it.
pub open spec fn descriptor_inside(image: Seq<u8>, s: Superblock, bg: Bg) -> bool {
    bg.start + s.spec_descriptor_size() <= image.len()
}

/// Whether the checksum stored in the descriptor of the group `group` is
/// the computed one: the CRC that starts from the filesystem's checksum seed
/// and runs over the UUID, the group's index and the descriptor with its
/// checksum field zeroed, cut to its low 16 bits.
pub open spec fn descriptor_matches(image: Seq<u8>, s: Superblock, bg: Bg, group: u32) -> bool {
    let desc = image.subrange(bg.start as int, bg.start + s.spec_descriptor_size());
    let algo = Algorithm {
        poly: 0x04C1_1DB7,
        init: s.checksum_seed,
        refin: true,
        refout: true,
        xorout: 0xFFFF_FFFF,
    };
    (spec_crc32(algo, descriptor_csum_input(s.uuid@, group, desc)) & 0xffff)
        == bg.b32.checksum as u32
}

/// Whether `report` is what checking the descriptors of `groups` against
/// `image` gives.
pub open spec fn report_agrees(image: Seq<u8>, s: Superblock, groups: Seq<Bg>, report: CsumReport) -> bool {
    if s.spec_metadata_csum() {
        &&& report matches CsumReport::Checked(v)
        &&& v@.len() == groups.len()
        &&& forall|i: int|
            0 <= i < v@.len() ==> #[trigger] v@[i] == descriptor_matches(image, s, groups[i], i as u32)
    } else if s.spec_has_feature_gdt_csum() {
        report is Skipped
    } else {
        report is Unprotected
    }
}

/// The block groups of the filesystem `s` as they are once their
/// descriptors were read and their inode tables located.
pub open spec fn spec_groups(image: Seq<u8>, s: Superblock, start: u64) -> Seq<Bg> {
    Seq::new(
        s.spec_number_of_groups() as nat,
        |i: int|
            Bg {
                inode_table: spec_descriptors(image, s, start)[i].spec_inode_table(s, start),
                ..spec_descriptors(image, s, start)[i]
            },
    )
}

/// Where in the image the inode with the number `n` lies. Inode numbers
/// start at one; the group of the inode has to be among `groups`, with its
/// inode table located; and 64 bits have to hold the result.
pub open spec fn spec_inode_location(s: Superblock, groups: Seq<Bg>, n: u32) -> Result<
    u64,
    DecodeError,
> {
    if s.inodes_per_group == 0 {
        Err(DecodeError::InvariantViolation)
    } else if n == 0 || s.spec_inode_group(n) >= groups.len() {
        Err(DecodeError::OutOfRange)
    } else {
        match groups[s.spec_inode_group(n)].inode_table {
            None => Err(DecodeError::OutOfRange),
            Some(table) => if s.spec_inode_offset(table, n) <= u64::MAX {
                Ok(s.spec_inode_offset(table, n) as u64)
            } else {
                Err(DecodeError::OutOfRange)
            },
        }
    }
}

/// What reading the inode with the number `n` gives: the inode has to be
/// located, inodes have to be at least 128 bytes long, and the image has to
/// hold the inode's bytes.
pub open spec fn spec_read_inode(image: Seq<u8>, s: Superblock, groups: Seq<Bg>, n: u32) -> Result<
    Inode,
    DecodeError,
> {
    match spec_inode_location(s, groups, n) {
        Err(e) => Err(e),
        Ok(at) => if s.inode_size < 128 {
            Err(DecodeError::InvariantViolation)
        } else {
            spec_read_header::<Inode>(image, at)
        },
    }
}

impl Part {
    /// Reads the inode with the number `n` from `image`.
    pub fn read_inode(&self, image: &[u8], n: u32) -> (r: Result<Inode, DecodeError>)
        ensures
            r == spec_read_inode(image@, self.s, self.bg@, n),
    {
        match self.inode_location(n) {
            Err(e) => Err(e),
            Ok(at) => {
                if self.s.inode_size < 128 {
                    Err(DecodeError::InvariantViolation)
                } else {
                    read_header_from_file::<Inode>(image, at)
                }
            },
        }
    }

    /// The byte of the image at which the inode with the number `n` lies.
    pub fn inode_location(&self, n: u32) -> (r: Result<u64, DecodeError>)
        ensures
            r == spec_inode_location(self.s, self.bg@, n),
    {
        if self.s.inodes_per_group == 0 {
            return Err(DecodeError::InvariantViolation);
        }
        if n == 0 {
            return Err(DecodeError::OutOfRange);
        }
        let group = self.s.inode_group(n) as usize;
        if group >= self.bg.len() {
            return Err(DecodeError::OutOfRange);
        }
        match self.bg[group].inode_table {
            None => Err(DecodeError::OutOfRange),
            Some(table) => match self.s.inode_offset(table, n) {
                Some(at) => Ok(at),
                None => Err(DecodeError::OutOfRange),
            },
        }
    }

    /// A filesystem of which no block group has been read yet.
    pub fn init(file: String, sb: Superblock, start: u64) -> (p: Part)
        ensures
            p.file == file,
            p.start == start,
            p.s == sb,
            p.bg@ == Seq::<Bg>::empty(),
    {
        Part { file: file, start: start, s: sb, bg: Vec::new() }
    }

    /// Reads the descriptor table from `image` and appends its block groups.
    /// Where the image ends before the table does, nothing is appended.
    pub fn populate_block_groups(&mut self, image: &[u8]) -> (r: Result<(), DecodeError>)
        requires
            old(self).s.well_formed(),
        ensures
            final(self).file == old(self).file,
            final(self).start == old(self).start,
            final(self).s == old(self).s,
            match r {
                Ok(_) => table_fits(image@, old(self).s, old(self).start) && final(self).bg@ == old(
                    self,
                ).bg@ + spec_descriptors(image@, old(self).s, old(self).start),
                Err(e) => e == DecodeError::IoError && !table_fits(
                    image@,
                    old(self).s,
                    old(self).start,
                ) && final(self).bg@ == old(self).bg@,
            },
    {
        let len: u64 = image.len() as u64;
        let s = self.s;
        let start = self.start;
        let bs = s.block_size();
        let skip: u64 = if bs == 1024 {
            2048
        } else {
            bs as u64
        };
        if start > len || skip > len - start {
            return Err(DecodeError::IoError);
        }
        let table: u64 = s.get_group_descriptor_table_offset(start);
        let groups: u64 = s.number_of_groups();
        let stride: u64 = s.descriptor_size() as u64;
        let wide = s.uses_64bit();
        let avail: u64 = len - table;
        assert(groups * stride <= avail <==> groups <= avail / stride) by (nonlinear_arith)
            requires
                stride >= 32,
        ;
        if groups > avail / stride {
            return Err(DecodeError::IoError);
        }
        let ghost before = self.bg@;
        let mut i: u64 = 0;
        while i < groups
            invariant
                i <= groups,
                groups == s.spec_number_of_groups(),
                stride == s.spec_descriptor_size(),
                stride >= 32,
                wide ==> stride >= 64,
                wide == s.spec_uses_64bit(),
                table == s.spec_table_offset(start),
                table + groups * stride <= len,
                len == image@.len(),
                len <= usize::MAX,
                self.file == old(self).file,
                self.start == old(self).start,
                self.s == old(self).s,
                self.bg@ == before + Seq::new(
                    i as nat,
                    |k: int| Bg::spec_at(image@, table + stride * k, wide),
                ),
            decreases groups - i,
        {
            assert(stride * i + stride <= groups * stride) by (nonlinear_arith)
                requires
                    i < groups,
            ;
            let off: u64 = table + stride * i;
            let at: usize = off as usize;
            let b32 = BlockGroupDescriptor32::decode(slice_subrange(image, at, at + 32));
            let b64 = if wide {
                Some(BlockGroupDescriptor64::decode(slice_subrange(image, at + 32, at + 64)))
            } else {
                None
            };
            self.bg.push(Bg::init(off, b32, b64));
            assert(self.bg@ =~= before + Seq::new(
                (i + 1) as nat,
                |k: int| Bg::spec_at(image@, table + stride * k, wide),
            ));
            i += 1;
        }
        assert(self.bg@ =~= before + spec_descriptors(image@, s, start));
        Ok(())
    }

    /// Locates the inode table of every block group.
    pub fn populate_inodes(&mut self)
        requires
            old(self).s.well_formed(),
        ensures
            final(self).file == old(self).file,
            final(self).start == old(self).start,
            final(self).s == old(self).s,
            final(self).bg@.len() == old(self).bg@.len(),
            forall|i: int|
                0 <= i < old(self).bg@.len() ==> #[trigger] final(self).bg@[i] == (Bg {
                    inode_table: old(self).bg@[i].spec_inode_table(old(self).s, old(self).start),
                    ..old(self).bg@[i]
                }),
    {
        let s = self.s;
        let start = self.start;
        let n = self.bg.len();
        let mut i: usize = 0;
        while i < n
            invariant
                i <= n,
                n == self.bg@.len(),
                n == old(self).bg@.len(),
                s.log_block_size <= 6,
                self.file == old(self).file,
                self.start == old(self).start,
                self.s == old(self).s,
                s == old(self).s,
                start == old(self).start,
                forall|k: int|
                    0 <= k < i ==> #[trigger] self.bg@[k] == (Bg {
                        inode_table: old(self).bg@[k].spec_inode_table(s, start),
                        ..old(self).bg@[k]
                    }),
                forall|k: int| i <= k < n ==> #[trigger] self.bg@[k] == old(self).bg@[k],
            decreases n - i,
        {
            let mut group = self.bg[i];
            group.populate_inodes(&s, start);
            self.bg.set(i, group);
            i += 1;
        }
    }

    /// Checks the checksum of every group descriptor against `image`, where
    /// the filesystem carries metadata checksums. A mismatch is reported in
    /// the result and stops nothing.
    pub fn validate_block_groups(&self, image: &[u8]) -> (r: Result<CsumReport, DecodeError>)
        requires
            self.s.well_formed(),
        ensures
            r matches Ok(report) ==> report_agrees(image@, self.s, self.bg@, report),
            !self.s.spec_metadata_csum() ==> r is Ok,
            self.s.spec_metadata_csum() ==> (match r {
                Ok(report) => {
                    &&& report matches CsumReport::Checked(v)
                    &&& v@.len() == self.bg@.len()
                    &&& self.bg@.len() <= u32::MAX
                    &&& forall|i: int|
                        0 <= i < self.bg@.len() ==> descriptor_inside(image@, self.s, #[trigger] self.bg@[i])
                    &&& forall|i: int|
                        0 <= i < v@.len() ==> #[trigger] v@[i] == descriptor_matches(
                            image@,
                            self.s,
                            self.bg@[i],
                            i as u32,
                        )
                },
                Err(e) => if self.bg@.len() > u32::MAX {
                    e == DecodeError::OutOfRange
                } else {
                    e == DecodeError::IoError && exists|i: int|
                        0 <= i < self.bg@.len() && !descriptor_inside(image@, self.s, #[trigger] self.bg@[i])
                },
            }),
    {
        if !self.s.metadata_csum() {
            if self.s.has_feature_gdt_csum() {
                return Ok(CsumReport::Skipped);
            }
            return Ok(CsumReport::Unprotected);
        }
        let n = self.bg.len();
        if n > u32::MAX as usize {
            return Err(DecodeError::OutOfRange);
        }
        let len: u64 = image.len() as u64;
        let size: u64 = self.s.descriptor_size() as u64;
        let algo = ext_algorithm(self.s.checksum_seed);
        let mut out: Vec<bool> = Vec::new();
        let mut i: usize = 0;
        while i < n
            invariant
                i <= n,
                n == self.bg@.len(),
                n <= u32::MAX,
                len == image@.len(),
                len <= usize::MAX,
                self.s.spec_metadata_csum(),
                size == self.s.spec_descriptor_size(),
                size >= 32,
                algo == (Algorithm {
                    poly: 0x04C1_1DB7,
                    init: self.s.checksum_seed,
                    refin: true,
                    refout: true,
                    xorout: 0xFFFF_FFFF,
                }),
                out@.len() == i,
                forall|k: int| 0 <= k < i ==> descriptor_inside(image@, self.s, #[trigger] self.bg@[k]),
                forall|k: int|
                    0 <= k < i ==> #[trigger] out@[k] == descriptor_matches(
                        image@,
                        self.s,
                        self.bg@[k],
                        k as u32,
                    ),
            decreases n - i,
        {
            let group = &self.bg[i];
            if group.start > len || size > len - group.start {
                assert(!descriptor_inside(image@, self.s, self.bg@[i as int]));
                return Err(DecodeError::IoError);
            }
            let at: usize = group.start as usize;
            let desc = slice_subrange(image, at, at + size as usize);
            let input = descriptor_csum_bytes(&self.s.uuid, i as u32, desc);
            let crc = crc32_bytes(&algo, input.as_slice());
            out.push((crc & 0xffff) == group.b32.checksum as u32);
            i += 1;
        }
        Ok(CsumReport::Checked(out))
    }
}

} // verus!
