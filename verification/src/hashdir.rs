use crate::error::DecodeError;
use crate::reader::{get_u16, get_u32, put_u16, put_u32, u16_at, u16_bytes, u32_at, u32_bytes, Record};
use crate::reader::{lemma_u16_round_trip, lemma_u32_round_trip};
use crate::reader::append_range;
use crate::summer::{crc32_bytes, ext_algorithm, spec_crc32, zero_ranges, zeroed, Algorithm};
use vstd::prelude::*;

verus! {

/// The greatest hash version that a directory index may declare.
pub const SIPHASH: u8 = 6;

/// Bytes of an index root before its first entry slot: the two directory
/// entries `.` and `..`, and the root info. The fields `limit`, `count` and
/// `block` take the first of the `limit` slots.
pub const ROOT_HEADER_SIZE: usize = 32;

/// Bytes of an interior node before its first entry slot: the directory
/// entry that hides the node.
pub const NODE_HEADER_SIZE: usize = 8;

/// Bytes of one entry slot.
pub const ENTRY_SIZE: usize = 8;

/// The hash function that a directory index was built with.
#[derive(Clone, Copy, Debug, PartialEq, Eq, Structural)]
pub enum HashVer {
    Legacy,
    HalfMd4,
    Tea,
    LegacyUnsigned,
    HalfMd4Unsigned,
    TeaUnsigned,
    Siphash,
}

impl HashVer {
    /// The hash version with the number `v`.
    pub open spec fn spec_from_value(v: u8) -> Option<HashVer> {
        if v == 0 {
            Some(HashVer::Legacy)
        } else if v == 1 {
            Some(HashVer::HalfMd4)
        } else if v == 2 {
            Some(HashVer::Tea)
        } else if v == 3 {
            Some(HashVer::LegacyUnsigned)
        } else if v == 4 {
            Some(HashVer::HalfMd4Unsigned)
        } else if v == 5 {
            Some(HashVer::TeaUnsigned)
        } else if v == 6 {
            Some(HashVer::Siphash)
        } else {
            None
        }
    }

    /// The hash version with the number `v`, if there is one.
    pub fn from_value(v: u8) -> (r: Option<HashVer>)
        ensures
            r == Self::spec_from_value(v),
            r.is_some() <==> v <= SIPHASH,
    {
        match v {
            0 => Some(HashVer::Legacy),
            1 => Some(HashVer::HalfMd4),
            2 => Some(HashVer::Tea),
            3 => Some(HashVer::LegacyUnsigned),
            4 => Some(HashVer::HalfMd4Unsigned),
            5 => Some(HashVer::TeaUnsigned),
            6 => Some(HashVer::Siphash),
            _ => None,
        }
    }
}

/// The tree information inside an index root.
#[derive(Clone, Copy, Debug, PartialEq, Eq, Structural)]
pub struct RootInfo {
    pub reserved_zero: u32,
    pub hash_version: u8,
    pub info_length: u8,
    pub indirect_levels: u8,
    pub unused_flags: u8,
}

impl RootInfo {
    /// The record laid out in bytes.
    pub open spec fn bytes(self) -> Seq<u8> {
        u32_bytes(self.reserved_zero) + seq![
            self.hash_version,
            self.info_length,
            self.indirect_levels,
            self.unused_flags,
        ]
    }

    /// The field constraints of a root info: a known hash version, a zero
    /// reserved word, an info length of 8 and fewer than four indirect levels.
    pub open spec fn spec_validate(self) -> bool {
        &&& self.hash_version <= SIPHASH
        &&& self.reserved_zero == 0
        &&& self.info_length == 8
        &&& self.indirect_levels < 4
    }

    /// The record laid out in bytes.
    pub fn to_bytes(&self) -> (out: Vec<u8>)
        ensures
            out@ == self.bytes(),
    {
        let mut out: Vec<u8> = Vec::new();
        put_u32(&mut out, self.reserved_zero);
        out.push(self.hash_version);
        out.push(self.info_length);
        out.push(self.indirect_levels);
        out.push(self.unused_flags);
        assert(out@ =~= self.bytes());
        out
    }

    /// The hash function that the index was built with.
    pub fn hash_version(&self) -> (r: HashVer)
        requires
            self.hash_version <= SIPHASH,
        ensures
            Some(r) == HashVer::spec_from_value(self.hash_version),
    {
        match HashVer::from_value(self.hash_version) {
            Some(v) => v,
            None => HashVer::Legacy,
        }
    }

    /// Whether the field constraints hold.
    pub fn validate(&self) -> (r: bool)
        ensures
            r == self.spec_validate(),
    {
        self.hash_version <= SIPHASH && self.reserved_zero == 0 && self.info_length == 8
            && self.indirect_levels < 4
    }
}

impl Record for RootInfo {
    open spec fn size() -> nat {
        8
    }

    open spec fn parse(s: Seq<u8>) -> RootInfo {
        RootInfo {
            reserved_zero: u32_at(s, 0),
            hash_version: s[4],
            info_length: s[5],
            indirect_levels: s[6],
            unused_flags: s[7],
        }
    }

    fn record_size() -> (n: usize) {
        8
    }

    fn decode(bytes: &[u8]) -> (r: RootInfo) {
        RootInfo {
            reserved_zero: get_u32(bytes, 0),
            hash_version: bytes[4],
            info_length: bytes[5],
            indirect_levels: bytes[6],
            unused_flags: bytes[7],
        }
    }
}

/// The head of a directory's first block where the directory is indexed.
#[derive(Clone, Copy, Debug)]
pub struct Root {
    pub dot_inode: u32,
    pub dot_rec_len: u16,
    pub dot_name_len: u8,
    pub dot_file_type: u8,
    pub dot_name: [u8; 4],
    pub dotdot_inode: u32,
    pub dotdot_rec_len: u16,
    pub dotdot_name_len: u8,
    pub dotdot_file_type: u8,
    pub dotdot_name: [u8; 4],
    pub root_info: RootInfo,
    /// How many entry slots the block has, the one of this header included.
    pub limit: u16,
    /// How many entry slots are in use, the one of this header included.
    pub count: u16,
    /// The block, within the directory file, that goes with hash 0.
    pub block: u32,
}

impl Root {
    /// The record laid out in bytes.
    pub open spec fn bytes(self) -> Seq<u8> {
        u32_bytes(self.dot_inode) + u16_bytes(self.dot_rec_len) + seq![
            self.dot_name_len,
            self.dot_file_type,
        ] + self.dot_name@ + u32_bytes(self.dotdot_inode) + u16_bytes(self.dotdot_rec_len) + seq![
            self.dotdot_name_len,
            self.dotdot_file_type,
        ] + self.dotdot_name@ + self.root_info.bytes() + u16_bytes(self.limit) + u16_bytes(
            self.count,
        ) + u32_bytes(self.block)
    }

    /// The checks that a root has to pass in a block of `bs` bytes: the two
    /// leading directory entries are `.` and `..`, the second reaching to the
    /// end of the block; the root info is valid; and header and entry slots
    /// fill the block exactly.
    pub open spec fn spec_validate(self, bs: u16) -> bool {
        &&& self.dot_rec_len == 12
        &&& self.dot_name_len == 1
        &&& self.dot_file_type == 2
        &&& self.dot_name@ == seq![0x2eu8, 0u8, 0u8, 0u8]
        &&& self.dotdot_rec_len == bs - 12
        &&& self.dotdot_name_len == 2
        &&& self.dotdot_file_type == 2
        &&& self.dotdot_name@ == seq![0x2eu8, 0x2eu8, 0u8, 0u8]
        &&& self.root_info.spec_validate()
        &&& ROOT_HEADER_SIZE + self.limit * ENTRY_SIZE == bs
    }

    /// What holds of the root of every sound index: it validates, and no
    /// more slots are in use than the block has.
    pub open spec fn well_formed(self, bs: u16) -> bool {
        &&& self.spec_validate(bs)
        &&& 1 <= self.count <= self.limit
    }

    /// The hash function that the index was built with.
    pub fn hash_version(&self) -> (r: HashVer)
        requires
            self.root_info.hash_version <= SIPHASH,
        ensures
            Some(r) == HashVer::spec_from_value(self.root_info.hash_version),
    {
        self.root_info.hash_version()
    }

    /// The record laid out in bytes.
    pub fn to_bytes(&self) -> (out: Vec<u8>)
        ensures
            out@ == self.bytes(),
    {
        let mut out: Vec<u8> = Vec::new();
        put_u32(&mut out, self.dot_inode);
        put_u16(&mut out, self.dot_rec_len);
        out.push(self.dot_name_len);
        out.push(self.dot_file_type);
        out.push(self.dot_name[0]);
        out.push(self.dot_name[1]);
        out.push(self.dot_name[2]);
        out.push(self.dot_name[3]);
        put_u32(&mut out, self.dotdot_inode);
        put_u16(&mut out, self.dotdot_rec_len);
        out.push(self.dotdot_name_len);
        out.push(self.dotdot_file_type);
        out.push(self.dotdot_name[0]);
        out.push(self.dotdot_name[1]);
        out.push(self.dotdot_name[2]);
        out.push(self.dotdot_name[3]);
        assert(out@ =~= u32_bytes(self.dot_inode) + u16_bytes(self.dot_rec_len) + seq![
            self.dot_name_len,
            self.dot_file_type,
        ] + self.dot_name@ + u32_bytes(self.dotdot_inode) + u16_bytes(self.dotdot_rec_len) + seq![
            self.dotdot_name_len,
            self.dotdot_file_type,
        ] + self.dotdot_name@);
        let mut info = self.root_info.to_bytes();
        out.append(&mut info);
        put_u16(&mut out, self.limit);
        put_u16(&mut out, self.count);
        put_u32(&mut out, self.block);
        assert(out@ =~= self.bytes());
        out
    }

    /// Whether the directory's own inode number is not zero.
    pub fn not_inode_0(&self) -> (r: bool)
        ensures
            r == (self.dot_inode != 0),
    {
        self.dot_inode != 0
    }

    /// Whether the root passes its checks in a block of `bs` bytes.
    pub fn validate(&self, bs: u16) -> (r: bool)
        ensures
            r == self.spec_validate(bs),
    {
        if self.dot_rec_len != 12 || self.dot_name_len != 1 || self.dot_file_type != 2 {
            return false;
        }
        if self.dot_name[0] != 0x2e || self.dot_name[1] != 0 || self.dot_name[2] != 0
            || self.dot_name[3] != 0 {
            return false;
        }
        if bs < 12 || self.dotdot_rec_len != bs - 12 {
            return false;
        }
        if self.dotdot_name_len != 2 || self.dotdot_file_type != 2 {
            return false;
        }
        if self.dotdot_name[0] != 0x2e || self.dotdot_name[1] != 0x2e || self.dotdot_name[2] != 0
            || self.dotdot_name[3] != 0 {
            return false;
        }
        if !self.root_info.validate() {
            return false;
        }
        assert(self.dot_name@ =~= seq![0x2eu8, 0u8, 0u8, 0u8]);
        assert(self.dotdot_name@ =~= seq![0x2eu8, 0x2eu8, 0u8, 0u8]);
        let limit: u32 = self.limit as u32;
        let possible: u32 = 32 + limit * 8;
        possible == bs as u32
    }

    /// Whether the root is that of a sound index in a block of `bs` bytes.
    pub fn is_well_formed(&self, bs: u16) -> (r: bool)
        ensures
            r == self.well_formed(bs),
            r ==> ROOT_HEADER_SIZE + self.limit * ENTRY_SIZE == bs && self.count <= self.limit
                && self.root_info.indirect_levels <= 3,
    {
        self.validate(bs) && 1 <= self.count && self.count <= self.limit
    }

    /// Whether the entries of this root point at leaf blocks.
    pub fn last_level(&self) -> (r: bool)
        ensures
            r == (self.root_info.indirect_levels == 0),
    {
        self.root_info.indirect_levels == 0
    }

    /// How many levels of interior nodes lie below this root.
    pub fn indirect_levels(&self) -> (r: usize)
        ensures
            r == self.root_info.indirect_levels,
    {
        self.root_info.indirect_levels as usize
    }
}

impl Record for Root {
    open spec fn size() -> nat {
        40
    }

    open spec fn parse(s: Seq<u8>) -> Root {
        Root {
            dot_inode: u32_at(s, 0),
            dot_rec_len: u16_at(s, 4),
            dot_name_len: s[6],
            dot_file_type: s[7],
            dot_name: [s[8], s[9], s[10], s[11]],
            dotdot_inode: u32_at(s, 12),
            dotdot_rec_len: u16_at(s, 16),
            dotdot_name_len: s[18],
            dotdot_file_type: s[19],
            dotdot_name: [s[20], s[21], s[22], s[23]],
            root_info: RootInfo::parse(s.subrange(24, 32)),
            limit: u16_at(s, 32),
            count: u16_at(s, 34),
            block: u32_at(s, 36),
        }
    }

    fn record_size() -> (n: usize) {
        40
    }

    fn decode(bytes: &[u8]) -> (r: Root) {
        let _len = bytes.len();
        let info = RootInfo::decode(vstd::slice::slice_subrange(bytes, 24, 32));
        Root {
            dot_inode: get_u32(bytes, 0),
            dot_rec_len: get_u16(bytes, 4),
            dot_name_len: bytes[6],
            dot_file_type: bytes[7],
            dot_name: [bytes[8], bytes[9], bytes[10], bytes[11]],
            dotdot_inode: get_u32(bytes, 12),
            dotdot_rec_len: get_u16(bytes, 16),
            dotdot_name_len: bytes[18],
            dotdot_file_type: bytes[19],
            dotdot_name: [bytes[20], bytes[21], bytes[22], bytes[23]],
            root_info: info,
            limit: get_u16(bytes, 32),
            count: get_u16(bytes, 34),
            block: get_u32(bytes, 36),
        }
    }
}

/// The head of an interior block of a directory index. It looks like a
/// directory entry that is not in use and spans the whole block.
#[derive(Clone, Copy, Debug, PartialEq, Eq, Structural)]
pub struct Node {
    pub fake_inode: u32,
    pub fake_rec_len: u16,
    pub name_len: u8,
    pub file_type: u8,
    /// How many entry slots the block has, the one of this header included.
    pub limit: u16,
    /// How many entry slots are in use, the one of this header included.
    pub count: u16,
    /// The block, within the directory file, that goes with the lowest hash
    /// of this node.
    pub block: u32,
}

impl Node {
    /// The record laid out in bytes.
    pub open spec fn bytes(self) -> Seq<u8> {
        u32_bytes(self.fake_inode) + u16_bytes(self.fake_rec_len) + seq![
            self.name_len,
            self.file_type,
        ] + u16_bytes(self.limit) + u16_bytes(self.count) + u32_bytes(self.block)
    }

    /// The checks that an interior node has to pass in a block of `bs`
    /// bytes: it hides as an unused directory entry over the whole block, and
    /// header and entry slots fill the block exactly.
    pub open spec fn spec_validate(self, bs: u16) -> bool {
        &&& self.fake_inode == 0
        &&& self.fake_rec_len == bs
        &&& self.name_len == 0
        &&& self.file_type == 0
        &&& NODE_HEADER_SIZE + self.limit * ENTRY_SIZE == bs
    }

    /// The record laid out in bytes.
    pub fn to_bytes(&self) -> (out: Vec<u8>)
        ensures
            out@ == self.bytes(),
    {
        let mut out: Vec<u8> = Vec::new();
        put_u32(&mut out, self.fake_inode);
        put_u16(&mut out, self.fake_rec_len);
        out.push(self.name_len);
        out.push(self.file_type);
        put_u16(&mut out, self.limit);
        put_u16(&mut out, self.count);
        put_u32(&mut out, self.block);
        assert(out@ =~= self.bytes());
        out
    }

    /// Whether the node passes its checks in a block of `bs` bytes.
    pub fn validate(&self, bs: u16) -> (r: bool)
        ensures
            r == self.spec_validate(bs),
    {
        let limit: u32 = self.limit as u32;
        self.fake_inode == 0 && self.fake_rec_len == bs && self.name_len == 0 && self.file_type
            == 0 && 8 + limit * 8 == bs as u32
    }
}

impl Record for Node {
    open spec fn size() -> nat {
        16
    }

    open spec fn parse(s: Seq<u8>) -> Node {
        Node {
            fake_inode: u32_at(s, 0),
            fake_rec_len: u16_at(s, 4),
            name_len: s[6],
            file_type: s[7],
            limit: u16_at(s, 8),
            count: u16_at(s, 10),
            block: u32_at(s, 12),
        }
    }

    fn record_size() -> (n: usize) {
        16
    }

    fn decode(bytes: &[u8]) -> (r: Node) {
        Node {
            fake_inode: get_u32(bytes, 0),
            fake_rec_len: get_u16(bytes, 4),
            name_len: bytes[6],
            file_type: bytes[7],
            limit: get_u16(bytes, 8),
            count: get_u16(bytes, 10),
            block: get_u32(bytes, 12),
        }
    }
}

/// One slot of a directory index: names whose hash is at least `hash` (and
/// below the next slot's) are found through `block`.
#[derive(Clone, Copy, Debug, PartialEq, Eq, Structural)]
pub struct Entry {
    pub hash: u32,
    /// Block number within the directory file, not within the filesystem.
    pub block: u32,
}

impl Entry {
    /// The record laid out in bytes.
    pub open spec fn bytes(self) -> Seq<u8> {
        u32_bytes(self.hash) + u32_bytes(self.block)
    }

    /// The record laid out in bytes.
    pub fn to_bytes(&self) -> (out: Vec<u8>)
        ensures
            out@ == self.bytes(),
    {
        let mut out: Vec<u8> = Vec::new();
        put_u32(&mut out, self.hash);
        put_u32(&mut out, self.block);
        assert(out@ =~= self.bytes());
        out
    }

    /// The block, within the directory file, that the entry leads to.
    pub fn get_block(&self) -> (r: u32)
        ensures
            r == self.block,
    {
        self.block
    }

    /// Whether the slot holds nothing: hash and block are both zero.
    pub fn empty(&self) -> (r: bool)
        ensures
            r == (self.hash == 0 && self.block == 0),
    {
        self.hash == 0 && self.block == 0
    }
}

impl Record for Entry {
    open spec fn size() -> nat {
        8
    }

    open spec fn parse(s: Seq<u8>) -> Entry {
        Entry { hash: u32_at(s, 0), block: u32_at(s, 4) }
    }

    fn record_size() -> (n: usize) {
        8
    }

    fn decode(bytes: &[u8]) -> (r: Entry) {
        Entry { hash: get_u32(bytes, 0), block: get_u32(bytes, 4) }
    }
}

/// The last eight bytes of an index block where metadata checksums are on.
#[derive(Clone, Copy, Debug, PartialEq, Eq, Structural)]
pub struct Tail {
    pub reserved: u32,
    /// Checksum over the filesystem UUID, the index header, the slots in
    /// use, and this tail.
    pub csum: u32,
}

impl Tail {
    /// The record laid out in bytes.
    pub open spec fn bytes(self) -> Seq<u8> {
        u32_bytes(self.reserved) + u32_bytes(self.csum)
    }

    /// The record laid out in bytes.
    pub fn to_bytes(&self) -> (out: Vec<u8>)
        ensures
            out@ == self.bytes(),
    {
        let mut out: Vec<u8> = Vec::new();
        put_u32(&mut out, self.reserved);
        put_u32(&mut out, self.csum);
        assert(out@ =~= self.bytes());
        out
    }
}

impl Record for Tail {
    open spec fn size() -> nat {
        8
    }

    open spec fn parse(s: Seq<u8>) -> Tail {
        Tail { reserved: u32_at(s, 0), csum: u32_at(s, 4) }
    }

    fn record_size() -> (n: usize) {
        8
    }

    fn decode(bytes: &[u8]) -> (r: Tail) {
        Tail { reserved: get_u32(bytes, 0), csum: get_u32(bytes, 4) }
    }
}

/// Whether the hashes of `entries` never fall from one entry to the next.
pub open spec fn sorted_by_hash(entries: Seq<Entry>) -> bool {
    forall|i: int, j: int| 0 <= i <= j < entries.len() ==> entries[i].hash <= entries[j].hash
}

/// The `n` entries that lie in `block` from the byte `first` on.
pub open spec fn entries_at(block: Seq<u8>, first: int, n: nat) -> Seq<Entry> {
    Seq::new(n, |i: int| Entry::parse(block.subrange(first + 8 * i, first + 8 * i + 8)))
}

/// The entries of one level of the index. The header of the level lies at
/// the byte `header` of `block` and its fields `limit`, `count` and `block`
/// take the first slot, so `count - 1` entries follow from `header + 8` on.
/// A level with no slot in use or with more than `limit`, and one
/// whose hashes fall, breaks the format; a block that ends before the last
/// entry is short.
pub open spec fn spec_level_entries(block: Seq<u8>, header: usize, limit: u16, count: u16) -> Result<
    Seq<Entry>,
    DecodeError,
> {
    let found = entries_at(block, header + 8, (count - 1) as nat);
    if count == 0 || count > limit {
        Err(DecodeError::InvariantViolation)
    } else if header + 8 * count > block.len() {
        Err(DecodeError::IoError)
    } else if !sorted_by_hash(found) {
        Err(DecodeError::InvariantViolation)
    } else {
        Ok(found)
    }
}

/// Whether the hashes of `entries` never fall from one entry to the next.
pub fn is_sorted_by_hash(entries: &Vec<Entry>) -> (r: bool)
    ensures
        r == sorted_by_hash(entries@),
{
    let mut i: usize = 1;
    while i < entries.len()
        invariant
            1 <= i,
            forall|a: int, b: int|
                0 <= a <= b < i && b < entries@.len() ==> entries@[a].hash <= entries@[b].hash,
        decreases entries@.len() - i,
    {
        if entries[i - 1].hash > entries[i].hash {
            return false;
        }
        assert forall|a: int, b: int| 0 <= a <= b < i + 1 && b < entries@.len() implies entries@[a].hash
            <= entries@[b].hash by {
            if b == i && a < i {
                assert(entries@[a].hash <= entries@[i - 1].hash);
            }
        }
        i += 1;
    }
    true
}

/// Decodes the entries of one level of the index from its block, and checks
/// that the level keeps to its limit and that its hashes are in order.
pub fn level_entries(block: &[u8], header: usize, limit: u16, count: u16) -> (r: Result<
    Vec<Entry>,
    DecodeError,
>)
    ensures
        match (r, spec_level_entries(block@, header, limit, count)) {
            (Ok(v), Ok(s)) => v@ == s,
            (Err(e), Err(f)) => e == f,
            _ => false,
        },
        r is Ok ==> sorted_by_hash(r->Ok_0@) && r->Ok_0@.len() == count - 1 && count <= limit,
{
    if count == 0 || count > limit {
        return Err(DecodeError::InvariantViolation);
    }
    let len = block.len();
    let need: usize = 8 * (count as usize);
    if header > len || need > len - header {
        return Err(DecodeError::IoError);
    }
    let n: usize = (count - 1) as usize;
    let first: usize = header + 8;
    let mut out: Vec<Entry> = Vec::new();
    let mut i: usize = 0;
    while i < n
        invariant
            i <= n,
            n == count - 1,
            first == header + 8,
            header + 8 * count <= block@.len(),
            len == block@.len(),
            out@ == entries_at(block@, first as int, i as nat),
        decreases n - i,
    {
        let at: usize = first + 8 * i;
        let slot = vstd::slice::slice_subrange(block, at, at + 8);
        out.push(Entry::decode(slot));
        assert(out@ =~= entries_at(block@, first as int, (i + 1) as nat));
        i += 1;
    }
    if !is_sorted_by_hash(&out) {
        return Err(DecodeError::InvariantViolation);
    }
    Ok(out)
}

impl Root {
    /// The entries that follow this root in its block.
    pub fn entries(&self, block: &[u8]) -> (r: Result<Vec<Entry>, DecodeError>)
        ensures
            match (r, spec_level_entries(block@, ROOT_HEADER_SIZE, self.limit, self.count)) {
                (Ok(v), Ok(s)) => v@ == s,
                (Err(e), Err(f)) => e == f,
                _ => false,
            },
            r is Ok ==> sorted_by_hash(r->Ok_0@) && r->Ok_0@.len() == self.count - 1,
    {
        level_entries(block, ROOT_HEADER_SIZE, self.limit, self.count)
    }
}

impl Node {
    /// The entries that follow this node's header in its block.
    pub fn entries(&self, block: &[u8]) -> (r: Result<Vec<Entry>, DecodeError>)
        ensures
            match (r, spec_level_entries(block@, NODE_HEADER_SIZE, self.limit, self.count)) {
                (Ok(v), Ok(s)) => v@ == s,
                (Err(e), Err(f)) => e == f,
                _ => false,
            },
            r is Ok ==> sorted_by_hash(r->Ok_0@) && r->Ok_0@.len() == self.count - 1,
    {
        level_entries(block, NODE_HEADER_SIZE, self.limit, self.count)
    }
}

/// The first index from which on the hashes of `entries` are at least
/// `bound`; the number of entries where none is.
pub fn first_at_least(entries: &Vec<Entry>, bound: u32) -> (r: usize)
    requires
        sorted_by_hash(entries@),
    ensures
        r <= entries@.len(),
        forall|i: int| 0 <= i < r ==> entries@[i].hash < bound,
        forall|i: int| r <= i < entries@.len() ==> entries@[i].hash >= bound,
{
    let mut lo: usize = 0;
    let mut hi: usize = entries.len();
    while lo < hi
        invariant
            lo <= hi <= entries@.len(),
            sorted_by_hash(entries@),
            forall|i: int| 0 <= i < lo ==> entries@[i].hash < bound,
            forall|i: int| hi <= i < entries@.len() ==> entries@[i].hash >= bound,
        decreases hi - lo,
    {
        let mid: usize = lo + (hi - lo) / 2;
        if entries[mid].hash < bound {
            assert forall|i: int| 0 <= i < mid + 1 implies entries@[i].hash < bound by {
                assert(entries@[i].hash <= entries@[mid as int].hash);
            }
            lo = mid + 1;
        } else {
            assert forall|i: int| mid <= i < entries@.len() implies entries@[i].hash >= bound by {
                assert(entries@[mid as int].hash <= entries@[i].hash);
            }
            hi = mid;
        }
    }
    lo
}

/// How many of `entries` have a hash below `bound`.
pub open spec fn count_below(entries: Seq<Entry>, bound: int) -> nat
    decreases entries.len(),
{
    if entries.len() == 0 {
        0
    } else if entries.last().hash < bound {
        count_below(entries.drop_last(), bound) + 1
    } else {
        count_below(entries.drop_last(), bound)
    }
}

/// In a sorted level the entries with a hash below `bound` are the first
/// `k`, where `k` parts the lower hashes from the others.
pub proof fn lemma_count_below(entries: Seq<Entry>, bound: int, k: int)
    requires
        sorted_by_hash(entries),
        0 <= k <= entries.len(),
        forall|i: int| 0 <= i < k ==> entries[i].hash < bound,
        forall|i: int| k <= i < entries.len() ==> entries[i].hash >= bound,
    ensures
        count_below(entries, bound) == k,
    decreases entries.len(),
{
    if entries.len() > 0 {
        let prefix = entries.drop_last();
        assert forall|i: int, j: int| 0 <= i <= j < prefix.len() implies prefix[i].hash
            <= prefix[j].hash by {
            assert(entries[i].hash <= entries[j].hash);
        }
        if k == entries.len() {
            lemma_count_below(prefix, bound, k - 1);
        } else {
            lemma_count_below(prefix, bound, k);
        }
    }
}

/// The slot of a level through which a name with the hash `hash` is looked
/// for: the one with the greatest hash that is not above `hash`, and of
/// several with that hash the leftmost. `None` stands for the slot of the
/// level's header, which goes with the lowest hashes.
pub open spec fn spec_select_slot(entries: Seq<Entry>, hash: u32) -> Option<int> {
    let above = count_below(entries, hash + 1);
    if above == 0 {
        None
    } else {
        Some(count_below(entries, entries[above - 1].hash as int) as int)
    }
}

/// The block, within the directory file, in which a name with the hash
/// `hash` is looked for next, where `first_block` is the block of the
/// level's header.
pub open spec fn spec_select_block(first_block: u32, entries: Seq<Entry>, hash: u32) -> u32 {
    match spec_select_slot(entries, hash) {
        None => first_block,
        Some(j) => entries[j].block,
    }
}

/// Selects the slot of a level through which a name with the hash `hash`
/// is looked for.
pub fn select_slot(entries: &Vec<Entry>, hash: u32) -> (r: Option<usize>)
    requires
        sorted_by_hash(entries@),
    ensures
        match r {
            None => spec_select_slot(entries@, hash) is None && forall|i: int|
                0 <= i < entries@.len() ==> entries@[i].hash > hash,
            Some(j) => {
                &&& spec_select_slot(entries@, hash) == Some(j as int)
                &&& j < entries@.len()
                &&& entries@[j as int].hash <= hash
                &&& forall|i: int| 0 <= i < j ==> entries@[i].hash < entries@[j as int].hash
                &&& forall|i: int|
                    j < i < entries@.len() ==> entries@[i].hash > hash || entries@[i].hash
                        == entries@[j as int].hash
            },
        },
{
    let above: usize = if hash == u32::MAX {
        entries.len()
    } else {
        first_at_least(entries, hash + 1)
    };
    proof {
        lemma_count_below(entries@, hash + 1, above as int);
    }
    if above == 0 {
        return None;
    }
    let best: u32 = entries[above - 1].hash;
    let j = first_at_least(entries, best);
    proof {
        lemma_count_below(entries@, best as int, j as int);
    }
    assert(j <= above - 1);
    assert forall|i: int| j < i < entries@.len() implies entries@[i].hash > hash || entries@[i].hash
        == entries@[j as int].hash by {
        if i < above {
            assert(entries@[i].hash <= entries@[above - 1].hash);
        }
    }
    Some(j)
}

/// The block, within the directory file, in which a name with the hash
/// `hash` is looked for next, where `first_block` is the block of the
/// level's header.
pub fn select_block(first_block: u32, entries: &Vec<Entry>, hash: u32) -> (r: u32)
    requires
        sorted_by_hash(entries@),
    ensures
        r == spec_select_block(first_block, entries@, hash),
{
    match select_slot(entries, hash) {
        None => first_block,
        Some(j) => entries[j].block,
    }
}

/// The greatest number of indirect levels that an index may have: three
/// where directories may be large, two otherwise.
pub open spec fn max_indirect_levels(largedir: bool) -> u8 {
    if largedir {
        3
    } else {
        2
    }
}

/// What reading the root of an index from the first block of its directory
/// gives, in a filesystem with blocks of `bs` bytes: the root and its
/// entries. A hash version that is not known is not supported; a root that
/// fails its checks, or is deeper than the filesystem allows, breaks the
/// format; and so does a level that does not decode.
pub open spec fn spec_read_root(block: Seq<u8>, bs: u16, largedir: bool) -> Result<
    (Root, Seq<Entry>),
    DecodeError,
> {
    let root = Root::parse(block);
    if block.len() < 40 {
        Err(DecodeError::IoError)
    } else if root.root_info.hash_version > SIPHASH {
        Err(DecodeError::UnsupportedFeature)
    } else if !root.spec_validate(bs) || root.root_info.indirect_levels > max_indirect_levels(
        largedir,
    ) {
        Err(DecodeError::InvariantViolation)
    } else {
        match spec_level_entries(block, ROOT_HEADER_SIZE, root.limit, root.count) {
            Ok(entries) => Ok((root, entries)),
            Err(e) => Err(e),
        }
    }
}

/// What reading an interior node of an index from its block gives: the
/// node's header and its entries.
pub open spec fn spec_read_node(block: Seq<u8>, bs: u16) -> Result<(Node, Seq<Entry>), DecodeError> {
    let node = Node::parse(block);
    if block.len() < 16 {
        Err(DecodeError::IoError)
    } else if !node.spec_validate(bs) {
        Err(DecodeError::InvariantViolation)
    } else {
        match spec_level_entries(block, NODE_HEADER_SIZE, node.limit, node.count) {
            Ok(entries) => Ok((node, entries)),
            Err(e) => Err(e),
        }
    }
}

/// Reads the root of a directory index and its entries from the first
/// block of the directory.
pub fn read_root(block: &[u8], bs: u16, largedir: bool) -> (r: Result<(Root, Vec<Entry>), DecodeError>)
    ensures
        match (r, spec_read_root(block@, bs, largedir)) {
            (Ok(v), Ok(s)) => v.0 == s.0 && v.1@ == s.1,
            (Err(e), Err(f)) => e == f,
            _ => false,
        },
        r is Ok ==> {
            let root = r->Ok_0.0;
            let entries = r->Ok_0.1;
            &&& root.well_formed(bs)
            &&& ROOT_HEADER_SIZE + root.limit * ENTRY_SIZE == bs
            &&& root.count <= root.limit
            &&& root.root_info.indirect_levels <= 3
            &&& entries@.len() == root.count - 1
            &&& sorted_by_hash(entries@)
        },
{
    if block.len() < 40 {
        return Err(DecodeError::IoError);
    }
    let root = Root::decode(block);
    if root.root_info.hash_version > SIPHASH {
        return Err(DecodeError::UnsupportedFeature);
    }
    let deepest: u8 = if largedir {
        3
    } else {
        2
    };
    if !root.validate(bs) || root.root_info.indirect_levels > deepest {
        return Err(DecodeError::InvariantViolation);
    }
    match root.entries(block) {
        Ok(entries) => Ok((root, entries)),
        Err(e) => Err(e),
    }
}

/// Reads the header of an interior node of a directory index and its
/// entries from the node's block.
pub fn read_node(block: &[u8], bs: u16) -> (r: Result<(Node, Vec<Entry>), DecodeError>)
    ensures
        match (r, spec_read_node(block@, bs)) {
            (Ok(v), Ok(s)) => v.0 == s.0 && v.1@ == s.1,
            (Err(e), Err(f)) => e == f,
            _ => false,
        },
        r is Ok ==> {
            let node = r->Ok_0.0;
            let entries = r->Ok_0.1;
            &&& NODE_HEADER_SIZE + node.limit * ENTRY_SIZE == bs
            &&& node.count <= node.limit
            &&& entries@.len() == node.count - 1
            &&& sorted_by_hash(entries@)
        },
{
    if block.len() < 16 {
        return Err(DecodeError::IoError);
    }
    let node = Node::decode(block);
    if !node.validate(bs) {
        return Err(DecodeError::InvariantViolation);
    }
    match node.entries(block) {
        Ok(entries) => Ok((node, entries)),
        Err(e) => Err(e),
    }
}

/// The leaf block that `levels` interior levels lead to from the block
/// `block` of a directory, for a name with the hash `hash`. `blocks` are
/// the blocks of the directory file in their order.
pub open spec fn spec_descend(blocks: Seq<Vec<u8>>, bs: u16, block: u32, levels: nat, hash: u32) -> Result<
    u32,
    DecodeError,
>
    decreases levels,
{
    if levels == 0 {
        Ok(block)
    } else if block >= blocks.len() {
        Err(DecodeError::OutOfRange)
    } else {
        match spec_read_node(blocks[block as int]@, bs) {
            Err(e) => Err(e),
            Ok(level) => spec_descend(
                blocks,
                bs,
                spec_select_block(level.0.block, level.1, hash),
                (levels - 1) as nat,
                hash,
            ),
        }
    }
}

/// The leaf block of an indexed directory in which a name with the hash
/// `hash` is looked for: from the root in the directory's first block down
/// through as many interior levels as the root declares.
pub open spec fn spec_find_leaf(blocks: Seq<Vec<u8>>, bs: u16, largedir: bool, hash: u32) -> Result<
    u32,
    DecodeError,
> {
    if blocks.len() == 0 {
        Err(DecodeError::OutOfRange)
    } else {
        match spec_read_root(blocks[0]@, bs, largedir) {
            Err(e) => Err(e),
            Ok(top) => spec_descend(
                blocks,
                bs,
                spec_select_block(top.0.block, top.1, hash),
                top.0.root_info.indirect_levels as nat,
                hash,
            ),
        }
    }
}

/// Walks the index of a directory, whose blocks are `blocks` in the order
/// of the directory file, down to the leaf block in which a name with the
/// hash `hash` is looked for.
pub fn find_leaf(blocks: &Vec<Vec<u8>>, bs: u16, largedir: bool, hash: u32) -> (r: Result<
    u32,
    DecodeError,
>)
    ensures
        r == spec_find_leaf(blocks@, bs, largedir, hash),
{
    if blocks.len() == 0 {
        return Err(DecodeError::OutOfRange);
    }
    let (root, entries) = match read_root(blocks[0].as_slice(), bs, largedir) {
        Ok(top) => top,
        Err(e) => {
            return Err(e);
        },
    };
    let mut block: u32 = select_block(root.block, &entries, hash);
    let mut levels: u8 = root.root_info.indirect_levels;
    while levels > 0
        invariant
            spec_find_leaf(blocks@, bs, largedir, hash) == spec_descend(
                blocks@,
                bs,
                block,
                levels as nat,
                hash,
            ),
        decreases levels,
    {
        if block as usize >= blocks.len() {
            return Err(DecodeError::OutOfRange);
        }
        let (node, below) = match read_node(blocks[block as usize].as_slice(), bs) {
            Ok(level) => level,
            Err(e) => {
                return Err(e);
            },
        };
        block = select_block(node.block, &below, hash);
        levels = levels - 1;
    }
    Ok(block)
}

/// What the checksum in the tail of an index block is computed over: the
/// filesystem UUID, the block from its start to the end of the slots in
/// use, and the tail with its own checksum zeroed. The header of the level
/// lies at the byte `header`, `count` slots are in use, and the tail is the
/// last eight bytes of the block.
pub open spec fn index_csum_input(uuid: Seq<u8>, block: Seq<u8>, header: usize, count: u16) -> Seq<u8> {
    uuid + block.subrange(0, header + 8 * count) + zeroed(
        block.subrange(block.len() - 8, block.len() as int),
        seq![(4usize, 8usize)],
    )
}

/// The outcome of checking the tail of an index block: the slots in use
/// and the tail have to lie in the block one after the other, and the CRC
/// that starts from `seed` has to be the one that the tail holds.
pub open spec fn spec_check_index_csum(uuid: Seq<u8>, seed: u32, block: Seq<u8>, header: usize, count: u16) -> Result<
    (),
    DecodeError,
> {
    let algo = Algorithm {
        poly: 0x04C1_1DB7,
        init: seed,
        refin: true,
        refout: true,
        xorout: 0xFFFF_FFFF,
    };
    if header + 8 * count + 8 > block.len() {
        Err(DecodeError::IoError)
    } else if spec_crc32(algo, index_csum_input(uuid, block, header, count)) != Tail::parse(
        block.subrange(block.len() - 8, block.len() as int),
    ).csum {
        Err(DecodeError::ChecksumMismatch)
    } else {
        Ok(())
    }
}

/// Checks the checksum in the tail of an index block.
pub fn check_index_csum(uuid: &[u8; 16], seed: u32, block: &[u8], header: usize, count: u16) -> (r:
    Result<(), DecodeError>)
    ensures
        r == spec_check_index_csum(uuid@, seed, block@, header, count),
{
    let len: usize = block.len();
    let used: usize = 8 * (count as usize) + 8;
    if header > len || used > len - header {
        return Err(DecodeError::IoError);
    }
    let mut input: Vec<u8> = Vec::new();
    let mut i: usize = 0;
    while i < 16
        invariant
            i <= 16,
            input@ == uuid@.subrange(0, i as int),
        decreases 16 - i,
    {
        input.push(uuid[i]);
        assert(input@ =~= uuid@.subrange(0, i + 1));
        i += 1;
    }
    assert(input@ =~= uuid@);
    append_range(&mut input, block, 0, header + 8 * (count as usize));
    let tail_bytes = vstd::slice::slice_subrange(block, len - 8, len);
    let ranges: [(usize, usize); 1] = [(4, 8)];
    assert(ranges@ =~= seq![(4usize, 8usize)]);
    let mut cleared = zero_ranges(tail_bytes, ranges.as_slice());
    input.append(&mut cleared);
    let tail = Tail::decode(tail_bytes);
    let algo = ext_algorithm(seed);
    if crc32_bytes(&algo, input.as_slice()) != tail.csum {
        return Err(DecodeError::ChecksumMismatch);
    }
    Ok(())
}

/// Of the root of every sound index: header and slots fill the block, no
/// more slots are in use than there are, and the tree has at most three
/// indirect levels.
pub proof fn lemma_root_invariants(root: Root, bs: u16)
    requires
        root.well_formed(bs),
    ensures
        ROOT_HEADER_SIZE + root.limit * 8 == bs,
        root.count <= root.limit,
        root.root_info.indirect_levels <= 3,
{
}

/// Of every level that decodes: its entries are in ascending order of hash.
pub proof fn lemma_level_sorted(block: Seq<u8>, header: usize, limit: u16, count: u16)
    requires
        spec_level_entries(block, header, limit, count) is Ok,
    ensures
        sorted_by_hash(spec_level_entries(block, header, limit, count)->Ok_0),
        spec_level_entries(block, header, limit, count)->Ok_0.len() == count - 1,
{
}

/// Laying out the entry that eight bytes hold gives these bytes back.
pub proof fn lemma_entry_round_trip(s: Seq<u8>)
    requires
        s.len() == 8,
    ensures
        Entry::parse(s).bytes() == s,
{
    lemma_u32_round_trip(s, 0);
    lemma_u32_round_trip(s, 4);
    assert(Entry::parse(s).bytes() =~= s.subrange(0, 4) + s.subrange(4, 8));
    assert(s.subrange(0, 4) + s.subrange(4, 8) =~= s);
}

/// Laying out the tail that eight bytes hold gives these bytes back.
pub proof fn lemma_tail_round_trip(s: Seq<u8>)
    requires
        s.len() == 8,
    ensures
        Tail::parse(s).bytes() == s,
{
    lemma_u32_round_trip(s, 0);
    lemma_u32_round_trip(s, 4);
    assert(Tail::parse(s).bytes() =~= s.subrange(0, 4) + s.subrange(4, 8));
    assert(s.subrange(0, 4) + s.subrange(4, 8) =~= s);
}

/// Laying out the root info that eight bytes hold gives these bytes back.
pub proof fn lemma_root_info_round_trip(s: Seq<u8>)
    requires
        s.len() == 8,
    ensures
        RootInfo::parse(s).bytes() == s,
{
    lemma_u32_round_trip(s, 0);
    assert(RootInfo::parse(s).bytes() =~= s.subrange(0, 4) + s.subrange(4, 8));
    assert(s.subrange(0, 4) + s.subrange(4, 8) =~= s);
}

/// Laying out the node header that sixteen bytes hold gives these bytes back.
pub proof fn lemma_node_round_trip(s: Seq<u8>)
    requires
        s.len() == 16,
    ensures
        Node::parse(s).bytes() == s,
{
    lemma_u32_round_trip(s, 0);
    lemma_u16_round_trip(s, 4);
    lemma_u16_round_trip(s, 8);
    lemma_u16_round_trip(s, 10);
    lemma_u32_round_trip(s, 12);
    assert(Node::parse(s).bytes() =~= s.subrange(0, 4) + s.subrange(4, 6) + s.subrange(6, 8)
        + s.subrange(8, 10) + s.subrange(10, 12) + s.subrange(12, 16));
    assert(s.subrange(0, 4) + s.subrange(4, 6) + s.subrange(6, 8) + s.subrange(8, 10)
        + s.subrange(10, 12) + s.subrange(12, 16) =~= s);
}

/// Laying out the root that forty bytes hold gives these bytes back.
pub proof fn lemma_root_round_trip(s: Seq<u8>)
    requires
        s.len() == 40,
    ensures
        Root::parse(s).bytes() == s,
{
    let r = Root::parse(s);
    lemma_u32_round_trip(s, 0);
    lemma_u16_round_trip(s, 4);
    lemma_u32_round_trip(s, 12);
    lemma_u16_round_trip(s, 16);
    lemma_root_info_round_trip(s.subrange(24, 32));
    lemma_u16_round_trip(s, 32);
    lemma_u16_round_trip(s, 34);
    lemma_u32_round_trip(s, 36);
    assert(r.dot_name@ =~= s.subrange(8, 12));
    assert(r.dotdot_name@ =~= s.subrange(20, 24));
    assert(seq![r.dot_name_len, r.dot_file_type] =~= s.subrange(6, 8));
    assert(seq![r.dotdot_name_len, r.dotdot_file_type] =~= s.subrange(18, 20));
    assert(r.bytes() =~= s.subrange(0, 4) + s.subrange(4, 6) + s.subrange(6, 8) + s.subrange(
        8,
        12,
    ) + s.subrange(12, 16) + s.subrange(16, 18) + s.subrange(18, 20) + s.subrange(20, 24)
        + s.subrange(24, 32) + s.subrange(32, 34) + s.subrange(34, 36) + s.subrange(36, 40));
    assert(s.subrange(0, 4) + s.subrange(4, 6) + s.subrange(6, 8) + s.subrange(8, 12)
        + s.subrange(12, 16) + s.subrange(16, 18) + s.subrange(18, 20) + s.subrange(20, 24)
        + s.subrange(24, 32) + s.subrange(32, 34) + s.subrange(34, 36) + s.subrange(36, 40)
        =~= s);
}

} // verus!
