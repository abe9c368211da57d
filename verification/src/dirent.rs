use crate::error::DecodeError;
use crate::reader::{get_u16, get_u32, u16_at, u32_at};
use vstd::prelude::*;

verus! {

/// Bytes of a directory entry before its name: inode number, record
/// length, name length and file type.
pub const DIRENT_HEADER_SIZE: usize = 8;

/// What looking for `name` among the directory entries of a leaf block
/// gives, from the byte `off` on: the inode number of the first entry in
/// use that has the name, or nothing where the block ends first. An entry
/// that is shorter than its header and name, or that reaches beyond the
/// block, breaks the format.
pub open spec fn spec_find_name(block: Seq<u8>, off: int, name: Seq<u8>) -> Result<
    Option<u32>,
    DecodeError,
>
    decreases block.len() - off,
{
    if off < 0 || off + 8 > block.len() {
        Ok(None)
    } else {
        let inode = u32_at(block, off);
        let rec_len = u16_at(block, off + 4);
        let name_len = block[off + 6];
        if rec_len < 8 + name_len || off + rec_len > block.len() {
            Err(DecodeError::InvariantViolation)
        } else if inode != 0 && block.subrange(off + 8, off + 8 + name_len) == name {
            Ok(Some(inode))
        } else {
            spec_find_name(block, off + rec_len, name)
        }
    }
}

/// Whether the `len` bytes of `block` from `from` on are the bytes of `name`.
pub fn name_matches(block: &[u8], from: usize, len: usize, name: &[u8]) -> (r: bool)
    requires
        from + len <= block@.len(),
    ensures
        r == (block@.subrange(from as int, from + len) == name@),
{
    if name.len() != len {
        return false;
    }
    let total: usize = block.len();
    let mut i: usize = 0;
    while i < len
        invariant
            i <= len,
            total == block@.len(),
            len == name@.len(),
            from + len <= block@.len(),
            forall|k: int| 0 <= k < i ==> block@[from + k] == name@[k],
        decreases len - i,
    {
        if block[from + i] != name[i] {
            assert(block@.subrange(from as int, from + len)[i as int] != name@[i as int]);
            return false;
        }
        i += 1;
    }
    assert(block@.subrange(from as int, from + len) =~= name@);
    true
}

/// Looks for `name` among the directory entries of a leaf block and gives
/// the inode number that goes with it.
pub fn find_name(block: &[u8], name: &[u8]) -> (r: Result<Option<u32>, DecodeError>)
    ensures
        r == spec_find_name(block@, 0, name@),
{
    let len: usize = block.len();
    let mut off: usize = 0;
    while len - off >= 8
        invariant
            off <= len,
            len == block@.len(),
            spec_find_name(block@, 0, name@) == spec_find_name(block@, off as int, name@),
        decreases len - off,
    {
        let inode = get_u32(block, off);
        let rec_len: usize = get_u16(block, off + 4) as usize;
        let name_len: usize = block[off + 6] as usize;
        if rec_len < 8 + name_len || rec_len > len - off {
            return Err(DecodeError::InvariantViolation);
        }
        if inode != 0 && name_matches(block, off + 8, name_len, name) {
            return Ok(Some(inode));
        }
        off += rec_len;
    }
    Ok(None)
}

} // verus!
