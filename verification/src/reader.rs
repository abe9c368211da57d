use crate::error::DecodeError;
use vstd::prelude::*;
use vstd::slice::slice_subrange;

verus! {

/// The little-endian 16-bit value held by `s` at `off`.
pub open spec fn u16_at(s: Seq<u8>, off: int) -> u16 {
    (s[off] as int + 0x100 * (s[off + 1] as int)) as u16
}

/// The little-endian 32-bit value held by `s` at `off`.
pub open spec fn u32_at(s: Seq<u8>, off: int) -> u32 {
    (u16_at(s, off) as int + 0x1_0000 * (u16_at(s, off + 2) as int)) as u32
}

/// The little-endian 64-bit value held by `s` at `off`.
pub open spec fn u64_at(s: Seq<u8>, off: int) -> u64 {
    (u32_at(s, off) as int + 0x1_0000_0000 * (u32_at(s, off + 4) as int)) as u64
}

/// The little-endian 128-bit value held by `s` at `off`.
pub open spec fn u128_at(s: Seq<u8>, off: int) -> u128 {
    (u64_at(s, off) as int + 0x1_0000_0000_0000_0000 * (u64_at(s, off + 8) as int)) as u128
}

/// The two bytes that hold `v` in little-endian order.
pub open spec fn u16_bytes(v: u16) -> Seq<u8> {
    seq![(v as int % 0x100) as u8, (v as int / 0x100) as u8]
}

/// The four bytes that hold `v` in little-endian order.
pub open spec fn u32_bytes(v: u32) -> Seq<u8> {
    u16_bytes((v as int % 0x1_0000) as u16) + u16_bytes((v as int / 0x1_0000) as u16)
}

/// The eight bytes that hold `v` in little-endian order.
pub open spec fn u64_bytes(v: u64) -> Seq<u8> {
    u32_bytes((v as int % 0x1_0000_0000) as u32) + u32_bytes((v as int / 0x1_0000_0000) as u32)
}

/// The sixteen bytes that hold `v` in little-endian order.
pub open spec fn u128_bytes(v: u128) -> Seq<u8> {
    u64_bytes((v as int % 0x1_0000_0000_0000_0000) as u64) + u64_bytes(
        (v as int / 0x1_0000_0000_0000_0000) as u64,
    )
}

/// Writing out the 16-bit value read at `off` gives back the two bytes there.
pub proof fn lemma_u16_round_trip(s: Seq<u8>, off: int)
    requires
        0 <= off,
        off + 2 <= s.len(),
    ensures
        u16_bytes(u16_at(s, off)) =~= s.subrange(off, off + 2),
        u16_at(u16_bytes(u16_at(s, off)), 0) == u16_at(s, off),
{
}

/// Writing out the 32-bit value read at `off` gives back the four bytes there.
pub proof fn lemma_u32_round_trip(s: Seq<u8>, off: int)
    requires
        0 <= off,
        off + 4 <= s.len(),
    ensures
        u32_bytes(u32_at(s, off)) =~= s.subrange(off, off + 4),
{
    lemma_u16_round_trip(s, off);
    lemma_u16_round_trip(s, off + 2);
}

/// The bytes of a 64-bit value are those of its low half, then those of its
/// high half.
pub proof fn lemma_u64_bytes_split(lo: u32, hi: u32)
    ensures
        u64_bytes((lo as int + 0x1_0000_0000 * (hi as int)) as u64) == u32_bytes(lo) + u32_bytes(hi),
{
    let v = (lo as int + 0x1_0000_0000 * (hi as int)) as u64;
    assert((v as int % 0x1_0000_0000) as u32 == lo);
    assert((v as int / 0x1_0000_0000) as u32 == hi);
}

/// Writing out the 64-bit value read at `off` gives back the eight bytes there.
pub proof fn lemma_u64_round_trip(s: Seq<u8>, off: int)
    requires
        0 <= off,
        off + 8 <= s.len(),
    ensures
        u64_bytes(u64_at(s, off)) =~= s.subrange(off, off + 8),
{
    lemma_u64_bytes_split(u32_at(s, off), u32_at(s, off + 4));
    lemma_u32_round_trip(s, off);
    lemma_u32_round_trip(s, off + 4);
    assert(s.subrange(off, off + 4) + s.subrange(off + 4, off + 8) =~= s.subrange(off, off + 8));
}

/// Reading back what was written for `v` gives `v`.
pub proof fn lemma_u16_bytes_read(v: u16)
    ensures
        u16_bytes(v).len() == 2,
        u16_at(u16_bytes(v), 0) == v,
{
}

/// Reading back what was written for `v` gives `v`.
pub proof fn lemma_u32_bytes_read(v: u32)
    ensures
        u32_bytes(v).len() == 4,
        u32_at(u32_bytes(v), 0) == v,
{
    lemma_u16_bytes_read((v as int % 0x1_0000) as u16);
    lemma_u16_bytes_read((v as int / 0x1_0000) as u16);
}

/// `bincode::deserialize::<u16>` on a byte slice. With bincode's default
/// options (fixed-width integers, little-endian, trailing bytes allowed) it
/// reads the first two bytes as a little-endian value, and fails only where
/// fewer than two bytes are there.
#[verifier::external_body]
fn bincode_u16(bytes: &[u8]) -> (r: Option<u16>)
    ensures
        bytes@.len() >= 2 ==> r == Some(u16_at(bytes@, 0)),
        bytes@.len() < 2 ==> r.is_none(),
{
    bincode::deserialize::<u16>(bytes).ok()
}

/// `bincode::deserialize::<u32>` on a byte slice: the first four bytes as a
/// little-endian value; fails only where fewer than four bytes are there.
#[verifier::external_body]
fn bincode_u32(bytes: &[u8]) -> (r: Option<u32>)
    ensures
        bytes@.len() >= 4 ==> r == Some(u32_at(bytes@, 0)),
        bytes@.len() < 4 ==> r.is_none(),
{
    bincode::deserialize::<u32>(bytes).ok()
}

/// `bincode::deserialize::<u64>` on a byte slice: the first eight bytes as a
/// little-endian value; fails only where fewer than eight bytes are there.
#[verifier::external_body]
fn bincode_u64(bytes: &[u8]) -> (r: Option<u64>)
    ensures
        bytes@.len() >= 8 ==> r == Some(u64_at(bytes@, 0)),
        bytes@.len() < 8 ==> r.is_none(),
{
    bincode::deserialize::<u64>(bytes).ok()
}

/// `bincode::deserialize::<u128>` on a byte slice: the first sixteen bytes as
/// a little-endian value; fails only where fewer than sixteen bytes are there.
#[verifier::external_body]
fn bincode_u128(bytes: &[u8]) -> (r: Option<u128>)
    ensures
        bytes@.len() >= 16 ==> r == Some(u128_at(bytes@, 0)),
        bytes@.len() < 16 ==> r.is_none(),
{
    bincode::deserialize::<u128>(bytes).ok()
}

/// Decodes a little-endian `u16` from the head of `d`.
pub fn le_u16_deserialize(d: &[u8]) -> (r: Option<u16>)
    ensures
        r == (if d@.len() >= 2 {
            Some(u16_at(d@, 0))
        } else {
            None
        }),
{
    bincode_u16(d)
}

/// Decodes a little-endian `u32` from the head of `d`.
pub fn le_u32_deserialize(d: &[u8]) -> (r: Option<u32>)
    ensures
        r == (if d@.len() >= 4 {
            Some(u32_at(d@, 0))
        } else {
            None
        }),
{
    bincode_u32(d)
}

/// Decodes a little-endian `u64` from the head of `d`.
pub fn le_u64_deserialize(d: &[u8]) -> (r: Option<u64>)
    ensures
        r == (if d@.len() >= 8 {
            Some(u64_at(d@, 0))
        } else {
            None
        }),
{
    bincode_u64(d)
}

/// Decodes a little-endian `u128` from the head of `d`.
pub fn le_u128_deserialize(d: &[u8]) -> (r: Option<u128>)
    ensures
        r == (if d@.len() >= 16 {
            Some(u128_at(d@, 0))
        } else {
            None
        }),
{
    bincode_u128(d)
}

/// The little-endian `u16` at `off`.
pub fn get_u16(bytes: &[u8], off: usize) -> (r: u16)
    requires
        off + 2 <= bytes@.len(),
    ensures
        r == u16_at(bytes@, off as int),
{
    let _len = bytes.len();
    let field = slice_subrange(bytes, off, off + 2);
    le_u16_deserialize(field).unwrap()
}

/// The little-endian `u32` at `off`.
pub fn get_u32(bytes: &[u8], off: usize) -> (r: u32)
    requires
        off + 4 <= bytes@.len(),
    ensures
        r == u32_at(bytes@, off as int),
{
    let _len = bytes.len();
    let field = slice_subrange(bytes, off, off + 4);
    le_u32_deserialize(field).unwrap()
}

/// The little-endian `u64` at `off`.
pub fn get_u64(bytes: &[u8], off: usize) -> (r: u64)
    requires
        off + 8 <= bytes@.len(),
    ensures
        r == u64_at(bytes@, off as int),
{
    let _len = bytes.len();
    let field = slice_subrange(bytes, off, off + 8);
    le_u64_deserialize(field).unwrap()
}

/// The little-endian `u128` at `off`.
pub fn get_u128(bytes: &[u8], off: usize) -> (r: u128)
    requires
        off + 16 <= bytes@.len(),
    ensures
        r == u128_at(bytes@, off as int),
{
    let _len = bytes.len();
    let field = slice_subrange(bytes, off, off + 16);
    le_u128_deserialize(field).unwrap()
}

/// A record of fixed size and layout, as it lies in an image.
pub trait Record: Sized {
    /// The number of bytes that the record takes.
    spec fn size() -> nat;

    /// The record that the first `size()` bytes of `s` hold.
    spec fn parse(s: Seq<u8>) -> Self;

    /// The number of bytes that the record takes.
    fn record_size() -> (n: usize)
        ensures
            n == Self::size(),
    ;

    /// Decodes the record at the head of `bytes`.
    fn decode(bytes: &[u8]) -> (r: Self)
        requires
            bytes@.len() >= Self::size(),
        ensures
            r == Self::parse(bytes@),
    ;
}

/// A header that is built from the record that holds it on disk.
pub trait HasRawHeader<Header: Sized, RawHeader: Sized> {
    /// The header that `raw` stands for.
    spec fn spec_from_raw(raw: RawHeader) -> Header;

    /// Builds the header from its raw record.
    fn from_raw(raw: &RawHeader) -> (h: Header)
        ensures
            h == Self::spec_from_raw(*raw),
    ;
}

/// What reading a record at `offset` of `image` gives: the record parsed
/// from the bytes there, or `IoError` where the image ends before the
/// record does.
pub open spec fn spec_read_header<Header: Record>(image: Seq<u8>, offset: u64) -> Result<
    Header,
    DecodeError,
> {
    if offset + Header::size() <= image.len() {
        Ok(Header::parse(image.subrange(offset as int, offset + Header::size())))
    } else {
        Err(DecodeError::IoError)
    }
}

/// Reads the record of type `Header` that lies at `offset` of `image`.
pub fn read_header_from_file<Header: Record>(image: &[u8], offset: u64) -> (r: Result<
    Header,
    DecodeError,
>)
    ensures
        r == spec_read_header::<Header>(image@, offset),
{
    let n = image.len();
    let size = Header::record_size();
    if offset > n as u64 || size > n - offset as usize {
        return Err(DecodeError::IoError);
    }
    let start = offset as usize;
    let field = slice_subrange(image, start, start + size);
    Ok(Header::decode(field))
}

/// Reads the raw record that lies at `offset` of `image` and builds the
/// header from it.
pub fn read_header_from_file_unsafe<Header: HasRawHeader<Header, HeaderRaw>, HeaderRaw: Record>(
    image: &[u8],
    offset: u64,
) -> (r: Result<Header, DecodeError>)
    ensures
        r == (match spec_read_header::<HeaderRaw>(image@, offset) {
            Ok(raw) => Ok(Header::spec_from_raw(raw)),
            Err(e) => Err(e),
        }),
{
    match read_header_from_file::<HeaderRaw>(image, offset) {
        Ok(raw) => Ok(Header::from_raw(&raw)),
        Err(e) => Err(e),
    }
}

/// The bytes of `image` from `offset` on, `length` of them; `IoError` where
/// the image ends before that.
pub fn read_bytes(image: &[u8], offset: u64, length: u64) -> (r: Result<Vec<u8>, DecodeError>)
    ensures
        match r {
            Ok(v) => offset + length <= image@.len() && v@ == image@.subrange(
                offset as int,
                offset + length,
            ),
            Err(e) => offset + length > image@.len() && e == DecodeError::IoError,
        },
{
    let n = image.len();
    if offset > n as u64 || length > n as u64 - offset {
        return Err(DecodeError::IoError);
    }
    let start = offset as usize;
    let end = start + length as usize;
    let mut out: Vec<u8> = Vec::new();
    let mut i: usize = start;
    while i < end
        invariant
            start <= i <= end,
            end <= image@.len(),
            out@ == image@.subrange(start as int, i as int),
        decreases end - i,
    {
        out.push(image[i]);
        i += 1;
    }
    Ok(out)
}

/// Appends the two bytes that hold `v` in little-endian order.
pub fn put_u16(out: &mut Vec<u8>, v: u16)
    ensures
        final(out)@ == old(out)@ + u16_bytes(v),
{
    out.push((v % 0x100) as u8);
    out.push((v / 0x100) as u8);
    assert(out@ =~= old(out)@ + u16_bytes(v));
}

/// Appends the four bytes that hold `v` in little-endian order.
pub fn put_u32(out: &mut Vec<u8>, v: u32)
    ensures
        final(out)@ == old(out)@ + u32_bytes(v),
{
    let lo: u32 = v % 0x1_0000;
    let hi: u32 = v / 0x1_0000;
    out.push((lo % 0x100) as u8);
    out.push((lo / 0x100) as u8);
    out.push((hi % 0x100) as u8);
    out.push((hi / 0x100) as u8);
    assert(out@ =~= old(out)@ + u32_bytes(v));
}

/// Appends the bytes of `src` from `from` up to `to`.
pub fn append_range(out: &mut Vec<u8>, src: &[u8], from: usize, to: usize)
    requires
        from <= to <= src@.len(),
    ensures
        final(out)@ == old(out)@ + src@.subrange(from as int, to as int),
{
    let mut i: usize = from;
    while i < to
        invariant
            from <= i <= to <= src@.len(),
            out@ == old(out)@ + src@.subrange(from as int, i as int),
        decreases to - i,
    {
        out.push(src[i]);
        assert(out@ =~= old(out)@ + src@.subrange(from as int, i + 1));
        i += 1;
    }
}

} // verus!
