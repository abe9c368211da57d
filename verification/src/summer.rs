use crate::reader::{append_range, put_u32, u32_bytes};
use vstd::prelude::*;

verus! {

/// Parameters of a 32-bit CRC: generator polynomial, initial register,
/// whether input bytes and the final register are bit-reflected, and the
/// value xor-ed onto the result.
#[derive(Clone, Copy, Debug, PartialEq, Eq, Structural)]
pub struct Algorithm {
    pub poly: u32,
    pub init: u32,
    pub refin: bool,
    pub refout: bool,
    pub xorout: u32,
}

/// The low `n` bits of `v` in reverse order.
pub open spec fn reflect_bits(v: u32, n: nat) -> u32
    decreases n,
{
    if n == 0 {
        0
    } else {
        (reflect_bits(v, (n - 1) as nat) << 1) | ((v >> ((n - 1) as u32)) & 1)
    }
}

/// The 32-bit register after `n` shifts, most significant bit first.
pub open spec fn shift32(reg: u32, poly: u32, n: nat) -> u32
    decreases n,
{
    if n == 0 {
        reg
    } else {
        let r = shift32(reg, poly, (n - 1) as nat);
        if r & 0x8000_0000 != 0 {
            (r << 1) ^ poly
        } else {
            r << 1
        }
    }
}

/// The register after one more input byte.
pub open spec fn feed32(algo: Algorithm, reg: u32, byte: u8) -> u32 {
    let b = if algo.refin {
        reflect_bits(byte as u32, 8)
    } else {
        byte as u32
    };
    shift32(reg ^ (b << 24), algo.poly, 8)
}

/// The register after all of `s` went in.
pub open spec fn register32(algo: Algorithm, s: Seq<u8>) -> u32
    decreases s.len(),
{
    if s.len() == 0 {
        algo.init
    } else {
        feed32(algo, register32(algo, s.drop_last()), s.last())
    }
}

/// The CRC of `s` under `algo`.
pub open spec fn spec_crc32(algo: Algorithm, s: Seq<u8>) -> u32 {
    let reg = register32(algo, s);
    let out = if algo.refout {
        reflect_bits(reg, 32)
    } else {
        reg
    };
    out ^ algo.xorout
}

/// The 16-bit register after `n` shifts, least significant bit first, with
/// the reflected polynomial `0xA001`.
pub open spec fn shift16(reg: u16, n: nat) -> u16
    decreases n,
{
    if n == 0 {
        reg
    } else {
        let r = shift16(reg, (n - 1) as nat);
        if r & 1 != 0 {
            (r >> 1) ^ 0xA001
        } else {
            r >> 1
        }
    }
}

/// The reflected CRC-16 of `s` from the register `init`, without a final xor.
pub open spec fn spec_crc16(init: u16, s: Seq<u8>) -> u16
    decreases s.len(),
{
    if s.len() == 0 {
        init
    } else {
        shift16(spec_crc16(init, s.drop_last()) ^ (s.last() as u16), 8)
    }
}

/// Whether one of `ranges` (start, end: half-open) holds the index `i`.
pub open spec fn in_ranges(ranges: Seq<(usize, usize)>, i: int) -> bool {
    exists|k: int| 0 <= k < ranges.len() && (#[trigger] ranges[k]).0 <= i < ranges[k].1
}

/// `record` with every byte inside one of `ranges` replaced by zero.
pub open spec fn zeroed(record: Seq<u8>, ranges: Seq<(usize, usize)>) -> Seq<u8> {
    Seq::new(
        record.len(),
        |i: int|
            if in_ranges(ranges, i) {
                0u8
            } else {
                record[i]
            },
    )
}

/// What the checksum of a block-group descriptor is computed over: the
/// filesystem UUID, the group's index, and the descriptor with its own
/// checksum field (bytes `0x1e` and `0x1f`) replaced by zero.
pub open spec fn descriptor_csum_input(uuid: Seq<u8>, group: u32, desc: Seq<u8>) -> Seq<u8> {
    uuid + u32_bytes(group) + desc.subrange(0, 0x1e) + seq![0u8, 0u8] + desc.subrange(
        0x20,
        desc.len() as int,
    )
}

/// The CRC profile of the GPT header and of the GPT entry array.
pub fn gpt_algorithm() -> (a: Algorithm)
    ensures
        a == (Algorithm {
            poly: 0x04C1_1DB7,
            init: 0xFFFF_FFFF,
            refin: true,
            refout: true,
            xorout: 0xFFFF_FFFF,
        }),
{
    Algorithm { poly: 0x04C1_1DB7, init: 0xFFFF_FFFF, refin: true, refout: true, xorout: 0xFFFF_FFFF }
}

/// The CRC profile of ext metadata checksums: the register starts from the
/// filesystem's checksum seed.
pub fn ext_algorithm(seed: u32) -> (a: Algorithm)
    ensures
        a == (Algorithm {
            poly: 0x04C1_1DB7,
            init: seed,
            refin: true,
            refout: true,
            xorout: 0xFFFF_FFFF,
        }),
{
    Algorithm { poly: 0x04C1_1DB7, init: seed, refin: true, refout: true, xorout: 0xFFFF_FFFF }
}

fn reflect(v: u32, n: u32) -> (r: u32)
    requires
        n <= 32,
    ensures
        r == reflect_bits(v, n as nat),
{
    let mut out: u32 = 0;
    let mut i: u32 = 0;
    while i < n
        invariant
            i <= n <= 32,
            out == reflect_bits(v, i as nat),
        decreases n - i,
    {
        out = (out << 1) | ((v >> i) & 1);
        i += 1;
    }
    out
}

fn feed(algo: &Algorithm, reg: u32, byte: u8) -> (r: u32)
    ensures
        r == feed32(*algo, reg, byte),
{
    let b: u32 = if algo.refin {
        reflect(byte as u32, 8)
    } else {
        byte as u32
    };
    let mut r: u32 = reg ^ (b << 24);
    let mut i: u32 = 0;
    while i < 8
        invariant
            i <= 8,
            r == shift32(reg ^ (b << 24), algo.poly, i as nat),
        decreases 8 - i,
    {
        if r & 0x8000_0000 != 0 {
            r = (r << 1) ^ algo.poly;
        } else {
            r = r << 1;
        }
        i += 1;
    }
    r
}

/// The CRC of `bytes` under `algo`.
pub fn crc32_bytes(algo: &Algorithm, bytes: &[u8]) -> (r: u32)
    ensures
        r == spec_crc32(*algo, bytes@),
{
    let mut reg: u32 = algo.init;
    let mut i: usize = 0;
    while i < bytes.len()
        invariant
            i <= bytes@.len(),
            reg == register32(*algo, bytes@.take(i as int)),
        decreases bytes@.len() - i,
    {
        assert(bytes@.take(i + 1).drop_last() =~= bytes@.take(i as int));
        reg = feed(algo, reg, bytes[i]);
        i += 1;
    }
    assert(bytes@.take(i as int) =~= bytes@);
    let out = if algo.refout {
        reflect(reg, 32)
    } else {
        reg
    };
    out ^ algo.xorout
}

/// The reflected CRC-16 (polynomial `0xA001`) of `bytes`, starting from the
/// register `init`, without a final xor.
pub fn crc16(init: u16, bytes: &[u8]) -> (r: u16)
    ensures
        r == spec_crc16(init, bytes@),
{
    let mut reg: u16 = init;
    let mut i: usize = 0;
    while i < bytes.len()
        invariant
            i <= bytes@.len(),
            reg == spec_crc16(init, bytes@.take(i as int)),
        decreases bytes@.len() - i,
    {
        assert(bytes@.take(i + 1).drop_last() =~= bytes@.take(i as int));
        let start: u16 = reg ^ (bytes[i] as u16);
        let mut r: u16 = start;
        let mut k: u32 = 0;
        while k < 8
            invariant
                k <= 8,
                r == shift16(start, k as nat),
            decreases 8 - k,
        {
            if r & 1 != 0 {
                r = (r >> 1) ^ 0xA001;
            } else {
                r = r >> 1;
            }
            k += 1;
        }
        reg = r;
        i += 1;
    }
    assert(bytes@.take(i as int) =~= bytes@);
    reg
}

fn covered(ranges: &[(usize, usize)], i: usize) -> (r: bool)
    ensures
        r == in_ranges(ranges@, i as int),
{
    let mut k: usize = 0;
    while k < ranges.len()
        invariant
            k <= ranges@.len(),
            forall|j: int| 0 <= j < k ==> !((#[trigger] ranges@[j]).0 <= i < ranges@[j].1),
        decreases ranges@.len() - k,
    {
        if ranges[k].0 <= i && i < ranges[k].1 {
            return true;
        }
        k += 1;
    }
    false
}

/// A copy of `record` in which every byte inside one of `ranges` (start and
/// end, half-open) is zero: the input for the checksum of a record that
/// holds its own checksum.
pub fn zero_ranges(record: &[u8], ranges: &[(usize, usize)]) -> (out: Vec<u8>)
    ensures
        out@ == zeroed(record@, ranges@),
{
    let mut out: Vec<u8> = Vec::new();
    let mut i: usize = 0;
    while i < record.len()
        invariant
            i <= record@.len(),
            out@.len() == i,
            forall|j: int|
                0 <= j < i ==> out@[j] == (if in_ranges(ranges@, j) {
                    0u8
                } else {
                    record@[j]
                }),
        decreases record@.len() - i,
    {
        if covered(ranges, i) {
            out.push(0);
        } else {
            out.push(record[i]);
        }
        i += 1;
    }
    assert(out@ =~= zeroed(record@, ranges@));
    out
}

/// Assembles what the checksum of a block-group descriptor is computed
/// over, from the filesystem UUID, the group's index and the descriptor's
/// bytes as they lie in the table.
pub fn descriptor_csum_bytes(uuid: &[u8; 16], group: u32, desc: &[u8]) -> (out: Vec<u8>)
    requires
        desc@.len() >= 0x20,
    ensures
        out@ == descriptor_csum_input(uuid@, group, desc@),
{
    let mut out: Vec<u8> = Vec::new();
    let mut i: usize = 0;
    while i < 16
        invariant
            i <= 16,
            out@ == uuid@.subrange(0, i as int),
        decreases 16 - i,
    {
        out.push(uuid[i]);
        assert(out@ =~= uuid@.subrange(0, i + 1));
        i += 1;
    }
    assert(out@ =~= uuid@);
    put_u32(&mut out, group);
    append_range(&mut out, desc, 0, 0x1e);
    out.push(0);
    out.push(0);
    assert(out@ =~= uuid@ + u32_bytes(group) + desc@.subrange(0, 0x1e) + seq![0u8, 0u8]);
    append_range(&mut out, desc, 0x20, desc.len());
    out
}

} // verus!
