use xfat::error::DecodeError;
use xfat::hashdir::{
    is_sorted_by_hash, level_entries, Entry, HashVer, Node, Root, RootInfo, Tail,
};
use xfat::reader::{
    append_range, get_u128, get_u16, get_u32, get_u64, le_u128_deserialize, le_u16_deserialize,
    le_u32_deserialize, le_u64_deserialize, put_u32, read_bytes, read_header_from_file, Record,
};
use xfat::summer::{
    crc16, crc32_bytes, descriptor_csum_bytes, ext_algorithm, gpt_algorithm, zero_ranges,
    Algorithm,
};

#[test]
fn little_endian_integers() {
    let bytes: Vec<u8> = (1u8..=20).collect();
    assert_eq!(le_u16_deserialize(&bytes), Some(0x0201));
    assert_eq!(le_u32_deserialize(&bytes), Some(0x0403_0201));
    assert_eq!(le_u64_deserialize(&bytes), Some(0x0807_0605_0403_0201));
    assert_eq!(
        le_u128_deserialize(&bytes),
        Some(0x100F_0E0D_0C0B_0A09_0807_0605_0403_0201)
    );
    assert_eq!(get_u16(&bytes, 3), 0x0504);
    assert_eq!(get_u32(&bytes, 16), 0x1413_1211);
    assert_eq!(get_u64(&bytes, 1), 0x0908_0706_0504_0302);
    assert_eq!(get_u128(&bytes, 4), 0x1413_1211_100F_0E0D_0C0B_0A09_0807_0605);
}

#[test]
fn short_integers_are_refused() {
    assert_eq!(le_u16_deserialize(&[1]), None);
    assert_eq!(le_u32_deserialize(&[1, 2, 3]), None);
    assert_eq!(le_u64_deserialize(&[1, 2, 3, 4, 5, 6, 7]), None);
    assert_eq!(le_u128_deserialize(&[0; 15]), None);
    assert_eq!(le_u16_deserialize(&[]), None);
}

#[test]
fn bytes_are_read_at_an_offset() {
    let img: Vec<u8> = (0u8..100).collect();
    assert_eq!(read_bytes(&img, 10, 4), Ok(vec![10, 11, 12, 13]));
    assert_eq!(read_bytes(&img, 100, 0), Ok(vec![]));
    assert_eq!(read_bytes(&img, 97, 4), Err(DecodeError::IoError));
    assert_eq!(read_bytes(&img, u64::MAX, 2), Err(DecodeError::IoError));
    assert_eq!(read_bytes(&img, 2, u64::MAX), Err(DecodeError::IoError));
}

#[test]
fn bytes_are_written_in_little_endian() {
    let mut out = vec![9u8];
    put_u32(&mut out, 0x1234_5678);
    assert_eq!(out, vec![9, 0x78, 0x56, 0x34, 0x12]);
    append_range(&mut out, &[1, 2, 3, 4, 5], 1, 3);
    assert_eq!(out, vec![9, 0x78, 0x56, 0x34, 0x12, 2, 3]);
}

#[test]
fn records_are_read_at_an_offset() {
    let mut img = vec![0u8; 64];
    img[20..28].copy_from_slice(&[0x44, 0x33, 0x22, 0x11, 7, 0, 0, 0]);
    let e: Entry = read_header_from_file(&img, 20).unwrap();
    assert_eq!(e, Entry { hash: 0x1122_3344, block: 7 });
    assert_eq!(e.get_block(), 7);
    assert!(!e.empty());
    let z: Entry = read_header_from_file(&img, 56).unwrap();
    assert!(z.empty());
    let short: Result<Entry, DecodeError> = read_header_from_file(&img, 57);
    assert_eq!(short, Err(DecodeError::IoError));
    let t: Tail = read_header_from_file(&img, 20).unwrap();
    assert_eq!(t, Tail { reserved: 0x1122_3344, csum: 7 });
    assert_eq!(Entry::record_size(), 8);
    assert_eq!(Root::record_size(), 40);
    assert_eq!(Node::record_size(), 16);
}

#[test]
fn crc32_check_values() {
    assert_eq!(crc32_bytes(&gpt_algorithm(), b"123456789"), 0xCBF4_3926);
    assert_eq!(crc32_bytes(&gpt_algorithm(), b""), 0);
    let plain = Algorithm { poly: 0x04C1_1DB7, init: 0xFFFF_FFFF, refin: false, refout: false, xorout: 0 };
    assert_eq!(crc32_bytes(&plain, b"123456789"), 0x0376_E6E7);
    let bzip = Algorithm { poly: 0x04C1_1DB7, init: 0xFFFF_FFFF, refin: false, refout: false, xorout: 0xFFFF_FFFF };
    assert_eq!(crc32_bytes(&bzip, b"123456789"), 0xFC89_1918);
    let jam = Algorithm { poly: 0x04C1_1DB7, init: 0xFFFF_FFFF, refin: true, refout: true, xorout: 0 };
    assert_eq!(crc32_bytes(&jam, b"123456789"), 0x340B_C6D9);
    let castagnoli = Algorithm { poly: 0x1EDC_6F41, init: 0xFFFF_FFFF, refin: true, refout: true, xorout: 0xFFFF_FFFF };
    assert_eq!(crc32_bytes(&castagnoli, b"123456789"), 0xE306_9283);
}

#[test]
fn crc32_starts_from_the_seed() {
    let seeded = ext_algorithm(0);
    assert_eq!(seeded.init, 0);
    assert_eq!(seeded.xorout, 0xFFFF_FFFF);
    assert_eq!(crc32_bytes(&seeded, b""), 0xFFFF_FFFF);
    assert_ne!(
        crc32_bytes(&ext_algorithm(1), b"123456789"),
        crc32_bytes(&ext_algorithm(2), b"123456789")
    );
    assert_eq!(
        crc32_bytes(&ext_algorithm(0xFFFF_FFFF), b"123456789"),
        0xCBF4_3926
    );
}

#[test]
fn crc16_check_values() {
    assert_eq!(crc16(0xFFFF, b"123456789"), 0x4B37);
    assert_eq!(crc16(0, b"123456789"), 0xBB3D);
    assert_eq!(crc16(0xFFFF, b""), 0xFFFF);
}

#[test]
fn ranges_are_zeroed() {
    let record: Vec<u8> = (1u8..=10).collect();
    assert_eq!(
        zero_ranges(&record, &[(2, 4), (8, 20)]),
        vec![1, 2, 0, 0, 5, 6, 7, 8, 0, 0]
    );
    assert_eq!(zero_ranges(&record, &[]), record);
    assert_eq!(zero_ranges(&record, &[(5, 5), (7, 3)]), record);
}

#[test]
fn descriptor_checksum_input_is_assembled() {
    let uuid: [u8; 16] = [0xAB; 16];
    let desc: Vec<u8> = (0u8..64).collect();
    let out = descriptor_csum_bytes(&uuid, 0x0102_0304, &desc);
    let mut expected: Vec<u8> = vec![0xAB; 16];
    expected.extend_from_slice(&[4, 3, 2, 1]);
    expected.extend_from_slice(&desc[..0x1e]);
    expected.extend_from_slice(&[0, 0]);
    expected.extend_from_slice(&desc[0x20..]);
    assert_eq!(out, expected);
    assert_eq!(out.len(), 16 + 4 + 64);
    let narrow = descriptor_csum_bytes(&uuid, 1, &desc[..32]);
    assert_eq!(narrow.len(), 16 + 4 + 32);
    assert_eq!(&narrow[50..], &[0, 0]);
}

fn root_block(bs: usize, limit: u16, count: u16, levels: u8) -> Vec<u8> {
    let mut b = vec![0u8; bs];
    b[0..4].copy_from_slice(&2u32.to_le_bytes());
    b[4..6].copy_from_slice(&12u16.to_le_bytes());
    b[6] = 1;
    b[7] = 2;
    b[8] = b'.';
    b[12..16].copy_from_slice(&2u32.to_le_bytes());
    b[16..18].copy_from_slice(&((bs - 12) as u16).to_le_bytes());
    b[18] = 2;
    b[19] = 2;
    b[20] = b'.';
    b[21] = b'.';
    b[28] = 1;
    b[29] = 8;
    b[30] = levels;
    b[32..34].copy_from_slice(&limit.to_le_bytes());
    b[34..36].copy_from_slice(&count.to_le_bytes());
    b[36..40].copy_from_slice(&1u32.to_le_bytes());
    b
}

fn put_entry(b: &mut [u8], at: usize, hash: u32, block: u32) {
    b[at..at + 4].copy_from_slice(&hash.to_le_bytes());
    b[at + 4..at + 8].copy_from_slice(&block.to_le_bytes());
}

#[test]
fn htree_root_validates_and_exposes_two_entries() {
    let mut b = root_block(4096, 508, 3, 0);
    put_entry(&mut b, 40, 0x1000, 2);
    put_entry(&mut b, 48, 0x2000, 3);
    let root = Root::decode(&b);
    assert!(root.validate(4096));
    assert!(root.is_well_formed(4096));
    assert!(root.last_level());
    assert_eq!(root.indirect_levels(), 0);
    assert!(root.not_inode_0());
    assert_eq!(root.count, 3);
    assert_eq!(root.limit, 508);
    assert_eq!(root.hash_version(), HashVer::HalfMd4);
    assert_eq!(root.root_info.hash_version(), HashVer::HalfMd4);
    let entries = root.entries(&b).unwrap();
    assert_eq!(
        entries,
        vec![Entry { hash: 0x1000, block: 2 }, Entry { hash: 0x2000, block: 3 }]
    );
    assert!(is_sorted_by_hash(&entries));
}

#[test]
fn htree_root_field_constraints() {
    let good = Root::decode(&root_block(4096, 508, 1, 2));
    assert!(good.validate(4096));
    assert!(!good.last_level());
    assert_eq!(good.indirect_levels(), 2);
    assert!(!good.validate(2048));
    assert!(!good.validate(5));
    let mut r = good;
    r.limit = 507;
    assert!(!r.validate(4096));
    let mut r = good;
    r.limit = 8700;
    assert!(!r.validate(4096));
    let mut r = good;
    r.dot_rec_len = 13;
    assert!(!r.validate(4096));
    let mut r = good;
    r.dot_name = [b'.', b'.', 0, 0];
    assert!(!r.validate(4096));
    let mut r = good;
    r.dotdot_name = [b'.', 0, 0, 0];
    assert!(!r.validate(4096));
    let mut r = good;
    r.dotdot_rec_len = 4096;
    assert!(!r.validate(4096));
    let mut r = good;
    r.dotdot_file_type = 1;
    assert!(!r.validate(4096));
    let mut r = good;
    r.root_info.indirect_levels = 4;
    assert!(!r.validate(4096));
    let mut r = good;
    r.root_info.indirect_levels = 3;
    assert!(r.validate(4096));
    let mut r = good;
    r.count = 509;
    assert!(r.validate(4096));
    assert!(!r.is_well_formed(4096));
    let mut r = good;
    r.count = 0;
    assert!(!r.is_well_formed(4096));
    let mut r = good;
    r.dot_inode = 0;
    assert!(!r.not_inode_0());
    let small = Root::decode(&root_block(1024, 124, 1, 0));
    assert!(small.validate(1024));
}

#[test]
fn root_info_field_constraints() {
    let good = RootInfo { reserved_zero: 0, hash_version: 6, info_length: 8, indirect_levels: 3, unused_flags: 9 };
    assert!(good.validate());
    assert_eq!(good.hash_version(), HashVer::Siphash);
    assert!(!RootInfo { hash_version: 7, ..good }.validate());
    assert!(!RootInfo { reserved_zero: 1, ..good }.validate());
    assert!(!RootInfo { info_length: 9, ..good }.validate());
    assert!(!RootInfo { indirect_levels: 4, ..good }.validate());
    assert_eq!(HashVer::from_value(0), Some(HashVer::Legacy));
    assert_eq!(HashVer::from_value(2), Some(HashVer::Tea));
    assert_eq!(HashVer::from_value(3), Some(HashVer::LegacyUnsigned));
    assert_eq!(HashVer::from_value(4), Some(HashVer::HalfMd4Unsigned));
    assert_eq!(HashVer::from_value(5), Some(HashVer::TeaUnsigned));
    assert_eq!(HashVer::from_value(7), None);
    let decoded = RootInfo::decode(&[0, 0, 0, 0, 1, 8, 2, 5]);
    assert_eq!(decoded, RootInfo { reserved_zero: 0, hash_version: 1, info_length: 8, indirect_levels: 2, unused_flags: 5 });
}

#[test]
fn htree_levels_are_checked() {
    let mut b = root_block(4096, 508, 4, 0);
    put_entry(&mut b, 40, 0x10, 2);
    put_entry(&mut b, 48, 0x10, 3);
    put_entry(&mut b, 56, 0x30, 4);
    let root = Root::decode(&b);
    assert_eq!(root.entries(&b).unwrap().len(), 3);
    put_entry(&mut b, 48, 0x31, 3);
    assert_eq!(root.entries(&b), Err(DecodeError::InvariantViolation));
    assert_eq!(level_entries(&b, 32, 508, 0), Err(DecodeError::InvariantViolation));
    assert_eq!(level_entries(&b, 32, 508, 509), Err(DecodeError::InvariantViolation));
    assert_eq!(level_entries(&b, 32, 508, 1), Ok(vec![]));
    assert_eq!(level_entries(&b[..63], 32, 508, 4), Err(DecodeError::IoError));
    assert_eq!(level_entries(&b[..64], 32, 508, 3).unwrap().len(), 2);
    assert!(is_sorted_by_hash(&vec![]));
    assert!(!is_sorted_by_hash(&vec![
        Entry { hash: 1, block: 0 },
        Entry { hash: 3, block: 0 },
        Entry { hash: 2, block: 0 }
    ]));
}

#[test]
fn htree_node_validates() {
    let mut b = vec![0u8; 4096];
    b[4..6].copy_from_slice(&4096u16.to_le_bytes());
    b[8..10].copy_from_slice(&511u16.to_le_bytes());
    b[10..12].copy_from_slice(&2u16.to_le_bytes());
    b[12..16].copy_from_slice(&9u32.to_le_bytes());
    put_entry(&mut b, 16, 0x55, 12);
    let node = Node::decode(&b);
    assert_eq!(node, Node { fake_inode: 0, fake_rec_len: 4096, name_len: 0, file_type: 0, limit: 511, count: 2, block: 9 });
    assert!(node.validate(4096));
    assert!(!node.validate(1024));
    assert!(!Node { fake_inode: 1, ..node }.validate(4096));
    assert!(!Node { limit: 510, ..node }.validate(4096));
    assert_eq!(node.entries(&b), Ok(vec![Entry { hash: 0x55, block: 12 }]));
}

#[test]
fn records_lay_out_to_the_bytes_they_were_read_from() {
    let mut b = root_block(4096, 508, 3, 1);
    b[0..4].copy_from_slice(&0xDEAD_BEEFu32.to_le_bytes());
    b[24..28].copy_from_slice(&0x0102_0304u32.to_le_bytes());
    b[31] = 0x7F;
    put_entry(&mut b, 40, 0xCAFE_F00D, 0x8000_0001);
    assert_eq!(Root::decode(&b).to_bytes(), b[..40].to_vec());
    assert_eq!(RootInfo::decode(&b[24..32]).to_bytes(), b[24..32].to_vec());
    assert_eq!(Entry::decode(&b[40..48]).to_bytes(), b[40..48].to_vec());
    assert_eq!(Tail::decode(&b[40..48]).to_bytes(), b[40..48].to_vec());
    let node: Vec<u8> = (100u8..116).collect();
    assert_eq!(Node::decode(&node).to_bytes(), node);
    assert_eq!(
        Entry { hash: 0x0A0B_0C0D, block: 1 }.to_bytes(),
        vec![0x0D, 0x0C, 0x0B, 0x0A, 1, 0, 0, 0]
    );
    assert_eq!(Entry::decode(&Entry { hash: 5, block: 6 }.to_bytes()), Entry { hash: 5, block: 6 });
}
