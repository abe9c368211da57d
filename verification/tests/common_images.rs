use xfat::disk::{Disk, Partition, PartitionTableType, PartitionType};
use xfat::error::DecodeError;
use xfat::gpt::read_gpt;
use xfat::mbr::read_mbr;
use xfat::part::CsumReport;
use xfat::reader::read_header_from_file_unsafe;
use xfat::superblock::read_superblock;

fn put16(img: &mut [u8], at: usize, v: u16) {
    img[at..at + 2].copy_from_slice(&v.to_le_bytes());
}

fn put32(img: &mut [u8], at: usize, v: u32) {
    img[at..at + 4].copy_from_slice(&v.to_le_bytes());
}

fn put64(img: &mut [u8], at: usize, v: u64) {
    img[at..at + 8].copy_from_slice(&v.to_le_bytes());
}

/// Reflected CRC-32 with the register started from the bit-reversed `init`.
fn crc32_reference(init: u32, bytes: &[u8]) -> u32 {
    let mut reg = init.reverse_bits();
    for b in bytes {
        reg ^= *b as u32;
        for _ in 0..8 {
            reg = if reg & 1 != 0 { (reg >> 1) ^ 0xEDB8_8320 } else { reg >> 1 };
        }
    }
    reg ^ 0xFFFF_FFFF
}

fn mbr_entry(img: &mut [u8], slot: usize, kind: u8, first_lba: u32, sectors: u32) {
    let at = 446 + 16 * slot;
    img[at + 4] = kind;
    put32(img, at + 8, first_lba);
    put32(img, at + 12, sectors);
}

fn boot_signature(img: &mut [u8]) {
    img[510] = 0x55;
    img[511] = 0xAA;
}

fn superblock(img: &mut [u8], start: usize, blocks: u32, per_group: u32, ro_compat: u32) {
    let sb = start + 1024;
    put32(img, sb, 1024);
    put32(img, sb + 0x04, blocks);
    put32(img, sb + 0x18, 0);
    put32(img, sb + 0x20, per_group);
    put32(img, sb + 0x28, 512);
    put16(img, sb + 0x38, 0xEF53);
    put16(img, sb + 0x58, 256);
    put32(img, sb + 0x64, ro_compat);
    for i in 0..16 {
        img[sb + 0x68 + i] = 0xA0 + i as u8;
    }
    put32(img, sb + 0x270, 0x1234_5678);
}

fn classical_image(kind: u8, slot: usize) -> Vec<u8> {
    let mut img = vec![0u8; 16 << 20];
    boot_signature(&mut img);
    mbr_entry(&mut img, slot, kind, 2048, 30720);
    superblock(&mut img, 2048 * 512, 15360, 8192, 0);
    img
}

const LINUX_FS_GUID: [u8; 16] = [
    0xAF, 0x3D, 0xC6, 0x0F, 0x83, 0x84, 0x72, 0x47, 0x8E, 0x79, 0x3D, 0x69, 0xD8, 0x47, 0x7D, 0xE4,
];

fn gpt_image() -> Vec<u8> {
    let mut img = vec![0u8; 64 << 20];
    boot_signature(&mut img);
    mbr_entry(&mut img, 0, 0xEE, 1, 0xFFFF_FFFF);
    img[512..520].copy_from_slice(b"EFI PART");
    img[520..524].copy_from_slice(&[0, 0, 1, 0]);
    put32(&mut img, 512 + 12, 92);
    put64(&mut img, 512 + 24, 1);
    put64(&mut img, 512 + 32, 131071);
    put64(&mut img, 512 + 40, 34);
    put64(&mut img, 512 + 48, 131038);
    for i in 0..16 {
        img[512 + 56 + i] = 0x11 * (i as u8 % 15 + 1);
    }
    put64(&mut img, 512 + 72, 2);
    put32(&mut img, 512 + 80, 128);
    put32(&mut img, 512 + 84, 128);
    let entry = 1024;
    img[entry..entry + 16].copy_from_slice(&LINUX_FS_GUID);
    for i in 0..16 {
        img[entry + 16 + i] = 0x42 + i as u8;
    }
    put64(&mut img, entry + 32, 2048);
    put64(&mut img, entry + 40, 100_000);
    let table_crc = crc32_reference(0xFFFF_FFFF, &img[1024..1024 + 128 * 128]);
    put32(&mut img, 512 + 88, table_crc);
    let header_crc = crc32_reference(0xFFFF_FFFF, &img[512..512 + 92]);
    put32(&mut img, 512 + 16, header_crc);
    superblock(&mut img, 2048 * 512, 40000, 8192, 0);
    img
}

#[test]
fn classical_mbr_image_lists_four_partitions() {
    let img = classical_image(0x83, 3);
    let mut d = Disk::open(String::from("disk.img"), &img).unwrap();
    assert_eq!(d.mbr.boot_sig, 0xAA55);
    d.set_partition_table_type();
    assert_eq!(d.pt_type, PartitionTableType::Mbr);
    let warnings = d.register_partitions(&img).unwrap();
    assert!(warnings.is_empty());
    let kinds: Vec<PartitionType> = d.partitions.iter().map(|p| p.p_type).collect();
    assert_eq!(
        kinds,
        vec![
            PartitionType::Unused,
            PartitionType::Unused,
            PartitionType::Unused,
            PartitionType::Ext4
        ]
    );
    assert_eq!(d.partitions[3].start, 2048 * 512);
    assert_eq!(d.partitions[3].length, 30720 * 512);
    let ext = d.partitions[3];
    let mut reader = d.make_ext4_reader(&ext, &img).unwrap();
    assert_eq!(reader.s.magic, 0xEF53);
    assert_eq!(reader.s.block_size(), 1024);
    assert!(!reader.s.uses_64bit());
    assert_eq!(reader.s.number_of_groups(), 2);
    assert_eq!(reader.file, "disk.img");
    reader.populate_block_groups(&img).unwrap();
    assert!(reader.bg.len() >= 1);
    assert_eq!(reader.bg.len(), 2);
    assert_eq!(reader.bg[0].start, 2048 * 512 + 2048);
    assert_eq!(reader.bg[1].start, 2048 * 512 + 2048 + 32);
    assert!(reader.bg[0].b64.is_none());
}

#[test]
fn gpt_image_registers_one_ext4_partition() {
    let img = gpt_image();
    let mut d = Disk::open(String::from("gpt.img"), &img).unwrap();
    d.set_partition_table_type();
    assert_eq!(d.pt_type, PartitionTableType::Gpt);
    let gpt = read_gpt(&img).unwrap();
    assert_eq!(gpt.size, 92);
    assert_eq!(gpt.gpe_table_start, 2);
    assert_eq!(gpt.gpe_table_entries, 128);
    assert_eq!(gpt.check_header_crc(&img), Ok(()));
    assert_eq!(gpt.check_table_crc(&img), Ok(()));
    let warnings = d.register_partitions(&img).unwrap();
    assert!(warnings.is_empty());
    assert_eq!(
        d.partitions,
        vec![Partition {
            start: 2048 * 512,
            length: (100_000 - 2048 + 1) * 512,
            p_type: PartitionType::Ext4
        }]
    );
}

#[test]
fn corrupt_gpt_header_crc_warns_and_goes_on() {
    let mut img = gpt_image();
    img[512 + 56 + 3] ^= 0x01;
    let mut d = Disk::open(String::from("gpt.img"), &img).unwrap();
    d.set_partition_table_type();
    let gpt = read_gpt(&img).unwrap();
    assert_eq!(gpt.check_header_crc(&img), Err(DecodeError::ChecksumMismatch));
    assert_eq!(gpt.check_table_crc(&img), Ok(()));
    let warnings = d.register_partitions(&img).unwrap();
    assert_eq!(warnings, vec![DecodeError::ChecksumMismatch]);
    assert!(!DecodeError::ChecksumMismatch.is_fatal());
    assert_eq!(d.partitions.len(), 1);
    assert_eq!(d.partitions[0].p_type, PartitionType::Ext4);
}

#[test]
fn corrupt_gpt_table_crc_warns() {
    let mut img = gpt_image();
    img[1024 + 128 + 77] ^= 0x80;
    let mut d = Disk::open(String::from("gpt.img"), &img).unwrap();
    d.set_partition_table_type();
    let warnings = d.register_partitions(&img).unwrap();
    assert_eq!(warnings, vec![DecodeError::ChecksumMismatch]);
    assert_eq!(d.partitions.len(), 1);
}

#[test]
fn gpt_signature_is_required() {
    let mut img = gpt_image();
    img[512] = b'X';
    assert!(matches!(read_gpt(&img), Err(DecodeError::MagicMismatch)));
    let mut d = Disk::open(String::from("gpt.img"), &img).unwrap();
    d.set_partition_table_type();
    assert!(matches!(d.register_partitions(&img), Err(DecodeError::MagicMismatch)));
    assert!(d.partitions.is_empty());
}

#[test]
fn gpt_entry_size_must_be_a_power_of_two_of_128() {
    let mut img = gpt_image();
    put32(&mut img, 512 + 84, 192);
    let mut d = Disk::open(String::from("gpt.img"), &img).unwrap();
    d.set_partition_table_type();
    assert!(matches!(d.register_partitions(&img), Err(DecodeError::InvariantViolation)));
}

#[test]
fn gpt_entry_beyond_image_is_out_of_range() {
    let mut img = gpt_image();
    put64(&mut img, 1024 + 40, 200_000);
    let mut d = Disk::open(String::from("gpt.img"), &img).unwrap();
    d.set_partition_table_type();
    assert!(matches!(d.register_partitions(&img), Err(DecodeError::OutOfRange)));
    assert!(DecodeError::OutOfRange.is_fatal());
}

#[test]
fn gpt_other_type_guids() {
    let mut img = gpt_image();
    let efi: [u8; 16] = [
        0x28, 0x73, 0x2A, 0xC1, 0x1F, 0xF8, 0xD2, 0x11, 0xBA, 0x4B, 0x00, 0xA0, 0xC9, 0x3E, 0xC9,
        0x3B,
    ];
    let bios: [u8; 16] = [
        0x48, 0x61, 0x68, 0x21, 0x49, 0x64, 0x6F, 0x6E, 0x74, 0x4E, 0x65, 0x65, 0x64, 0x45, 0x46,
        0x49,
    ];
    let odd: [u8; 16] = [1, 0, 0, 0, 0, 0, 0, 0, 0, 0, 0, 0, 0, 0, 0, 2];
    for (slot, guid) in [(1usize, efi), (2, bios), (4, odd)] {
        let at = 1024 + 128 * slot;
        img[at..at + 16].copy_from_slice(&guid);
        put64(&mut img, at + 32, 34);
        put64(&mut img, at + 40, 2047);
    }
    let mut d = Disk::open(String::from("gpt.img"), &img).unwrap();
    d.set_partition_table_type();
    let warnings = d.register_partitions(&img).unwrap();
    assert_eq!(warnings, vec![DecodeError::ChecksumMismatch]);
    let kinds: Vec<PartitionType> = d.partitions.iter().map(|p| p.p_type).collect();
    assert_eq!(
        kinds,
        vec![
            PartitionType::Ext4,
            PartitionType::EfiSystem,
            PartitionType::BiosBoot,
            PartitionType::Unknown(0x0200_0000_0000_0000_0000_0000_0000_0001)
        ]
    );
    assert_eq!(d.partitions[1].start, 34 * 512);
    assert_eq!(d.partitions[1].length, 2014 * 512);
}

#[test]
fn unknown_partition_type_is_kept_with_its_number() {
    let img = classical_image(0x7F, 0);
    let mut d = Disk::open(String::from("disk.img"), &img).unwrap();
    d.set_partition_table_type();
    assert_eq!(d.pt_type, PartitionTableType::Mbr);
    let warnings = d.register_partitions(&img).unwrap();
    assert!(warnings.is_empty());
    assert_eq!(d.partitions[0].p_type, PartitionType::Unknown(0x7F));
    assert_eq!(d.partitions[1].p_type, PartitionType::Unused);
}

#[test]
fn mbr_type_bytes_map_to_kinds() {
    let mut img = vec![0u8; 1 << 20];
    boot_signature(&mut img);
    mbr_entry(&mut img, 0, 0x82, 8, 8);
    mbr_entry(&mut img, 1, 0x8E, 16, 8);
    mbr_entry(&mut img, 2, 0xEF, 24, 8);
    mbr_entry(&mut img, 3, 0x83, 32, 8);
    let mut d = Disk::open(String::from("disk.img"), &img).unwrap();
    d.set_partition_table_type();
    d.register_partitions(&img).unwrap();
    let kinds: Vec<PartitionType> = d.partitions.iter().map(|p| p.p_type).collect();
    assert_eq!(
        kinds,
        vec![
            PartitionType::Swap,
            PartitionType::LinuxLvm,
            PartitionType::EfiSystem,
            PartitionType::Unknown(0x83)
        ]
    );
    assert_eq!(d.partitions[2].start, 24 * 512);
    assert_eq!(d.partitions[2].length, 8 * 512);
}

#[test]
fn mbr_partition_beyond_image_is_out_of_range() {
    let mut img = vec![0u8; 1 << 20];
    boot_signature(&mut img);
    mbr_entry(&mut img, 1, 0x82, 2047, 2);
    let mut d = Disk::open(String::from("disk.img"), &img).unwrap();
    d.set_partition_table_type();
    assert!(matches!(d.register_partitions(&img), Err(DecodeError::OutOfRange)));
    assert!(d.partitions.is_empty());
}

#[test]
fn protective_entry_in_any_slot_means_gpt() {
    let mut img = vec![0u8; 4096];
    boot_signature(&mut img);
    mbr_entry(&mut img, 2, 0xEE, 1, 7);
    let kind: PartitionTableType = read_header_from_file_unsafe(&img, 0).unwrap();
    assert_eq!(kind, PartitionTableType::Gpt);
    let plain = classical_image(0x83, 3);
    let kind: PartitionTableType = read_header_from_file_unsafe(&plain, 0).unwrap();
    assert_eq!(kind, PartitionTableType::Mbr);
    let short = vec![0u8; 100];
    let none: Result<PartitionTableType, DecodeError> = read_header_from_file_unsafe(&short, 0);
    assert!(matches!(none, Err(DecodeError::IoError)));
}

#[test]
fn short_image_gives_io_error() {
    let img = vec![0u8; 256];
    assert!(matches!(read_mbr(&img), Err(DecodeError::IoError)));
    assert!(matches!(Disk::open(String::from("short.img"), &img), Err(DecodeError::IoError)));
    assert!(DecodeError::IoError.is_fatal());
}

#[test]
fn missing_boot_signature_is_rejected() {
    let mut img = classical_image(0x83, 3);
    img[511] = 0;
    assert!(matches!(read_mbr(&img), Err(DecodeError::MagicMismatch)));
    assert!(DecodeError::MagicMismatch.is_fatal());
}

#[test]
fn mbr_fields_are_decoded() {
    let mut img = classical_image(0x83, 3);
    put32(&mut img, 440, 0xDEAD_BEEF);
    img[446 + 48] = 0x80;
    let mbr = read_mbr(&img).unwrap();
    assert_eq!(mbr.disk_signature, 0xDEAD_BEEF);
    assert_eq!(mbr.fourth.status, 0x80);
    assert_eq!(mbr.fourth.partition_type, 0x83);
    assert_eq!(mbr.fourth.first_lba, 2048);
    assert_eq!(mbr.fourth.sectors, 30720);
    assert_eq!(mbr.fourth.start(), 1 << 20);
    assert!(!mbr.is_protective());
    assert_eq!(mbr.entries()[3].partition_type, 0x83);
}

#[test]
fn superblock_errors() {
    let mut img = classical_image(0x83, 3);
    let start = 2048 * 512;
    assert!(read_superblock(&img, start as u64).is_ok());
    put32(&mut img, start + 1024 + 0x18, 7);
    assert!(matches!(read_superblock(&img, start as u64), Err(DecodeError::InvariantViolation)));
    put32(&mut img, start + 1024 + 0x18, 0);
    put32(&mut img, start + 1024 + 0x60, 0x80);
    put16(&mut img, start + 1024 + 0xFE, 32);
    assert!(matches!(read_superblock(&img, start as u64), Err(DecodeError::InvariantViolation)));
    put16(&mut img, start + 1024 + 0x38, 0xEF54);
    assert!(matches!(read_superblock(&img, start as u64), Err(DecodeError::MagicMismatch)));
    assert!(matches!(
        read_superblock(&img, (16 << 20) - 2047),
        Err(DecodeError::IoError)
    ));
}

#[test]
fn wide_descriptors_and_inode_tables() {
    let mut img = classical_image(0x83, 3);
    let start = 2048 * 512;
    put32(&mut img, start + 1024 + 0x18, 2);
    put32(&mut img, start + 1024 + 0x60, 0x80);
    put16(&mut img, start + 1024 + 0xFE, 64);
    put32(&mut img, start + 1024 + 0x04, 10000);
    put32(&mut img, start + 1024 + 0x150, 0);
    let table = start + 4096;
    put32(&mut img, table + 0x08, 77);
    put32(&mut img, table + 0x20 + 0x08, 0);
    put32(&mut img, table + 64 + 0x08, 5);
    put32(&mut img, table + 64 + 0x20 + 0x08, 0xFFFF_FFFF);
    let d = Disk::open(String::from("disk.img"), &img).unwrap();
    let part = Partition { start: start as u64, length: 30720 * 512, p_type: PartitionType::Ext4 };
    let mut reader = d.make_ext4_reader(&part, &img).unwrap();
    assert!(reader.s.uses_64bit());
    assert_eq!(reader.s.block_size(), 4096);
    assert_eq!(reader.s.descriptor_size(), 64);
    assert_eq!(reader.s.number_of_groups(), 2);
    assert_eq!(reader.s.get_group_descriptor_table_offset(start as u64), table as u64);
    reader.populate_block_groups(&img).unwrap();
    assert_eq!(reader.bg.len(), 2);
    assert_eq!(reader.bg[1].start, table as u64 + 64);
    assert_eq!(reader.bg[0].b32.inode_table_lo, 77);
    assert_eq!(reader.bg[1].b64.unwrap().inode_table_hi, 0xFFFF_FFFF);
    assert_eq!(reader.bg[0].inode_table, None);
    reader.populate_inodes();
    assert_eq!(reader.bg[0].inode_table, Some(start as u64 + 77 * 4096));
    assert_eq!(reader.bg[1].inode_table, None);
    assert_eq!(reader.bg[1].inode_table_block(), 0xFFFF_FFFF_0000_0005);
    assert_eq!(reader.s.inode_group(513), 1);
    assert_eq!(reader.s.inode_offset(1000, 514), Some(1000 + 256));
    assert_eq!(reader.s.inode_offset(u64::MAX, 514), None);
}

#[test]
fn descriptor_table_beyond_image_is_io_error() {
    let mut img = classical_image(0x83, 3);
    let start = 2048 * 512;
    put32(&mut img, start + 1024 + 0x04, 0xFFFF_FFFF);
    put32(&mut img, start + 1024 + 0x20, 1);
    let d = Disk::open(String::from("disk.img"), &img).unwrap();
    let part = Partition { start: start as u64, length: 30720 * 512, p_type: PartitionType::Ext4 };
    let mut reader = d.make_ext4_reader(&part, &img).unwrap();
    assert!(matches!(reader.populate_block_groups(&img), Err(DecodeError::IoError)));
    assert!(reader.bg.is_empty());
}

#[test]
fn descriptor_checksums_are_checked() {
    let mut img = classical_image(0x83, 3);
    let start = 2048 * 512;
    put32(&mut img, start + 1024 + 0x64, 0x400);
    let table = start + 2048;
    for g in 0..2usize {
        let at = table + 32 * g;
        put32(&mut img, at, 100 + g as u32);
        put32(&mut img, at + 8, 300 + g as u32);
        let mut input: Vec<u8> = Vec::new();
        input.extend_from_slice(&img[start + 1024 + 0x68..start + 1024 + 0x78]);
        input.extend_from_slice(&(g as u32).to_le_bytes());
        input.extend_from_slice(&img[at..at + 0x1e]);
        input.extend_from_slice(&[0, 0]);
        let crc = crc32_reference(0x1234_5678, &input);
        put16(&mut img, at + 0x1e, (crc & 0xffff) as u16);
    }
    img[table + 32 + 0x1e] ^= 1;
    let d = Disk::open(String::from("disk.img"), &img).unwrap();
    let part = Partition { start: start as u64, length: 30720 * 512, p_type: PartitionType::Ext4 };
    let mut reader = d.make_ext4_reader(&part, &img).unwrap();
    assert!(reader.s.metadata_csum());
    reader.populate_block_groups(&img).unwrap();
    match reader.validate_block_groups(&img).unwrap() {
        CsumReport::Checked(v) => assert_eq!(v, vec![true, false]),
        _ => panic!("checksums were not checked"),
    }
    let short = &img[..table + 40];
    assert!(matches!(reader.validate_block_groups(short), Err(DecodeError::IoError)));
}

#[test]
fn descriptor_checksums_are_skipped_without_metadata_csum() {
    let mut img = classical_image(0x83, 3);
    let start = 2048 * 512;
    let d = Disk::open(String::from("disk.img"), &img).unwrap();
    let part = Partition { start: start as u64, length: 30720 * 512, p_type: PartitionType::Ext4 };
    let mut reader = d.make_ext4_reader(&part, &img).unwrap();
    reader.populate_block_groups(&img).unwrap();
    assert!(matches!(reader.validate_block_groups(&img), Ok(CsumReport::Unprotected)));
    put32(&mut img, start + 1024 + 0x64, 0x10);
    let mut reader = d.make_ext4_reader(&part, &img).unwrap();
    assert!(reader.s.has_feature_gdt_csum());
    reader.populate_block_groups(&img).unwrap();
    assert!(matches!(reader.validate_block_groups(&img), Ok(CsumReport::Skipped)));
}
