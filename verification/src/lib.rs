//! Read-only decoder for raw block-device images: partition tables (MBR and
//! GPT), ext-family superblocks, block-group descriptors, htree directory
//! indices, and the checksums that guard them.

pub mod error;
pub mod reader;
pub mod summer;
pub mod hashdir;
pub mod superblock;
pub mod bg;
pub mod part;
pub mod mbr;
pub mod gpt;
pub mod disk;
pub mod inode;
pub mod dirent;
