//! Verified core of a small Raspberry Pi kernel: a size-class memory
//! allocator, FAT32 on-disk structure decoding, exception syndrome decoding,
//! page-table entry management and the shell's command handling.

pub mod allocator;
pub mod fat32;
pub mod traps;
pub mod param;
pub mod vm;
pub mod process;
pub mod shell;
pub mod atag;
pub mod fs;
