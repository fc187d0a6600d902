pub mod metadata;
pub mod error;
pub mod fat;
pub mod ebpb;
pub mod file;
pub mod entry;
pub mod vfat;
