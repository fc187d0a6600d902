use lib::fat32::ebpb::BiosParameterBlock;
use lib::fat32::vfat::VFat;
use lib::fs::FileSystem;

#[test]
fn file_system_slot() {
    let mut fs = FileSystem::uninitialized();
    assert!(fs.volume().is_none());
    let mut s = vec![0u8; 512];
    s[12] = 2;
    s[13] = 1;
    s[510] = 0x55;
    s[511] = 0xAA;
    let b = BiosParameterBlock::from_bytes(&s).unwrap();
    fs.install(VFat::from_ebpb(&b, 0));
    assert_eq!(fs.volume().unwrap().bytes_per_sector, 512);
}
