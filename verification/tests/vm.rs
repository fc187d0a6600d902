use lib::param::{IO_BASE, PAGE_SIZE, USER_IMG_BASE};
use lib::vm::entry::{new_page_entry, RawEntry, ADDR_MASK, AP_MASK, AP_SHIFT, SH_MASK, SH_SHIFT};
use lib::vm::pagetable::{locate, KernPageTable, L3Entry, PagePerm, PageTable, UserPageTable};

const BASE: u64 = 0x0100_0000;

#[test]
fn locate_splits_address() {
    assert_eq!(locate(0), (0, 0));
    assert_eq!(locate(0x1_0000), (0, 1));
    assert_eq!(locate(0x1FFF_0000), (0, 8191));
    assert_eq!(locate(0x2000_0000), (1, 0));
    assert_eq!(locate(0x3F01_0000), (1, 0x1F01));
    assert_eq!(locate(0x3FFF_0000), (1, 8191));
}

#[test]
fn page_entry_bits() {
    let e = new_page_entry(0x1234_5678_9ABC, 0b01, 0b11, 0b000);
    assert_eq!(e.get(), 0x1234_5678_0000 | 0x743);
    assert_eq!(e.get_masked(ADDR_MASK), 0x1234_5678_0000);
    assert_eq!(e.get_value(AP_MASK, AP_SHIFT), 0b01);
    assert_eq!(e.get_value(SH_MASK, SH_SHIFT), 0b11);
    assert!(e.is_valid());
    let dev = new_page_entry(IO_BASE, 0b00, 0b10, 0b001);
    assert_eq!(dev.get(), IO_BASE | 0x607);
}

#[test]
fn raw_entry_field_writes() {
    let mut e = RawEntry::new(0xFFFF_FFFF_FFFF_FFFF);
    e.set_value(0b01, AP_MASK, AP_SHIFT);
    assert_eq!(e.get(), 0xFFFF_FFFF_FFFF_FF7F);
    e.set_masked(0, ADDR_MASK);
    assert_eq!(e.get(), 0xFFFF_0000_0000_FF7F);
    e.set(0);
    e.set_bit(0x400);
    assert_eq!(e.get(), 0x400);
    assert!(!e.is_valid());
}

#[test]
fn l3_entry_address() {
    let invalid = L3Entry::new();
    assert!(!invalid.is_valid());
    assert_eq!(invalid.get_page_addr(), None);
    let valid = L3Entry(new_page_entry(0x5_0000, 0, 3, 0));
    assert_eq!(valid.get_page_addr(), Some(0x5_0000));
}

#[test]
fn new_table_points_at_its_l3_tables() {
    let pt = PageTable::new(0b01, BASE);
    assert_eq!(pt.get_baddr(), BASE);
    assert!(!pt.is_valid(0));
    assert!(pt.is_invalid(0x2000_0000));
    assert_eq!(pt.mapped_page_addrs(), Vec::<u64>::new());
}

#[test]
fn set_entry_then_valid() {
    let mut pt = PageTable::new(0, BASE);
    pt.set_entry(0x2001_0000, new_page_entry(0x7_0000, 0, 3, 0));
    assert!(pt.is_valid(0x2001_0000));
    assert!(!pt.is_valid(0x0001_0000));
    assert_eq!(pt.mapped_page_addrs(), vec![0x7_0000]);
}

#[test]
fn kernel_table_maps_ram_and_io() {
    let kt = KernPageTable::new(BASE, 0x0010_0000);
    for k in 0..16u64 {
        assert!(kt.0.is_valid(k * PAGE_SIZE));
    }
    assert!(!kt.0.is_valid(0x0010_0000));
    assert!(!kt.0.is_valid(0x3EFF_0000));
    assert!(kt.0.is_valid(IO_BASE));
    assert!(kt.0.is_valid(0x3FFF_0000));
    let pages = kt.0.mapped_page_addrs();
    assert_eq!(pages.len(), 16 + 256);
    assert_eq!(pages[0], 0);
    assert_eq!(pages[15], 15 * PAGE_SIZE);
    assert_eq!(pages[16], IO_BASE);
    assert_eq!(pages[16 + 255], 0x3FFF_0000);
}

#[test]
fn user_pages_are_mapped_and_listed() {
    let mut ut = UserPageTable::new(BASE);
    ut.alloc_page(USER_IMG_BASE, PagePerm::RWX, 0x80_0000);
    ut.alloc_page(USER_IMG_BASE + 3 * PAGE_SIZE, PagePerm::RO, 0x90_0000);
    ut.alloc_page(0xFFFF_FFFF_FFFF_0000, PagePerm::RW, 0xA0_0000);
    assert!(ut.0.is_valid(0));
    assert!(ut.0.is_valid(3 * PAGE_SIZE));
    assert!(!ut.0.is_valid(PAGE_SIZE));
    assert!(ut.0.is_valid(0x3FFF_0000));
    assert_eq!(ut.0.mapped_page_addrs(), vec![0x80_0000, 0x90_0000, 0xA0_0000]);
}

#[test]
fn table_entries_and_addresses() {
    let mut pt = PageTable::new(0, BASE);
    assert_eq!(pt.l3_table_addr(0), BASE + PAGE_SIZE);
    assert_eq!(pt.l3_table_addr(1), BASE + 2 * PAGE_SIZE);
    pt.set_entry(0x2000_0000, new_page_entry(0x9_0000, 0, 3, 0));
    let entries = pt.l3_entries();
    assert_eq!(entries.len(), 16384);
    assert!(entries[8192].is_valid());
    assert_eq!(entries[8192].get_page_addr(), Some(0x9_0000));
    assert_eq!(entries.iter().filter(|e| e.is_valid()).count(), 1);
}

#[test]
fn kernel_identity_map() {
    let kt = KernPageTable::new(BASE, 0x0100_0000);
    let entries = kt.0.l3_entries();
    for k in 0..16384usize {
        let va = k as u64 * PAGE_SIZE;
        if va < 0x0100_0000 || va >= IO_BASE {
            assert_eq!(entries[k].get_page_addr(), Some(va));
        } else {
            assert_eq!(entries[k].get_page_addr(), None);
        }
    }
}
