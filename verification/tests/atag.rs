use lib::atag::{Atag, ATAG_CMDLINE, ATAG_CORE, ATAG_MEM};

fn raw(tag: u32, payload: &[u8]) -> Vec<u8> {
    let mut v = Vec::new();
    v.extend_from_slice(&((2 + payload.len() as u32 / 4) as u32).to_le_bytes());
    v.extend_from_slice(&tag.to_le_bytes());
    v.extend_from_slice(payload);
    v
}

#[test]
fn core_tag() {
    let mut p = Vec::new();
    p.extend_from_slice(&1u32.to_le_bytes());
    p.extend_from_slice(&4096u32.to_le_bytes());
    p.extend_from_slice(&0x1234u32.to_le_bytes());
    let r = raw(ATAG_CORE, &p);
    let c = Atag::from_raw(&r).get_core().unwrap();
    assert_eq!((c.flags, c.page_size, c.root_dev), (1, 4096, 0x1234));
    assert!(Atag::from_raw(&r).mem().is_none());
    assert!(Atag::from_raw(&r).cmd().is_none());
}

#[test]
fn mem_tag() {
    let mut p = Vec::new();
    p.extend_from_slice(&0x3B00_0000u32.to_le_bytes());
    p.extend_from_slice(&0u32.to_le_bytes());
    let m = Atag::from_raw(&raw(ATAG_MEM, &p)).mem().unwrap();
    assert_eq!((m.size, m.start), (0x3B00_0000, 0));
}

#[test]
fn cmdline_tag() {
    let r = raw(ATAG_CMDLINE, b"console=ttyS0\0\0\0");
    assert_eq!(Atag::from_raw(&r).cmd().unwrap(), b"console=ttyS0".to_vec());
    assert!(Atag::from_raw(&r).get_core().is_none());
}

#[test]
fn none_and_unknown_tags() {
    assert!(matches!(Atag::from_raw(&raw(0, &[])), Atag::End));
    assert!(matches!(Atag::from_raw(&raw(0x5441_0007, &[0; 4])), Atag::Unknown(0x5441_0007)));
}
