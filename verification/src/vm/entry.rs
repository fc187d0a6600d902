//! Page-table descriptors of the ARMv8-A VMSA with a 64 KiB granule.
use vstd::prelude::*;

verus! {

/// Descriptor fields: mask and shift of each.
pub const VALID_MASK: u64 = 0x1;
pub const VALID_SHIFT: u64 = 0;
pub const TYPE_MASK: u64 = 0x2;
pub const TYPE_SHIFT: u64 = 1;
pub const ATTR_MASK: u64 = 0x1C;
pub const ATTR_SHIFT: u64 = 2;
pub const AP_MASK: u64 = 0xC0;
pub const AP_SHIFT: u64 = 6;
pub const SH_MASK: u64 = 0x300;
pub const SH_SHIFT: u64 = 8;
pub const AF_MASK: u64 = 0x400;
/// Output address, bits 47..16.
pub const ADDR_MASK: u64 = 0x0000_FFFF_FFFF_0000;

/// `TYPE` of a table descriptor (L2) and of a page descriptor (L3).
pub const ENTRY_TYPE_TABLE: u64 = 1;
pub const PAGE_TYPE_PAGE: u64 = 1;
/// `VALID` of a valid descriptor.
pub const ENTRY_VALID: u64 = 1;
/// Access permissions (`AP`).
pub const PERM_KERN_RW: u64 = 0b00;
pub const PERM_USER_RW: u64 = 0b01;
pub const PERM_KERN_RO: u64 = 0b10;
pub const PERM_USER_RO: u64 = 0b11;
/// Shareability (`SH`).
pub const SH_OUTER: u64 = 0b10;
pub const SH_INNER: u64 = 0b11;
/// Memory attribute index (`ATTR`).
pub const ATTR_MEM: u64 = 0b000;
pub const ATTR_DEV: u64 = 0b001;
pub const ATTR_NC: u64 = 0b010;

/// The value of the field `mask` (shifted down by `shift`) of a descriptor.
pub open spec fn field(raw: u64, mask: u64, shift: u64) -> u64 {
    (raw & mask) >> shift
}

/// A descriptor with `val` written into the field `mask` at `shift`.
pub open spec fn with_value(raw: u64, val: u64, mask: u64, shift: u64) -> u64 {
    (raw & !mask) | ((val << shift) & mask)
}

/// A descriptor with the bits of `val` under `mask` written into it.
pub open spec fn with_masked(raw: u64, val: u64, mask: u64) -> u64 {
    (raw & !mask) | (val & mask)
}

/// Whether a descriptor is valid.
pub open spec fn is_valid_spec(raw: u64) -> bool {
    raw & VALID_MASK == ENTRY_VALID
}

/// A raw 64-bit descriptor.
#[derive(Debug, Copy, Clone, PartialEq, Eq, Structural)]
pub struct RawEntry(pub u64);

impl RawEntry {
    /// A zero (invalid) descriptor.
    pub fn new(v: u64) -> (e: RawEntry)
        ensures
            e.0 == v,
    {
        RawEntry(v)
    }

    /// The raw value.
    pub fn get(&self) -> (r: u64)
        ensures
            r == self.0,
    {
        self.0
    }

    /// Overwrites the raw value.
    pub fn set(&mut self, v: u64)
        ensures
            final(self).0 == v,
    {
        self.0 = v;
    }

    /// The bits under `mask`, in place.
    pub fn get_masked(&self, mask: u64) -> (r: u64)
        ensures
            r == self.0 & mask,
    {
        self.0 & mask
    }

    /// The field `mask` at `shift`, shifted down.
    pub fn get_value(&self, mask: u64, shift: u64) -> (r: u64)
        requires
            shift < 64,
        ensures
            r == field(self.0, mask, shift),
    {
        (self.0 & mask) >> shift
    }

    /// Writes the bits of `val` under `mask`.
    pub fn set_masked(&mut self, val: u64, mask: u64)
        ensures
            final(self).0 == with_masked(old(self).0, val, mask),
    {
        self.0 = (self.0 & !mask) | (val & mask);
    }

    /// Writes `val` into the field `mask` at `shift`.
    pub fn set_value(&mut self, val: u64, mask: u64, shift: u64)
        requires
            shift < 64,
        ensures
            final(self).0 == with_value(old(self).0, val, mask, shift),
    {
        self.0 = (self.0 & !mask) | ((val << shift) & mask);
    }

    /// Sets the bits of `mask`.
    pub fn set_bit(&mut self, mask: u64)
        ensures
            final(self).0 == old(self).0 | mask,
    {
        self.0 = self.0 | mask;
    }

    /// Whether the descriptor is valid.
    pub fn is_valid(&self) -> (r: bool)
        ensures
            r == is_valid_spec(self.0),
    {
        self.0 & VALID_MASK == ENTRY_VALID
    }
}

/// The attribute bits of a page descriptor with the given permission,
/// shareability and memory attribute: valid, page type, access flag set.
pub open spec fn page_attrs(perm: u64, sh: u64, attr: u64) -> u64 {
    0x403 | ((perm << AP_SHIFT) & AP_MASK) | ((sh << SH_SHIFT) & SH_MASK) | ((attr << ATTR_SHIFT)
        & ATTR_MASK)
}

/// A page descriptor mapping the page at `addr`.
pub open spec fn page_entry(addr: u64, perm: u64, sh: u64, attr: u64) -> u64 {
    (addr & ADDR_MASK) | page_attrs(perm, sh, attr)
}

/// Builds the descriptor of a page at `addr` with the given permission,
/// shareability and memory attribute.
pub fn new_page_entry(addr: u64, perm: u64, sh: u64, attr: u64) -> (e: RawEntry)
    ensures
        e.0 == page_entry(addr, perm, sh, attr),
{
    let mut e = RawEntry::new(0);
    e.set_masked(addr, ADDR_MASK);
    e.set_value(PAGE_TYPE_PAGE, TYPE_MASK, TYPE_SHIFT);
    e.set_value(perm, AP_MASK, AP_SHIFT);
    e.set_value(sh, SH_MASK, SH_SHIFT);
    e.set_value(ENTRY_VALID, VALID_MASK, VALID_SHIFT);
    e.set_value(attr, ATTR_MASK, ATTR_SHIFT);
    e.set_bit(AF_MASK);
    let r = e.0;
    assert(r == (addr & 0x0000_FFFF_FFFF_0000u64) | (0x403u64 | ((perm << 6u64) & 0xC0u64) | ((sh
        << 8u64) & 0x300u64) | ((attr << 2u64) & 0x1Cu64))) by (bit_vector)
        requires
            r == (((((((((0u64 & !0x0000_FFFF_FFFF_0000u64) | (addr & 0x0000_FFFF_FFFF_0000u64))
                & !0x2u64) | ((1u64 << 1u64) & 0x2u64)) & !0xC0u64) | ((perm << 6u64) & 0xC0u64))
                & !0x300u64) | ((sh << 8u64) & 0x300u64)) & !0x1u64 | ((1u64 << 0u64) & 0x1u64))
                & !0x1Cu64 | ((attr << 2u64) & 0x1Cu64) | 0x400u64,
    ;
    e
}

/// A descriptor built by `new_page_entry` is valid, maps the address bits
/// 47..16 of `addr`, and carries the given fields with the access flag set.
pub proof fn law_page_entry_fields(addr: u64, perm: u64, sh: u64, attr: u64)
    requires
        perm < 4,
        sh < 4,
        attr < 8,
    ensures
        is_valid_spec(page_entry(addr, perm, sh, attr)),
        page_entry(addr, perm, sh, attr) & ADDR_MASK == addr & ADDR_MASK,
        field(page_entry(addr, perm, sh, attr), TYPE_MASK, TYPE_SHIFT) == PAGE_TYPE_PAGE,
        field(page_entry(addr, perm, sh, attr), AP_MASK, AP_SHIFT) == perm,
        field(page_entry(addr, perm, sh, attr), SH_MASK, SH_SHIFT) == sh,
        field(page_entry(addr, perm, sh, attr), ATTR_MASK, ATTR_SHIFT) == attr,
        page_entry(addr, perm, sh, attr) & AF_MASK == AF_MASK,
{
    let e = page_entry(addr, perm, sh, attr);
    assert(e == (addr & 0x0000_FFFF_FFFF_0000u64) | (0x403u64 | ((perm << 6u64) & 0xC0u64) | ((sh
        << 8u64) & 0x300u64) | ((attr << 2u64) & 0x1Cu64)));
    assert(e & 1u64 == 1u64 && e & 0x0000_FFFF_FFFF_0000u64 == addr & 0x0000_FFFF_FFFF_0000u64 && (e
        & 0x2u64) >> 1u64 == 1u64 && (e & 0xC0u64) >> 6u64 == perm && (e & 0x300u64) >> 8u64 == sh
        && (e & 0x1Cu64) >> 2u64 == attr && e & 0x400u64 == 0x400u64) by (bit_vector)
        requires
            perm < 4,
            sh < 4,
            attr < 8,
            e == (addr & 0x0000_FFFF_FFFF_0000u64) | (0x403u64 | ((perm << 6u64) & 0xC0u64) | ((sh
                << 8u64) & 0x300u64) | ((attr << 2u64) & 0x1Cu64)),
    ;
}

} // verus!
