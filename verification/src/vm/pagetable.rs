//! Two-level page tables covering a 1 GiB address space with 64 KiB pages:
//! one L2 table whose first two descriptors point at two L3 tables of 8192
//! page descriptors each.
use vstd::prelude::*;
use crate::param::{PAGE_SIZE, IO_BASE, IO_BASE_END, USER_IMG_BASE};
use crate::vm::entry::{
    RawEntry, ADDR_MASK, AP_MASK, AP_SHIFT, ENTRY_TYPE_TABLE, ENTRY_VALID, TYPE_MASK, TYPE_SHIFT,
    VALID_MASK, VALID_SHIFT, PERM_KERN_RW, PERM_USER_RW, PERM_USER_RO, SH_INNER, SH_OUTER,
    ATTR_MEM, ATTR_DEV, ATTR_MASK, ATTR_SHIFT, SH_MASK, SH_SHIFT, AF_MASK, PAGE_TYPE_PAGE, field,
    is_valid_spec, page_entry, new_page_entry,
};

verus! {

/// Descriptors per table.
pub const TABLE_ENTRIES: usize = 8192;

/// Number of L3 tables.
pub const L3_TABLES: usize = 2;

/// The (L2 index, L3 index) of a virtual address: bit 29 and bits 28..16.
pub open spec fn locate_spec(va: u64) -> (int, int) {
    ((va as int / 0x2000_0000) % 2, (va as int / 0x1_0000) % 8192)
}

/// Whether `va` lies in the 1 GiB a table translates (L2 index below 2).
pub open spec fn in_table(va: u64) -> bool {
    va < 0x4000_0000
}

/// Whether `va` is aligned to a page.
pub open spec fn page_aligned(va: u64) -> bool {
    va % PAGE_SIZE == 0
}

/// An L2 table descriptor pointing at the table at `addr`.
pub open spec fn table_entry(addr: u64, perm: u64) -> u64 {
    (addr & ADDR_MASK) | 0x3 | ((perm << AP_SHIFT) & AP_MASK)
}

/// A descriptor of an L3 page table.
#[derive(Debug, Copy, Clone, PartialEq, Eq, Structural)]
pub struct L3Entry(pub RawEntry);

impl L3Entry {
    /// An invalid descriptor.
    pub fn new() -> (e: L3Entry)
        ensures
            e.0.0 == 0,
    {
        L3Entry(RawEntry::new(0))
    }

    /// Returns `true` if the descriptor is valid.
    pub fn is_valid(&self) -> (r: bool)
        ensures
            r == is_valid_spec(self.0.0),
    {
        self.0.is_valid()
    }

    /// The mapped page's physical address, if the descriptor is valid.
    pub fn get_page_addr(&self) -> (r: Option<u64>)
        ensures
            is_valid_spec(self.0.0) ==> r == Some(self.0.0 & ADDR_MASK),
            !is_valid_spec(self.0.0) ==> r is None,
    {
        if self.is_valid() {
            Some(self.0.get_masked(ADDR_MASK))
        } else {
            None
        }
    }
}

/// Returns the (L2 index, L3 index) of a page-aligned virtual address.
pub fn locate(va: u64) -> (r: (usize, usize))
    requires
        page_aligned(va),
        in_table(va),
    ensures
        r.0 == locate_spec(va).0,
        r.1 == locate_spec(va).1,
        r.0 < L3_TABLES,
        r.1 < TABLE_ENTRIES,
{
    let l2 = (va >> 29) & 0b1;
    let l3 = (va & (0x1FFFu64 << 16)) >> 16;
    assert(l2 == (va / 0x2000_0000) % 2) by (bit_vector)
        requires
            l2 == (va >> 29u64) & 1u64,
    ;
    assert(l3 == (va / 0x1_0000) % 8192) by (bit_vector)
        requires
            l3 == (va & (0x1FFFu64 << 16u64)) >> 16u64,
    ;
    (l2 as usize, l3 as usize)
}

/// A page table: the L2 table at physical address `base`, followed by the
/// two L3 tables one and two pages above it.
pub struct PageTable {
    l2: Vec<RawEntry>,
    l3: Vec<Vec<L3Entry>>,
    base: u64,
}

impl PageTable {
    pub closed spec fn wf(&self) -> bool {
        &&& self.l2@.len() == TABLE_ENTRIES
        &&& self.l3@.len() == L3_TABLES
        &&& forall|i: int| 0 <= i < L3_TABLES ==> (#[trigger] self.l3@[i])@.len() == TABLE_ENTRIES
        &&& PageTable::base_ok(self.base)
    }

    /// Physical address of the L2 table.
    pub closed spec fn base_spec(&self) -> u64 {
        self.base
    }

    /// The L2 descriptor at `i`.
    pub closed spec fn l2_entry(&self, i: int) -> u64 {
        self.l2@[i].0
    }

    /// The descriptor at `j` of L3 table `i`.
    pub closed spec fn l3_entry(&self, i: int, j: int) -> u64 {
        self.l3@[i]@[j].0.0
    }

    /// Physical address of L3 table `i`.
    pub open spec fn l3_addr(&self, i: int) -> int {
        self.base_spec() + PAGE_SIZE * (i + 1)
    }

    /// The L3 table that L2 slot `l2i` selects: the first one if the slot's
    /// address field names it, otherwise the second.
    pub open spec fn table_for(&self, l2i: int) -> int {
        if (self.l2_entry(l2i) & ADDR_MASK) == self.l3_addr(0) {
            0
        } else {
            1
        }
    }

    /// The descriptor that translates `va`.
    pub open spec fn entry_for(&self, va: u64) -> u64 {
        self.l3_entry(self.table_for(locate_spec(va).0), locate_spec(va).1)
    }

    /// The addresses of the two L3 tables fit the descriptor's address field.
    pub open spec fn base_ok(base: u64) -> bool {
        &&& base % PAGE_SIZE == 0
        &&& base + 3 * PAGE_SIZE <= 0x1_0000_0000_0000
    }

    /// Returns a new page table at physical address `base`, whose first two
    /// L2 descriptors point at its L3 tables with permission `perm`; every
    /// other descriptor is zero.
    pub fn new(perm: u64, base: u64) -> (pt: PageTable)
        requires
            PageTable::base_ok(base),
        ensures
            pt.wf(),
            pt.base_spec() == base,
            pt.l2_entry(0) == table_entry((base + PAGE_SIZE) as u64, perm),
            pt.l2_entry(1) == table_entry((base + 2 * PAGE_SIZE) as u64, perm),
            forall|i: int| 2 <= i < TABLE_ENTRIES ==> #[trigger] pt.l2_entry(i) == 0,
            forall|i: int, j: int|
                0 <= i < L3_TABLES && 0 <= j < TABLE_ENTRIES ==> #[trigger] pt.l3_entry(i, j) == 0,
            pt.table_for(0) == 0,
            pt.table_for(1) == 1,
    {
        let mut l2: Vec<RawEntry> = Vec::new();
        let mut i: usize = 0;
        while i < TABLE_ENTRIES
            invariant
                i <= TABLE_ENTRIES,
                l2@.len() == i,
                forall|k: int| 0 <= k < i ==> (#[trigger] l2@[k]).0 == 0,
            decreases TABLE_ENTRIES - i,
        {
            l2.push(RawEntry::new(0));
            i = i + 1;
        }
        let mut l3: Vec<Vec<L3Entry>> = Vec::new();
        let mut t: usize = 0;
        while t < L3_TABLES
            invariant
                t <= L3_TABLES,
                l3@.len() == t,
                forall|a: int| 0 <= a < t ==> (#[trigger] l3@[a])@.len() == TABLE_ENTRIES,
                forall|a: int, b: int|
                    0 <= a < t && 0 <= b < TABLE_ENTRIES ==> (#[trigger] l3@[a]@[b]).0.0 == 0,
            decreases L3_TABLES - t,
        {
            let mut tbl: Vec<L3Entry> = Vec::new();
            let mut j: usize = 0;
            while j < TABLE_ENTRIES
                invariant
                    j <= TABLE_ENTRIES,
                    tbl@.len() == j,
                    forall|b: int| 0 <= b < j ==> (#[trigger] tbl@[b]).0.0 == 0,
                decreases TABLE_ENTRIES - j,
            {
                tbl.push(L3Entry::new());
                j = j + 1;
            }
            l3.push(tbl);
            t = t + 1;
        }
        let a0 = base + PAGE_SIZE;
        let a1 = base + 2 * PAGE_SIZE;
        let mut e0 = RawEntry::new(0);
        e0.set_masked(a0, ADDR_MASK);
        e0.set_value(ENTRY_TYPE_TABLE, TYPE_MASK, TYPE_SHIFT);
        e0.set_value(ENTRY_VALID, VALID_MASK, VALID_SHIFT);
        e0.set_value(perm, AP_MASK, AP_SHIFT);
        let mut e1 = RawEntry::new(0);
        e1.set_masked(a1, ADDR_MASK);
        e1.set_value(ENTRY_TYPE_TABLE, TYPE_MASK, TYPE_SHIFT);
        e1.set_value(ENTRY_VALID, VALID_MASK, VALID_SHIFT);
        e1.set_value(perm, AP_MASK, AP_SHIFT);
        let (r0, r1) = (e0.0, e1.0);
        assert(r0 == (a0 & 0x0000_FFFF_FFFF_0000u64) | 0x3u64 | ((perm << 6u64) & 0xC0u64)) by (
        bit_vector)
            requires
                r0 == (((((0u64 & !0x0000_FFFF_FFFF_0000u64) | (a0 & 0x0000_FFFF_FFFF_0000u64))
                    & !0x2u64) | ((1u64 << 1u64) & 0x2u64)) & !0x1u64 | ((1u64 << 0u64) & 0x1u64))
                    & !0xC0u64 | ((perm << 6u64) & 0xC0u64),
        ;
        assert(r1 == (a1 & 0x0000_FFFF_FFFF_0000u64) | 0x3u64 | ((perm << 6u64) & 0xC0u64)) by (
        bit_vector)
            requires
                r1 == (((((0u64 & !0x0000_FFFF_FFFF_0000u64) | (a1 & 0x0000_FFFF_FFFF_0000u64))
                    & !0x2u64) | ((1u64 << 1u64) & 0x2u64)) & !0x1u64 | ((1u64 << 0u64) & 0x1u64))
                    & !0xC0u64 | ((perm << 6u64) & 0xC0u64),
        ;
        assert((r0 & 0x0000_FFFF_FFFF_0000u64) == a0 && (r1 & 0x0000_FFFF_FFFF_0000u64) == a1) by (
        bit_vector)
            requires
                r0 == (a0 & 0x0000_FFFF_FFFF_0000u64) | 0x3u64 | ((perm << 6u64) & 0xC0u64),
                r1 == (a1 & 0x0000_FFFF_FFFF_0000u64) | 0x3u64 | ((perm << 6u64) & 0xC0u64),
                a0 % 0x1_0000 == 0,
                a1 % 0x1_0000 == 0,
                a0 < 0x1_0000_0000_0000,
                a1 < 0x1_0000_0000_0000,
        ;
        l2.set(0, e0);
        l2.set(1, e1);
        PageTable { l2, l3, base }
    }

    /// Returns `true` if the descriptor translating `va` is valid.
    pub fn is_valid(&self, va: u64) -> (r: bool)
        requires
            self.wf(),
            page_aligned(va),
            in_table(va),
        ensures
            r == is_valid_spec(self.entry_for(va)),
    {
        let (l2_index, l3_index) = locate(va);
        let l3_table = self.l2[l2_index].get_masked(ADDR_MASK);
        if self.l3_addr_exec(0) == l3_table {
            self.l3[0][l3_index].is_valid()
        } else {
            self.l3[1][l3_index].is_valid()
        }
    }

    /// Returns `true` if the descriptor translating `va` is invalid.
    pub fn is_invalid(&self, va: u64) -> (r: bool)
        requires
            self.wf(),
            page_aligned(va),
            in_table(va),
        ensures
            r == !is_valid_spec(self.entry_for(va)),
    {
        !self.is_valid(va)
    }

    /// The physical address of L3 table `i` (0 or 1).
    pub fn l3_table_addr(&self, i: u64) -> (r: u64)
        requires
            self.wf(),
            i < 2,
        ensures
            r == self.l3_addr(i as int),
    {
        self.l3_addr_exec(i)
    }

    /// The physical address of L3 table `i`, as the L2 descriptors hold it.
    fn l3_addr_exec(&self, i: u64) -> (r: u64)
        requires
            i < 2,
            self.base_spec() + 3 * PAGE_SIZE <= u64::MAX,
        ensures
            r == self.l3_addr(i as int),
    {
        self.base + PAGE_SIZE * (i + 1)
    }

    /// Writes `entry` into the descriptor translating `va`.
    pub fn set_entry(&mut self, va: u64, entry: RawEntry)
        requires
            old(self).wf(),
            page_aligned(va),
            in_table(va),
        ensures
            final(self).wf(),
            final(self).base_spec() == old(self).base_spec(),
            forall|i: int| #[trigger] final(self).l2_entry(i) == old(self).l2_entry(i),
            final(self).entry_for(va) == entry.0,
            old(self).table_for(0) == 0 && old(self).table_for(1) == 1 ==> forall|w: u64|
                page_aligned(w) && in_table(w) && locate_spec(w) != locate_spec(va)
                    ==> #[trigger] final(self).entry_for(w) == old(self).entry_for(w),
            forall|w: u64|
                page_aligned(w) && (old(self).table_for(locate_spec(w).0) != old(self).table_for(locate_spec(va).0) || locate_spec(w).1 != locate_spec(va).1) ==> #[trigger] final(self).entry_for(w) == old(self).entry_for(w),
            forall|i: int, j: int|
                0 <= i < L3_TABLES && 0 <= j < TABLE_ENTRIES ==> #[trigger] final(self).l3_entry(i, j)
                    == if i == old(self).table_for(locate_spec(va).0) && j == locate_spec(va).1 {
                    entry.0
                } else {
                    old(self).l3_entry(i, j)
                },
    {
        let (l2_index, l3_index) = locate(va);
        let l3_table = self.l2[l2_index].get_masked(ADDR_MASK);
        let t: usize = if self.l3_addr_exec(0) == l3_table {
            0
        } else {
            1
        };
        self.l3[t].set(l3_index, L3Entry(entry));
        assert forall|i: int, j: int|
            0 <= i < L3_TABLES && 0 <= j < TABLE_ENTRIES implies #[trigger] self.l3_entry(i, j)
            == if i == old(self).table_for(locate_spec(va).0) && j == locate_spec(va).1 {
            entry.0
        } else {
            old(self).l3_entry(i, j)
        } by {
            if i != t {
                assert(self.l3@[i] == old(self).l3@[i]);
            }
        }
        assert forall|w: u64|
            page_aligned(w) && (old(self).table_for(locate_spec(w).0) != old(self).table_for(locate_spec(va).0) || locate_spec(w).1 != locate_spec(va).1) implies #[trigger] self.entry_for(w) == old(self).entry_for(w) by {
            let (a, b) = locate_spec(w);
            assert(0 <= a < 2 && 0 <= b < 8192);
            assert(self.table_for(a) == old(self).table_for(a));
            let ti = old(self).table_for(a);
            assert(self.l3_entry(ti, b) == old(self).l3_entry(ti, b));
        }
        let ghost (a0, b0) = locate_spec(va);
        assert(self.table_for(a0) == old(self).table_for(a0));
        assert forall|w: u64|
            old(self).table_for(0) == 0 && old(self).table_for(1) == 1 && page_aligned(w)
                && in_table(w) && locate_spec(w) != locate_spec(va) implies #[trigger] self.entry_for(w)
            == old(self).entry_for(w) by {
            let (a, b) = locate_spec(w);
            assert(0 <= a < 2 && 0 <= b < 8192);
            assert(self.table_for(a) == old(self).table_for(a));
            let ti = old(self).table_for(a);
            assert(self.l3_entry(ti, b) == old(self).l3_entry(ti, b));
        }
    }

    /// The physical address of the L2 table, the table's base address.
    pub fn get_baddr(&self) -> (r: u64)
        ensures
            r == self.base_spec(),
    {
        self.base
    }
}


/// Number of pages in the 1 GiB address space a table translates.
pub const TABLE_PAGES: u64 = 16384;

/// Page number `k` lies in L3 table `k / 8192` at index `k % 8192`.
pub proof fn lemma_locate_page(k: int)
    requires
        0 <= k < TABLE_PAGES,
    ensures
        page_aligned((k * 0x1_0000) as u64),
        locate_spec((k * 0x1_0000) as u64) == (k / 8192, k % 8192),
        0 <= k / 8192 < 2,
{
    let x = k * 0x1_0000;
    assert(0 <= x < 0x4000_0000) by (nonlinear_arith)
        requires
            0 <= k < 16384,
            x == k * 0x1_0000,
    ;
    assert(x % 0x1_0000 == 0) by (nonlinear_arith)
        requires
            x == k * 0x1_0000,
    ;
    assert(x / 0x1_0000 == k) by (nonlinear_arith)
        requires
            x == k * 0x1_0000,
    ;
    vstd::arithmetic::div_mod::lemma_div_denominator(x, 0x1_0000, 8192);
    assert(x / 0x2000_0000 == k / 8192);
    assert(0 <= k / 8192 < 2);
}

/// The virtual address of page number `k`.
pub open spec fn page_addr(k: int) -> int {
    k * PAGE_SIZE
}

/// The descriptor a kernel page table holds for page number `k` when RAM
/// ends at `mem_end`: device memory for the I/O region, normal memory below
/// `mem_end`, invalid elsewhere.
pub open spec fn kernel_slot(k: int, mem_end: u64) -> u64 {
    let va = k * PAGE_SIZE;
    if IO_BASE <= va < IO_BASE_END {
        page_entry(va as u64, PERM_KERN_RW, SH_OUTER, ATTR_DEV)
    } else if va < mem_end {
        page_entry(va as u64, PERM_KERN_RW, SH_INNER, ATTR_MEM)
    } else {
        0
    }
}

/// The kernel's page table: an identity map of RAM and of the I/O region.
pub struct KernPageTable(pub PageTable);

impl KernPageTable {
    /// Returns a new kernel page table at physical address `base`, mapping
    /// RAM from `0` up to `mem_end` and the peripheral region from `IO_BASE`
    /// to `IO_BASE_END` to themselves, with kernel read/write permission.
    pub fn new(base: u64, mem_end: u64) -> (kt: KernPageTable)
        requires
            PageTable::base_ok(base),
            mem_end <= IO_BASE_END,
        ensures
            kt.0.wf(),
            kt.0.base_spec() == base,
            kt.0.l2_entry(0) == table_entry((base + PAGE_SIZE) as u64, PERM_KERN_RW),
            kt.0.l2_entry(1) == table_entry((base + 2 * PAGE_SIZE) as u64, PERM_KERN_RW),
            forall|i: int| 2 <= i < TABLE_ENTRIES ==> #[trigger] kt.0.l2_entry(i) == 0,
            kt.0.table_for(0) == 0,
            kt.0.table_for(1) == 1,
            forall|k: int|
                0 <= k < TABLE_PAGES && IO_BASE <= k * PAGE_SIZE < IO_BASE_END ==> {
                    let e = #[trigger] kt.0.l3_entry(k / 8192, k % 8192);
                    &&& is_valid_spec(e)
                    &&& e & ADDR_MASK == k * PAGE_SIZE
                    &&& field(e, ATTR_MASK, ATTR_SHIFT) == ATTR_DEV
                    &&& field(e, SH_MASK, SH_SHIFT) == SH_OUTER
                    &&& field(e, AP_MASK, AP_SHIFT) == PERM_KERN_RW
                },
            forall|k: int|
                0 <= k < TABLE_PAGES && k * PAGE_SIZE < mem_end && k * PAGE_SIZE < IO_BASE ==> {
                    let e = #[trigger] kt.0.l3_entry(k / 8192, k % 8192);
                    &&& is_valid_spec(e)
                    &&& e & ADDR_MASK == k * PAGE_SIZE
                    &&& field(e, ATTR_MASK, ATTR_SHIFT) == ATTR_MEM
                    &&& field(e, SH_MASK, SH_SHIFT) == SH_INNER
                    &&& field(e, AP_MASK, AP_SHIFT) == PERM_KERN_RW
                },
            forall|k: int|
                0 <= k < TABLE_PAGES && mem_end <= k * PAGE_SIZE < IO_BASE ==> !is_valid_spec(
                    #[trigger] kt.0.l3_entry(k / 8192, k % 8192),
                ),
            forall|k: int|
                0 <= k < TABLE_PAGES ==> #[trigger] kt.0.l3_entry(k / 8192, k % 8192) == kernel_slot(
                    k,
                    mem_end,
                ),
    {
        let mut pt = PageTable::new(PERM_KERN_RW, base);
        let mut x: u64 = 0;
        let ghost mut n: int = 0;
        while x < mem_end
            invariant
                pt.wf(),
                pt.base_spec() == base,
                pt.l2_entry(0) == table_entry((base + PAGE_SIZE) as u64, PERM_KERN_RW),
                pt.l2_entry(1) == table_entry((base + 2 * PAGE_SIZE) as u64, PERM_KERN_RW),
                forall|i: int| 2 <= i < TABLE_ENTRIES ==> #[trigger] pt.l2_entry(i) == 0,
                pt.table_for(0) == 0,
                pt.table_for(1) == 1,
                mem_end <= IO_BASE_END,
                x == n * PAGE_SIZE,
                0 <= n,
                n <= TABLE_PAGES,
                n > 0 ==> (n - 1) * PAGE_SIZE < mem_end,
                forall|k: int|
                    0 <= k < TABLE_PAGES ==> #[trigger] pt.l3_entry(k / 8192, k % 8192) == if k < n {
                        page_entry((k * PAGE_SIZE) as u64, PERM_KERN_RW, SH_INNER, ATTR_MEM)
                    } else {
                        0
                    },
            decreases TABLE_PAGES - n,
        {
            assert(n < TABLE_PAGES) by (nonlinear_arith)
                requires
                    x == n * 0x1_0000,
                    x < mem_end,
                    mem_end <= 0x4000_0000,
            ;
            proof {
                lemma_locate_page(n);
            }
            let e = new_page_entry(x, PERM_KERN_RW, SH_INNER, ATTR_MEM);
            let ghost old_pt = pt;
            pt.set_entry(x, e);
            assert forall|k: int| 0 <= k < TABLE_PAGES implies #[trigger] pt.l3_entry(
                k / 8192,
                k % 8192,
            ) == if k < n + 1 {
                page_entry((k * PAGE_SIZE) as u64, PERM_KERN_RW, SH_INNER, ATTR_MEM)
            } else {
                0
            } by {
                if k != n {
                    assert(k / 8192 != n / 8192 || k % 8192 != n % 8192) by {
                        vstd::arithmetic::div_mod::lemma_fundamental_div_mod(k, 8192);
                        vstd::arithmetic::div_mod::lemma_fundamental_div_mod(n, 8192);
                    }
                }
                assert(0 <= k / 8192 < 2);
            }
            x = x + PAGE_SIZE;
            proof {
                n = n + 1;
            }
        }
        let mut y: u64 = IO_BASE;
        let ghost mut m: int = (IO_BASE / PAGE_SIZE) as int;
        let ghost mem_n = n;
        assert forall|k: int| 0 <= k < TABLE_PAGES implies (k < mem_n <==> #[trigger] page_addr(k)
            < mem_end) by {
            if k < n {
                assert(k * PAGE_SIZE <= (n - 1) * PAGE_SIZE) by (nonlinear_arith)
                    requires
                        k <= n - 1,
                ;
            } else {
                assert(k * PAGE_SIZE >= n * PAGE_SIZE) by (nonlinear_arith)
                    requires
                        k >= n,
                ;
            }
        }
        while y < IO_BASE_END
            invariant
                pt.wf(),
                pt.base_spec() == base,
                pt.l2_entry(0) == table_entry((base + PAGE_SIZE) as u64, PERM_KERN_RW),
                pt.l2_entry(1) == table_entry((base + 2 * PAGE_SIZE) as u64, PERM_KERN_RW),
                forall|i: int| 2 <= i < TABLE_ENTRIES ==> #[trigger] pt.l2_entry(i) == 0,
                pt.table_for(0) == 0,
                pt.table_for(1) == 1,
                mem_end <= IO_BASE_END,
                y == m * PAGE_SIZE,
                IO_BASE / PAGE_SIZE <= m <= TABLE_PAGES,
                forall|k: int|
                    0 <= k < TABLE_PAGES ==> (k < mem_n <==> #[trigger] page_addr(k) < mem_end),
                forall|k: int|
                    0 <= k < TABLE_PAGES ==> #[trigger] pt.l3_entry(k / 8192, k % 8192) == if IO_BASE
                        / PAGE_SIZE <= k < m {
                        page_entry((k * PAGE_SIZE) as u64, PERM_KERN_RW, SH_OUTER, ATTR_DEV)
                    } else if k < mem_n {
                        page_entry((k * PAGE_SIZE) as u64, PERM_KERN_RW, SH_INNER, ATTR_MEM)
                    } else {
                        0
                    },
            decreases TABLE_PAGES - m,
        {
            assert(m < TABLE_PAGES) by (nonlinear_arith)
                requires
                    y == m * 0x1_0000,
                    y < 0x4000_0000,
            ;
            proof {
                lemma_locate_page(m);
            }
            let e = new_page_entry(y, PERM_KERN_RW, SH_OUTER, ATTR_DEV);
            pt.set_entry(y, e);
            assert forall|k: int| 0 <= k < TABLE_PAGES implies #[trigger] pt.l3_entry(
                k / 8192,
                k % 8192,
            ) == if IO_BASE / PAGE_SIZE <= k < m + 1 {
                page_entry((k * PAGE_SIZE) as u64, PERM_KERN_RW, SH_OUTER, ATTR_DEV)
            } else if k < mem_n {
                page_entry((k * PAGE_SIZE) as u64, PERM_KERN_RW, SH_INNER, ATTR_MEM)
            } else {
                0
            } by {
                if k != m {
                    assert(k / 8192 != m / 8192 || k % 8192 != m % 8192) by {
                        vstd::arithmetic::div_mod::lemma_fundamental_div_mod(k, 8192);
                        vstd::arithmetic::div_mod::lemma_fundamental_div_mod(m, 8192);
                    }
                }
                assert(0 <= k / 8192 < 2);
            }
            y = y + PAGE_SIZE;
            proof {
                m = m + 1;
            }
        }
        assert forall|k: int| 0 <= k < TABLE_PAGES implies #[trigger] pt.l3_entry(k / 8192, k % 8192)
            == kernel_slot(k, mem_end) by {
            assert(k < mem_n <==> page_addr(k) < mem_end);
            assert(IO_BASE <= k * PAGE_SIZE < IO_BASE_END <==> IO_BASE / PAGE_SIZE <= k < TABLE_PAGES)
                by (nonlinear_arith)
                requires
                    0 <= k,
            ;
        }
        assert forall|k: int| 0 <= k < TABLE_PAGES implies #[trigger] pt.l3_entry(k / 8192, k % 8192)
            == kernel_slot(k, mem_end) && (IO_BASE <= k * PAGE_SIZE < IO_BASE_END ==> {
            let e = pt.l3_entry(k / 8192, k % 8192);
            &&& is_valid_spec(e)
            &&& e & ADDR_MASK == k * PAGE_SIZE
            &&& field(e, ATTR_MASK, ATTR_SHIFT) == ATTR_DEV
            &&& field(e, SH_MASK, SH_SHIFT) == SH_OUTER
            &&& field(e, AP_MASK, AP_SHIFT) == PERM_KERN_RW
        }) && (k * PAGE_SIZE < mem_end && k * PAGE_SIZE < IO_BASE ==> {
            let e = pt.l3_entry(k / 8192, k % 8192);
            &&& is_valid_spec(e)
            &&& e & ADDR_MASK == k * PAGE_SIZE
            &&& field(e, ATTR_MASK, ATTR_SHIFT) == ATTR_MEM
            &&& field(e, SH_MASK, SH_SHIFT) == SH_INNER
            &&& field(e, AP_MASK, AP_SHIFT) == PERM_KERN_RW
        }) && (mem_end <= k * PAGE_SIZE < IO_BASE ==> !is_valid_spec(pt.l3_entry(k / 8192, k % 8192)))
            by {
            law_kernel_identity_map(k, mem_end);
        }
        KernPageTable(pt)
    }
}


/// Permissions a user page can be mapped with.
#[derive(Debug, Copy, Clone, PartialEq, Eq, Structural)]
pub enum PagePerm {
    RW,
    RO,
    RWX,
}

/// The access-permission field a user page gets for `perm`; execution
/// permission is not encoded, so `RWX` maps like `RW`.
pub open spec fn user_ap(perm: PagePerm) -> u64 {
    match perm {
        PagePerm::RW => PERM_USER_RW,
        PagePerm::RO => PERM_USER_RO,
        PagePerm::RWX => PERM_USER_RW,
    }
}

/// The addresses of the pages mapped by the valid descriptors of `entries`,
/// in order.
pub open spec fn mapped_pages(entries: Seq<u64>) -> Seq<u64>
    decreases entries.len(),
{
    if entries.len() == 0 {
        Seq::empty()
    } else {
        let rest = mapped_pages(entries.drop_last());
        if is_valid_spec(entries.last()) {
            rest.push(entries.last() & ADDR_MASK)
        } else {
            rest
        }
    }
}

impl PageTable {
    /// All L3 descriptors: those of the first L3 table, then those of the
    /// second.
    pub closed spec fn all_entries(&self) -> Seq<u64> {
        Seq::new(
            (2 * TABLE_ENTRIES) as nat,
            |k: int| self.l3@[k / 8192]@[k % 8192].0.0,
        )
    }

    /// All L3 descriptors, those of the first L3 table first.
    pub fn l3_entries(&self) -> (r: Vec<L3Entry>)
        requires
            self.wf(),
        ensures
            r@.len() == 2 * TABLE_ENTRIES,
            forall|k: int| 0 <= k < 2 * TABLE_ENTRIES ==> #[trigger] r@[k].0.0 == self.all_entries()[k],
    {
        let mut r: Vec<L3Entry> = Vec::new();
        let mut k: usize = 0;
        while k < 2 * TABLE_ENTRIES
            invariant
                self.wf(),
                k <= 2 * TABLE_ENTRIES,
                r@.len() == k,
                forall|j: int| 0 <= j < k ==> #[trigger] r@[j].0.0 == self.all_entries()[j],
            decreases 2 * TABLE_ENTRIES - k,
        {
            r.push(self.l3[k / TABLE_ENTRIES][k % TABLE_ENTRIES]);
            k = k + 1;
        }
        r
    }

    /// The physical addresses of all pages the table maps, in the order of
    /// its descriptors.
    pub fn mapped_page_addrs(&self) -> (r: Vec<u64>)
        requires
            self.wf(),
        ensures
            r@ == mapped_pages(self.all_entries()),
    {
        let mut r: Vec<u64> = Vec::new();
        let mut k: usize = 0;
        while k < 2 * TABLE_ENTRIES
            invariant
                self.wf(),
                k <= 2 * TABLE_ENTRIES,
                r@ == mapped_pages(self.all_entries().subrange(0, k as int)),
            decreases 2 * TABLE_ENTRIES - k,
        {
            let e = self.l3[k / TABLE_ENTRIES][k % TABLE_ENTRIES];
            let ghost prefix = self.all_entries().subrange(0, k + 1);
            assert(prefix.drop_last() =~= self.all_entries().subrange(0, k as int));
            assert(prefix.last() == e.0.0);
            match e.get_page_addr() {
                Some(a) => r.push(a),
                None => {},
            }
            k = k + 1;
        }
        assert(self.all_entries().subrange(0, (2 * TABLE_ENTRIES) as int) =~= self.all_entries());
        r
    }
}

/// A user process's page table: its 1 GiB address space starts at
/// `USER_IMG_BASE`.
pub struct UserPageTable(pub PageTable);

impl UserPageTable {
    /// Returns a new user page table at physical address `base`, created
    /// with user read/write permission.
    pub fn new(base: u64) -> (ut: UserPageTable)
        requires
            PageTable::base_ok(base),
        ensures
            ut.0.wf(),
            ut.0.base_spec() == base,
            ut.0.table_for(0) == 0,
            ut.0.table_for(1) == 1,
            ut.0.l2_entry(0) == table_entry((base + PAGE_SIZE) as u64, PERM_USER_RW),
            ut.0.l2_entry(1) == table_entry((base + 2 * PAGE_SIZE) as u64, PERM_USER_RW),
            forall|i: int| 2 <= i < TABLE_ENTRIES ==> #[trigger] ut.0.l2_entry(i) == 0,
            forall|i: int, j: int|
                0 <= i < L3_TABLES && 0 <= j < TABLE_ENTRIES ==> #[trigger] ut.0.l3_entry(i, j) == 0,
    {
        UserPageTable(PageTable::new(PERM_USER_RW, base))
    }

    /// Maps the page at physical address `page` at the user virtual address
    /// `va` with permission `perm`. `va` must lie at or above
    /// `USER_IMG_BASE`, be page aligned, and not be mapped yet; `page` must
    /// be a real allocation, not the null address of a failed one.
    pub fn alloc_page(&mut self, va: u64, perm: PagePerm, page: u64)
        requires
            old(self).0.wf(),
            va >= USER_IMG_BASE,
            page_aligned((va - USER_IMG_BASE) as u64),
            page != 0,
            !is_valid_spec(old(self).0.entry_for((va - USER_IMG_BASE) as u64)),
        ensures
            final(self).0.wf(),
            final(self).0.base_spec() == old(self).0.base_spec(),
            forall|i: int| #[trigger] final(self).0.l2_entry(i) == old(self).0.l2_entry(i),
            final(self).0.entry_for((va - USER_IMG_BASE) as u64) == page_entry(
                page,
                user_ap(perm),
                SH_INNER,
                ATTR_MEM,
            ),
            is_valid_spec(final(self).0.entry_for((va - USER_IMG_BASE) as u64)),
            final(self).0.entry_for((va - USER_IMG_BASE) as u64) & ADDR_MASK == page & ADDR_MASK,
            perm == PagePerm::RO ==> field(
                final(self).0.entry_for((va - USER_IMG_BASE) as u64),
                AP_MASK,
                AP_SHIFT,
            ) == PERM_USER_RO,
            perm != PagePerm::RO ==> field(
                final(self).0.entry_for((va - USER_IMG_BASE) as u64),
                AP_MASK,
                AP_SHIFT,
            ) == PERM_USER_RW,
            field(final(self).0.entry_for((va - USER_IMG_BASE) as u64), SH_MASK, SH_SHIFT) == SH_INNER,
            field(final(self).0.entry_for((va - USER_IMG_BASE) as u64), ATTR_MASK, ATTR_SHIFT)
                == ATTR_MEM,
            field(final(self).0.entry_for((va - USER_IMG_BASE) as u64), TYPE_MASK, TYPE_SHIFT)
                == PAGE_TYPE_PAGE,
            forall|i: int, j: int|
                0 <= i < L3_TABLES && 0 <= j < TABLE_ENTRIES && !(i == old(self).0.table_for(
                    locate_spec((va - USER_IMG_BASE) as u64).0,
                ) && j == locate_spec((va - USER_IMG_BASE) as u64).1)
                    ==> #[trigger] final(self).0.l3_entry(i, j) == old(self).0.l3_entry(i, j),
    {
        let new_va = va - USER_IMG_BASE;
        let ap = match perm {
            PagePerm::RWX => PERM_USER_RW,
            PagePerm::RW => PERM_USER_RW,
            PagePerm::RO => PERM_USER_RO,
        };
        let e = new_page_entry(page, ap, SH_INNER, ATTR_MEM);
        proof {
            crate::vm::entry::law_page_entry_fields(page, ap, SH_INNER, ATTR_MEM);
        }
        self.0.set_entry(new_va, e);
        let (l2i, l3i) = locate(new_va);
        assert(0 <= self.0.table_for(l2i as int) < 2);
    }
}


/// An L2 table descriptor is valid, has the table type, carries the
/// permission `perm` and points at bits 47..16 of `addr`.
pub proof fn law_table_entry_fields(addr: u64, perm: u64)
    requires
        perm < 4,
    ensures
        table_entry(addr, perm) & 1 == 1,
        (table_entry(addr, perm) & 2) >> 1 == 1,
        (table_entry(addr, perm) & 0xC0) >> 6 == perm,
        table_entry(addr, perm) & 0x0000_FFFF_FFFF_0000 == addr & 0x0000_FFFF_FFFF_0000,
{
    let e = table_entry(addr, perm);
    assert(e == (addr & 0x0000_FFFF_FFFF_0000u64) | 0x3u64 | ((perm << 6u64) & 0xC0u64));
    assert(e & 1u64 == 1u64 && (e & 2u64) >> 1u64 == 1u64 && (e & 0xC0u64) >> 6u64 == perm && e
        & 0x0000_FFFF_FFFF_0000u64 == addr & 0x0000_FFFF_FFFF_0000u64) by (bit_vector)
        requires
            perm < 4,
            e == (addr & 0x0000_FFFF_FFFF_0000u64) | 0x3u64 | ((perm << 6u64) & 0xC0u64),
    ;
}

/// A user page requested read-only gets the user read-only access
/// permission; one requested read/write, or read/write/execute, gets user
/// read/write.
pub proof fn law_user_page_permissions()
    ensures
        user_ap(PagePerm::RO) == 0b11u64,
        user_ap(PagePerm::RW) == 0b01u64,
        user_ap(PagePerm::RWX) == 0b01u64,
        user_ap(PagePerm::RO) == PERM_USER_RO,
        user_ap(PagePerm::RW) == PERM_USER_RW,
        user_ap(PagePerm::RWX) == PERM_USER_RW,
{
}

/// The kernel table maps every page of RAM below `mem_end`, and every page
/// of the I/O region, to itself; every other page is unmapped. Every mapped
/// page is a valid page descriptor with the access flag set and kernel
/// read/write permission; the I/O region is outer-shareable device memory,
/// RAM below it inner-shareable normal memory.
pub proof fn law_kernel_identity_map(k: int, mem_end: u64)
    requires
        0 <= k < TABLE_PAGES,
        mem_end <= IO_BASE_END,
    ensures
        IO_BASE <= k * PAGE_SIZE < IO_BASE_END ==> {
            let e = kernel_slot(k, mem_end);
            &&& field(e, ATTR_MASK, ATTR_SHIFT) == ATTR_DEV
            &&& field(e, SH_MASK, SH_SHIFT) == SH_OUTER
            &&& field(e, AP_MASK, AP_SHIFT) == PERM_KERN_RW
            &&& field(e, TYPE_MASK, TYPE_SHIFT) == PAGE_TYPE_PAGE
            &&& e & AF_MASK == AF_MASK
        },
        k * PAGE_SIZE < mem_end && k * PAGE_SIZE < IO_BASE ==> {
            let e = kernel_slot(k, mem_end);
            &&& field(e, ATTR_MASK, ATTR_SHIFT) == ATTR_MEM
            &&& field(e, SH_MASK, SH_SHIFT) == SH_INNER
            &&& field(e, AP_MASK, AP_SHIFT) == PERM_KERN_RW
            &&& field(e, TYPE_MASK, TYPE_SHIFT) == PAGE_TYPE_PAGE
            &&& e & AF_MASK == AF_MASK
        },
        (k * PAGE_SIZE < mem_end || IO_BASE <= k * PAGE_SIZE) ==> is_valid_spec(kernel_slot(k, mem_end))
            && kernel_slot(k, mem_end) & ADDR_MASK == k * PAGE_SIZE,
        !(k * PAGE_SIZE < mem_end || IO_BASE <= k * PAGE_SIZE) ==> !is_valid_spec(
            kernel_slot(k, mem_end),
        ),
{
    let va = k * PAGE_SIZE;
    assert(0 <= va < 0x4000_0000) by (nonlinear_arith)
        requires
            0 <= k < 16384,
            va == k * 0x1_0000,
    ;
    assert(va % 0x1_0000 == 0) by (nonlinear_arith)
        requires
            va == k * 0x1_0000,
    ;
    let v = va as u64;
    assert(v & 0x0000_FFFF_FFFF_0000u64 == v) by (bit_vector)
        requires
            v < 0x4000_0000,
            v % 0x1_0000 == 0,
    ;
    crate::vm::entry::law_page_entry_fields(v, PERM_KERN_RW, SH_OUTER, ATTR_DEV);
    crate::vm::entry::law_page_entry_fields(v, PERM_KERN_RW, SH_INNER, ATTR_MEM);
    assert(0u64 & 1u64 == 0u64) by (bit_vector);
}

} // verus!
