//! A size-class ("bin") allocator.
//!
//! Requests are rounded up to a power-of-two block size of at least 8 bytes;
//! bin `k` holds freed blocks of `2^(k + 3)` bytes. An empty bin is served by
//! bumping a cursor through the managed region; freed blocks are pushed onto
//! their bin and handed out again last-in, first-out, to a request whose
//! alignment the block meets (a request the last freed block does not meet
//! is served from the cursor instead).
use vstd::prelude::*;
use crate::allocator::util::{
    align_up, align_up_fits, align_up_spec, ceil_log2, is_power_of_two, lemma_pow2_le,
    lemma_usize_pow2_bounds, max_usize_power_of_two, next_power_of_two, next_power_of_two_exp,
};
use vstd::arithmetic::power2::{pow2, lemma2_to64};

verus! {

/// Number of size classes.
pub const NUM_BINS: usize = 30;

/// The number of bytes a request must cover: the larger of size and alignment.
pub open spec fn request_size(size: usize, align: usize) -> nat {
    if size < align {
        align as nat
    } else {
        size as nat
    }
}

/// Exponent of the block size serving a request (at least `3`, i.e. 8 bytes).
pub open spec fn class_exponent(size: usize, align: usize) -> nat {
    let e = ceil_log2(request_size(size, align));
    if e < 3 {
        3
    } else {
        e
    }
}

/// The block size serving a request: the request rounded up to a power of
/// two, and never below 8 bytes.
pub open spec fn block_size(size: usize, align: usize) -> nat {
    pow2(class_exponent(size, align))
}

/// The bin serving a request.
pub open spec fn bin_index(size: usize, align: usize) -> nat {
    (class_exponent(size, align) - 3) as nat
}

/// A request whose size class can be computed and has a bin.
pub open spec fn fits_class(size: usize, align: usize) -> bool {
    &&& request_size(size, align) * 2 <= usize::MAX
    &&& bin_index(size, align) < NUM_BINS
}

/// Two blocks (address, length) do not overlap.
pub open spec fn blocks_apart(x: (int, int), y: (int, int)) -> bool {
    x.0 + x.1 <= y.0 || y.0 + y.1 <= x.0
}

/// The abstract state of an [`Allocator`].
pub struct AllocatorView {
    /// Free blocks of each bin; the last element is handed out first.
    pub bins: Seq<Seq<usize>>,
    pub global_start: usize,
    pub global_end: usize,
    /// The first address not yet handed out by the bump cursor.
    pub relative_start: usize,
    pub total_size: usize,
}

impl AllocatorView {
    pub open spec fn inv(self) -> bool {
        self.bins.len() == NUM_BINS
    }

    /// `global_end` minus the block size, saturating at zero.
    pub open spec fn bump_limit(self, block: nat) -> int {
        if self.global_end >= block {
            self.global_end - block
        } else {
            0
        }
    }

    /// Whether bin `b` can serve a request aligned to `align`: its last
    /// freed block, the one handed out next, is so aligned.
    pub open spec fn reusable(self, b: int, align: usize) -> bool {
        &&& self.bins[b].len() > 0
        &&& self.bins[b].last() % align == 0
    }

    /// The requests `allocate` accepts: the alignment is a power of two, and a request that fits the region has a size class with a bin and, when the bin cannot serve it, room to align the cursor.
    pub open spec fn can_alloc(self, size: usize, align: usize) -> bool {
        &&& is_power_of_two(align as int)
        &&& size <= self.total_size ==> {
            &&& fits_class(size, align)
            &&& !self.reusable(bin_index(size, align) as int, align) ==> align_up_fits(
                self.relative_start,
                align,
            )
        }
    }

    /// Whether `(b, i)` names a block waiting in a bin.
    pub open spec fn is_bin_block(self, b: int, i: int) -> bool {
        0 <= b < NUM_BINS && 0 <= i < self.bins[b].len()
    }

    /// The block at position `i` of bin `b`, as (address, length).
    pub open spec fn bin_block(self, b: int, i: int) -> (int, int) {
        (self.bins[b][i] as int, pow2((b + 3) as nat) as int)
    }

    /// Whether a block (address, length) lies whole inside the region, below
    /// the cursor.
    pub open spec fn within(self, x: (int, int)) -> bool {
        &&& self.global_start <= x.0
        &&& x.0 + x.1 <= self.relative_start
        &&& x.0 + x.1 <= self.global_end
    }

    /// The allocator's blocks are sound with respect to the blocks `live`
    /// handed out and not yet freed: the cursor is at or above the region's
    /// start, every waiting and every live block lies whole inside the
    /// region below the cursor, and no two of them overlap.
    pub open spec fn holds_apart(self, live: Seq<(int, int)>) -> bool {
        &&& self.global_start <= self.relative_start
        &&& forall|b: int, i: int| #[trigger] self.is_bin_block(b, i) ==> self.within(self.bin_block(b, i))
        &&& forall|k: int| 0 <= k < live.len() ==> self.within(#[trigger] live[k])
        &&& forall|b: int, i: int, c: int, j: int|
            #[trigger] self.is_bin_block(b, i) && #[trigger] self.is_bin_block(c, j) && (b != c || i != j)
                ==> blocks_apart(self.bin_block(b, i), self.bin_block(c, j))
        &&& forall|b: int, i: int, k: int|
            #[trigger] self.is_bin_block(b, i) && 0 <= k < live.len() ==> blocks_apart(
                self.bin_block(b, i),
                #[trigger] live[k],
            )
        &&& forall|k: int, l: int|
            0 <= k < live.len() && 0 <= l < live.len() && k != l ==> blocks_apart(
                #[trigger] live[k],
                #[trigger] live[l],
            )
    }

    /// The new state and the returned address (`0` for failure) of an allocation.
    pub open spec fn alloc_spec(self, size: usize, align: usize) -> (AllocatorView, usize) {
        if size > self.total_size {
            (self, 0)
        } else {
            let b = bin_index(size, align) as int;
            let n = block_size(size, align);
            if self.reusable(b, align) {
                (AllocatorView { bins: self.bins.update(b, self.bins[b].drop_last()), ..self }, self.bins[b].last())
            } else {
                let start = align_up_spec(self.relative_start as int, align as int);
                if self.bump_limit(n) < start {
                    (self, 0)
                } else {
                    (AllocatorView { relative_start: (start + n) as usize, ..self }, start as usize)
                }
            }
        }
    }

    /// The new state after a deallocation.
    pub open spec fn dealloc_spec(self, ptr: usize, size: usize, align: usize) -> AllocatorView {
        let b = bin_index(size, align) as int;
        AllocatorView { bins: self.bins.update(b, self.bins[b].push(ptr)), ..self }
    }
}

/// A simple allocator that allocates based on size classes.
///   bin 0 (2^3 bytes)    : handles allocations in (0, 2^3]
///   bin 1 (2^4 bytes)    : handles allocations in (2^3, 2^4]
///   ...
///   bin 29 (2^32 bytes)  : handles allocations in (2^31, 2^32]
pub struct Allocator {
    bins: Vec<Vec<usize>>,
    global_start: usize,
    global_end: usize,
    relative_start: usize,
    total_size: usize,
}

impl View for Allocator {
    type V = AllocatorView;

    closed spec fn view(&self) -> AllocatorView {
        AllocatorView {
            bins: self.bins@.map_values(|v: Vec<usize>| v@),
            global_start: self.global_start,
            global_end: self.global_end,
            relative_start: self.relative_start,
            total_size: self.total_size,
        }
    }
}

impl Allocator {
    /// Creates a new bin allocator that will allocate memory from the region
    /// starting at address `start` and ending at address `end`.
    pub fn new(start: usize, end: usize) -> (a: Allocator)
        requires
            start <= end,
        ensures
            a@.inv(),
            a@.holds_apart(Seq::empty()),
            forall|i: int| 0 <= i < NUM_BINS ==> #[trigger] a@.bins[i].len() == 0,
            a@.global_start == start,
            a@.global_end == end,
            a@.relative_start == start,
            a@.total_size == end - start,
    {
        let size = end - start;
        let mut bins: Vec<Vec<usize>> = Vec::new();
        let mut i: usize = 0;
        while i < NUM_BINS
            invariant
                i <= NUM_BINS,
                bins.len() == i,
                forall|j: int| 0 <= j < i ==> (#[trigger] bins@[j])@.len() == 0,
            decreases NUM_BINS - i,
        {
            bins.push(Vec::new());
            i = i + 1;
        }
        let a = Allocator {
            bins,
            global_start: start,
            global_end: end,
            relative_start: start,
            total_size: size,
        };
        assert(forall|i: int| 0 <= i < NUM_BINS ==> #[trigger] a@.bins[i].len() == 0) by {
            assert forall|i: int| 0 <= i < NUM_BINS implies #[trigger] a@.bins[i].len() == 0 by {
                assert(a@.bins[i] == a.bins@[i]@);
            }
        }
        a
    }

    /// Maps a request size to its bin and the power of two that covers it:
    /// returns `(bin, next_power_of_two(size))`, the bin being the
    /// power's exponent minus 3 (bin 0 for powers up to 8).
    pub fn map_to_bin(size: usize) -> (r: (usize, usize))
        requires
            size <= max_usize_power_of_two(),
        ensures
            r.1 == next_power_of_two(size as nat),
            r.0 == (if ceil_log2(size as nat) <= 3 {
                0
            } else {
                ceil_log2(size as nat) - 3
            }),
    {
        let (p, k) = next_power_of_two_exp(size);
        let bin = if k <= 3 {
            0
        } else {
            (k - 3) as usize
        };
        (bin, p)
    }

    /// The bin and block size of a request.
    fn size_class(size: usize, align: usize) -> (r: (usize, usize))
        requires
            fits_class(size, align),
        ensures
            r.0 == bin_index(size, align),
            r.1 == block_size(size, align),
            r.1 >= request_size(size, align),
            r.0 < NUM_BINS,
    {
        let m = if size < align {
            align
        } else {
            size
        };
        proof {
            lemma_usize_pow2_bounds();
            lemma2_to64();
        }
        let (p, k) = next_power_of_two_exp(m);
        if p < 8 {
            proof {
                if k >= 3 {
                    lemma_pow2_le(3, k as nat);
                }
            }
            (0, 8)
        } else {
            proof {
                if k < 3 {
                    lemma_pow2_le(k as nat, 2);
                }
            }
            ((k - 3) as usize, p)
        }
    }

    /// Allocates `size` bytes aligned to `align`; returns the block's address,
    /// or `0` when the request exceeds the region size or the region is
    /// exhausted. The last block freed to the request's bin is handed out
    /// if it is aligned to `align`; otherwise the block comes from the
    /// cursor.
    pub fn allocate(&mut self, size: usize, align: usize) -> (r: usize)
        requires
            old(self)@.inv(),
            old(self)@.can_alloc(size, align),
        ensures
            final(self)@.inv(),
            (final(self)@, r) == old(self)@.alloc_spec(size, align),
            r % align == 0,
    {
        proof {
            law_allocation_aligned(self@, size, align);
        }
        if self.total_size < size {
            return 0;
        }
        let (bin, block) = Self::size_class(size, align);
        assert(self.bins@[bin as int]@ == self@.bins[bin as int]);
        proof {
            let k = choose|k: nat| #[trigger] pow2(k) == align as int;
            vstd::arithmetic::power2::lemma_pow2_pos(k);
        }
        let n = self.bins[bin].len();
        let reuse = n > 0 && self.bins[bin][n - 1] % align == 0;
        if !reuse {
            let start = align_up(self.relative_start, align);
            let limit = if self.global_end >= block {
                self.global_end - block
            } else {
                0
            };
            if limit < start {
                return 0;
            }
            let padd = start - self.relative_start;
            self.relative_start = self.relative_start + block + padd;
            assert(self@.bins =~~= old(self)@.bins);
            start
        } else {
            let addr = self.bins[bin].pop().unwrap();
            assert(self@.bins =~~= old(self)@.bins.update(
                bin as int,
                old(self)@.bins[bin as int].drop_last(),
            ));
            addr
        }
    }

    /// Whether a request would be served by the last block freed to its
    /// bin: the bin holds a block and that block meets the alignment.
    pub fn reuses_block(&self, size: usize, align: usize) -> (r: bool)
        requires
            self@.inv(),
            fits_class(size, align),
            is_power_of_two(align as int),
        ensures
            r == self@.reusable(bin_index(size, align) as int, align),
    {
        let (bin, _block) = Self::size_class(size, align);
        assert(self.bins@[bin as int]@ == self@.bins[bin as int]);
        proof {
            let k = choose|k: nat| #[trigger] pow2(k) == align as int;
            vstd::arithmetic::power2::lemma_pow2_pos(k);
        }
        let n = self.bins[bin].len();
        n > 0 && self.bins[bin][n - 1] % align == 0
    }

    /// Start of the managed region.
    pub fn global_start(&self) -> (r: usize)
        ensures
            r == self@.global_start,
    {
        self.global_start
    }

    /// End of the managed region.
    pub fn global_end(&self) -> (r: usize)
        ensures
            r == self@.global_end,
    {
        self.global_end
    }

    /// The bump cursor: the first address not yet handed out from the region.
    pub fn relative_start(&self) -> (r: usize)
        ensures
            r == self@.relative_start,
    {
        self.relative_start
    }

    /// Size of the managed region.
    pub fn total_size(&self) -> (r: usize)
        ensures
            r == self@.total_size,
    {
        self.total_size
    }

    /// Number of free blocks held in bin `bin`.
    pub fn free_blocks(&self, bin: usize) -> (r: usize)
        requires
            self@.inv(),
            bin < NUM_BINS,
        ensures
            r == self@.bins[bin as int].len(),
    {
        self.bins[bin].len()
    }

    /// Returns the block at `ptr`, allocated with `size` and `align`, to its bin.
    pub fn deallocate(&mut self, ptr: usize, size: usize, align: usize)
        requires
            old(self)@.inv(),
            fits_class(size, align),
        ensures
            final(self)@.inv(),
            final(self)@ == old(self)@.dealloc_spec(ptr, size, align),
    {
        let (bin, _block) = Self::size_class(size, align);
        self.bins[bin].push(ptr);
        assert(self@.bins =~~= old(self)@.bins.update(
            bin as int,
            old(self)@.bins[bin as int].push(ptr),
        ));
    }
}

/// Freeing a block and then requesting the same layout hands back that very
/// block and leaves the allocator as it was before the free.
pub proof fn law_dealloc_then_alloc_returns_block(
    v: AllocatorView,
    ptr: usize,
    size: usize,
    align: usize,
)
    requires
        v.inv(),
        fits_class(size, align),
        size <= v.total_size,
        ptr % align == 0,
    ensures
        v.dealloc_spec(ptr, size, align).alloc_spec(size, align) == (v, ptr),
{
    let b = bin_index(size, align) as int;
    let w = v.dealloc_spec(ptr, size, align);
    assert(w.bins[b] == v.bins[b].push(ptr));
    assert(w.reusable(b, align));
    assert(w.bins[b].drop_last() =~= v.bins[b]);
    assert(w.bins.update(b, w.bins[b].drop_last()) =~= v.bins);
}

/// Every request is served by a power-of-two block of at least 8 bytes that
/// covers both its size and its alignment.
pub proof fn law_block_covers_request(size: usize, align: usize)
    ensures
        block_size(size, align) >= size,
        block_size(size, align) >= align,
        block_size(size, align) >= 8,
        is_power_of_two(block_size(size, align) as int),
{
    let m = request_size(size, align);
    let e = ceil_log2(m);
    assert(exists|k: nat| pow2(k) >= m && forall|j: nat| j < k ==> #[trigger] pow2(j) < m) by {
        lemma_pow2_at_least(m);
    }
    assert(pow2(e) >= m);
    lemma2_to64();
    lemma_pow2_le(e, class_exponent(size, align));
    lemma_pow2_le(3, class_exponent(size, align));
    assert(pow2(class_exponent(size, align)) == block_size(size, align) as int);
}

/// A fitting request's block is below twice the request (or is 8 bytes), so
/// it fits a `usize`.
proof fn lemma_block_size_fits(size: usize, align: usize)
    requires
        fits_class(size, align),
    ensures
        block_size(size, align) <= usize::MAX,
        block_size(size, align) >= 8,
{
    let m = request_size(size, align);
    let e = ceil_log2(m);
    lemma_pow2_at_least(m);
    lemma2_to64();
    lemma_usize_pow2_bounds();
    lemma_pow2_le(3, class_exponent(size, align));
    if e >= 3 {
        vstd::arithmetic::power2::lemma_pow2_unfold(e);
        assert(pow2((e - 1) as nat) < m);
    }
}

/// Some power of two is at least `m`, with all smaller ones below it.
proof fn lemma_pow2_at_least(m: nat)
    ensures
        exists|k: nat| pow2(k) >= m && forall|j: nat| j < k ==> #[trigger] pow2(j) < m,
    decreases m,
{
    lemma2_to64();
    if m <= 1 {
        assert(pow2(0) >= m && forall|j: nat| j < 0 ==> #[trigger] pow2(j) < m);
    } else {
        let h = ((m + 1) / 2) as nat;
        lemma_pow2_at_least(h);
        let k = choose|k: nat| pow2(k) >= h && forall|j: nat| j < k ==> #[trigger] pow2(j) < h;
        vstd::arithmetic::power2::lemma_pow2_unfold(k + 1);
        assert forall|j: nat| j < k + 1 implies #[trigger] pow2(j) < m by {
            if j > 0 {
                vstd::arithmetic::power2::lemma_pow2_unfold(j);
                assert(pow2((j - 1) as nat) < h);
            }
        }
        assert(pow2(k + 1) >= m);
    }
}

/// A block taken from the bump cursor is aligned as requested, lies at or
/// above the cursor, ends within the region, and the cursor moves past it.
pub proof fn law_bump_block_in_region(v: AllocatorView, size: usize, align: usize)
    requires
        v.inv(),
        v.can_alloc(size, align),
        size <= v.total_size,
        !v.reusable(bin_index(size, align) as int, align),
        v.alloc_spec(size, align).0 != v,
    ensures
        ({
            let (w, r) = v.alloc_spec(size, align);
            &&& r % align == 0
            &&& v.relative_start <= r
            &&& w.relative_start == r + block_size(size, align)
            &&& block_size(size, align) <= v.global_end ==> r + block_size(size, align) <= v.global_end
            &&& w.bins == v.bins
        }),
{
    let k = choose|k: nat| #[trigger] pow2(k) == align as int;
    vstd::arithmetic::power2::lemma_pow2_pos(k);
    lemma_block_size_fits(size, align);
    let a = align as int;
    let x = v.relative_start as int;
    vstd::arithmetic::div_mod::lemma_fundamental_div_mod(x, a);
    let q = x / a;
    if x % a != 0 {
        assert(align_up_spec(x, a) == a * (q + 1)) by (nonlinear_arith)
            requires
                x == a * q + x % a,
                align_up_spec(x, a) == x + (a - x % a),
        ;
        vstd::arithmetic::div_mod::lemma_mod_multiples_basic(q + 1, a);
        assert((a * (q + 1)) % a == 0) by (nonlinear_arith)
            requires
                ((q + 1) * a) % a == 0,
        ;
    }
}

/// Two blocks taken one after the other from the bump cursor do not
/// overlap: the second starts at or after the end of the first.
pub proof fn law_successive_bump_blocks_disjoint(
    v: AllocatorView,
    size1: usize,
    align1: usize,
    size2: usize,
    align2: usize,
)
    requires
        v.inv(),
        v.can_alloc(size1, align1),
        size1 <= v.total_size,
        !v.reusable(bin_index(size1, align1) as int, align1),
        v.alloc_spec(size1, align1).0 != v,
        v.alloc_spec(size1, align1).0.can_alloc(size2, align2),
        size2 <= v.total_size,
        !v.alloc_spec(size1, align1).0.reusable(bin_index(size2, align2) as int, align2),
        v.alloc_spec(size1, align1).0.alloc_spec(size2, align2).0 != v.alloc_spec(size1, align1).0,
    ensures
        v.alloc_spec(size1, align1).1 + block_size(size1, align1) <= v.alloc_spec(size1, align1).0.alloc_spec(
            size2,
            align2,
        ).1,
{
    let w = v.alloc_spec(size1, align1).0;
    law_bump_block_in_region(v, size1, align1);
    law_bump_block_in_region(w, size2, align2);
}

/// Every address `allocate` returns is aligned to the request's alignment:
/// a reused block is handed out only when it is, a block from the cursor is
/// aligned up, and a failure returns `0`.
pub proof fn law_allocation_aligned(v: AllocatorView, size: usize, align: usize)
    requires
        v.inv(),
        v.can_alloc(size, align),
    ensures
        v.alloc_spec(size, align).1 % align == 0,
{
    let k = choose|k: nat| #[trigger] pow2(k) == align as int;
    vstd::arithmetic::power2::lemma_pow2_pos(k);
    vstd::arithmetic::div_mod::lemma_small_mod(0, align as nat);
    if size <= v.total_size && !v.reusable(bin_index(size, align) as int, align) {
        let start = align_up_spec(v.relative_start as int, align as int);
        if v.bump_limit(block_size(size, align)) >= start {
            lemma_block_size_fits(size, align);
            vstd::arithmetic::div_mod::lemma_mod_pos_bound(v.relative_start as int, align as int);
            assert(v.alloc_spec(size, align).0.relative_start != v.relative_start);
            law_bump_block_in_region(v, size, align);
        }
    }
}

/// The block size of a request is the block length of its bin.
proof fn lemma_bin_block_length(size: usize, align: usize)
    ensures
        pow2((bin_index(size, align) + 3) as nat) == block_size(size, align),
{
}

/// Allocation keeps the allocator's blocks apart from the blocks handed out
/// and not yet freed: a non-null result is a block of the request's block
/// size lying whole inside the region and overlapping none of them, and
/// from then on it counts among them.
pub proof fn law_allocation_keeps_blocks_apart(
    v: AllocatorView,
    live: Seq<(int, int)>,
    size: usize,
    align: usize,
)
    requires
        v.inv(),
        v.can_alloc(size, align),
        v.holds_apart(live),
    ensures
        ({
            let (w, r) = v.alloc_spec(size, align);
            &&& r != 0 ==> {
                &&& v.global_start <= r
                &&& r + block_size(size, align) <= v.global_end
                &&& forall|k: int| 0 <= k < live.len() ==> blocks_apart(
                    (r as int, block_size(size, align) as int),
                    #[trigger] live[k],
                )
                &&& w.holds_apart(live.push((r as int, block_size(size, align) as int)))
            }
            &&& r == 0 ==> w.holds_apart(live)
        }),
{
    if size <= v.total_size {
        if v.reusable(bin_index(size, align) as int, align) {
            lemma_reuse_keeps_blocks_apart(v, live, size, align);
        } else {
            lemma_bump_keeps_blocks_apart(v, live, size, align);
        }
    }
}

/// Reusing a freed block keeps the blocks apart.
proof fn lemma_reuse_keeps_blocks_apart(
    v: AllocatorView,
    live: Seq<(int, int)>,
    size: usize,
    align: usize,
)
    requires
        v.inv(),
        v.can_alloc(size, align),
        v.holds_apart(live),
        size <= v.total_size,
        v.reusable(bin_index(size, align) as int, align),
    ensures
        ({
            let (w, r) = v.alloc_spec(size, align);
            &&& r != 0 ==> {
                &&& v.global_start <= r
                &&& r + block_size(size, align) <= v.global_end
                &&& forall|k: int| 0 <= k < live.len() ==> blocks_apart(
                    (r as int, block_size(size, align) as int),
                    #[trigger] live[k],
                )
                &&& w.holds_apart(live.push((r as int, block_size(size, align) as int)))
            }
            &&& r == 0 ==> w.holds_apart(live)
        }),
{
    let b = bin_index(size, align) as int;
    let n = block_size(size, align) as int;
    lemma_bin_block_length(size, align);
    let (w, r) = v.alloc_spec(size, align);
    let m = v.bins[b].len() - 1;
    assert(v.is_bin_block(b, m));
    let x = v.bin_block(b, m);
    assert(x == (r as int, n));
    assert forall|c: int, j: int| #[trigger] w.is_bin_block(c, j) implies v.is_bin_block(c, j)
        && !(c == b && j == m) && w.bin_block(c, j) == v.bin_block(c, j) by {
        if c == b {
            assert(w.bins[c] == v.bins[b].drop_last());
        }
    }
    let live2 = if r != 0 { live.push(x) } else { live };
    assert forall|k: int| 0 <= k < live2.len() implies w.within(#[trigger] live2[k]) by {
        if k < live.len() {
            assert(live2[k] == live[k]);
        }
    }
    assert forall|c: int, j: int, k: int|
        #[trigger] w.is_bin_block(c, j) && 0 <= k < live2.len() implies blocks_apart(
        w.bin_block(c, j),
        #[trigger] live2[k],
    ) by {
        if k < live.len() {
            assert(live2[k] == live[k]);
        } else {
            assert(v.is_bin_block(c, j) && v.is_bin_block(b, m));
        }
    }
    assert forall|k: int, l: int|
        0 <= k < live2.len() && 0 <= l < live2.len() && k != l implies blocks_apart(
        #[trigger] live2[k],
        #[trigger] live2[l],
    ) by {
        if k < live.len() && l < live.len() {
            assert(live2[k] == live[k] && live2[l] == live[l]);
        } else if k < live.len() {
            assert(live2[k] == live[k]);
            assert(blocks_apart(v.bin_block(b, m), live[k]));
        } else {
            assert(live2[l] == live[l]);
            assert(blocks_apart(v.bin_block(b, m), live[l]));
        }
    }
    assert forall|k: int| 0 <= k < live.len() implies blocks_apart(
        (r as int, n),
        #[trigger] live[k],
    ) by {
        assert(blocks_apart(v.bin_block(b, m), live[k]));
    }
    assert(w.holds_apart(live2));
}

/// Taking a block from the cursor keeps the blocks apart.
#[verifier::rlimit(50)]
proof fn lemma_bump_keeps_blocks_apart(
    v: AllocatorView,
    live: Seq<(int, int)>,
    size: usize,
    align: usize,
)
    requires
        v.inv(),
        v.can_alloc(size, align),
        v.holds_apart(live),
        size <= v.total_size,
        !v.reusable(bin_index(size, align) as int, align),
    ensures
        ({
            let (w, r) = v.alloc_spec(size, align);
            &&& r != 0 ==> {
                &&& v.global_start <= r
                &&& r + block_size(size, align) <= v.global_end
                &&& forall|k: int| 0 <= k < live.len() ==> blocks_apart(
                    (r as int, block_size(size, align) as int),
                    #[trigger] live[k],
                )
                &&& w.holds_apart(live.push((r as int, block_size(size, align) as int)))
            }
            &&& r == 0 ==> w.holds_apart(live)
        }),
{
    let b = bin_index(size, align) as int;
    let n = block_size(size, align) as int;
    lemma_bin_block_length(size, align);
    let (w, r) = v.alloc_spec(size, align);
    let start = align_up_spec(v.relative_start as int, align as int);
    if v.bump_limit(n as nat) >= start {
        let k0 = choose|k: nat| #[trigger] pow2(k) == align as int;
        vstd::arithmetic::power2::lemma_pow2_pos(k0);
        vstd::arithmetic::div_mod::lemma_mod_pos_bound(v.relative_start as int, align as int);
        lemma_block_size_fits(size, align);
        assert(r == start && w.relative_start == start + n);
        assert(start >= v.relative_start);
        assert(w.bins == v.bins);
        assert forall|c: int, j: int| #[trigger] w.is_bin_block(c, j) implies v.is_bin_block(c, j)
            && w.bin_block(c, j) == v.bin_block(c, j) by {}
        let x = (start, n);
        let live2 = if r != 0 { live.push(x) } else { live };
        if r != 0 {
            assert(v.global_end >= n);
        }
        assert forall|k: int| 0 <= k < live2.len() implies w.within(#[trigger] live2[k]) by {
            if k < live.len() {
                assert(live2[k] == live[k]);
                assert(v.within(live[k]));
            }
        }
        assert forall|c: int, j: int, k: int|
            #[trigger] w.is_bin_block(c, j) && 0 <= k < live2.len() implies blocks_apart(
            w.bin_block(c, j),
            #[trigger] live2[k],
        ) by {
            assert(v.within(v.bin_block(c, j)));
            if k < live.len() {
                assert(live2[k] == live[k]);
            }
        }
        assert forall|k: int, l: int|
            0 <= k < live2.len() && 0 <= l < live2.len() && k != l implies blocks_apart(
            #[trigger] live2[k],
            #[trigger] live2[l],
        ) by {
            if k < live.len() {
                assert(live2[k] == live[k]);
                assert(v.within(live[k]));
            }
            if l < live.len() {
                assert(live2[l] == live[l]);
                assert(v.within(live[l]));
            }
        }
        assert forall|k: int| 0 <= k < live.len() implies blocks_apart(
            (r as int, n),
            #[trigger] live[k],
        ) by {
            assert(v.within(live[k]));
        }
        assert forall|c: int, j: int| #[trigger] w.is_bin_block(c, j) implies w.within(
            w.bin_block(c, j),
        ) by {
            assert(v.within(v.bin_block(c, j)));
        }
        assert(w.holds_apart(live2));
    }
}

/// Freeing a block handed out for the same layout returns it to its bin and
/// keeps the allocator's blocks apart from the blocks still handed out.
pub proof fn law_deallocation_keeps_blocks_apart(
    v: AllocatorView,
    live: Seq<(int, int)>,
    k: int,
    size: usize,
    align: usize,
)
    requires
        v.inv(),
        v.holds_apart(live),
        fits_class(size, align),
        0 <= k < live.len(),
        0 <= live[k].0 <= usize::MAX,
        live[k].1 == block_size(size, align),
    ensures
        v.dealloc_spec(live[k].0 as usize, size, align).holds_apart(live.remove(k)),
{
    let b = bin_index(size, align) as int;
    let ptr = live[k].0 as usize;
    lemma_bin_block_length(size, align);
    let w = v.dealloc_spec(ptr, size, align);
    let live2 = live.remove(k);
    let m = v.bins[b].len() as int;
    assert(w.bins[b] == v.bins[b].push(ptr));
    assert forall|c: int, j: int| #[trigger] w.is_bin_block(c, j) implies (v.is_bin_block(c, j)
        && w.bin_block(c, j) == v.bin_block(c, j)) || (c == b && j == m && w.bin_block(c, j)
        == live[k]) by {
        if c == b && j < m {
            assert(w.bins[c][j] == v.bins[b][j]);
        }
    }
    assert forall|l: int| 0 <= l < live2.len() implies #[trigger] live2[l] == live[if l < k {
        l
    } else {
        l + 1
    }] by {}
    assert forall|c: int, j: int| #[trigger] w.is_bin_block(c, j) implies w.within(w.bin_block(c, j)) by {
        if !(c == b && j == m) {
            assert(v.within(v.bin_block(c, j)));
        }
    }
    assert forall|l: int| 0 <= l < live2.len() implies w.within(#[trigger] live2[l]) by {
        let l0 = if l < k { l } else { l + 1 };
        assert(live2[l] == live[l0]);
        assert(v.within(live[l0]));
    }
    assert forall|c: int, j: int, d: int, i: int|
        #[trigger] w.is_bin_block(c, j) && #[trigger] w.is_bin_block(d, i) && (c != d || j != i)
            implies blocks_apart(w.bin_block(c, j), w.bin_block(d, i)) by {
        if c == b && j == m {
            assert(blocks_apart(v.bin_block(d, i), live[k]));
        } else if d == b && i == m {
            assert(blocks_apart(v.bin_block(c, j), live[k]));
        } else {
            assert(v.is_bin_block(c, j) && v.is_bin_block(d, i));
        }
    }
    assert forall|c: int, j: int, l: int|
        #[trigger] w.is_bin_block(c, j) && 0 <= l < live2.len() implies blocks_apart(
        w.bin_block(c, j),
        #[trigger] live2[l],
    ) by {
        let l0 = if l < k { l } else { l + 1 };
        assert(live2[l] == live[l0]);
        if c == b && j == m {
            assert(blocks_apart(live[k], live[l0]));
        } else {
            assert(v.is_bin_block(c, j));
            assert(blocks_apart(v.bin_block(c, j), live[l0]));
        }
    }
    assert forall|l: int, q: int|
        0 <= l < live2.len() && 0 <= q < live2.len() && l != q implies blocks_apart(
        #[trigger] live2[l],
        #[trigger] live2[q],
    ) by {
        let l0 = if l < k { l } else { l + 1 };
        let q0 = if q < k { q } else { q + 1 };
        assert(live2[l] == live[l0] && live2[q] == live[q0]);
    }
}

/// The first allocation of a fresh allocator is the region's start
/// aligned up to the request's alignment, whenever its block fits before the
/// region's end.
pub proof fn law_first_allocation(v: AllocatorView, size: usize, align: usize)
    requires
        v.inv(),
        v.can_alloc(size, align),
        forall|i: int| 0 <= i < NUM_BINS ==> #[trigger] v.bins[i].len() == 0,
        v.relative_start == v.global_start,
        size <= v.total_size,
        align_up_spec(v.global_start as int, align as int) + block_size(size, align) <= v.global_end,
    ensures
        v.alloc_spec(size, align).1 == align_up_spec(v.global_start as int, align as int),
        v.alloc_spec(size, align).0.relative_start == align_up_spec(v.global_start as int, align as int)
            + block_size(size, align),
{
    let b = bin_index(size, align) as int;
    lemma_block_size_fits(size, align);
    assert(v.bins[b].len() == 0);
    assert(!v.reusable(b, align));
    let k = choose|k: nat| #[trigger] pow2(k) == align as int;
    vstd::arithmetic::power2::lemma_pow2_pos(k);
    vstd::arithmetic::div_mod::lemma_mod_pos_bound(v.global_start as int, align as int);
    let start = align_up_spec(v.relative_start as int, align as int);
    assert(start >= 0);
    assert(v.bump_limit(block_size(size, align)) >= start);
}

/// The bump cursor never moves backwards: neither allocation nor
/// deallocation lowers it.
pub proof fn law_cursor_monotonic(v: AllocatorView, ptr: usize, size: usize, align: usize)
    requires
        v.inv(),
        v.can_alloc(size, align),
    ensures
        v.alloc_spec(size, align).0.relative_start >= v.relative_start,
        v.dealloc_spec(ptr, size, align).relative_start == v.relative_start,
{
    let x = v.relative_start as int;
    let a = align as int;
    let k = choose|k: nat| #[trigger] pow2(k) == align as int;
    vstd::arithmetic::power2::lemma_pow2_pos(k);
    vstd::arithmetic::div_mod::lemma_mod_pos_bound(x, a);
    if size <= v.total_size {
        lemma_block_size_fits(size, align);
    }
}

/// `map_to_bin` of a request's covering size names the bin that
/// `allocate` and `deallocate` use for it, unless the request fits the
/// smallest bin.
pub proof fn law_map_to_bin_matches_allocation(size: usize, align: usize)
    ensures
        (if ceil_log2(request_size(size, align)) <= 3 {
            0
        } else {
            ceil_log2(request_size(size, align)) - 3
        }) == bin_index(size, align),
{
}

} // verus!
