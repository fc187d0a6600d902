//! Address alignment helpers.
use vstd::prelude::*;

verus! {

use vstd::arithmetic::power2::{pow2, lemma_pow2_strictly_increases, lemma_pow2_unfold, lemma2_to64, lemma2_to64_rest};

/// The exponent of the smallest power of two that is at least `m`
/// (`0` for `m <= 1`).
pub open spec fn ceil_log2(m: nat) -> nat {
    choose|k: nat| pow2(k) >= m && forall|j: nat| j < k ==> #[trigger] pow2(j) < m
}

/// The smallest power of two that is at least `m` (`1` for `m == 0`).
pub open spec fn next_power_of_two(m: nat) -> nat {
    pow2(ceil_log2(m))
}

/// The largest power of two that a `usize` can hold.
pub open spec fn max_usize_power_of_two() -> nat {
    pow2((usize::BITS - 1) as nat)
}

/// A power of two `pow2(k)` that is at least `m`, with every smaller power
/// below `m`, is the one `ceil_log2` names.
pub proof fn lemma_ceil_log2_unique(m: nat, k: nat)
    requires
        pow2(k) >= m,
        forall|j: nat| j < k ==> #[trigger] pow2(j) < m,
    ensures
        ceil_log2(m) == k,
{
    let c = ceil_log2(m);
    assert(pow2(c) >= m && forall|j: nat| j < c ==> #[trigger] pow2(j) < m);
    if c < k {
        assert(pow2(c) < m);
    } else if c > k {
        assert(pow2(k) < m);
    }
}

/// `pow2` is monotonic.
pub proof fn lemma_pow2_le(a: nat, b: nat)
    requires
        a <= b,
    ensures
        pow2(a) <= pow2(b),
{
    if a < b {
        lemma_pow2_strictly_increases(a, b);
    }
}

/// The bounds of `usize` in terms of powers of two.
pub proof fn lemma_usize_pow2_bounds()
    ensures
        max_usize_power_of_two() <= usize::MAX,
        2 * max_usize_power_of_two() == usize::MAX + 1,
        usize::BITS == 32 || usize::BITS == 64,
{
    lemma2_to64();
    lemma2_to64_rest();
}

/// `n` is a power of two: `2^k` for some natural `k`.
pub open spec fn is_power_of_two(n: int) -> bool {
    exists|k: nat| #[trigger] pow2(k) == n
}

/// The largest multiple of `align` that is at most `addr`.
pub open spec fn align_down_spec(addr: int, align: int) -> int {
    addr - addr % align
}

/// The smallest multiple of `align` that is at least `addr`.
pub open spec fn align_up_spec(addr: int, align: int) -> int {
    if addr % align == 0 {
        addr
    } else {
        addr + (align - addr % align)
    }
}

/// Aligning `addr` upwards to `align` stays within `usize`.
pub open spec fn align_up_fits(addr: usize, align: usize) -> bool {
    align_up_spec(addr as int, align as int) <= usize::MAX
}

/// Align `addr` downwards to the nearest multiple of `align`.
///
/// The returned value is always `<= addr`. `align` must be a power of two.
pub fn align_down(addr: usize, align: usize) -> (r: usize)
    requires
        is_power_of_two(align as int),
    ensures
        r == align_down_spec(addr as int, align as int),
        r <= addr,
        r % align == 0,
        addr - r < align,
{
    proof {
        let k = choose|k: nat| #[trigger] pow2(k) == align as int;
        vstd::arithmetic::power2::lemma_pow2_pos(k);
    }
    let rem = addr % align;
    proof {
        vstd::arithmetic::div_mod::lemma_mod_decreases(addr as nat, align as nat);
    }
    let r = addr - rem;
    proof {
        vstd::arithmetic::div_mod::lemma_fundamental_div_mod(addr as int, align as int);
        vstd::arithmetic::div_mod::lemma_mod_multiples_basic(addr as int / align as int, align as int);
        assert(r == align * (addr as int / align as int)) by (nonlinear_arith)
            requires
                addr == align * (addr as int / align as int) + rem,
                r == addr - rem,
        ;
        assert((align * (addr as int / align as int)) % (align as int) == 0) by (nonlinear_arith)
            requires
                ((addr as int / align as int) * align) % (align as int) == 0,
        ;
    }
    r
}

/// Align `addr` upwards to the nearest multiple of `align`.
///
/// The returned value is always `>= addr`. `align` must be a power of two
/// and the aligned address must not overflow.
pub fn align_up(addr: usize, align: usize) -> (r: usize)
    requires
        is_power_of_two(align as int),
        align_up_fits(addr, align),
    ensures
        r == align_up_spec(addr as int, align as int),
        r >= addr,
        r % align == 0,
        r - addr < align,
{
    proof {
        let k = choose|k: nat| #[trigger] pow2(k) == align as int;
        vstd::arithmetic::power2::lemma_pow2_pos(k);
    }
    let rem = addr % align;
    if rem == 0 {
        addr
    } else {
        let r = addr + (align - rem);
        proof {
            vstd::arithmetic::div_mod::lemma_fundamental_div_mod(addr as int, align as int);
            let q = addr as int / align as int;
            assert(r == align * (q + 1)) by (nonlinear_arith)
                requires
                    addr == align * q + rem,
                    r == addr + (align - rem),
            ;
            vstd::arithmetic::div_mod::lemma_mod_multiples_basic(q + 1, align as int);
            assert((align * (q + 1)) % (align as int) == 0) by (nonlinear_arith)
                requires
                    ((q + 1) * align) % (align as int) == 0,
            ;
        }
        r
    }
}

/// Returns the smallest power of two that is at least `m`, with its exponent.
pub fn next_power_of_two_exp(m: usize) -> (res: (usize, u32))
    requires
        m <= max_usize_power_of_two(),
    ensures
        res.0 == pow2(res.1 as nat),
        res.1 == ceil_log2(m as nat),
        res.0 == next_power_of_two(m as nat),
        res.0 >= m,
        res.1 < usize::BITS,
{
    proof {
        lemma_usize_pow2_bounds();
        lemma2_to64();
    }
    let mut p: usize = 1;
    let mut k: u32 = 0;
    while p < m
        invariant
            p == pow2(k as nat),
            k < usize::BITS,
            m <= max_usize_power_of_two(),
            max_usize_power_of_two() <= usize::MAX,
            2 * max_usize_power_of_two() == usize::MAX + 1,
            forall|j: nat| j < k ==> #[trigger] pow2(j) < m,
        decreases usize::BITS - k,
    {
        proof {
            if k >= usize::BITS - 1 {
                lemma_pow2_le((usize::BITS - 1) as nat, k as nat);
            }
            lemma_pow2_unfold((k + 1) as nat);
            lemma_pow2_le((k + 1) as nat, (usize::BITS - 1) as nat);
        }
        p = p * 2;
        k = k + 1;
    }
    proof {
        lemma_ceil_log2_unique(m as nat, k as nat);
    }
    (p, k)
}

} // verus!
