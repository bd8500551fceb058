//! Page sizes, alignment predicates, and the arithmetic facts about them
//! that the frame allocators and the mapping planner rely on.

use vstd::prelude::*;
use vstd::arithmetic::div_mod::lemma_fundamental_div_mod;
use vstd::arithmetic::div_mod::lemma_mod_multiples_basic;
use vstd::arithmetic::div_mod::lemma_small_mod;

verus! {

/// Size in bytes of the smallest mappable page (4 KiB).
pub const PAGE_SIZE: u64 = 0x1000;

/// Size in bytes of a large page (2 MiB).
pub const LARGE_PAGE_SIZE: u64 = 0x20_0000;

/// Size in bytes of a huge page (1 GiB).
pub const HUGE_PAGE_SIZE: u64 = 0x4000_0000;

/// The size classes a physical frame can have.  A frame's identity is its
/// start address alone; the class fixes its byte size and alignment.
#[derive(Clone, Copy, PartialEq, Eq, Structural, Debug)]
pub enum FrameSize {
    Size4KiB,
    Size2MiB,
    Size1GiB,
}

impl FrameSize {
    /// Byte size of this size class.
    pub open spec fn spec_bytes(self) -> u64 {
        match self {
            FrameSize::Size4KiB => PAGE_SIZE,
            FrameSize::Size2MiB => LARGE_PAGE_SIZE,
            FrameSize::Size1GiB => HUGE_PAGE_SIZE,
        }
    }

    /// Byte size of this size class.
    #[verifier::when_used_as_spec(spec_bytes)]
    pub fn bytes(self) -> (r: u64)
        ensures
            r == self.spec_bytes(),
    {
        match self {
            FrameSize::Size4KiB => PAGE_SIZE,
            FrameSize::Size2MiB => LARGE_PAGE_SIZE,
            FrameSize::Size1GiB => HUGE_PAGE_SIZE,
        }
    }

    /// Every size class is a positive multiple of the smallest page size.
    pub proof fn bytes_facts(self)
        ensures
            self.spec_bytes() > 0,
            is_aligned(self.spec_bytes() as int, PAGE_SIZE as int),
            PAGE_SIZE <= self.spec_bytes(),
    {
        reveal(is_aligned);
    }
}

/// An address is aligned to `m` when it is an exact multiple of `m`.
/// The definition is kept opaque: alignment facts travel through the
/// lemmas below, which keeps divisibility reasoning out of every caller.
#[verifier::opaque]
pub open spec fn is_aligned(addr: int, m: int) -> bool {
    addr % m == 0
}

/// Zero is aligned to anything positive.
pub proof fn lemma_zero_aligned(m: int)
    requires
        m > 0,
    ensures
        is_aligned(0, m),
{
    reveal(is_aligned);
    lemma_small_mod(0, m as nat);
}

/// Any whole multiple of `m` is aligned to `m`.
pub proof fn lemma_multiple_aligned(k: int, m: int)
    requires
        m > 0,
    ensures
        is_aligned(k * m, m),
{
    reveal(is_aligned);
    lemma_mod_multiples_basic(k, m);
}

/// Every positive quantity is aligned to itself.
pub proof fn lemma_self_aligned(m: int)
    requires
        m > 0,
    ensures
        is_aligned(m, m),
{
    reveal(is_aligned);
    lemma_small_mod(0, m as nat);
    vstd::arithmetic::div_mod::lemma_mod_self_0(m);
}

/// Runtime alignment test, tied to the spec-level predicate.
pub fn check_aligned(addr: u64, m: u64) -> (r: bool)
    requires
        m > 0,
    ensures
        r == is_aligned(addr as int, m as int),
{
    proof {
        reveal(is_aligned);
    }
    addr % m == 0
}

/// Smallest `m`-aligned address at or above `a`.
pub open spec fn align_up(a: int, m: int) -> int {
    if a % m == 0 {
        a
    } else {
        a + m - a % m
    }
}

/// `align_up` lands on an aligned address within less than `m` of `a`.
pub proof fn lemma_align_up(a: int, m: int)
    requires
        m > 0,
        a >= 0,
    ensures
        is_aligned(align_up(a, m), m),
        a <= align_up(a, m) < a + m,
{
    reveal(is_aligned);
    vstd::arithmetic::div_mod::lemma_mod_bound(a, m);
    if a % m != 0 {
        lemma_fundamental_div_mod(a, m);
        let q = a / m;
        assert(a + m - a % m == (q + 1) * m) by (nonlinear_arith)
            requires
                a == m * q + a % m,
        {
        }
        lemma_mod_multiples_basic(q + 1, m);
    }
}

/// No aligned address fits strictly between `a` and `align_up(a, m)`.
pub proof fn lemma_align_up_least(a: int, b: int, m: int)
    requires
        m > 0,
        a >= 0,
        a <= b,
        is_aligned(b, m),
    ensures
        align_up(a, m) <= b,
{
    reveal(is_aligned);
    lemma_align_up(a, m);
    if b < align_up(a, m) {
        lemma_aligned_gap(b, align_up(a, m), m);
    }
}

/// Two distinct addresses aligned to `m` lie at least `m` apart.
pub proof fn lemma_aligned_gap(a: int, b: int, m: int)
    requires
        m > 0,
        is_aligned(a, m),
        is_aligned(b, m),
        a < b,
    ensures
        a + m <= b,
{
    reveal(is_aligned);
    lemma_fundamental_div_mod(a, m);
    lemma_fundamental_div_mod(b, m);
    let qa = a / m;
    let qb = b / m;
    assert(a + m <= b) by (nonlinear_arith)
        requires
            m > 0,
            a == m * qa,
            b == m * qb,
            a < b,
    {
    }
}

/// The sum of two `m`-aligned quantities is `m`-aligned.
pub proof fn lemma_aligned_add(a: int, b: int, m: int)
    requires
        m > 0,
        is_aligned(a, m),
        is_aligned(b, m),
    ensures
        is_aligned(a + b, m),
{
    reveal(is_aligned);
    vstd::arithmetic::div_mod::lemma_add_mod_noop(a, b, m);
    lemma_small_mod(0, m as nat);
}

/// The difference of two `m`-aligned quantities is `m`-aligned.
pub proof fn lemma_aligned_sub(a: int, b: int, m: int)
    requires
        m > 0,
        is_aligned(a, m),
        is_aligned(b, m),
    ensures
        is_aligned(a - b, m),
{
    reveal(is_aligned);
    vstd::arithmetic::div_mod::lemma_sub_mod_noop(a, b, m);
    lemma_small_mod(0, m as nat);
}

/// Alignment to a multiple of `m` implies alignment to `m` itself.
pub proof fn lemma_aligned_coarser(a: int, m: int, c: int)
    requires
        m > 0,
        c > 0,
        is_aligned(c, m),
        is_aligned(a, c),
    ensures
        is_aligned(a, m),
{
    reveal(is_aligned);
    lemma_fundamental_div_mod(a, c);
    lemma_fundamental_div_mod(c, m);
    let q = a / c;
    let k = c / m;
    assert(a == (k * q) * m) by (nonlinear_arith)
        requires
            a == c * q,
            c == m * k,
    {
    }
    lemma_mod_multiples_basic(k * q, m);
}

} // verus!
