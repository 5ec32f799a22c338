//! Fast division by a divisor known only at run time: a multiplier is
//! derived from the divisor once, and each quotient, remainder or
//! divisibility test then costs a few multiplications and shifts.
use vstd::prelude::*;

pub mod magic;
pub mod track32;
pub mod track64;
pub mod laws;

use magic::{lemma_magic_bounds, lemma_magic_injective, magic};
use track32::{compute_m_u32, fastdiv_u32, fastmod_u32, half32, is_divisible_u32, wide32};
use track64::{compute_m_u64, fastdiv_u64, fastmod_u64, half64, is_divisible_u64, wide64};

verus! {

/// Allows precomputing the division factor for fast division, modulo, and
/// divisibility checks.
pub trait FastDiv: Copy + Sized {
    type PrecomputedDiv: Copy;

    /// The number that `self` stands for.
    spec fn value(self) -> int;

    /// The divisor that the factor `p` was computed from.
    spec fn divisor(p: Self::PrecomputedDiv) -> int;

    /// Precompute the division factor from the divisor `self`, which must
    /// be greater than 1.
    fn precompute_div(self) -> (p: Self::PrecomputedDiv)
        requires
            1 < self.value(),
        ensures
            Self::divisor(p) == self.value(),
    ;

    /// Divide by the divisor, given the precomputed division factor.
    fn fast_div(self, precomputed: Self::PrecomputedDiv) -> (q: Self)
        ensures
            1 < Self::divisor(precomputed),
            q.value() == self.value() / Self::divisor(precomputed),
    ;

    /// Compute the remainder of the division of `self` by the divisor, given
    /// the precomputed division factor and the divisor `d`. If the factor
    /// does not come from `d`, the result is unspecified.
    fn fast_mod(self, precomputed: Self::PrecomputedDiv, d: Self) -> (r: Self)
        ensures
            d.value() == Self::divisor(precomputed) ==> r.value() == self.value() % d.value(),
    ;

    /// Check if `self` is a multiple of the divisor, given the precomputed
    /// division factor.
    fn is_multiple_of(self, precomputed: Self::PrecomputedDiv) -> (b: bool)
        ensures
            b == (self.value() % Self::divisor(precomputed) == 0),
    ;
}

/// The division factor of a `u32` divisor: 2^64 / d rounded up.
#[derive(Clone, Copy, PartialEq, Eq, Structural)]
pub struct PrecomputedDivU32 {
    m: u64,
}

/// The division factor of a `u64` divisor: 2^128 / d rounded up.
#[derive(Clone, Copy, PartialEq, Eq, Structural)]
pub struct PrecomputedDivU64 {
    m: u128,
}

impl PrecomputedDivU32 {
    /// The factor holds the multiplier of some divisor in range.
    #[verifier::type_invariant]
    pub closed spec fn wf(self) -> bool {
        exists|d: int| 1 < d < half32() && self.m == magic(wide32(), d)
    }

    /// The divisor in `2..2^32` whose factor this is.
    pub closed spec fn divisor(self) -> int {
        choose|d: int| 1 < d < half32() && self.m == magic(wide32(), d)
    }

    /// The factor is determined by its divisor: two well-formed factors
    /// with the same divisor are the same value.
    pub proof fn lemma_determined_by_divisor(self, other: Self)
        requires
            self.wf(),
            other.wf(),
            self.divisor() == other.divisor(),
        ensures
            self == other,
    {
    }
}

impl FastDiv for u32 {
    type PrecomputedDiv = PrecomputedDivU32;

    open spec fn value(self) -> int {
        self as int
    }

    open spec fn divisor(p: PrecomputedDivU32) -> int {
        p.divisor()
    }

    fn precompute_div(self) -> (p: PrecomputedDivU32) {
        let m = compute_m_u32(self);
        let p = PrecomputedDivU32 { m };
        proof {
            assert(1 < self < half32() && p.m == magic(wide32(), self as int));
            lemma_magic_injective(wide32(), half32(), self as int, p.divisor());
        }
        p
    }

    fn fast_div(self, precomputed: PrecomputedDivU32) -> (q: u32) {
        proof {
            use_type_invariant(precomputed);
        }
        fastdiv_u32(self, precomputed.m)
    }

    fn fast_mod(self, precomputed: PrecomputedDivU32, d: u32) -> (r: u32) {
        proof {
            use_type_invariant(precomputed);
        }
        fastmod_u32(self, precomputed.m, d)
    }

    fn is_multiple_of(self, precomputed: PrecomputedDivU32) -> (b: bool) {
        proof {
            use_type_invariant(precomputed);
            lemma_magic_bounds(wide32(), precomputed.divisor());
        }
        is_divisible_u32(self, precomputed.m)
    }
}

impl PrecomputedDivU64 {
    /// The factor holds the multiplier of some divisor in range.
    #[verifier::type_invariant]
    pub closed spec fn wf(self) -> bool {
        exists|d: int| 1 < d < half64() && self.m == magic(wide64(), d)
    }

    /// The divisor in `2..2^64` whose factor this is.
    pub closed spec fn divisor(self) -> int {
        choose|d: int| 1 < d < half64() && self.m == magic(wide64(), d)
    }

    /// The factor is determined by its divisor: two well-formed factors
    /// with the same divisor are the same value.
    pub proof fn lemma_determined_by_divisor(self, other: Self)
        requires
            self.wf(),
            other.wf(),
            self.divisor() == other.divisor(),
        ensures
            self == other,
    {
    }
}

impl FastDiv for u64 {
    type PrecomputedDiv = PrecomputedDivU64;

    open spec fn value(self) -> int {
        self as int
    }

    open spec fn divisor(p: PrecomputedDivU64) -> int {
        p.divisor()
    }

    fn precompute_div(self) -> (p: PrecomputedDivU64) {
        let m = compute_m_u64(self);
        let p = PrecomputedDivU64 { m };
        proof {
            assert(1 < self < half64() && p.m == magic(wide64(), self as int));
            lemma_magic_injective(wide64(), half64(), self as int, p.divisor());
        }
        p
    }

    fn fast_div(self, precomputed: PrecomputedDivU64) -> (q: u64) {
        proof {
            use_type_invariant(precomputed);
        }
        fastdiv_u64(self, precomputed.m)
    }

    fn fast_mod(self, precomputed: PrecomputedDivU64, d: u64) -> (r: u64) {
        proof {
            use_type_invariant(precomputed);
        }
        fastmod_u64(self, precomputed.m, d)
    }

    fn is_multiple_of(self, precomputed: PrecomputedDivU64) -> (b: bool) {
        proof {
            use_type_invariant(precomputed);
            lemma_magic_bounds(wide64(), precomputed.divisor());
        }
        is_divisible_u64(self, precomputed.m)
    }
}

} // verus!
