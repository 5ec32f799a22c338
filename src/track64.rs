//! The 64-bit track: a `u64` divisor and a 128-bit multiplier. Its
//! 256-bit products are formed from two 64-bit limbs of the left operand.
use crate::magic::{lemma_magic_bounds, lemma_magic_quotient, lemma_mul_high_split, magic, mul_high};
use vstd::prelude::*;

verus! {

/// 2^128, the double width of the 64-bit track.
pub open spec fn wide64() -> int {
    half64() * half64()
}

/// 2^64, the bound of a `u64` operand.
pub open spec fn half64() -> int {
    0x1_0000_0000_0000_0000
}

/// Upper 128 bits of the 256-bit product `lowbits * d`, taken as a `u64`
/// (it is below `d`). The low and high limbs of `lowbits` are multiplied
/// by `d` apart, and the carry of the low product is added to the high one.
pub fn mul128_u64(lowbits: u128, d: u64) -> (r: u64)
    ensures
        r == mul_high(wide64(), lowbits as int, d as int),
{
    let lo = lowbits & 0xFFFF_FFFF_FFFF_FFFF;
    let hi = lowbits >> 64;
    assert(lo == lowbits % 0x1_0000_0000_0000_0000 && hi == lowbits / 0x1_0000_0000_0000_0000)
        by (bit_vector)
        requires
            lo == lowbits & 0xFFFF_FFFF_FFFF_FFFF,
            hi == lowbits >> 64,
    ;
    assert(lo as int * d as int <= 0xFFFF_FFFF_FFFF_FFFF * 0xFFFF_FFFF_FFFF_FFFF) by (nonlinear_arith)
        requires
            lo < half64(),
    ;
    assert(hi as int * d as int <= 0xFFFF_FFFF_FFFF_FFFF * 0xFFFF_FFFF_FFFF_FFFF) by (nonlinear_arith)
        requires
            hi < half64(),
    ;
    let mut bottom_half = lo * d as u128;
    assert(bottom_half >> 64 == bottom_half / 0x1_0000_0000_0000_0000) by (bit_vector);
    bottom_half >>= 64;
    let top_half = hi * d as u128;
    let both_halves = bottom_half + top_half;
    assert(both_halves >> 64 == both_halves / 0x1_0000_0000_0000_0000) by (bit_vector);
    proof {
        lemma_fundamental_div_mod_u128(lowbits);
        lemma_mul_high_split(half64(), hi as int, lo as int, d as int);
        assert(mul_high(half64(), 1, both_halves as int) == both_halves as int / half64());
    }
    (both_halves >> 64) as u64
}

proof fn lemma_fundamental_div_mod_u128(x: u128)
    ensures
        x as int == (x as int / half64()) * half64() + x as int % half64(),
{
    vstd::arithmetic::div_mod::lemma_fundamental_div_mod(x as int, half64());
}

/// The multiplier for divisor `d`: 2^128 / d rounded up.
pub fn compute_m_u64(d: u64) -> (m: u128)
    requires
        1 < d,
    ensures
        m == magic(wide64(), d as int),
{
    proof {
        lemma_magic_bounds(wide64(), d as int);
    }
    (0xFFFF_FFFF_FFFF_FFFF_FFFF_FFFF_FFFF_FFFFu128 / d as u128) + 1
}

/// Remainder of `a` by `d` from the multiplier `m`: the upper half of the
/// low half of `m * a` times `d`. It is `a % d` when `m` belongs to `d`.
pub fn fastmod_u64(a: u64, m: u128, d: u64) -> (r: u64)
    ensures
        r == mul_high(wide64(), (m as int * a as int) % wide64(), d as int),
        1 < d && m == magic(wide64(), d as int) ==> r == a % d,
{
    let lowbits = m.wrapping_mul(a as u128);
    proof {
        if 1 < d && m == magic(wide64(), d as int) {
            lemma_magic_quotient(wide64(), half64(), d as int, a as int);
        }
    }
    mul128_u64(lowbits, d)
}

/// Quotient of `a` from the multiplier `m`: the upper half of `m * a`.
/// It is `a / d` when `m` belongs to `d`.
pub fn fastdiv_u64(a: u64, m: u128) -> (q: u64)
    ensures
        q == mul_high(wide64(), m as int, a as int),
        forall|d: int| 1 < d < half64() && m == magic(wide64(), d) ==> q == a as int / d,
{
    let q = mul128_u64(m, a);
    assert forall|d: int| 1 < d < half64() && m == magic(wide64(), d) implies q == a as int / d by {
        lemma_magic_quotient(wide64(), half64(), d, a as int);
    }
    q
}

/// Whether the low half of `n * m` is at most `m - 1`; for the multiplier
/// of `d`, that is whether `d` divides `n`.
pub fn is_divisible_u64(n: u64, m: u128) -> (b: bool)
    requires
        0 < m,
    ensures
        b == ((n as int * m as int) % wide64() <= m - 1),
        forall|d: int| 1 < d < half64() && m == magic(wide64(), d) ==> b == (n as int % d == 0),
{
    let low = (n as u128).wrapping_mul(m);
    assert(n as int * m as int == m as int * n as int) by (nonlinear_arith);
    assert forall|d: int| 1 < d < half64() && m == magic(wide64(), d) implies (low <= m - 1) == (
    n as int % d == 0) by {
        lemma_magic_quotient(wide64(), half64(), d, n as int);
    }
    low <= m - 1
}

} // verus!
