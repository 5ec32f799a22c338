//! The 32-bit track: a `u32` divisor, a 64-bit multiplier, and products
//! formed in `u128`.
use crate::magic::{lemma_magic_bounds, lemma_magic_quotient, magic, mul_high};
use vstd::prelude::*;

verus! {

/// 2^64, the double width of the 32-bit track.
pub open spec fn wide32() -> int {
    0x1_0000_0000_0000_0000
}

/// 2^32, the bound of a `u32` operand.
pub open spec fn half32() -> int {
    0x1_0000_0000
}

/// Upper 64 bits of the 128-bit product `lowbits * d`.
pub fn mul128_u32(lowbits: u64, d: u32) -> (r: u64)
    ensures
        r == mul_high(wide32(), lowbits as int, d as int),
{
    assert(lowbits as int * d as int <= 0xFFFF_FFFF_FFFF_FFFF * 0xFFFF_FFFF) by (nonlinear_arith);
    let p: u128 = lowbits as u128 * d as u128;
    assert(p >> 64 == p / 0x1_0000_0000_0000_0000) by (bit_vector);
    (p >> 64) as u64
}

/// The multiplier for divisor `d`: 2^64 / d rounded up.
pub fn compute_m_u32(d: u32) -> (m: u64)
    requires
        1 < d,
    ensures
        m == magic(wide32(), d as int),
{
    proof {
        lemma_magic_bounds(wide32(), d as int);
    }
    (0xFFFF_FFFF_FFFF_FFFFu64 / d as u64) + 1
}

/// Remainder of `a` by `d` from the multiplier `m`: the upper half of the
/// low half of `m * a` times `d`. It is `a % d` when `m` belongs to `d`.
pub fn fastmod_u32(a: u32, m: u64, d: u32) -> (r: u32)
    ensures
        r == mul_high(wide32(), (m as int * a as int) % wide32(), d as int),
        1 < d && m == magic(wide32(), d as int) ==> r == a % d,
{
    let lowbits = m.wrapping_mul(a as u64);
    let r = mul128_u32(lowbits, d);
    assert(r < half32()) by (nonlinear_arith)
        requires
            r == (lowbits as int * d as int) / wide32(),
            lowbits < wide32(),
            d < half32(),
    ;
    proof {
        if 1 < d && m == magic(wide32(), d as int) {
            lemma_magic_quotient(wide32(), half32(), d as int, a as int);
        }
    }
    r as u32
}

/// Quotient of `a` from the multiplier `m`: the upper half of `m * a`.
/// It is `a / d` when `m` belongs to `d`.
pub fn fastdiv_u32(a: u32, m: u64) -> (q: u32)
    ensures
        q == mul_high(wide32(), m as int, a as int),
        forall|d: int| 1 < d < half32() && m == magic(wide32(), d) ==> q == a as int / d,
{
    let q = mul128_u32(m, a);
    assert(q < half32()) by (nonlinear_arith)
        requires
            q == (m as int * a as int) / wide32(),
            m < wide32(),
            a < half32(),
    ;
    assert forall|d: int| 1 < d < half32() && m == magic(wide32(), d) implies q == a as int / d by {
        lemma_magic_quotient(wide32(), half32(), d, a as int);
    }
    q as u32
}

/// Whether the low half of `n * m` is at most `m - 1`; for the multiplier
/// of `d`, that is whether `d` divides `n`.
pub fn is_divisible_u32(n: u32, m: u64) -> (b: bool)
    requires
        0 < m,
    ensures
        b == ((n as int * m as int) % wide32() <= m - 1),
        forall|d: int| 1 < d < half32() && m == magic(wide32(), d) ==> b == (n as int % d == 0),
{
    let low = (n as u64).wrapping_mul(m);
    assert(n as int * m as int == m as int * n as int) by (nonlinear_arith);
    assert forall|d: int| 1 < d < half32() && m == magic(wide32(), d) implies (low <= m - 1) == (n as int
        % d == 0) by {
        lemma_magic_quotient(wide32(), half32(), d, n as int);
    }
    low <= m - 1
}

} // verus!
