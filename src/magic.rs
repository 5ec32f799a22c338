//! The arithmetic behind a magic multiplier, stated once for any operand
//! bound `h` and double-width bound `w == h * h`.
use vstd::arithmetic::div_mod::{lemma_fundamental_div_mod, lemma_fundamental_div_mod_converse};
use vstd::prelude::*;

verus! {

/// The multiplier derived from divisor `d` at double width `w`:
/// `(w - 1) / d + 1`, which is `w / d` rounded up.
pub open spec fn magic(w: int, d: int) -> int {
    (w - 1) / d + 1
}

/// Upper half of the double-width product `x * y` at double width `w`.
pub open spec fn mul_high(w: int, x: int, y: int) -> int {
    (x * y) / w
}

/// The multiplier is a rounded-up reciprocal: `w <= m * d < w + d`,
/// and it lies strictly between 1 and `w`.
pub proof fn lemma_magic_bounds(w: int, d: int)
    requires
        1 < d,
        d < w,
    ensures
        w <= magic(w, d) * d,
        magic(w, d) * d < w + d,
        1 < magic(w, d) < w,
{
    let k = (w - 1) / d;
    let s = (w - 1) % d;
    lemma_fundamental_div_mod(w - 1, d);
    assert(magic(w, d) * d == d * k + d) by (nonlinear_arith)
        requires
            magic(w, d) == k + 1,
    ;
    assert(1 <= k) by (nonlinear_arith)
        requires
            w - 1 == d * k + s,
            0 <= s < d,
            d < w,
    ;
    assert(k * 2 <= w - 1) by (nonlinear_arith)
        requires
            w - 1 == d * k + s,
            0 <= s,
            2 <= d,
            1 <= k,
    ;
}

/// With `m` the multiplier of `d`, the upper half of `m * a` is `a / d`,
/// the upper half of `((m * a) mod w) * d` is `a % d`, and the low half
/// `(m * a) mod w` is below `m` exactly when `d` divides `a`.
pub proof fn lemma_magic_quotient(w: int, h: int, d: int, a: int)
    requires
        1 < d < h,
        0 <= a < h,
        w == h * h,
    ensures
        mul_high(w, magic(w, d), a) == a / d,
        mul_high(w, (magic(w, d) * a) % w, d) == a % d,
        ((magic(w, d) * a) % w <= magic(w, d) - 1) == (a % d == 0),
{
    let m = magic(w, d);
    assert(d < w) by (nonlinear_arith)
        requires
            1 < d < h,
            w == h * h,
    ;
    lemma_magic_bounds(w, d);
    let e = m * d - w;
    let q = a / d;
    let r = a % d;
    lemma_fundamental_div_mod(a, d);
    assert(0 <= e * a < w) by (nonlinear_arith)
        requires
            0 <= e < d < h,
            0 <= a < h,
            w == h * h,
    ;
    let x = m * a;
    assert(x * d == w * a + e * a) by (nonlinear_arith)
        requires
            e == m * d - w,
            x == m * a,
    ;
    let l = x - q * w;
    assert(l * d == w * r + e * a) by (nonlinear_arith)
        requires
            x * d == w * a + e * a,
            a == d * q + r,
            l == x - q * w,
    ;
    assert(0 <= l < w) by (nonlinear_arith)
        requires
            l * d == w * r + e * a,
            0 <= r < d,
            0 <= e * a < w,
            1 < d,
            0 < w,
    ;
    lemma_fundamental_div_mod_converse(x, w, q, l);
    lemma_fundamental_div_mod_converse(l * d, w, r, e * a);
    if r == 0 {
        assert(l <= m - 1) by (nonlinear_arith)
            requires
                l * d == w * r + e * a,
                r == 0,
                e * a < w,
                w <= m * d,
                1 < d,
        ;
    } else {
        assert(w <= w * r) by (nonlinear_arith)
            requires
                1 <= r,
                0 < w,
        ;
        assert((m - 1) * d < l * d) by (nonlinear_arith)
            requires
                l * d == w * r + e * a,
                w <= w * r,
                0 <= e * a,
                m * d < w + d,
        ;
        assert(l > m - 1) by (nonlinear_arith)
            requires
                (m - 1) * d < l * d,
                1 < d,
        ;
    }
}

/// Multiply-high by limbs: for `x == hi * b + lo` with `lo < b`, the upper
/// half of `x * y` at double width `b * b` is the upper half of
/// `hi * y + (lo * y) / b` at width `b`.
pub proof fn lemma_mul_high_split(b: int, hi: int, lo: int, y: int)
    requires
        0 < b,
        0 <= hi,
        0 <= lo < b,
        0 <= y,
    ensures
        mul_high(b * b, hi * b + lo, y) == mul_high(b, 1, hi * y + mul_high(b, lo, y)),
{
    let bottom = (lo * y) / b;
    let c = (lo * y) % b;
    lemma_fundamental_div_mod(lo * y, b);
    let s = hi * y + bottom;
    let t = s / b;
    let u = s % b;
    lemma_fundamental_div_mod(s, b);
    assert((hi * b + lo) * y == t * (b * b) + (u * b + c)) by (nonlinear_arith)
        requires
            lo * y == b * bottom + c,
            s == hi * y + bottom,
            s == b * t + u,
    ;
    assert(0 <= u * b + c < b * b) by (nonlinear_arith)
        requires
            0 <= u < b,
            0 <= c < b,
    ;
    lemma_fundamental_div_mod_converse((hi * b + lo) * y, b * b, t, u * b + c);
    assert(1 * s == s);
}

/// Below `h`, distinct divisors have distinct multipliers.
pub proof fn lemma_magic_injective(w: int, h: int, d1: int, d2: int)
    requires
        1 < d1 < h,
        1 < d2 < h,
        w == h * h,
        magic(w, d1) == magic(w, d2),
    ensures
        d1 == d2,
{
    if d1 != d2 {
        let (lo, hi) = if d1 < d2 {
            (d1, d2)
        } else {
            (d2, d1)
        };
        let m = magic(w, d1);
        assert(lo < w && hi < w) by (nonlinear_arith)
            requires
                1 < lo < h,
                1 < hi < h,
                w == h * h,
        ;
        lemma_magic_bounds(w, lo);
        lemma_magic_bounds(w, hi);
        assert(m < hi) by (nonlinear_arith)
            requires
                w <= m * lo,
                m * hi < w + hi,
                lo < hi,
                0 < m,
        ;
        assert(false) by (nonlinear_arith)
            requires
                w <= m * hi,
                m < hi < h,
                w == h * h,
                0 < m,
        ;
    }
}

} // verus!
