use fastdiv::track32::{compute_m_u32, fastdiv_u32, fastmod_u32, is_divisible_u32, mul128_u32};
use fastdiv::track64::{compute_m_u64, fastdiv_u64, fastmod_u64, is_divisible_u64, mul128_u64};
use fastdiv::{FastDiv, PrecomputedDivU32, PrecomputedDivU64};

#[test]
fn div_u32() {
    let n: u32 = 1000;
    for j in 2..n {
        let p = j.precompute_div();
        for i in 0..n {
            assert_eq!(i.fast_mod(p, j), i % j);
            assert_eq!(i.fast_div(p), i / j);
            assert_eq!(FastDiv::is_multiple_of(i, p), i % j == 0);
        }
    }
}

#[test]
fn div_u64() {
    let n: u64 = 1000;
    for j in 2..n {
        let p = j.precompute_div();
        for i in 0..n {
            assert_eq!(i.fast_mod(p, j), i % j);
            assert_eq!(i.fast_div(p), i / j);
            assert_eq!(FastDiv::is_multiple_of(i, p), i % j == 0);
        }
    }
}

/// A small linear congruential sequence, for spread-out operands.
fn next(state: &mut u64) -> u64 {
    *state = state.wrapping_mul(6364136223846793005).wrapping_add(1442695040888963407);
    *state
}

#[test]
fn divisor_three_u32() {
    let p = 3u32.precompute_div();
    assert_eq!(4u32.fast_div(p), 1);
    assert_eq!(4u32.fast_mod(p, 3), 1);
    assert!(!FastDiv::is_multiple_of(4u32, p));
    assert_eq!(9u32.fast_div(p), 3);
    assert_eq!(9u32.fast_mod(p, 3), 0);
    assert!(FastDiv::is_multiple_of(9u32, p));
}

#[test]
fn divisor_three_u64_at_two_pow_32() {
    let p = 3u64.precompute_div();
    let a: u64 = 1 << 32;
    assert_eq!(a.fast_div(p), 1431655765);
    assert_eq!(a.fast_mod(p, 3), 1);
    assert!(!FastDiv::is_multiple_of(a, p));
}

#[test]
fn zero_dividend_gives_zero() {
    for d in [2u32, 3, 7, 1 << 31, u32::MAX - 1, u32::MAX] {
        let p = d.precompute_div();
        assert_eq!(0u32.fast_div(p), 0);
        assert_eq!(0u32.fast_mod(p, d), 0);
        assert!(FastDiv::is_multiple_of(0u32, p));
    }
    for d in [2u64, 3, 7, 1 << 63, u64::MAX - 1, u64::MAX] {
        let p = d.precompute_div();
        assert_eq!(0u64.fast_div(p), 0);
        assert_eq!(0u64.fast_mod(p, d), 0);
        assert!(FastDiv::is_multiple_of(0u64, p));
    }
}

#[test]
fn largest_dividend_u32() {
    let a = u32::MAX;
    let mut divisors = vec![3u32, 5, 7, 10, 641, 65537, u32::MAX - 1, u32::MAX, (1 << 31) + 1];
    for k in 1..32 {
        divisors.push(1u32 << k);
    }
    for d in divisors {
        let p = d.precompute_div();
        assert_eq!(a.fast_div(p), a / d);
        assert_eq!(a.fast_mod(p, d), a % d);
        assert_eq!(FastDiv::is_multiple_of(a, p), a % d == 0);
    }
    let p = u32::MAX.precompute_div();
    assert_eq!(u32::MAX.fast_div(p), 1);
    assert_eq!(u32::MAX.fast_mod(p, u32::MAX), 0);
    assert!(FastDiv::is_multiple_of(u32::MAX, p));
    assert_eq!((u32::MAX - 1).fast_div(p), 0);
    assert_eq!((u32::MAX - 1).fast_mod(p, u32::MAX), u32::MAX - 1);
}

#[test]
fn largest_dividend_u64() {
    let a = u64::MAX;
    let mut divisors = vec![3u64, 5, 7, 10, 641, 6700417, u64::MAX - 1, u64::MAX, (1 << 63) + 1];
    for k in 1..64 {
        divisors.push(1u64 << k);
    }
    for d in divisors {
        let p = d.precompute_div();
        assert_eq!(a.fast_div(p), a / d);
        assert_eq!(a.fast_mod(p, d), a % d);
        assert_eq!(FastDiv::is_multiple_of(a, p), a % d == 0);
    }
    let p = u64::MAX.precompute_div();
    assert_eq!(u64::MAX.fast_div(p), 1);
    assert_eq!(u64::MAX.fast_mod(p, u64::MAX), 0);
    assert!(FastDiv::is_multiple_of(u64::MAX, p));
    assert_eq!((u64::MAX - 1).fast_div(p), 0);
    assert_eq!((u64::MAX - 1).fast_mod(p, u64::MAX), u64::MAX - 1);
}

#[test]
fn spread_operands_u32() {
    let mut s: u64 = 1;
    for _ in 0..20000 {
        let d = ((next(&mut s) >> 32) as u32).max(2);
        let a = (next(&mut s) >> 32) as u32;
        let p = d.precompute_div();
        let q = a.fast_div(p);
        let r = a.fast_mod(p, d);
        assert_eq!(q, a / d);
        assert_eq!(r, a % d);
        assert_eq!(q as u64 * d as u64 + r as u64, a as u64);
        assert_eq!(FastDiv::is_multiple_of(a, p), a % d == 0);
        let m = a - r;
        assert!(FastDiv::is_multiple_of(m, p));
    }
}

#[test]
fn spread_operands_u64() {
    let mut s: u64 = 7;
    for i in 0..20000u32 {
        let shift = i % 64;
        let d = (next(&mut s) >> shift).max(2);
        let a = next(&mut s);
        let p = d.precompute_div();
        let q = a.fast_div(p);
        let r = a.fast_mod(p, d);
        assert_eq!(q, a / d);
        assert_eq!(r, a % d);
        assert_eq!(q as u128 * d as u128 + r as u128, a as u128);
        assert_eq!(FastDiv::is_multiple_of(a, p), a % d == 0);
        let m = a - r;
        assert!(FastDiv::is_multiple_of(m, p));
    }
}

#[test]
fn precompute_is_deterministic() {
    for d in [2u32, 3, 1000, u32::MAX] {
        let p1: PrecomputedDivU32 = d.precompute_div();
        let p2: PrecomputedDivU32 = d.precompute_div();
        assert!(p1 == p2);
        assert_eq!(12345u32.fast_div(p1), 12345u32.fast_div(p2));
    }
    for d in [2u64, 3, 1000, u64::MAX] {
        let p1: PrecomputedDivU64 = d.precompute_div();
        let p2: PrecomputedDivU64 = d.precompute_div();
        assert!(p1 == p2);
        assert_eq!(u64::MAX.fast_mod(p1, d), u64::MAX.fast_mod(p2, d));
    }
    assert!(3u32.precompute_div() != 4u32.precompute_div());
    assert!(3u64.precompute_div() != 4u64.precompute_div());
}

#[test]
fn mismatched_divisor_is_repeatable() {
    let p = 7u32.precompute_div();
    assert_eq!(100u32.fast_mod(p, 9), 100u32.fast_mod(p, 9));
    let q = 7u64.precompute_div();
    assert_eq!(100u64.fast_mod(q, 9), 100u64.fast_mod(q, 9));
}

#[test]
fn multiply_high_exact_values() {
    assert_eq!(mul128_u32(u64::MAX, u32::MAX), (u32::MAX - 1) as u64);
    assert_eq!(mul128_u32(1 << 63, 2), 1);
    assert_eq!(mul128_u32(12345, 6789), 0);
    assert_eq!(mul128_u64(u128::MAX, u64::MAX), u64::MAX - 1);
    assert_eq!(mul128_u64(1 << 127, 2), 1);
    assert_eq!(mul128_u64((1 << 64) + 5, 1 << 63), 0);
    assert_eq!(mul128_u64(3 << 126, 1 << 62), 3 << 60);
}

#[test]
fn multipliers_exact_values() {
    assert_eq!(compute_m_u32(2), 1 << 63);
    assert_eq!(compute_m_u32(3), 0x5555_5555_5555_5556);
    assert_eq!(compute_m_u32(u32::MAX), 0x1_0000_0002);
    assert_eq!(compute_m_u64(2), 1 << 127);
    assert_eq!(compute_m_u64(3), 0x5555_5555_5555_5555_5555_5555_5555_5556);
    assert_eq!(compute_m_u64(1 << 32), 1 << 96);
}

#[test]
fn track_functions_from_multiplier() {
    let m = compute_m_u32(10);
    assert_eq!(fastdiv_u32(1234, m), 123);
    assert_eq!(fastmod_u32(1234, m, 10), 4);
    assert!(is_divisible_u32(1230, m));
    assert!(!is_divisible_u32(1234, m));
    let m = compute_m_u64(10);
    assert_eq!(fastdiv_u64(12_345_678_901_234_567_890, m), 1_234_567_890_123_456_789);
    assert_eq!(fastmod_u64(12_345_678_901_234_567_890, m, 10), 0);
    assert!(is_divisible_u64(12_345_678_901_234_567_890, m));
    assert!(!is_divisible_u64(12_345_678_901_234_567_891, m));
}
