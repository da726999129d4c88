//! Exact values of the fixed-point scalar operations.
use ray_tracing::fixed::{Fx, FX_SCALE};

fn fx(bits: i128) -> Fx {
    Fx::from_bits(bits)
}

#[test]
fn scale_is_two_to_sixteen() {
    assert_eq!(FX_SCALE, 65536);
    assert_eq!(Fx::one().bits, 65536);
    assert_eq!(Fx::zero().bits, 0);
    assert_eq!(Fx::from_int(-3).bits, -196608);
}

#[test]
fn add_sub_neg_exact() {
    assert_eq!(fx(100).add(fx(28)).bits, 128);
    assert_eq!(fx(100).sub(fx(228)).bits, -128);
    assert_eq!(fx(-77).neg().bits, 77);
}

#[test]
fn mul_truncates_toward_zero() {
    // 1.5 * 2 == 3
    assert_eq!(fx(98304).mul(fx(131072)).bits, 196608);
    // (1/65536) * (1/65536) truncates to zero
    assert_eq!(fx(1).mul(fx(1)).bits, 0);
    // signs: (-1.5) * 2 == -3, toward zero on the remainder
    assert_eq!(fx(-98304).mul(fx(131072)).bits, -196608);
    assert_eq!(fx(-3).mul(fx(3)).bits, 0);
}

#[test]
fn div_truncates_toward_zero() {
    // 3 / 2 == 1.5
    assert_eq!(fx(196608).div(fx(131072)).bits, 98304);
    // 1 / 3 == 0.33332824... rounded down at the grid
    assert_eq!(Fx::one().div(Fx::from_int(3)).bits, 21845);
    // -1 / 3 truncates toward zero
    assert_eq!(Fx::one().neg().div(Fx::from_int(3)).bits, -21845);
}

#[test]
fn sqrt_exact_squares() {
    assert_eq!(Fx::from_int(4).sqrt().bits, 2 * 65536);
    assert_eq!(Fx::one().sqrt().bits, 65536);
    assert_eq!(Fx::zero().sqrt().bits, 0);
    // sqrt(0.25) == 0.5
    assert_eq!(fx(16384).sqrt().bits, 32768);
    // sqrt(2) rounded down: isqrt(2 * 2^32) == 92681
    assert_eq!(Fx::from_int(2).sqrt().bits, 92681);
}

#[test]
fn min_max_pick_ends() {
    assert_eq!(fx(5).min(fx(9)).bits, 5);
    assert_eq!(fx(5).max(fx(9)).bits, 9);
    assert_eq!(fx(-5).max(fx(-9)).bits, -5);
}
