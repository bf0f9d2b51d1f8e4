use odeplot::fixed::Fx;
use odeplot::fixed::SCALE;

fn fx(neg: bool, mag: u64) -> Fx {
    Fx::from_units(neg, mag)
}

#[test]
fn add_exact() {
    let a = fx(false, 1_500_000);
    let b = fx(false, 2_250_000);
    let r = a.add(b);
    assert!(r.fin);
    assert!(!r.neg);
    assert_eq!(r.mag, 3_750_000);
}

#[test]
fn add_opposite_signs() {
    let a = fx(true, 2_000_000);
    let b = fx(false, 500_000);
    let r = a.add(b);
    assert!(r.fin && r.neg);
    assert_eq!(r.mag, 1_500_000);
}

#[test]
fn add_to_zero_is_positive_zero() {
    let a = fx(true, 750_000);
    let b = fx(false, 750_000);
    let r = a.add(b);
    assert!(r.fin && !r.neg);
    assert_eq!(r.mag, 0);
}

#[test]
fn add_saturates() {
    let a = fx(false, u64::MAX);
    let b = fx(false, 1);
    let r = a.add(b);
    assert!(r.fin);
    assert_eq!(r.mag, u64::MAX);
}

#[test]
fn sub_exact() {
    let a = fx(false, 1_000_000);
    let b = fx(false, 1_750_000);
    let r = a.sub(b);
    assert!(r.fin && r.neg);
    assert_eq!(r.mag, 750_000);
}

#[test]
fn mul_exact() {
    // 1.5 * 2.5 = 3.75
    let r = fx(false, 1_500_000).mul(fx(false, 2_500_000));
    assert!(r.fin && !r.neg);
    assert_eq!(r.mag, 3_750_000);
}

#[test]
fn mul_truncates_toward_zero() {
    // (-1.000001) * 1.999999 = -2.000000999... -> -2.000000 after truncation
    let r = fx(true, 1_000_001).mul(fx(false, 1_999_999));
    assert!(r.fin && r.neg);
    assert_eq!(r.mag, 2_000_000);
}

#[test]
fn mul_sign_rules() {
    let r = fx(true, 2_000_000).mul(fx(true, 3_000_000));
    assert!(r.fin && !r.neg);
    assert_eq!(r.mag, 6_000_000);
}

#[test]
fn div_exact_third() {
    let r = fx(false, 1_000_000).div(fx(false, 3_000_000));
    assert!(r.fin && !r.neg);
    assert_eq!(r.mag, 333_333);
}

#[test]
fn div_by_zero_is_non_finite() {
    let r = fx(false, 1_000_000).div(fx(false, 0));
    assert!(!r.fin);
}

#[test]
fn non_finite_propagates() {
    let nf = fx(false, 1_000_000).div(fx(false, 0));
    assert!(!nf.add(fx(false, 1)).fin);
    assert!(!nf.mul(fx(false, 0)).fin);
    assert!(!nf.negate().fin);
    assert!(!nf.abs().fin);
    assert!(!nf.sqrt().fin);
}

#[test]
fn sqrt_exact_square() {
    // sqrt(2.25) = 1.5
    let r = fx(false, 2_250_000).sqrt();
    assert!(r.fin && !r.neg);
    assert_eq!(r.mag, 1_500_000);
}

#[test]
fn sqrt_two() {
    let r = fx(false, 2_000_000).sqrt();
    assert!(r.fin);
    assert_eq!(r.mag, 1_414_213);
}

#[test]
fn sqrt_zero() {
    let r = fx(false, 0).sqrt();
    assert!(r.fin);
    assert_eq!(r.mag, 0);
}

#[test]
fn sqrt_of_negative_is_non_finite() {
    let r = fx(true, 1).sqrt();
    assert!(!r.fin);
}

#[test]
fn comparisons() {
    assert!(fx(true, 5).lt(fx(false, 0)));
    assert!(fx(false, 0).le(fx(false, 0)));
    assert!(!fx(false, 1).lt(fx(false, 1)));
    assert!(fx(true, 2_000_000).lt(fx(true, 1_000_000)));
}

#[test]
fn clamp_to_window() {
    let lo = fx(false, 1);
    let hi = fx(false, 10_000);
    assert_eq!(fx(false, 0).clamp_to(lo, hi), lo);
    assert_eq!(fx(false, 20_000).clamp_to(lo, hi), hi);
    assert_eq!(fx(false, 5_000).clamp_to(lo, hi), fx(false, 5_000));
}

#[test]
fn trunc_toward_zero() {
    let r = fx(true, 2_700_000).trunc();
    assert!(r.neg);
    assert_eq!(r.mag, 2_000_000);
    let r2 = fx(false, 999_999).trunc();
    assert!(!r2.neg);
    assert_eq!(r2.mag, 0);
}

#[test]
fn from_int_scales() {
    let r = Fx::from_int(true, 7);
    assert!(r.neg);
    assert_eq!(r.mag, 7 * SCALE);
}
