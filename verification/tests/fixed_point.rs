use atomica::fixed::add_fp;
use atomica::fixed::div_fp;
use atomica::fixed::mul_fp;
use atomica::fixed::sqrt_fp;
use atomica::fixed::sub_fp;
use atomica::fixed::FP_MAX;
use atomica::fixed::SCALE;

#[test]
fn scale_is_one_million() {
    assert_eq!(SCALE, 1_000_000);
    assert_eq!(FP_MAX, i64::MAX);
}

#[test]
fn mul_exact_products() {
    // 2.0 * 3.0 == 6.0
    assert_eq!(mul_fp(2_000_000, 3_000_000), 6_000_000);
    // 1.5 * 1.5 == 2.25
    assert_eq!(mul_fp(1_500_000, 1_500_000), 2_250_000);
    // sign handling
    assert_eq!(mul_fp(-2_000_000, 3_000_000), -6_000_000);
    assert_eq!(mul_fp(2_000_000, -3_000_000), -6_000_000);
    assert_eq!(mul_fp(-2_000_000, -3_000_000), 6_000_000);
    assert_eq!(mul_fp(0, 123_456), 0);
}

#[test]
fn mul_rounds_toward_zero() {
    // (1e-6)^2 is far below resolution
    assert_eq!(mul_fp(1, 1), 0);
    assert_eq!(mul_fp(-1, 1), 0);
    // 0.001 * 0.0015 = 0.0000015 -> truncates to 0.000001
    assert_eq!(mul_fp(1_000, 1_500), 1);
    assert_eq!(mul_fp(-1_000, 1_500), -1);
}

#[test]
fn mul_saturates() {
    assert_eq!(mul_fp(i64::MAX, i64::MAX), i64::MAX);
    assert_eq!(mul_fp(i64::MAX, -i64::MAX), -i64::MAX);
    assert_eq!(mul_fp(-i64::MAX, -i64::MAX), i64::MAX);
}

#[test]
fn div_exact_quotients() {
    // 6.0 / 3.0 == 2.0
    assert_eq!(div_fp(6_000_000, 3_000_000), 2_000_000);
    // 1.0 / 3.0 truncates toward zero, in both signs
    assert_eq!(div_fp(1_000_000, 3_000_000), 333_333);
    assert_eq!(div_fp(-1_000_000, 3_000_000), -333_333);
    assert_eq!(div_fp(1_000_000, -3_000_000), -333_333);
    assert_eq!(div_fp(0, 5), 0);
}

#[test]
fn add_and_sub_saturate() {
    assert_eq!(add_fp(1, 2), 3);
    assert_eq!(add_fp(i64::MAX, i64::MAX), i64::MAX);
    assert_eq!(add_fp(-i64::MAX, -i64::MAX), -i64::MAX);
    assert_eq!(sub_fp(5, 7), -2);
    assert_eq!(sub_fp(-i64::MAX, i64::MAX), -i64::MAX);
    // the domain is symmetric: i64::MIN is never produced
    assert_eq!(add_fp(-i64::MAX, -1), -i64::MAX);
}

#[test]
fn sub_is_antisymmetric_at_the_ends() {
    let big: i64 = i64::MAX;
    assert_eq!(sub_fp(big, -big), i64::MAX);
    assert_eq!(sub_fp(-big, big), -i64::MAX);
}

#[test]
fn sqrt_exact_roots() {
    // sqrt(4.0) == 2.0
    assert_eq!(sqrt_fp(4_000_000), 2_000_000);
    // sqrt(1.0) == 1.0
    assert_eq!(sqrt_fp(1_000_000), 1_000_000);
    // sqrt(2.0) == 1.414213...
    assert_eq!(sqrt_fp(2_000_000), 1_414_213);
    // sqrt of the smallest positive scalar
    assert_eq!(sqrt_fp(1), 1_000);
    assert_eq!(sqrt_fp(0), 0);
    assert_eq!(sqrt_fp(-5), 0);
}
