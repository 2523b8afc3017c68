use raykernel::fx::{Fx, FX_MAX, FX_MIN, FX_SCALE};
use raykernel::vec::Vec3;

#[test]
fn add_and_sub_are_exact_in_range() {
    let a = Fx::from_int(3);
    let b = Fx::from_int(-5);
    assert_eq!(a.add(b).raw, -2 * FX_SCALE);
    assert_eq!(a.sub(b).raw, 8 * FX_SCALE);
    assert_eq!(a.neg().raw, -3 * FX_SCALE);
}

#[test]
fn add_saturates_at_the_bounds() {
    let top = Fx { raw: FX_MAX };
    let bottom = Fx { raw: FX_MIN };
    assert_eq!(top.add(Fx { raw: 1 }).raw, FX_MAX);
    assert_eq!(bottom.sub(Fx { raw: 1 }).raw, FX_MIN);
    assert_eq!(top.neg().raw, FX_MIN);
}

#[test]
fn mul_matches_exact_products() {
    // 1.5 * 2 == 3
    let a = Fx { raw: 98304 };
    let b = Fx::from_int(2);
    assert_eq!(a.mul(b).raw, 3 * FX_SCALE);
    // signs
    assert_eq!(a.neg().mul(b).raw, -3 * FX_SCALE);
    assert_eq!(a.mul(b.neg()).raw, -3 * FX_SCALE);
    assert_eq!(a.neg().mul(b.neg()).raw, 3 * FX_SCALE);
}

#[test]
fn mul_truncates_toward_zero() {
    // (-3/65536) * (2/65536) rounds to zero, not toward minus one
    let a = Fx { raw: -3 };
    let b = Fx { raw: 2 };
    assert_eq!(a.mul(b).raw, 0);
}

#[test]
fn mul_saturates_on_huge_products() {
    let big = Fx { raw: FX_MAX };
    assert_eq!(big.mul(big).raw, FX_MAX);
    assert_eq!(big.mul(big.neg()).raw, FX_MIN);
}

#[test]
fn div_matches_exact_quotients() {
    // 3 / 2 == 1.5
    let a = Fx::from_int(3);
    let b = Fx::from_int(2);
    assert_eq!(a.div(b).raw, 98304);
    assert_eq!(a.neg().div(b).raw, -98304);
}

#[test]
fn div_by_zero_saturates_toward_the_dividend_sign() {
    let zero = Fx { raw: 0 };
    assert_eq!(Fx::from_int(5).div(zero).raw, FX_MAX);
    assert_eq!(Fx::from_int(-5).div(zero).raw, FX_MIN);
    assert_eq!(zero.div(zero).raw, 0);
}

#[test]
fn from_ratio_truncates() {
    // 6/10 == 0.6, whose raw value truncates to 39321
    assert_eq!(Fx::from_ratio(6, 10).raw, 39321);
    assert_eq!(Fx::from_ratio(3, 2).raw, 98304);
    assert_eq!(Fx::from_ratio(-6, 10).raw, -39321);
}

#[test]
fn sqrt_of_perfect_squares_is_exact() {
    assert_eq!(Fx::from_int(4).sqrt().raw, 2 * FX_SCALE);
    assert_eq!(Fx::from_int(100).sqrt().raw, 10 * FX_SCALE);
    assert_eq!(Fx::from_int(1).sqrt().raw, FX_SCALE);
    assert_eq!(Fx { raw: 0 }.sqrt().raw, 0);
}

#[test]
fn sqrt_rounds_down_and_rejects_negatives() {
    // floor(sqrt(2) * 65536) == 92681
    assert_eq!(Fx::from_int(2).sqrt().raw, 92681);
    assert_eq!(Fx::from_int(-4).sqrt().raw, 0);
}

#[test]
fn pow_is_iterated_product() {
    let half = Fx { raw: 32768 };
    assert_eq!(half.pow(0).raw, FX_SCALE);
    assert_eq!(half.pow(1).raw, 32768);
    assert_eq!(half.pow(2).raw, 16384);
    assert_eq!(Fx::from_int(2).pow(10).raw, 1024 * FX_SCALE);
}

#[test]
fn min_max_choose_by_value() {
    assert_eq!(Fx::zero().raw, 0);
    assert_eq!(Fx::one().raw, FX_SCALE);
    assert_eq!(Fx::from_raw(123).raw, 123);
    let a = Fx::from_int(1);
    let b = Fx::from_int(-2);
    assert_eq!(a.min(b), b);
    assert_eq!(a.max(b), a);
}

#[test]
fn vector_componentwise_ops() {
    let a = Vec3::new(Fx::from_int(1), Fx::from_int(2), Fx::from_int(3));
    let b = Vec3::new(Fx::from_int(-1), Fx::from_int(0), Fx::from_int(5));
    assert_eq!(a.add(b), Vec3::new(Fx::from_int(0), Fx::from_int(2), Fx::from_int(8)));
    assert_eq!(a.sub(b), Vec3::new(Fx::from_int(2), Fx::from_int(2), Fx::from_int(-2)));
    assert_eq!(a.neg(), Vec3::new(Fx::from_int(-1), Fx::from_int(-2), Fx::from_int(-3)));
    assert_eq!(a.scale(Fx::from_int(2)), Vec3::new(Fx::from_int(2), Fx::from_int(4), Fx::from_int(6)));
}

#[test]
fn dot_and_length() {
    let a = Vec3::new(Fx::from_int(1), Fx::from_int(2), Fx::from_int(3));
    let b = Vec3::new(Fx::from_int(4), Fx::from_int(-5), Fx::from_int(6));
    // 4 - 10 + 18 == 12
    assert_eq!(a.dot(b).raw, 12 * FX_SCALE);
    let v = Vec3::new(Fx::from_int(0), Fx::from_int(3), Fx::from_int(4));
    assert_eq!(v.length().raw, 5 * FX_SCALE);
}

#[test]
fn normalize_divides_by_the_length() {
    let v = Vec3::new(Fx::from_int(0), Fx::from_int(3), Fx::from_int(4));
    let n = v.normalize();
    assert_eq!(n.x.raw, 0);
    // 3/5 and 4/5, truncated
    assert_eq!(n.y.raw, 39321);
    assert_eq!(n.z.raw, 52428);
    let unit = Vec3::new(Fx::from_int(0), Fx::from_int(0), Fx::from_int(-1)).normalize();
    assert_eq!(unit, Vec3::new(Fx { raw: 0 }, Fx { raw: 0 }, Fx::from_int(-1)));
}
