use boids::scalar::{div_toward_zero, isqrt, partial_max, wide_product, ONE};
use boids::vector::{restrict_vector_length, Vector3, COMPONENT_MAX, LENGTH_MAX};

fn length_squared(v: Vector3) -> i128 {
    let (x, y, z) = (v.x as i128, v.y as i128, v.z as i128);
    x * x + y * y + z * z
}

#[test]
fn one_world_unit_is_a_million_steps() {
    assert_eq!(ONE, 1_000_000);
    assert_eq!(LENGTH_MAX, ONE);
}

#[test]
fn partial_max_picks_the_largest() {
    assert_eq!(partial_max(3, 2, 1), 3);
    assert_eq!(partial_max(3, 2, 5), 5);
    assert_eq!(partial_max(1, 2, 1), 2);
    assert_eq!(partial_max(1, 2, 3), 3);
    assert_eq!(partial_max(-7, -7, -7), -7);
    assert_eq!(partial_max(i64::MIN, i64::MAX, 0), i64::MAX);
}

#[test]
fn isqrt_rounds_down() {
    assert_eq!(isqrt(0), 0);
    assert_eq!(isqrt(1), 1);
    assert_eq!(isqrt(2), 1);
    assert_eq!(isqrt(3), 1);
    assert_eq!(isqrt(4), 2);
    assert_eq!(isqrt(15), 3);
    assert_eq!(isqrt(16), 4);
    assert_eq!(isqrt(1_000_000_000_000), 1_000_000);
    assert_eq!(isqrt(999_999_999_999), 999_999);
    assert_eq!(isqrt(2_250_000_000_000), 1_500_000);
}

#[test]
fn isqrt_of_the_largest_value() {
    assert_eq!(isqrt(u128::MAX), u64::MAX as u128);
    let r = isqrt(u128::MAX - 1);
    assert!(r * r <= u128::MAX - 1);
}

#[test]
fn division_rounds_toward_zero() {
    assert_eq!(div_toward_zero(7, 2), 3);
    assert_eq!(div_toward_zero(-7, 2), -3);
    assert_eq!(div_toward_zero(6, 2), 3);
    assert_eq!(div_toward_zero(-6, 2), -3);
    assert_eq!(div_toward_zero(1, 2), 0);
    assert_eq!(div_toward_zero(-1, 2), 0);
    assert_eq!(div_toward_zero(0, 5), 0);
}

#[test]
fn wide_product_does_not_overflow() {
    assert_eq!(wide_product(i64::MAX, i64::MAX), (i64::MAX as i128) * (i64::MAX as i128));
    assert_eq!(wide_product(i64::MIN, i64::MIN), (i64::MIN as i128) * (i64::MIN as i128));
    assert_eq!(wide_product(-3, 4), -12);
}

#[test]
fn vector_arithmetic() {
    let a = Vector3::new(1, -2, 3);
    let b = Vector3::new(10, 20, -30);
    assert_eq!(a.plus(b), Vector3::new(11, 18, -27));
    assert_eq!(a.minus(b), Vector3::new(-9, -22, 33));
    assert_eq!(a.negated(), Vector3::new(-1, 2, -3));
    assert_eq!(a.dot(b), 10 - 40 - 90);
    assert_eq!(a.length_squared(), 14);
    assert_eq!(Vector3::zero(), Vector3::new(0, 0, 0));
}

#[test]
fn scaled_rounds_each_component_toward_zero() {
    let v = Vector3::new(7, -7, 1);
    assert_eq!(v.scaled(1, 2), Vector3::new(3, -3, 0));
    assert_eq!(v.scaled(-1, 2), Vector3::new(-3, 3, 0));
    assert_eq!(Vector3::new(100_000, 0, 0).scaled(8_000, 1_000_000), Vector3::new(800, 0, 0));
}

#[test]
fn confined_moves_components_back_to_the_bound() {
    let v = Vector3::new(11, -11, 5);
    assert_eq!(v.confined(10), Vector3::new(10, -10, 5));
    assert_eq!(v.confined(11), v);
    assert_eq!(v.confined(0), Vector3::zero());
}

#[test]
fn a_long_vector_is_shrunk_to_the_highest_length() {
    let v = restrict_vector_length(Vector3::new(30_000, 40_000, 0), 5_000, 30_000);
    assert_eq!(v, Vector3::new(18_000, 24_000, 0));
}

#[test]
fn a_short_vector_is_stretched_to_the_lowest_length() {
    let v = restrict_vector_length(Vector3::new(300, -400, 0), 5_000, 30_000);
    assert_eq!(v, Vector3::new(3_000, -4_000, 0));
}

#[test]
fn a_vector_within_the_range_is_left_alone() {
    let v = Vector3::new(20_000, 0, 0);
    assert_eq!(restrict_vector_length(v, 5_000, 30_000), v);
    let at_min = Vector3::new(0, 5_000, 0);
    assert_eq!(restrict_vector_length(at_min, 5_000, 30_000), at_min);
    let at_max = Vector3::new(0, 0, -30_000);
    assert_eq!(restrict_vector_length(at_max, 5_000, 30_000), at_max);
}

#[test]
fn the_zero_vector_is_left_alone() {
    assert_eq!(restrict_vector_length(Vector3::zero(), 5_000, 30_000), Vector3::zero());
}

#[test]
fn rescaling_rounds_each_component_toward_zero() {
    // 5000 / sqrt(2) = 3535.53...
    let v = restrict_vector_length(Vector3::new(1, 1, 0), 5_000, 30_000);
    assert_eq!(v, Vector3::new(3_535, 3_535, 0));
    let w = restrict_vector_length(Vector3::new(-1, 1, 0), 5_000, 30_000);
    assert_eq!(w, Vector3::new(-3_535, 3_535, 0));
    // 30000 / sqrt(3) = 17320.50...
    let u = restrict_vector_length(Vector3::new(ONE, -ONE, ONE), 5_000, 30_000);
    assert_eq!(u, Vector3::new(17_320, -17_320, 17_320));
}

#[test]
fn a_clamped_vector_is_within_one_step_of_the_range() {
    let samples = [
        Vector3::new(1, 2, 3),
        Vector3::new(-7, 0, 1),
        Vector3::new(123_456, -654_321, 999),
        Vector3::new(COMPONENT_MAX, -COMPONENT_MAX, COMPONENT_MAX),
        Vector3::new(29_999, 1, 0),
        Vector3::new(4_999, 0, 0),
    ];
    for v in samples {
        let c = restrict_vector_length(v, 5_000, 30_000);
        assert!(length_squared(c) <= 30_000 * 30_000);
        let outward = Vector3::new(c.x.abs() + 1, c.y.abs() + 1, c.z.abs() + 1);
        assert!(length_squared(outward) >= 5_000 * 5_000);
        assert_eq!(c.x.signum() * v.x.signum() >= 0, true);
        assert_eq!(c.y.signum() * v.y.signum() >= 0, true);
        assert_eq!(c.z.signum() * v.z.signum() >= 0, true);
    }
}

#[test]
fn clamping_to_a_single_length() {
    let c = restrict_vector_length(Vector3::new(3, 4, 0), 1_000, 1_000);
    assert_eq!(c, Vector3::new(600, 800, 0));
    let d = restrict_vector_length(Vector3::new(COMPONENT_MAX, 0, 0), LENGTH_MAX, LENGTH_MAX);
    assert_eq!(d, Vector3::new(LENGTH_MAX, 0, 0));
}
