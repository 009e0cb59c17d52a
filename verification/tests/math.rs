use latrop::math::{ceil_sqrt_u128, lerp_i64, Vec2, Vec3, UNIT};

#[test]
fn ceil_sqrt_of_small_numbers() {
    let expected: [u128; 11] = [0, 1, 2, 2, 2, 3, 3, 3, 3, 3, 4];
    for n in 0..11u128 {
        assert_eq!(ceil_sqrt_u128(n), expected[n as usize]);
    }
}

#[test]
fn ceil_sqrt_of_squares_and_their_neighbours() {
    for r in [1u128, 2, 3, 1_000, 1_414_214, 0xFFFF_FFFF, 0xFFFF_FFFF_FFFF_FFFF] {
        assert_eq!(ceil_sqrt_u128(r * r), r);
        assert_eq!(ceil_sqrt_u128(r * r - 1), if r == 1 { 0 } else { r });
        if r < 0xFFFF_FFFF_FFFF_FFFF {
            assert_eq!(ceil_sqrt_u128(r * r + 1), r + 1);
        }
    }
}

#[test]
fn ceil_sqrt_of_the_largest_number() {
    assert_eq!(ceil_sqrt_u128(u128::MAX), 1u128 << 64);
    assert_eq!(ceil_sqrt_u128(2_000_000_000_000), 1_414_214);
}

#[test]
fn lerp_rounds_toward_the_start() {
    assert_eq!(lerp_i64(0, 100, 1, 2), 50);
    assert_eq!(lerp_i64(0, 7, 1, 2), 3);
    assert_eq!(lerp_i64(0, -7, 1, 2), -3);
    assert_eq!(lerp_i64(7, 0, 1, 2), 4);
    assert_eq!(lerp_i64(-7, 0, 1, 2), -4);
    assert_eq!(lerp_i64(10, 20, 1, 3), 13);
    assert_eq!(lerp_i64(10, 20, 2, 3), 16);
}

#[test]
fn lerp_hits_both_ends() {
    for (from, to) in [(0i64, 0i64), (-5, 9), (i64::MIN, i64::MAX), (i64::MAX, i64::MIN), (3, 3)] {
        assert_eq!(lerp_i64(from, to, 0, 15_625), from);
        assert_eq!(lerp_i64(from, to, 15_625, 15_625), to);
        assert_eq!(lerp_i64(from, to, 0, u32::MAX), from);
        assert_eq!(lerp_i64(from, to, u32::MAX, u32::MAX), to);
    }
}

#[test]
fn lerp_across_the_whole_range() {
    assert_eq!(lerp_i64(i64::MIN, i64::MAX, 1, 2), -1);
    assert_eq!(lerp_i64(i64::MAX, i64::MIN, 1, 2), 0);
    assert_eq!(lerp_i64(i64::MIN, i64::MAX, 1, 4), i64::MIN / 2 - 1);
}

#[test]
fn vec3_lerp_is_coordinate_wise() {
    let from = Vec3::new(0, 100, -100);
    let to = Vec3::new(10, 0, 100);
    assert_eq!(from.lerp(to, 1, 4), Vec3::new(2, 75, -50));
    assert_eq!(from.lerp(to, 0, 4), from);
    assert_eq!(from.lerp(to, 4, 4), to);
}

#[test]
fn norm_squared_adds_the_squares() {
    assert_eq!(Vec3::new(3, -4, 12).norm_squared(), 169);
    assert_eq!(Vec3::zero().norm_squared(), 0);
    let corner = Vec3::new(i64::MIN, i64::MIN, i64::MIN);
    assert_eq!(corner.norm_squared(), 3 * (1u128 << 126));
}

#[test]
fn clamp_keeps_short_vectors() {
    assert_eq!(Vec3::new(UNIT, 0, 0).clamp_length_max(UNIT), Vec3::new(UNIT, 0, 0));
    assert_eq!(Vec3::new(0, 0, -UNIT).clamp_length_max(UNIT), Vec3::new(0, 0, -UNIT));
    assert_eq!(Vec3::new(600_000, 0, 800_000).clamp_length_max(UNIT), Vec3::new(600_000, 0, 800_000));
    assert_eq!(Vec3::zero().clamp_length_max(0), Vec3::zero());
    assert_eq!(Vec3::new(3, 4, 0).clamp_length_max(5), Vec3::new(3, 4, 0));
}

#[test]
fn clamp_shortens_long_vectors() {
    // length 1414213.56.., rounded up to 1414214; 10^12 / 1414214 = 707106.4..
    assert_eq!(Vec3::new(UNIT, 0, -UNIT).clamp_length_max(UNIT), Vec3::new(707_106, 0, -707_106));
    // length exactly 10: each coordinate halves when clamped to 5
    assert_eq!(Vec3::new(6, 8, 0).clamp_length_max(5), Vec3::new(3, 4, 0));
    assert_eq!(Vec3::new(-6, 0, 8).clamp_length_max(5), Vec3::new(-3, 0, 4));
    assert_eq!(Vec3::new(1, 2, 3).clamp_length_max(0), Vec3::zero());
    assert_eq!(Vec3::new(2, 0, 0).clamp_length_max(1), Vec3::new(1, 0, 0));
}

#[test]
fn clamped_length_never_exceeds_the_bound() {
    let coordinates = [i64::MIN, -3 * UNIT, -UNIT - 1, -UNIT, -1, 0, 1, 577_351, UNIT, 2 * UNIT, i64::MAX];
    for x in coordinates {
        for y in coordinates {
            for z in coordinates {
                for max in [0i64, 1, 5, UNIT, i64::MAX] {
                    let v = Vec3::new(x, y, z);
                    let clamped = v.clamp_length_max(max);
                    assert!(clamped.norm_squared() <= (max as u128) * (max as u128));
                    if v.norm_squared() <= (max as u128) * (max as u128) {
                        assert_eq!(clamped, v);
                    }
                    assert!(clamped.x.signum() * x.signum() >= 0 && clamped.x.unsigned_abs() <= x.unsigned_abs());
                    assert!(clamped.y.signum() * y.signum() >= 0 && clamped.y.unsigned_abs() <= y.unsigned_abs());
                    assert!(clamped.z.signum() * z.signum() >= 0 && clamped.z.unsigned_abs() <= z.unsigned_abs());
                }
            }
        }
    }
}

#[test]
fn scaled_multiplies_every_coordinate() {
    assert_eq!(Vec3::new(1, -2, 3).scaled(4), Vec3::new(4, -8, 12));
    assert_eq!(Vec3::new(707_106, 0, -707_106).scaled(4), Vec3::new(2_828_424, 0, -2_828_424));
}

#[test]
fn zero_vectors() {
    assert!(Vec2::zero().is_zero());
    assert!(Vec2::default().is_zero());
    assert!(!Vec2::new(0, 1).is_zero());
    assert!(!Vec2::new(-1, 0).is_zero());
    assert_eq!(Vec2::zero(), Vec2::new(0, 0));
    assert_eq!(Vec3::zero(), Vec3::new(0, 0, 0));
}
