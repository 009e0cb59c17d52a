use latrop::camera::{
    Heading, Orientation, FULL_TURN, HALF_TURN, HEADING_NORM_MAX, HEADING_NORM_MIN, PITCH_LIMIT,
    QUARTER_TURN,
};
use latrop::components::CameraSensitivity;
use latrop::math::{Vec2, Vec3, UNIT};
use latrop::physics::rotate_camera;

#[test]
fn pointer_motion_to_the_right_lowers_the_yaw() {
    // 100 counts at 0.003 rad a count: the yaw goes down by 0.3 rad, the pitch stays.
    let mut orientation = Orientation::default();
    let sensitivity = CameraSensitivity::default();
    rotate_camera(Vec2::new(100, 0), &mut orientation, &sensitivity);
    assert_eq!(orientation.yaw(), -300_000);
    assert_eq!(orientation.pitch(), 0);
    assert_eq!(orientation.roll(), 0);
    let radians = orientation.yaw() as f64 / 1e6;
    assert!((radians - (-0.3)).abs() < 1e-9);
}

#[test]
fn default_sensitivity_is_three_and_two_milliradians() {
    let sensitivity = CameraSensitivity::default();
    assert_eq!(sensitivity.0, Vec2::new(3_000, 2_000));
}

#[test]
fn pointer_motion_down_lowers_the_pitch() {
    let mut orientation = Orientation::default();
    rotate_camera(Vec2::new(0, 50), &mut orientation, &CameraSensitivity::default());
    assert_eq!(orientation.pitch(), -100_000);
    assert_eq!(orientation.yaw(), 0);
}

#[test]
fn pitch_stops_at_the_limit_upward() {
    let mut orientation = Orientation::default();
    rotate_camera(Vec2::new(0, -1_000_000), &mut orientation, &CameraSensitivity::default());
    assert_eq!(orientation.pitch(), PITCH_LIMIT);
    assert_eq!(orientation.pitch(), 1_560_796);
}

#[test]
fn pitch_stops_at_the_limit_downward() {
    let mut orientation = Orientation::default();
    rotate_camera(Vec2::new(0, i32::MAX), &mut orientation, &CameraSensitivity(Vec2::new(0, i32::MAX)));
    assert_eq!(orientation.pitch(), -PITCH_LIMIT);
}

#[test]
fn pitch_stays_within_limits_for_many_deltas() {
    let sensitivity = CameraSensitivity::default();
    let deltas = [i32::MIN, -1_000_000, -781, -1, 0, 1, 780, 781, 1_000_000, i32::MAX];
    for first in deltas {
        for second in deltas {
            let mut orientation = Orientation::default();
            rotate_camera(Vec2::new(3, first), &mut orientation, &sensitivity);
            rotate_camera(Vec2::new(-3, second), &mut orientation, &sensitivity);
            assert!(-PITCH_LIMIT <= orientation.pitch() && orientation.pitch() <= PITCH_LIMIT);
            assert!(-HALF_TURN <= orientation.yaw() && orientation.yaw() <= HALF_TURN);
        }
    }
}

#[test]
fn pitch_limit_is_ten_milliradians_short_of_straight_up() {
    assert_eq!(PITCH_LIMIT, QUARTER_TURN - 10_000);
    let limit = PITCH_LIMIT as f64 / 1e6;
    assert!((limit - (std::f64::consts::FRAC_PI_2 - 0.01)).abs() < 1e-6);
}

#[test]
fn zero_pointer_motion_leaves_the_orientation_alone() {
    let mut orientation = Orientation::from_euler(1_234_567, -765_432, 42);
    let before = orientation;
    rotate_camera(Vec2::zero(), &mut orientation, &CameraSensitivity::default());
    assert_eq!(orientation, before);
    assert_eq!(orientation.yaw(), 1_234_567);
    assert_eq!(orientation.pitch(), -765_432);
    assert_eq!(orientation.roll(), 42);
}

#[test]
fn roll_is_kept_when_the_camera_turns() {
    let mut orientation = Orientation::from_euler(0, 0, 250_000);
    rotate_camera(Vec2::new(7, 9), &mut orientation, &CameraSensitivity::default());
    assert_eq!(orientation.roll(), 250_000);
    assert_eq!(orientation.yaw(), -21_000);
    assert_eq!(orientation.pitch(), -18_000);
}

#[test]
fn yaw_wraps_around_past_half_a_turn() {
    let mut orientation = Orientation::from_euler(HALF_TURN as i64, 0, 0);
    assert_eq!(orientation.yaw(), HALF_TURN);
    // one count to the left at one microradian a count steps over the seam
    rotate_camera(Vec2::new(-1, 0), &mut orientation, &CameraSensitivity(Vec2::new(1, 1)));
    assert_eq!(orientation.yaw(), -HALF_TURN);
}

#[test]
fn from_euler_wraps_the_yaw_and_clamps_the_pitch() {
    let orientation = Orientation::from_euler(FULL_TURN as i64 + 5, 2_000_000, -3);
    assert_eq!(orientation.yaw(), 5);
    assert_eq!(orientation.pitch(), PITCH_LIMIT);
    assert_eq!(orientation.roll(), -3);
    let far = Orientation::from_euler(i64::MIN, i64::MIN, 0);
    assert!(-HALF_TURN <= far.yaw() && far.yaw() <= HALF_TURN);
    assert_eq!(far.pitch(), -PITCH_LIMIT);
    let other = Orientation::from_euler(i64::MAX, i64::MAX, 0);
    assert!(-HALF_TURN <= other.yaw() && other.yaw() <= HALF_TURN);
    assert_eq!(other.pitch(), PITCH_LIMIT);
    assert_eq!(Orientation::from_euler(-7 * FULL_TURN as i64 - 11, 0, 0).yaw(), -11);
}

#[test]
fn full_turn_counts_the_angles_between_the_half_turns() {
    assert_eq!(FULL_TURN, 2 * HALF_TURN + 1);
}

#[test]
fn default_heading_faces_ahead() {
    let heading = Heading::default();
    assert_eq!(heading.cos(), UNIT);
    assert_eq!(heading.sin(), 0);
    assert_eq!(heading.turn(Vec3::new(1, 0, -1)), Vec3::new(UNIT, 0, -UNIT));
    assert_eq!(Heading::new(UNIT, 0), Some(heading));
}

#[test]
fn heading_takes_only_pairs_of_length_one() {
    assert!(Heading::new(0, 0).is_none());
    assert!(Heading::new(UNIT, UNIT).is_none());
    assert!(Heading::new(500_000, 500_000).is_none());
    assert!(Heading::new(i64::MIN, i64::MIN).is_none());
    assert!(Heading::new(i64::MAX, 0).is_none());
    // the edges of what rounding allows
    assert!(Heading::new(UNIT + 1, 0).is_none());
    assert!(Heading::new(UNIT - 1, 0).is_some());
    assert!(Heading::new(0, -(UNIT - 2)).is_none());
    assert!(Heading::new(UNIT, 1_414).is_some());
    assert!(Heading::new(UNIT, 1_415).is_none());
    assert_eq!((UNIT - 1) * (UNIT - 1), HEADING_NORM_MIN + 1);
    assert_eq!(UNIT * UNIT + 2 * UNIT, HEADING_NORM_MAX);
    assert_eq!(UNIT * UNIT - 2 * UNIT, HEADING_NORM_MIN);
    // exact and rounded pairs
    assert!(Heading::new(600_000, -800_000).is_some());
    assert!(Heading::new(707_107, 707_107).is_some());
    assert!(Heading::new(-866_025, 500_000).is_some());
    let heading = Heading::new(-866_025, 500_000).unwrap();
    assert_eq!(heading.cos(), -866_025);
    assert_eq!(heading.sin(), 500_000);
}

#[test]
fn every_rounded_cosine_and_sine_is_a_heading() {
    for step in 0..36_000 {
        let yaw = (step as f64 / 100.0).to_radians();
        let cos = (yaw.cos() * UNIT as f64).round() as i64;
        let sin = (yaw.sin() * UNIT as f64).round() as i64;
        assert!(Heading::new(cos, sin).is_some());
    }
}

#[test]
fn heading_turns_about_the_vertical_axis() {
    // a quarter turn to the left: x goes to -z, z goes to x, up stays up
    let heading = Heading::new(0, UNIT).unwrap();
    assert_eq!(heading.turn(Vec3::new(1, 0, 0)), Vec3::new(0, 0, -UNIT));
    assert_eq!(heading.turn(Vec3::new(0, 0, -1)), Vec3::new(-UNIT, 0, 0));
    assert_eq!(heading.turn(Vec3::new(0, 1, 0)), Vec3::new(0, UNIT, 0));
    assert_eq!(heading.turn(Vec3::new(2, 3, 5)), Vec3::new(5 * UNIT, 3 * UNIT, -2 * UNIT));
    assert_eq!(
        heading.turn(Vec3::new(i32::MAX as i64, i32::MIN as i64, i32::MAX as i64)),
        Vec3::new(i32::MAX as i64 * UNIT, i32::MIN as i64 * UNIT, -(i32::MAX as i64) * UNIT)
    );
    let slanted = Heading::new(600_000, 800_000).unwrap();
    assert_eq!(slanted.turn(Vec3::new(1, 0, 0)), Vec3::new(600_000, 0, -800_000));
    assert_eq!(slanted.turn(Vec3::new(0, 0, -1)), Vec3::new(-800_000, 0, -600_000));
    assert_eq!(slanted.turn(Vec3::new(1, 0, -1)), Vec3::new(-200_000, 0, -1_400_000));
}
