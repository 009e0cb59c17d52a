use latrop::camera::{Heading, Orientation};
use latrop::components::{
    CameraSensitivity, DidFixedTimestepRunThisFrame, MovableBody, Player, Velocity, ViewModel,
    WorldModelCamera,
};
use latrop::math::{Vec2, Vec3, UNIT};
use latrop::physics::{accumulate_input, MovementKeys};
use latrop::schedule::{
    after_fixed_main_loop, begin_frame, can_finish_frame, can_run_fixed_main_loop, finish_frame,
    run_fixed_main_loop, try_finish_frame, MAX_TICKS_PER_FRAME,
};
use latrop::time::FixedTime;

const FORWARD: MovementKeys = MovementKeys { forward: true, back: false, left: false, right: false };
const NOTHING: MovementKeys = MovementKeys { forward: false, back: false, left: false, right: false };

#[test]
fn clock_rejects_a_zero_step_and_an_overstep_of_a_whole_step() {
    assert!(FixedTime::new(0, 0).is_none());
    assert!(FixedTime::new(10, 10).is_none());
    assert!(FixedTime::new(10, 11).is_none());
    let time = FixedTime::new(10, 9).unwrap();
    assert_eq!(time.timestep(), 10);
    assert_eq!(time.overstep(), 9);
    assert!(FixedTime::new(u32::MAX, u32::MAX - 1).is_some());
}

#[test]
fn default_clock_steps_sixty_four_times_a_second() {
    let time = FixedTime::default();
    assert_eq!(time.timestep(), 15_625);
    assert_eq!(time.overstep(), 0);
    assert_eq!(time.timestep() as u64 * 64, 1_000_000);
}

#[test]
fn clock_counts_the_steps_that_are_due() {
    let mut time = FixedTime::new(10, 0).unwrap();
    assert_eq!(time.pending(9, 8), 0);
    assert_eq!(time.accumulate(9, 8), 0);
    assert_eq!(time.overstep(), 9);
    assert_eq!(time.pending(1, 8), 1);
    assert_eq!(time.accumulate(1, 8), 1);
    assert_eq!(time.overstep(), 0);
    assert_eq!(time.accumulate(35, 8), 3);
    assert_eq!(time.overstep(), 5);
    assert_eq!(time.accumulate(0, 8), 0);
    assert_eq!(time.overstep(), 5);
    assert_eq!(time.timestep(), 10);
}

#[test]
fn clock_caps_the_steps_and_drops_the_backlog() {
    let mut time = FixedTime::new(10, 0).unwrap();
    assert_eq!(time.pending(95, 3), 3);
    assert_eq!(time.accumulate(95, 3), 3);
    assert_eq!(time.overstep(), 5);
    assert_eq!(time.accumulate(95, 0), 0);
    assert_eq!(time.overstep(), 0);
    let mut long = FixedTime::new(1, 0).unwrap();
    assert_eq!(long.accumulate(u32::MAX, u32::MAX), u32::MAX);
    assert_eq!(long.overstep(), 0);
    let mut wide = FixedTime::new(u32::MAX, u32::MAX - 1).unwrap();
    assert_eq!(wide.accumulate(u32::MAX, 5), 1);
    assert_eq!(wide.overstep(), u32::MAX - 1);
}

#[test]
fn fixed_main_loop_runs_the_steps_that_are_due() {
    let mut time = FixedTime::new(10, 0).unwrap();
    let mut flag = DidFixedTimestepRunThisFrame(false);
    let mut body = MovableBody::at(Vec3::zero());
    body.velocity = Velocity(Vec3::new(1, 0, -2));
    let mut bodies = vec![body];
    assert!(can_run_fixed_main_loop(25, 8, &time, &bodies));
    let ticks = run_fixed_main_loop(25, 8, &mut time, &mut flag, &mut bodies);
    assert_eq!(ticks, 2);
    assert_eq!(time.overstep(), 5);
    assert!(flag.0);
    assert_eq!(bodies[0].translation.0, Vec3::new(20, 0, -40));
    assert_eq!(bodies[0].previous_translation.0, Vec3::new(10, 0, -20));
    let rendered = after_fixed_main_loop(&time, &flag, &mut bodies);
    assert_eq!(rendered, vec![Vec3::new(15, 0, -30)]);
}

#[test]
fn fixed_main_loop_without_a_step_leaves_everything() {
    let mut time = FixedTime::new(10, 3).unwrap();
    let mut flag = DidFixedTimestepRunThisFrame(false);
    let mut body = MovableBody::at(Vec3::new(7, 7, 7));
    body.velocity = Velocity(Vec3::new(i64::MAX, i64::MAX, i64::MAX));
    let mut bodies = vec![body];
    assert!(can_run_fixed_main_loop(6, 8, &time, &bodies));
    assert!(!can_run_fixed_main_loop(7, 8, &time, &bodies));
    assert!(can_run_fixed_main_loop(7, 0, &time, &bodies));
    assert_eq!(run_fixed_main_loop(6, 8, &mut time, &mut flag, &mut bodies), 0);
    assert_eq!(time.overstep(), 9);
    assert!(!flag.0);
    assert_eq!(bodies, vec![body]);
}

#[test]
fn fixed_main_loop_keeps_a_raised_flag() {
    let mut time = FixedTime::new(10, 0).unwrap();
    let mut flag = DidFixedTimestepRunThisFrame(true);
    let mut bodies: Vec<MovableBody> = Vec::new();
    assert_eq!(run_fixed_main_loop(1, 8, &mut time, &mut flag, &mut bodies), 0);
    assert!(flag.0);
}

#[test]
fn input_is_kept_on_a_frame_without_a_tick() {
    let mut time = FixedTime::new(16_667, 0).unwrap();
    let mut flag = DidFixedTimestepRunThisFrame(true);
    let mut orientation = Orientation::default();
    let mut bodies = vec![MovableBody::at(Vec3::zero())];
    let heading = Heading::default();

    // a short frame: no fixed step is due
    begin_frame(Vec2::zero(), &mut flag, &mut orientation, &CameraSensitivity::default());
    assert!(!flag.0);
    assert!(can_finish_frame(&FORWARD, &heading, 4_000, 8, &time, &bodies, 0));
    let rendered = finish_frame(&FORWARD, &heading, 4_000, 8, &mut time, &mut flag, &mut bodies, 0);
    assert!(!flag.0);
    assert_eq!(bodies[0].input.movement, Vec2::new(0, 1));
    assert_eq!(bodies[0].velocity.0, Vec3::new(0, 0, -4 * UNIT));
    assert_eq!(bodies[0].translation.0, Vec3::zero());
    assert_eq!(rendered, vec![Vec3::zero()]);
    assert_eq!(time.overstep(), 4_000);

    // a frame that reaches the step: the input is used and cleared
    begin_frame(Vec2::zero(), &mut flag, &mut orientation, &CameraSensitivity::default());
    let rendered = finish_frame(&FORWARD, &heading, 13_000, 8, &mut time, &mut flag, &mut bodies, 0);
    assert!(flag.0);
    assert_eq!(bodies[0].input.movement, Vec2::zero());
    assert_eq!(bodies[0].translation.0, Vec3::new(0, 0, -66_668_000_000));
    assert_eq!(bodies[0].previous_translation.0, Vec3::zero());
    assert_eq!(time.overstep(), 333);
    // 333 / 16667 of the way from the origin to the new position
    assert_eq!(rendered, vec![Vec3::new(0, 0, -1_332_000_000)]);
}

#[test]
fn after_the_loop_input_is_cleared_only_if_a_tick_ran() {
    let time = FixedTime::new(10, 5).unwrap();
    let mut steered = MovableBody::at(Vec3::new(10, 0, 0));
    accumulate_input(&FORWARD, &Heading::default(), &mut steered);
    let other = MovableBody::at(Vec3::new(0, 0, 10));

    let mut bodies = vec![steered, other];
    let rendered = after_fixed_main_loop(&time, &DidFixedTimestepRunThisFrame(false), &mut bodies);
    assert_eq!(bodies, vec![steered, other]);
    assert_eq!(bodies[0].input.movement, Vec2::new(0, 1));
    assert_eq!(rendered, vec![Vec3::new(10, 0, 0), Vec3::new(0, 0, 10)]);

    let rendered = after_fixed_main_loop(&time, &DidFixedTimestepRunThisFrame(true), &mut bodies);
    assert_eq!(bodies[0].input.movement, Vec2::zero());
    assert_eq!(bodies[0].velocity, steered.velocity);
    assert_eq!(bodies[0].translation, steered.translation);
    assert_eq!(bodies[0].previous_translation, steered.previous_translation);
    assert_eq!(bodies[1], other);
    assert_eq!(rendered, vec![Vec3::new(10, 0, 0), Vec3::new(0, 0, 10)]);
}

#[test]
fn begin_frame_lowers_the_flag_and_turns_the_camera() {
    let mut flag = DidFixedTimestepRunThisFrame(true);
    let mut orientation = Orientation::default();
    begin_frame(Vec2::new(100, 0), &mut flag, &mut orientation, &CameraSensitivity::default());
    assert!(!flag.0);
    assert_eq!(orientation.yaw(), -300_000);
    assert_eq!(orientation.pitch(), 0);
    let before = orientation;
    begin_frame(Vec2::zero(), &mut flag, &mut orientation, &CameraSensitivity::default());
    assert_eq!(orientation, before);
}

#[test]
fn a_long_frame_catches_up_with_several_ticks() {
    let mut time = FixedTime::default();
    let mut flag = DidFixedTimestepRunThisFrame(false);
    let still = MovableBody::at(Vec3::new(5, 5, 5));
    let mut bodies = vec![still, MovableBody::at(Vec3::zero())];
    let heading = Heading::default();
    // 50 ms at 15.625 ms a step: three steps, 3.125 ms left
    assert!(can_finish_frame(&FORWARD, &heading, 50_000, 8, &time, &bodies, 1));
    let rendered = finish_frame(&FORWARD, &heading, 50_000, 8, &mut time, &mut flag, &mut bodies, 1);
    assert!(flag.0);
    assert_eq!(time.overstep(), 3_125);
    assert_eq!(bodies[0], still);
    assert_eq!(bodies[1].translation.0, Vec3::new(0, 0, -3 * 4 * UNIT * 15_625));
    assert_eq!(bodies[1].previous_translation.0, Vec3::new(0, 0, -2 * 4 * UNIT * 15_625));
    assert_eq!(bodies[1].input.movement, Vec2::zero());
    // a fifth of the way from the second step to the third
    assert_eq!(rendered[0], Vec3::new(5, 5, 5));
    assert_eq!(rendered[1], Vec3::new(0, 0, -(2 * 4 * UNIT * 15_625 + 4 * UNIT * 3_125)));
}

#[test]
fn a_very_long_frame_runs_no_more_ticks_than_the_cap() {
    let mut time = FixedTime::default();
    let mut flag = DidFixedTimestepRunThisFrame(false);
    let mut bodies = vec![MovableBody::at(Vec3::zero())];
    let heading = Heading::default();
    let rendered = finish_frame(&FORWARD, &heading, 10_000_000, 5, &mut time, &mut flag, &mut bodies, 0);
    assert_eq!(bodies[0].translation.0, Vec3::new(0, 0, -5 * 4 * UNIT * 15_625));
    assert_eq!(time.overstep(), 0);
    assert_eq!(rendered[0], Vec3::new(0, 0, -4 * 4 * UNIT * 15_625));
}

#[test]
fn can_finish_frame_reckons_with_the_velocity_of_this_frame() {
    let time = FixedTime::new(10, 0).unwrap();
    let heading = Heading::default();
    // one step forward at walking speed moves by 40 million; the edge is nearer than that
    let mut at_edge = MovableBody::at(Vec3::new(0, 0, i64::MIN + 39_999_999));
    assert!(!can_finish_frame(&FORWARD, &heading, 10, 8, &time, &vec![at_edge], 0));
    assert!(can_finish_frame(&NOTHING, &heading, 10, 8, &time, &vec![at_edge], 0));
    assert!(can_finish_frame(&FORWARD, &heading, 9, 8, &time, &vec![at_edge], 0));
    // the velocity left from an earlier frame does not count for the player
    at_edge.velocity = Velocity(Vec3::new(0, 0, -4 * UNIT));
    assert!(can_finish_frame(&NOTHING, &heading, 10, 8, &time, &vec![at_edge], 0));
    // but it does for a body that nobody steers
    assert!(!can_finish_frame(&NOTHING, &heading, 10, 8, &time, &vec![MovableBody::at(Vec3::zero()), at_edge], 0));
    let near = MovableBody::at(Vec3::new(0, 0, i64::MIN + 40_000_000));
    let mut bodies = vec![near];
    let mut clock = time;
    let mut flag = DidFixedTimestepRunThisFrame(false);
    assert!(can_finish_frame(&FORWARD, &heading, 10, 8, &clock, &bodies, 0));
    finish_frame(&FORWARD, &heading, 10, 8, &mut clock, &mut flag, &mut bodies, 0);
    assert_eq!(bodies[0].translation.0.z, i64::MIN);
}

#[test]
fn the_usual_cap_is_a_quarter_of_a_second_of_steps() {
    let mut time = FixedTime::default();
    assert_eq!(time.pending(250_000, MAX_TICKS_PER_FRAME), 16);
    assert_eq!(time.accumulate(1_000_000, MAX_TICKS_PER_FRAME), 16);
    assert_eq!(time.overstep(), 0);
}

#[test]
fn markers_are_plain_values() {
    assert_eq!(Player {}, Player {});
    assert_eq!(ViewModel {}, ViewModel {});
    assert_eq!(WorldModelCamera, WorldModelCamera);
}

#[test]
fn try_finish_frame_runs_the_frame_or_touches_nothing() {
    let heading = Heading::default();
    let mut time = FixedTime::new(10, 0).unwrap();
    let mut flag = DidFixedTimestepRunThisFrame(false);
    let mut bodies = vec![MovableBody::at(Vec3::new(0, 0, i64::MIN + 40_000_000))];

    // no such player
    assert_eq!(try_finish_frame(&FORWARD, &heading, 10, 8, &mut time, &mut flag, &mut bodies, 1), None);
    // two steps would leave what can be stored
    assert_eq!(try_finish_frame(&FORWARD, &heading, 20, 8, &mut time, &mut flag, &mut bodies, 0), None);
    assert_eq!(time, FixedTime::new(10, 0).unwrap());
    assert!(!flag.0);
    assert_eq!(bodies, vec![MovableBody::at(Vec3::new(0, 0, i64::MIN + 40_000_000))]);

    // one step fits, and a little more time
    let rendered = try_finish_frame(&FORWARD, &heading, 15, 8, &mut time, &mut flag, &mut bodies, 0);
    assert_eq!(rendered, Some(vec![Vec3::new(0, 0, i64::MIN + 20_000_000)]));
    assert!(flag.0);
    assert_eq!(time.overstep(), 5);
    assert_eq!(bodies[0].translation.0, Vec3::new(0, 0, i64::MIN));
    assert_eq!(bodies[0].previous_translation.0, Vec3::new(0, 0, i64::MIN + 40_000_000));
    assert_eq!(bodies[0].input.movement, Vec2::zero());
}

#[test]
fn looking_up_or_down_does_not_lift_the_player() {
    let sensitivity = CameraSensitivity::default();
    let mut orientation = Orientation::default();
    let mut flag = DidFixedTimestepRunThisFrame(false);
    let mut time = FixedTime::default();
    let mut bodies = vec![MovableBody::at(Vec3::zero())];
    // look up as far as it goes; the heading is still the one of yaw zero
    begin_frame(Vec2::new(0, -1_000_000), &mut flag, &mut orientation, &sensitivity);
    assert_eq!(orientation.yaw(), 0);
    assert!(orientation.pitch() > 0);
    let heading = Heading::default();
    let rendered = finish_frame(&FORWARD, &heading, 15_625, 8, &mut time, &mut flag, &mut bodies, 0);
    assert_eq!(bodies[0].translation.0, Vec3::new(0, 0, -4 * UNIT * 15_625));
    assert_eq!(bodies[0].translation.0.y, 0);
    assert_eq!(rendered[0].y, 0);
}
