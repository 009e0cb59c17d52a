//! The systems of a render frame, in the order in which a frame runs them: turn the
//! camera, gather the input, run the fixed steps that are due, clear the input that
//! they used, and place what is drawn.

use vstd::prelude::*;
use crate::camera::{
    clamp_pitch, lemma_clamp_pitch, lemma_turn_of_level, lemma_wrap_angle, wrap_angle, Bearing,
    Heading, Orientation,
};
use crate::components::{
    AccumulatedInput, CameraSensitivity, DidFixedTimestepRunThisFrame, MovableBody, Velocity,
};
use crate::math::{
    lemma_clamp_length_max, lemma_clamp_length_max_near, Vec2, Vec3, Vector3, UNIT,
};
use crate::time::FixedTime;

verus! {

/// How fast the player walks, in length units per second.
pub const MOVE_SPEED: i64 = 4;

/// How far below walking speed the player may walk, in millionths of a length unit per
/// second: what the rounding of the heading and of the direction can take.
pub const SPEED_ROUNDING: i64 = 10;

/// Which of the four movement keys are held down.
#[derive(Clone, Copy, Debug, PartialEq, Eq, Structural)]
pub struct MovementKeys {
    pub forward: bool,
    pub back: bool,
    pub left: bool,
    pub right: bool,
}

/// What a pair of opposing keys asks for: +1 or -1 if one of them is held, nothing if
/// neither is, and nothing if both are.
pub open spec fn axis(positive: bool, negative: bool) -> i32 {
    if positive && !negative {
        1
    } else if negative && !positive {
        -1i32
    } else {
        0
    }
}

/// The movement that the held keys ask for.
pub open spec fn net_movement(keys: MovementKeys) -> Vec2 {
    Vec2 { x: axis(keys.right, keys.left), y: axis(keys.forward, keys.back) }
}

/// The direction in the camera's own space that a movement input stands for: forward
/// is the camera's -Z, right is its +X, and nobody walks up or down.
pub open spec fn input_direction(movement: Vec2) -> Vector3 {
    Vector3 { x: movement.x as int, y: 0, z: -(movement.y as int) }
}

/// The velocity that a movement input gives a camera with the given heading: the
/// input's direction turned to where the camera faces, no longer than one, at walking
/// speed.
pub open spec fn movement_velocity(movement: Vec2, heading: Bearing) -> Vector3 {
    heading.turn(input_direction(movement)).clamp_length_max(UNIT as int).scaled(
        MOVE_SPEED as int,
    )
}

/// The player's body once the input of a frame is gathered: the held keys are its input,
/// the velocity that they ask for is its velocity, and it stands where it stood.
pub open spec fn steered(body: MovableBody, keys: MovementKeys, heading: Bearing) -> MovableBody {
    MovableBody {
        input: AccumulatedInput { movement: net_movement(keys) },
        velocity: Velocity(movement_velocity(net_movement(keys), heading).stored()),
        ..body
    }
}

/// Held together, two opposing keys cancel.
pub proof fn lemma_opposing_keys_cancel(keys: MovementKeys)
    ensures
        keys.forward && keys.back ==> net_movement(keys).y == 0,
        keys.left && keys.right ==> net_movement(keys).x == 0,
{
}

/// No coordinate of a vector is longer than the vector.
proof fn lemma_coordinates_within_norm(v: Vector3, max: int)
    requires
        max >= 0,
        v.norm_squared() <= max * max,
    ensures
        -max <= v.x <= max,
        -max <= v.y <= max,
        -max <= v.z <= max,
{
    assert(-max <= v.x <= max) by (nonlinear_arith)
        requires
            max >= 0,
            v.x * v.x + v.y * v.y + v.z * v.z <= max * max,
    ;
    assert(-max <= v.y <= max) by (nonlinear_arith)
        requires
            max >= 0,
            v.x * v.x + v.y * v.y + v.z * v.z <= max * max,
    ;
    assert(-max <= v.z <= max) by (nonlinear_arith)
        requires
            max >= 0,
            v.x * v.x + v.y * v.y + v.z * v.z <= max * max,
    ;
}

/// Whatever is held and wherever the camera faces, the movement is level, its direction
/// is no longer than one before it is scaled, and the velocity is no faster than
/// walking speed.
pub proof fn lemma_movement_velocity_bounded(movement: Vec2, heading: Bearing)
    ensures
        heading.turn(input_direction(movement)).clamp_length_max(UNIT as int).norm_squared()
            <= UNIT * UNIT,
        movement_velocity(movement, heading).norm_squared() <= (MOVE_SPEED * UNIT) * (MOVE_SPEED
            * UNIT),
        movement_velocity(movement, heading).y == 0,
{
    let turned = heading.turn(input_direction(movement));
    lemma_turn_of_level(heading, input_direction(movement));
    lemma_clamp_length_max(turned, UNIT as int);
    let c = turned.clamp_length_max(UNIT as int);
    let s = MOVE_SPEED as int;
    assert(c.y == 0);
    assert(c.y * s == 0) by (nonlinear_arith)
        requires
            c.y == 0,
    ;
    lemma_square_of_product(c.x, s);
    lemma_square_of_product(c.y, s);
    lemma_square_of_product(c.z, s);
    lemma_square_of_product(UNIT as int, s);
    let xx = c.x * c.x;
    let yy = c.y * c.y;
    let zz = c.z * c.z;
    let ss = s * s;
    assert((xx + yy + zz) * ss == xx * ss + yy * ss + zz * ss) by (nonlinear_arith);
    assert((xx + yy + zz) * ss <= (UNIT * UNIT) * ss) by (nonlinear_arith)
        requires
            xx + yy + zz <= UNIT * UNIT,
            ss >= 0,
    ;
}

/// With a heading of length exactly one, a single held axis gives walking speed
/// exactly: the direction is as long as one already, so nothing is taken from it.
pub proof fn lemma_single_axis_speed(movement: Vec2, heading: Bearing)
    requires
        heading.norm_squared() == UNIT * UNIT,
        (movement.x == 0 && (movement.y == 1 || movement.y == -1)) || (movement.y == 0 && (
        movement.x == 1 || movement.x == -1)),
    ensures
        movement_velocity(movement, heading).norm_squared() == (MOVE_SPEED * UNIT) * (MOVE_SPEED
            * UNIT),
{
    let local = input_direction(movement);
    let turned = heading.turn(local);
    lemma_turn_of_level(heading, local);
    assert(local.x * local.x + local.z * local.z == 1) by (nonlinear_arith)
        requires
            (local.x == 0 && (local.z == 1 || local.z == -1)) || (local.z == 0 && (local.x == 1
                || local.x == -1)),
    ;
    assert(1 * heading.norm_squared() == heading.norm_squared()) by (nonlinear_arith);
    lemma_clamp_length_max(turned, UNIT as int);
    let s = MOVE_SPEED as int;
    lemma_square_of_product(turned.x, s);
    lemma_square_of_product(turned.y, s);
    lemma_square_of_product(turned.z, s);
    lemma_square_of_product(UNIT as int, s);
    let xx = turned.x * turned.x;
    let yy = turned.y * turned.y;
    let zz = turned.z * turned.z;
    let ss = s * s;
    assert((xx + yy + zz) * ss == xx * ss + yy * ss + zz * ss) by (nonlinear_arith);
}

/// Whether a movement input asks for anything, each axis being -1, 0 or +1.
pub open spec fn is_held(movement: Vec2) -> bool {
    &&& -1 <= movement.x <= 1
    &&& -1 <= movement.y <= 1
    &&& movement != Vec2::spec_zero()
}

/// Whenever a movement is asked for, the player walks at walking speed: not faster,
/// and slower by less than [`SPEED_ROUNDING`], along one axis or along two.
pub proof fn lemma_walking_speed(movement: Vec2, heading: Bearing)
    requires
        heading.is_unit(),
        is_held(movement),
    ensures
        (MOVE_SPEED * UNIT - SPEED_ROUNDING) * (MOVE_SPEED * UNIT - SPEED_ROUNDING)
            <= movement_velocity(movement, heading).norm_squared(),
        movement_velocity(movement, heading).norm_squared() <= (MOVE_SPEED * UNIT) * (MOVE_SPEED
            * UNIT),
{
    lemma_movement_velocity_bounded(movement, heading);
    let local = input_direction(movement);
    let turned = heading.turn(local);
    lemma_turn_of_level(heading, local);
    let k = local.x * local.x + local.z * local.z;
    let n = heading.norm_squared();
    assert(k >= 1) by (nonlinear_arith)
        requires
            k == local.x * local.x + local.z * local.z,
            local.x != 0 || local.z != 0,
    ;
    assert(k * n >= n) by (nonlinear_arith)
        requires
            k >= 1,
            n >= 0,
    ;
    let c = turned.clamp_length_max(UNIT as int);
    assert(UNIT * UNIT == 1_000_000_000_000) by (nonlinear_arith);
    assert((2 * UNIT - 5) * (2 * UNIT - 5) == 3_999_980_000_025) by (nonlinear_arith);
    if turned.norm_squared() > UNIT * UNIT {
        lemma_clamp_length_max_near(turned, UNIT as int);
    } else {
        lemma_clamp_length_max(turned, UNIT as int);
    }
    assert(4 * c.norm_squared() >= 3_999_980_000_025);
    let s = MOVE_SPEED as int;
    lemma_square_of_product(c.x, s);
    lemma_square_of_product(c.y, s);
    lemma_square_of_product(c.z, s);
    let xx = c.x * c.x;
    let yy = c.y * c.y;
    let zz = c.z * c.z;
    let ss = s * s;
    assert(ss == 16) by (nonlinear_arith)
        requires
            ss == s * s,
            s == 4,
    ;
    assert((xx + yy + zz) * ss == xx * ss + yy * ss + zz * ss) by (nonlinear_arith);
    assert((xx + yy + zz) * ss == 16 * (xx + yy + zz)) by (nonlinear_arith)
        requires
            ss == 16,
    ;
    assert((MOVE_SPEED * UNIT - SPEED_ROUNDING) * (MOVE_SPEED * UNIT - SPEED_ROUNDING)
        == 15_999_920_000_100) by (nonlinear_arith);
}

/// The square of a product is the product of the squares.
proof fn lemma_square_of_product(a: int, s: int)
    ensures
        (a * s) * (a * s) == (a * a) * (s * s),
        (s * a) * (s * a) == (a * a) * (s * s),
        s * s >= 0,
{
    assert((a * s) * (a * s) == (a * a) * (s * s)) by (nonlinear_arith);
    assert((s * a) * (s * a) == (a * a) * (s * s)) by (nonlinear_arith);
    assert(s * s >= 0) by (nonlinear_arith);
}

/// Handles updating the positions of all bodies by one fixed step: each body remembers
/// where it stands, then moves by its velocity times the step.
pub fn advance_physics(fixed_time: &FixedTime, bodies: &mut Vec<MovableBody>)
    requires
        forall|i: int|
            0 <= i < old(bodies).len() ==> (#[trigger] old(bodies)[i]).in_reach(
                fixed_time.timestep() as int,
                1,
            ),
    ensures
        final(bodies).len() == old(bodies).len(),
        forall|i: int|
            0 <= i < old(bodies).len() ==> (#[trigger] final(bodies)[i]).has_advanced_from(
                old(bodies)[i],
                fixed_time.timestep() as int,
                1,
            ),
{
    let fixed_delta: u32 = fixed_time.timestep();
    let count: usize = bodies.len();
    let mut index: usize = 0;
    while index < count
        invariant
            index <= count,
            count == bodies.len(),
            bodies.len() == old(bodies).len(),
            fixed_delta == fixed_time.timestep(),
            forall|i: int|
                0 <= i < index ==> (#[trigger] bodies[i]).has_advanced_from(
                    old(bodies)[i],
                    fixed_delta as int,
                    1,
                ),
            forall|i: int| index <= i < count ==> bodies[i] == old(bodies)[i],
            forall|i: int|
                0 <= i < count ==> (#[trigger] old(bodies)[i]).in_reach(fixed_delta as int, 1),
        decreases count - index,
    {
        let mut body: MovableBody = bodies[index];
        body.advance(fixed_delta);
        bodies.set(index, body);
        index += 1;
    }
}

/// Accumulates the player's input and sets the movement velocity from it: the held keys
/// give a level direction in the camera's space, the camera's heading turns it to where
/// the camera faces, and the result, no longer than one, is scaled to walking speed.
/// Where the camera looks up or down makes no difference: the player never leaves the
/// ground by walking. The velocity is written anew each frame; nothing of the old one
/// is kept.
pub fn accumulate_input(keys: &MovementKeys, heading: &Heading, player: &mut MovableBody)
    ensures
        *final(player) == steered(*old(player), *keys, heading@),
        final(player).input.movement == net_movement(*keys),
        final(player).velocity.0@ == movement_velocity(net_movement(*keys), heading@),
        final(player).velocity.0.y == 0,
        final(player).velocity.0@.norm_squared() <= (MOVE_SPEED * UNIT) * (MOVE_SPEED * UNIT),
        net_movement(*keys) != Vec2::spec_zero() ==> (MOVE_SPEED * UNIT - SPEED_ROUNDING) * (
        MOVE_SPEED * UNIT - SPEED_ROUNDING) <= final(player).velocity.0@.norm_squared(),
        final(player).translation == old(player).translation,
        final(player).previous_translation == old(player).previous_translation,
{
    // Reset the input to zero before reading the new input
    let mut movement = Vec2::zero();
    if keys.forward {
        movement.y += 1;
    }
    if keys.back {
        movement.y -= 1;
    }
    if keys.left {
        movement.x -= 1;
    }
    if keys.right {
        movement.x += 1;
    }
    player.input.movement = movement;

    // Pressing forward makes `movement.y` go up, and -Z is forward
    let input_3d = Vec3 { x: movement.x as i64, y: 0, z: -(movement.y as i64) };
    let turned_input = heading.turn(input_3d);
    let direction = turned_input.clamp_length_max(UNIT);
    proof {
        lemma_coordinates_within_norm(direction@, UNIT as int);
        lemma_movement_velocity_bounded(movement, heading@);
        if movement != Vec2::spec_zero() {
            lemma_walking_speed(movement, heading@);
        }
    }
    player.velocity = Velocity(direction.scaled(MOVE_SPEED));
}

/// Clears the input after a fixed step has used it.
pub fn clear_input(input: &mut AccumulatedInput)
    ensures
        *final(input) == (AccumulatedInput { movement: Vec2::spec_zero() }),
{
    *input = AccumulatedInput::default();
}

/// Whether `after` is what the orientation `before` becomes by the pointer motion
/// `delta`. Without motion it is `before` itself. Otherwise the heading has turned
/// against the motion to the side and wrapped around, the pitch has turned against the
/// motion up or down and stopped at its limit, and the roll is as it was.
pub open spec fn is_turned(
    after: Orientation,
    before: Orientation,
    delta: Vec2,
    sensitivity: CameraSensitivity,
) -> bool {
    if delta == Vec2::spec_zero() {
        after == before
    } else {
        &&& after.yaw() == wrap_angle(before.yaw() + (-delta.x * sensitivity.0.x))
        &&& after.pitch() == clamp_pitch(before.pitch() + (-delta.y * sensitivity.0.y))
        &&& after.roll() == before.roll()
    }
}

/// However far the pointer moves, a camera that is turned keeps its pitch within the
/// limit and its yaw within half a turn of zero.
pub proof fn lemma_turned_stays_in_range(
    after: Orientation,
    before: Orientation,
    delta: Vec2,
    sensitivity: CameraSensitivity,
)
    requires
        is_turned(after, before, delta, sensitivity),
        before.in_range(),
    ensures
        after.in_range(),
{
    lemma_wrap_angle(before.yaw() + (-delta.x * sensitivity.0.x));
    lemma_clamp_pitch(before.pitch() + (-delta.y * sensitivity.0.y));
}

/// Turns the camera by the pointer's motion since the last frame. Motion to the right
/// turns the heading to the right, which is the negative sense; motion down looks down.
/// The heading wraps around, the pitch stops at its limit, the roll stays as it is.
/// Without motion nothing is touched.
pub fn rotate_camera(delta: Vec2, orientation: &mut Orientation, sensitivity: &CameraSensitivity)
    ensures
        is_turned(*final(orientation), *old(orientation), delta, *sensitivity),
        final(orientation).in_range(),
{
    if !delta.is_zero() {
        // The pointer's motion is the whole turn already; no time enters into it
        let delta_yaw: i64 = scaled_turn(delta.x, sensitivity.0.x);
        let delta_pitch: i64 = scaled_turn(delta.y, sensitivity.0.y);
        let yaw: i64 = orientation.yaw() as i64 + delta_yaw;
        let pitch: i64 = orientation.pitch() as i64 + delta_pitch;
        *orientation = Orientation::from_euler(yaw, pitch, orientation.roll());
    } else {
        let _ = orientation.yaw();
        let _ = orientation.pitch();
    }
}

/// The turn that `motion` counts of the pointer make at `rate` microradians a count,
/// against the sense of the motion.
fn scaled_turn(motion: i32, rate: i32) -> (turn: i64)
    ensures
        turn == -motion * rate,
        -0x4000_0000_0000_0000 <= turn <= 0x4000_0000_0000_0000,
{
    let m: i64 = motion as i64;
    let r: i64 = rate as i64;
    assert(-0x4000_0000_0000_0000 <= (-m) * r <= 0x4000_0000_0000_0000) by (nonlinear_arith)
        requires
            -0x8000_0000 <= m <= 0x8000_0000,
            -0x8000_0000 <= r <= 0x8000_0000,
    ;
    (-m) * r
}

/// Tells where to draw each body: between where it stood before the latest fixed step
/// and where it stands now, as far along as the clock has run into the next step.
/// The bodies themselves are only read.
pub fn interpolate_rendered_transform(fixed_time: &FixedTime, bodies: &Vec<MovableBody>) -> (rendered: Vec<Vec3>)
    ensures
        rendered.len() == bodies.len(),
        forall|i: int|
            0 <= i < bodies.len() ==> (#[trigger] rendered[i])@ == bodies[i].rendered_at(
                fixed_time.overstep() as int,
                fixed_time.timestep() as int,
            ),
{
    let timestep: u32 = fixed_time.timestep();
    let overstep: u32 = fixed_time.overstep();
    let mut rendered: Vec<Vec3> = Vec::new();
    let mut index: usize = 0;
    while index < bodies.len()
        invariant
            index <= bodies.len(),
            rendered.len() == index,
            timestep == fixed_time.timestep(),
            overstep == fixed_time.overstep(),
            overstep < timestep,
            forall|i: int|
                0 <= i < index ==> (#[trigger] rendered[i])@ == bodies[i].rendered_at(
                    overstep as int,
                    timestep as int,
                ),
        decreases bodies.len() - index,
    {
        // The overstep fraction tells how far we are between two fixed steps
        rendered.push(bodies[index].interpolated(overstep, timestep));
        index += 1;
    }
    rendered
}

/// Resets the flag at the start of every frame.
pub fn clear_fixed_timestep_flag(flag: &mut DidFixedTimestepRunThisFrame)
    ensures
        final(flag).0 == false,
{
    flag.0 = false;
}

/// Sets the flag during each fixed step.
pub fn set_fixed_time_step_flag(flag: &mut DidFixedTimestepRunThisFrame)
    ensures
        final(flag).0 == true,
{
    flag.0 = true;
}

/// Whether a fixed step ran this frame.
pub fn did_fixed_timestep_run_this_frame(flag: &DidFixedTimestepRunThisFrame) -> (ran: bool)
    ensures
        ran == flag.0,
{
    flag.0
}

} // verus!
