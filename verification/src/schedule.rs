//! The fixed-step part of a render frame: the catch-up loop that runs the steps that
//! are due, and what follows it.

use vstd::prelude::*;
use crate::camera::{Bearing, Heading, Orientation};
use crate::components::{
    lemma_advance_composes, lemma_in_reach_between, lemma_in_reach_now, lemma_next_step,
    AccumulatedInput, CameraSensitivity, DidFixedTimestepRunThisFrame, MovableBody,
};
use crate::math::{Vec2, Vec3};
use crate::physics::{
    accumulate_input, advance_physics, clear_fixed_timestep_flag, clear_input,
    did_fixed_timestep_run_this_frame, interpolate_rendered_transform, is_turned, rotate_camera,
    set_fixed_time_step_flag, steered, MovementKeys,
};
use crate::time::FixedTime;

verus! {

/// How many fixed steps a frame runs at most, unless its caller says otherwise. A frame
/// that took longer than that many steps drops the rest, so that the simulation cannot
/// fall further and further behind.
pub const MAX_TICKS_PER_FRAME: u32 = 16;

/// Whether every body can take the fixed steps that are due once `frame_delta` more
/// microseconds have passed.
pub open spec fn all_in_reach(
    fixed_time: FixedTime,
    frame_delta: int,
    max_ticks: int,
    bodies: Seq<MovableBody>,
) -> bool {
    forall|i: int|
        0 <= i < bodies.len() ==> (#[trigger] bodies[i]).in_reach(
            fixed_time.timestep() as int,
            fixed_time.pending_ticks(frame_delta, max_ticks),
        )
}

/// While no fixed step is due, every body can take the steps that are due.
pub proof fn lemma_nothing_due_is_in_reach(
    fixed_time: FixedTime,
    frame_delta: int,
    max_ticks: int,
    bodies: Seq<MovableBody>,
)
    requires
        fixed_time.pending_ticks(frame_delta, max_ticks) == 0,
    ensures
        all_in_reach(fixed_time, frame_delta, max_ticks, bodies),
{
    assert forall|i: int| 0 <= i < bodies.len() implies (#[trigger] bodies[i]).in_reach(
        fixed_time.timestep() as int,
        0,
    ) by {
        lemma_in_reach_now(bodies[i], fixed_time.timestep() as int);
    }
}

/// Tells whether every body can take the fixed steps that are due once `frame_delta`
/// more microseconds have passed.
pub fn can_run_fixed_main_loop(
    frame_delta: u32,
    max_ticks: u32,
    fixed_time: &FixedTime,
    bodies: &Vec<MovableBody>,
) -> (ok: bool)
    ensures
        ok == all_in_reach(*fixed_time, frame_delta as int, max_ticks as int, bodies@),
{
    let ticks: u32 = fixed_time.pending(frame_delta, max_ticks);
    let fixed_delta: u32 = fixed_time.timestep();
    let mut index: usize = 0;
    while index < bodies.len()
        invariant
            index <= bodies.len(),
            ticks == fixed_time.pending_ticks(frame_delta as int, max_ticks as int),
            fixed_delta == fixed_time.timestep(),
            forall|i: int|
                0 <= i < index ==> (#[trigger] bodies[i]).in_reach(
                    fixed_delta as int,
                    ticks as int,
                ),
        decreases bodies.len() - index,
    {
        if !bodies[index].can_advance(fixed_delta, ticks) {
            return false;
        }
        index += 1;
    }
    true
}

/// Lets `frame_delta` microseconds pass and runs the fixed steps that are now due, at
/// most `max_ticks` of them: each step raises the flag and advances every body. Says
/// how many steps ran.
pub fn run_fixed_main_loop(
    frame_delta: u32,
    max_ticks: u32,
    fixed_time: &mut FixedTime,
    flag: &mut DidFixedTimestepRunThisFrame,
    bodies: &mut Vec<MovableBody>,
) -> (ticks: u32)
    requires
        all_in_reach(*old(fixed_time), frame_delta as int, max_ticks as int, old(bodies)@),
    ensures
        ticks == old(fixed_time).pending_ticks(frame_delta as int, max_ticks as int),
        final(fixed_time).timestep() == old(fixed_time).timestep(),
        final(fixed_time).overstep() == old(fixed_time).overstep_after(frame_delta as int),
        final(flag).0 == (old(flag).0 || ticks > 0),
        final(bodies).len() == old(bodies).len(),
        forall|i: int|
            0 <= i < old(bodies).len() ==> (#[trigger] final(bodies)[i]).has_advanced_from(
                old(bodies)[i],
                old(fixed_time).timestep() as int,
                ticks as int,
            ),
{
    let ticks: u32 = fixed_time.accumulate(frame_delta, max_ticks);
    let ghost fixed_delta: int = fixed_time.timestep() as int;
    let mut done: u32 = 0;
    while done < ticks
        invariant
            done <= ticks,
            fixed_delta == fixed_time.timestep(),
            fixed_delta == old(fixed_time).timestep(),
            fixed_time.overstep() == old(fixed_time).overstep_after(frame_delta as int),
            ticks == old(fixed_time).pending_ticks(frame_delta as int, max_ticks as int),
            flag.0 == (old(flag).0 || done > 0),
            bodies.len() == old(bodies).len(),
            forall|i: int|
                0 <= i < old(bodies).len() ==> (#[trigger] old(bodies)[i]).in_reach(
                    fixed_delta,
                    ticks as int,
                ),
            forall|i: int|
                0 <= i < old(bodies).len() ==> (#[trigger] bodies[i]).has_advanced_from(
                    old(bodies)[i],
                    fixed_delta,
                    done as int,
                ),
        decreases ticks - done,
    {
        let ghost before = bodies@;
        assert forall|i: int| 0 <= i < bodies.len() implies (#[trigger] bodies[i]).in_reach(
            fixed_delta,
            1,
        ) by {
            lemma_next_step(old(bodies)[i], bodies[i], fixed_delta, done as int);
            lemma_in_reach_between(old(bodies)[i], fixed_delta, ticks as int, done + 1);
        }
        set_fixed_time_step_flag(flag);
        advance_physics(fixed_time, bodies);
        assert forall|i: int| 0 <= i < old(bodies).len() implies (#[trigger] bodies[i]).has_advanced_from(
            old(bodies)[i],
            fixed_delta,
            done + 1,
        ) by {
            lemma_advance_composes(old(bodies)[i], before[i], bodies[i], fixed_delta, done as int);
        }
        done += 1;
    }
    ticks
}

/// What a body is after the fixed steps of a frame: as it was, but with its input
/// cleared if a step ran. Input that no step has used yet is kept.
pub open spec fn after_steps(body: MovableBody, ran: bool) -> MovableBody {
    if ran {
        MovableBody { input: AccumulatedInput { movement: Vec2::spec_zero() }, ..body }
    } else {
        body
    }
}

/// What follows the fixed steps of a frame: the input is cleared if a step ran this
/// frame, and only then; after that each body is placed for drawing.
pub fn after_fixed_main_loop(
    fixed_time: &FixedTime,
    flag: &DidFixedTimestepRunThisFrame,
    bodies: &mut Vec<MovableBody>,
) -> (rendered: Vec<Vec3>)
    ensures
        final(bodies).len() == old(bodies).len(),
        forall|i: int|
            0 <= i < old(bodies).len() ==> (#[trigger] final(bodies)[i]) == after_steps(
                old(bodies)[i],
                flag.0,
            ),
        rendered.len() == old(bodies).len(),
        forall|i: int|
            0 <= i < old(bodies).len() ==> (#[trigger] rendered[i])@ == old(bodies)[i].rendered_at(
                fixed_time.overstep() as int,
                fixed_time.timestep() as int,
            ),
{
    if did_fixed_timestep_run_this_frame(flag) {
        let count: usize = bodies.len();
        let mut index: usize = 0;
        while index < count
            invariant
                index <= count,
                count == bodies.len(),
                bodies.len() == old(bodies).len(),
                forall|i: int|
                    0 <= i < index ==> (#[trigger] bodies[i]) == after_steps(old(bodies)[i], true),
                forall|i: int| index <= i < count ==> bodies[i] == old(bodies)[i],
            decreases count - index,
        {
            let mut body: MovableBody = bodies[index];
            clear_input(&mut body.input);
            bodies.set(index, body);
            index += 1;
        }
    }
    interpolate_rendered_transform(fixed_time, bodies)
}

/// Starts a render frame: lowers the flag, then turns the camera by the pointer's motion
/// since the last frame. The camera is turned first of all, so that the movement of
/// this frame goes where the camera now looks.
pub fn begin_frame(
    pointer_delta: Vec2,
    flag: &mut DidFixedTimestepRunThisFrame,
    orientation: &mut Orientation,
    sensitivity: &CameraSensitivity,
)
    ensures
        final(flag).0 == false,
        is_turned(*final(orientation), *old(orientation), pointer_delta, *sensitivity),
        final(orientation).in_range(),
{
    clear_fixed_timestep_flag(flag);
    rotate_camera(pointer_delta, orientation, sensitivity);
}

/// The bodies once the input of a frame is gathered: the player is steered by the held
/// keys, the others are as they were.
pub open spec fn frame_start(
    bodies: Seq<MovableBody>,
    player: int,
    keys: MovementKeys,
    heading: Bearing,
) -> Seq<MovableBody>
    recommends
        0 <= player < bodies.len(),
{
    bodies.update(player, steered(bodies[player], keys, heading))
}

/// Whether `after` is what the body `start` is at the end of a frame in which `ticks`
/// fixed steps of `fixed_delta` microseconds ran: it has taken the steps, and its input
/// is cleared if `ran` says that a step ran this frame, and kept if not.
pub open spec fn is_frame_end(
    after: MovableBody,
    start: MovableBody,
    fixed_delta: int,
    ticks: int,
    ran: bool,
) -> bool {
    &&& (MovableBody { input: start.input, ..after }).has_advanced_from(start, fixed_delta, ticks)
    &&& after.input == after_steps(start, ran).input
}

/// Tells whether every body can take the fixed steps of this frame, the player at the
/// velocity that the held keys give it.
pub fn can_finish_frame(
    keys: &MovementKeys,
    heading: &Heading,
    frame_delta: u32,
    max_ticks: u32,
    fixed_time: &FixedTime,
    bodies: &Vec<MovableBody>,
    player: usize,
) -> (ok: bool)
    requires
        player < bodies.len(),
    ensures
        ok == all_in_reach(
            *fixed_time,
            frame_delta as int,
            max_ticks as int,
            frame_start(bodies@, player as int, *keys, heading@),
        ),
{
    let ticks: u32 = fixed_time.pending(frame_delta, max_ticks);
    let fixed_delta: u32 = fixed_time.timestep();
    let ghost start = frame_start(bodies@, player as int, *keys, heading@);
    let mut index: usize = 0;
    while index < bodies.len()
        invariant
            index <= bodies.len(),
            player < bodies.len(),
            start == frame_start(bodies@, player as int, *keys, heading@),
            ticks == fixed_time.pending_ticks(frame_delta as int, max_ticks as int),
            fixed_delta == fixed_time.timestep(),
            forall|i: int|
                0 <= i < index ==> (#[trigger] start[i]).in_reach(fixed_delta as int, ticks as int),
        decreases bodies.len() - index,
    {
        let mut body: MovableBody = bodies[index];
        if index == player {
            accumulate_input(keys, heading, &mut body);
        }
        assert(body == start[index as int]);
        if !body.can_advance(fixed_delta, ticks) {
            return false;
        }
        index += 1;
    }
    true
}

/// Runs a render frame from the point where the camera has been turned: gathers the
/// player's input, lets `frame_delta` microseconds pass and runs the fixed steps that
/// are due, clears the input if a step ran, and tells where to draw each body.
pub fn finish_frame(
    keys: &MovementKeys,
    heading: &Heading,
    frame_delta: u32,
    max_ticks: u32,
    fixed_time: &mut FixedTime,
    flag: &mut DidFixedTimestepRunThisFrame,
    bodies: &mut Vec<MovableBody>,
    player: usize,
) -> (rendered: Vec<Vec3>)
    requires
        player < old(bodies).len(),
        all_in_reach(
            *old(fixed_time),
            frame_delta as int,
            max_ticks as int,
            frame_start(old(bodies)@, player as int, *keys, heading@),
        ),
    ensures
        final(fixed_time).timestep() == old(fixed_time).timestep(),
        final(fixed_time).overstep() == old(fixed_time).overstep_after(frame_delta as int),
        final(flag).0 == (old(flag).0 || old(fixed_time).pending_ticks(
            frame_delta as int,
            max_ticks as int,
        ) > 0),
        final(bodies).len() == old(bodies).len(),
        forall|i: int|
            0 <= i < old(bodies).len() ==> is_frame_end(
                #[trigger] final(bodies)[i],
                frame_start(old(bodies)@, player as int, *keys, heading@)[i],
                old(fixed_time).timestep() as int,
                old(fixed_time).pending_ticks(frame_delta as int, max_ticks as int),
                final(flag).0,
            ),
        rendered.len() == old(bodies).len(),
        forall|i: int|
            0 <= i < old(bodies).len() ==> (#[trigger] rendered[i])@ == final(bodies)[i].rendered_at(
                final(fixed_time).overstep() as int,
                final(fixed_time).timestep() as int,
            ),
{
    let mut body: MovableBody = bodies[player];
    accumulate_input(keys, heading, &mut body);
    bodies.set(player, body);
    let ghost start = bodies@;
    assert(start =~= frame_start(old(bodies)@, player as int, *keys, heading@));
    let ticks: u32 = run_fixed_main_loop(frame_delta, max_ticks, fixed_time, flag, bodies);
    let ghost stepped = bodies@;
    let rendered = after_fixed_main_loop(fixed_time, flag, bodies);
    assert forall|i: int| 0 <= i < old(bodies).len() implies is_frame_end(
        #[trigger] bodies[i],
        start[i],
        old(fixed_time).timestep() as int,
        ticks as int,
        flag.0,
    ) by {
        assert(stepped[i].has_advanced_from(start[i], old(fixed_time).timestep() as int, ticks as int));
        assert(bodies[i] == after_steps(stepped[i], flag.0));
        assert((MovableBody { input: start[i].input, ..bodies[i] }) == stepped[i]);
    }
    assert forall|i: int| 0 <= i < old(bodies).len() implies (#[trigger] rendered[i])@
        == bodies[i].rendered_at(fixed_time.overstep() as int, fixed_time.timestep() as int) by {
        assert(bodies[i] == after_steps(stepped[i], flag.0));
    }
    rendered
}

/// Runs a render frame as [`finish_frame`] does if every body can take the fixed steps
/// of this frame and `player` is one of the bodies; otherwise touches nothing and
/// gives nothing back.
pub fn try_finish_frame(
    keys: &MovementKeys,
    heading: &Heading,
    frame_delta: u32,
    max_ticks: u32,
    fixed_time: &mut FixedTime,
    flag: &mut DidFixedTimestepRunThisFrame,
    bodies: &mut Vec<MovableBody>,
    player: usize,
) -> (rendered: Option<Vec<Vec3>>)
    ensures
        rendered is Some <==> player < old(bodies).len() && all_in_reach(
            *old(fixed_time),
            frame_delta as int,
            max_ticks as int,
            frame_start(old(bodies)@, player as int, *keys, heading@),
        ),
        rendered is None ==> *final(fixed_time) == *old(fixed_time) && *final(flag) == *old(flag)
            && final(bodies)@ == old(bodies)@,
        rendered matches Some(drawn) ==> {
            &&& final(fixed_time).timestep() == old(fixed_time).timestep()
            &&& final(fixed_time).overstep() == old(fixed_time).overstep_after(frame_delta as int)
            &&& final(flag).0 == (old(flag).0 || old(fixed_time).pending_ticks(
                frame_delta as int,
                max_ticks as int,
            ) > 0)
            &&& final(bodies).len() == old(bodies).len()
            &&& forall|i: int|
                0 <= i < old(bodies).len() ==> is_frame_end(
                    #[trigger] final(bodies)[i],
                    frame_start(old(bodies)@, player as int, *keys, heading@)[i],
                    old(fixed_time).timestep() as int,
                    old(fixed_time).pending_ticks(frame_delta as int, max_ticks as int),
                    final(flag).0,
                )
            &&& drawn.len() == old(bodies).len()
            &&& forall|i: int|
                0 <= i < old(bodies).len() ==> (#[trigger] drawn[i])@ == final(bodies)[i].rendered_at(
                    final(fixed_time).overstep() as int,
                    final(fixed_time).timestep() as int,
                )
        },
{
    if player < bodies.len() && can_finish_frame(
        keys,
        heading,
        frame_delta,
        max_ticks,
        fixed_time,
        bodies,
        player,
    ) {
        Some(finish_frame(keys, heading, frame_delta, max_ticks, fixed_time, flag, bodies, player))
    } else {
        None
    }
}

} // verus!
