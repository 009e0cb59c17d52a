//! The data that the movement systems read and write.

use vstd::prelude::*;
use crate::math::{
    falls_short_by_rest, lemma_lerp_int, lemma_lerp_int_monotonic, lies_between, Vec2, Vec3, Vector3,
};

verus! {

/// Marks the entity that the person at the keyboard steers.
#[derive(Clone, Copy, Debug, PartialEq, Eq, Structural)]
pub struct Player {}

/// Marks what is drawn as the player's own body, in front of everything else.
#[derive(Clone, Copy, Debug, PartialEq, Eq, Structural)]
pub struct ViewModel {}

/// Marks the camera that shows the world and all that is in it.
#[derive(Clone, Copy, Debug, PartialEq, Eq, Structural)]
pub struct WorldModelCamera;

/// How far the camera turns for one count of pointer motion, in microradians:
/// `x` for motion to the side, `y` for motion up and down.
#[derive(Clone, Copy, Debug, PartialEq, Eq, Structural)]
pub struct CameraSensitivity(pub Vec2);

impl Default for CameraSensitivity {
    /// Three milliradians a count to the side, two up and down.
    fn default() -> (sensitivity: CameraSensitivity)
        ensures
            sensitivity == CameraSensitivity(Vec2 { x: 3_000, y: 2_000 }),
    {
        CameraSensitivity(Vec2::new(3_000, 2_000))
    }
}

/// The movement that the player asks for, gathered since the simulation last advanced:
/// `x` is +1 toward the right and -1 toward the left, `y` is +1 forward and -1 back.
#[derive(Clone, Copy, Debug, PartialEq, Eq, Structural)]
pub struct AccumulatedInput {
    pub movement: Vec2,
}

impl Default for AccumulatedInput {
    fn default() -> (input: AccumulatedInput)
        ensures
            input == (AccumulatedInput { movement: Vec2::spec_zero() }),
    {
        AccumulatedInput { movement: Vec2::zero() }
    }
}

/// The velocity of a body in the simulation, in millionths of a length unit per second.
#[derive(Clone, Copy, Debug, PartialEq, Eq, Structural)]
pub struct Velocity(pub Vec3);

/// Where a body stands in the simulation, as opposed to where it is drawn. One length
/// unit is a million millions, so that a velocity times a number of microseconds is a
/// displacement.
#[derive(Clone, Copy, Debug, PartialEq, Eq, Structural)]
pub struct PhysicalTranslation(pub Vec3);

impl Default for PhysicalTranslation {
    fn default() -> (translation: PhysicalTranslation)
        ensures
            translation == PhysicalTranslation(Vec3::spec_zero()),
    {
        PhysicalTranslation(Vec3::zero())
    }
}

/// Where a body stood before the latest fixed step, in the units of
/// [`PhysicalTranslation`]. Only the integration writes it.
#[derive(Clone, Copy, Debug, PartialEq, Eq, Structural)]
pub struct PreviousPhysicalTranslation(pub Vec3);

impl Default for PreviousPhysicalTranslation {
    fn default() -> (translation: PreviousPhysicalTranslation)
        ensures
            translation == PreviousPhysicalTranslation(Vec3::spec_zero()),
    {
        PreviousPhysicalTranslation(Vec3::zero())
    }
}

/// Whether a fixed step ran during the current render frame.
#[derive(Clone, Copy, Debug, PartialEq, Eq, Structural)]
pub struct DidFixedTimestepRunThisFrame(pub bool);

impl Default for DidFixedTimestepRunThisFrame {
    fn default() -> (flag: DidFixedTimestepRunThisFrame)
        ensures
            flag == DidFixedTimestepRunThisFrame(false),
    {
        DidFixedTimestepRunThisFrame(false)
    }
}

/// Everything the simulation keeps of one body that moves.
#[derive(Clone, Copy, Debug, PartialEq, Eq, Structural)]
pub struct MovableBody {
    pub translation: PhysicalTranslation,
    pub previous_translation: PreviousPhysicalTranslation,
    pub velocity: Velocity,
    pub input: AccumulatedInput,
}

impl MovableBody {
    /// The body at rest where it first appears: it stands at `position`, and stood
    /// there before.
    pub open spec fn spec_at(position: Vec3) -> MovableBody {
        MovableBody {
            translation: PhysicalTranslation(position),
            previous_translation: PreviousPhysicalTranslation(position),
            velocity: Velocity(Vec3::spec_zero()),
            input: AccumulatedInput { movement: Vec2::spec_zero() },
        }
    }

    /// A body at rest at `position`, with no input gathered.
    #[verifier::when_used_as_spec(spec_at)]
    pub fn at(position: Vec3) -> (body: MovableBody)
        ensures
            body == MovableBody::spec_at(position),
    {
        MovableBody {
            translation: PhysicalTranslation(position),
            previous_translation: PreviousPhysicalTranslation(position),
            velocity: Velocity(Vec3::zero()),
            input: AccumulatedInput::default(),
        }
    }

    /// Where the body stands once `ticks` more fixed steps of `fixed_delta` microseconds
    /// have run at its present velocity.
    pub open spec fn position_after(self, fixed_delta: int, ticks: int) -> Vector3 {
        self.translation.0@.plus(self.velocity.0@.scaled(fixed_delta * ticks))
    }

    /// Whether the body's position can still be stored after `ticks` more fixed steps.
    pub open spec fn in_reach(self, fixed_delta: int, ticks: int) -> bool {
        self.position_after(fixed_delta, ticks).fits()
    }

    /// Whether `self` is what `start` becomes by `ticks` fixed steps of `fixed_delta`
    /// microseconds: it has moved in a straight line at its velocity, it remembers where
    /// it stood one step earlier, and nothing else has changed. No step changes nothing.
    pub open spec fn has_advanced_from(self, start: MovableBody, fixed_delta: int, ticks: int) -> bool {
        if ticks <= 0 {
            self == start
        } else {
            &&& self.translation.0@ == start.position_after(fixed_delta, ticks)
            &&& self.previous_translation.0@ == start.position_after(fixed_delta, ticks - 1)
            &&& self.velocity == start.velocity
            &&& self.input == start.input
        }
    }

    /// Where the body is drawn when the fraction `numer / denom` of a fixed step has
    /// passed since the latest one: that far along the way from where it stood before
    /// the step to where it stands now, each coordinate rounded toward the start.
    pub open spec fn rendered_at(self, numer: int, denom: int) -> Vector3
        recommends
            0 <= numer <= denom,
            denom > 0,
    {
        self.previous_translation.0@.lerp(self.translation.0@, numer, denom)
    }

    /// Tells whether the body's position can still be stored after `ticks` more fixed
    /// steps of `fixed_delta` microseconds.
    pub fn can_advance(&self, fixed_delta: u32, ticks: u32) -> (ok: bool)
        ensures
            ok == self.in_reach(fixed_delta as int, ticks as int),
    {
        assert(0 <= fixed_delta * ticks <= 0xFFFF_FFFF_FFFF_FFFF) by (nonlinear_arith)
            requires
                0 <= fixed_delta <= 0xFFFF_FFFF,
                0 <= ticks <= 0xFFFF_FFFF,
        ;
        let span: u64 = fixed_delta as u64 * ticks as u64;
        let position = &self.translation.0;
        let velocity = &self.velocity.0;
        displaced(position.x, velocity.x, span).is_some()
            && displaced(position.y, velocity.y, span).is_some()
            && displaced(position.z, velocity.z, span).is_some()
    }

    /// One fixed step of `fixed_delta` microseconds: the body remembers where it stands,
    /// then moves by its velocity times the step.
    pub fn advance(&mut self, fixed_delta: u32)
        requires
            old(self).in_reach(fixed_delta as int, 1),
        ensures
            final(self).has_advanced_from(*old(self), fixed_delta as int, 1),
            final(self).translation.0@ == old(self).translation.0@.plus(
                old(self).velocity.0@.scaled(fixed_delta as int),
            ),
            final(self).previous_translation.0 == old(self).translation.0,
    {
        let position = self.translation.0;
        let velocity = self.velocity.0;
        let span: u64 = fixed_delta as u64;
        assert(fixed_delta * 1 == fixed_delta) by (nonlinear_arith);
        assert(fixed_delta * 0 == 0) by (nonlinear_arith);
        assert(velocity.x * 0 == 0 && velocity.y * 0 == 0 && velocity.z * 0 == 0)
            by (nonlinear_arith);
        let x: i64 = displaced(position.x, velocity.x, span).unwrap();
        let y: i64 = displaced(position.y, velocity.y, span).unwrap();
        let z: i64 = displaced(position.z, velocity.z, span).unwrap();
        self.previous_translation = PreviousPhysicalTranslation(position);
        self.translation = PhysicalTranslation(Vec3 { x, y, z });
    }

    /// One fixed step of `fixed_delta` microseconds if the body's position can still be
    /// stored after it, and nothing if not. Says whether the body took the step.
    pub fn try_advance(&mut self, fixed_delta: u32) -> (advanced: bool)
        ensures
            advanced == old(self).in_reach(fixed_delta as int, 1),
            advanced ==> final(self).has_advanced_from(*old(self), fixed_delta as int, 1),
            !advanced ==> *final(self) == *old(self),
    {
        if self.can_advance(fixed_delta, 1) {
            self.advance(fixed_delta);
            true
        } else {
            false
        }
    }

    /// Where to draw the body when the fraction `numer / denom` of a fixed step has
    /// passed since the latest one.
    pub fn interpolated(&self, numer: u32, denom: u32) -> (rendered: Vec3)
        requires
            numer <= denom,
            denom > 0,
        ensures
            rendered@ == self.rendered_at(numer as int, denom as int),
    {
        self.previous_translation.0.lerp(self.translation.0, numer, denom)
    }
}

/// Where a body is drawn. When no time has passed since the latest fixed step it is
/// drawn exactly where it stood before that step, and when a whole step has passed,
/// exactly where it stands now. In between, each coordinate lies between the two, and
/// is short of the present position by the part of the way that the rest of the step
/// stands for, up to a rounding of less than one.
pub proof fn lemma_rendered_at(body: MovableBody, numer: int, denom: int)
    requires
        0 <= numer <= denom,
        denom > 0,
    ensures
        body.rendered_at(0, denom) == body.previous_translation.0@,
        body.rendered_at(denom, denom) == body.translation.0@,
        ({
            let from = body.previous_translation.0@;
            let to = body.translation.0@;
            let drawn = body.rendered_at(numer, denom);
            &&& lies_between(from.x, to.x, drawn.x)
            &&& lies_between(from.y, to.y, drawn.y)
            &&& lies_between(from.z, to.z, drawn.z)
            &&& falls_short_by_rest(from.x, to.x, drawn.x, numer, denom)
            &&& falls_short_by_rest(from.y, to.y, drawn.y, numer, denom)
            &&& falls_short_by_rest(from.z, to.z, drawn.z, numer, denom)
            &&& drawn.fits()
        }),
{
    let from = body.previous_translation.0@;
    let to = body.translation.0@;
    lemma_lerp_int(from.x, to.x, numer, denom);
    lemma_lerp_int(from.y, to.y, numer, denom);
    lemma_lerp_int(from.z, to.z, numer, denom);
    lemma_lerp_int(from.x, to.x, 0, denom);
    lemma_lerp_int(from.y, to.y, 0, denom);
    lemma_lerp_int(from.z, to.z, 0, denom);
    lemma_lerp_int(from.x, to.x, denom, denom);
    lemma_lerp_int(from.y, to.y, denom, denom);
    lemma_lerp_int(from.z, to.z, denom, denom);
}

/// As the clock runs on through a step, what is drawn never moves back: at a later
/// fraction each coordinate is at least as near to the present position.
pub proof fn lemma_rendered_at_monotonic(body: MovableBody, numer: int, later: int, denom: int)
    requires
        0 <= numer <= later <= denom,
        denom > 0,
    ensures
        ({
            let to = body.translation.0@;
            let first = body.rendered_at(numer, denom);
            let second = body.rendered_at(later, denom);
            &&& lies_between(first.x, to.x, second.x)
            &&& lies_between(first.y, to.y, second.y)
            &&& lies_between(first.z, to.z, second.z)
        }),
{
    let from = body.previous_translation.0@;
    let to = body.translation.0@;
    lemma_lerp_int(from.x, to.x, later, denom);
    lemma_lerp_int(from.y, to.y, later, denom);
    lemma_lerp_int(from.z, to.z, later, denom);
    lemma_lerp_int_monotonic(from.x, to.x, numer, later, denom);
    lemma_lerp_int_monotonic(from.y, to.y, numer, later, denom);
    lemma_lerp_int_monotonic(from.z, to.z, numer, later, denom);
}

/// Without a step a body stays where it is, which can always be stored.
pub proof fn lemma_in_reach_now(body: MovableBody, fixed_delta: int)
    ensures
        body.position_after(fixed_delta, 0) == body.translation.0@,
        body.in_reach(fixed_delta, 0),
{
    let v = body.velocity.0@;
    assert(fixed_delta * 0 == 0) by (nonlinear_arith);
    assert(v.x * 0 == 0 && v.y * 0 == 0 && v.z * 0 == 0) by (nonlinear_arith);
}

/// A body that can take `ticks` more fixed steps can take any smaller number of them: it
/// moves in a straight line, so every stop on the way lies between the two ends.
pub proof fn lemma_in_reach_between(body: MovableBody, fixed_delta: int, ticks: int, k: int)
    requires
        fixed_delta >= 0,
        0 <= k <= ticks,
        body.in_reach(fixed_delta, ticks),
    ensures
        body.in_reach(fixed_delta, k),
{
    let v = body.velocity.0@;
    let whole = fixed_delta * ticks;
    let part = fixed_delta * k;
    assert(0 <= part <= whole) by (nonlinear_arith)
        requires
            fixed_delta >= 0,
            0 <= k <= ticks,
            whole == fixed_delta * ticks,
            part == fixed_delta * k,
    ;
    lemma_product_between(v.x, part, whole);
    lemma_product_between(v.y, part, whole);
    lemma_product_between(v.z, part, whole);
}

/// A multiple of `v` by a part of `whole` lies between zero and the multiple by `whole`.
proof fn lemma_product_between(v: int, part: int, whole: int)
    requires
        0 <= part <= whole,
    ensures
        v >= 0 ==> 0 <= v * part <= v * whole,
        v <= 0 ==> v * whole <= v * part <= 0,
{
    assert(v >= 0 ==> 0 <= v * part <= v * whole) by (nonlinear_arith)
        requires
            0 <= part <= whole,
    ;
    assert(v <= 0 ==> v * whole <= v * part <= 0) by (nonlinear_arith)
        requires
            0 <= part <= whole,
    ;
}

/// One fixed step: the new position is the old one plus the velocity times the step,
/// and the remembered position is the old one.
pub proof fn lemma_one_step(after: MovableBody, start: MovableBody, fixed_delta: int)
    requires
        after.has_advanced_from(start, fixed_delta, 1),
    ensures
        after.translation.0@ == start.translation.0@.plus(start.velocity.0@.scaled(fixed_delta)),
        after.previous_translation.0 == start.translation.0,
{
    lemma_in_reach_now(start, fixed_delta);
    assert(fixed_delta * 1 == fixed_delta) by (nonlinear_arith);
}

/// The step after `k` steps leads where `k + 1` steps lead.
pub proof fn lemma_next_step(start: MovableBody, middle: MovableBody, fixed_delta: int, k: int)
    requires
        k >= 0,
        middle.has_advanced_from(start, fixed_delta, k),
    ensures
        middle.position_after(fixed_delta, 1) == start.position_after(fixed_delta, k + 1),
        middle.position_after(fixed_delta, 0) == start.position_after(fixed_delta, k),
{
    let v = start.velocity.0@;
    assert(fixed_delta * 0 == 0 && fixed_delta * 1 == fixed_delta) by (nonlinear_arith);
    assert(v.x * 0 == 0 && v.y * 0 == 0 && v.z * 0 == 0) by (nonlinear_arith);
    assert(fixed_delta * (k + 1) == fixed_delta * k + fixed_delta) by (nonlinear_arith);
    lemma_distributes(v.x, fixed_delta * k, fixed_delta);
    lemma_distributes(v.y, fixed_delta * k, fixed_delta);
    lemma_distributes(v.z, fixed_delta * k, fixed_delta);
}

/// Steps add up: one more fixed step after `k` of them makes `k + 1`. In particular the
/// remembered position is always the position just before the latest step.
pub proof fn lemma_advance_composes(
    start: MovableBody,
    middle: MovableBody,
    end: MovableBody,
    fixed_delta: int,
    k: int,
)
    requires
        k >= 0,
        middle.has_advanced_from(start, fixed_delta, k),
        end.has_advanced_from(middle, fixed_delta, 1),
    ensures
        end.has_advanced_from(start, fixed_delta, k + 1),
{
    lemma_next_step(start, middle, fixed_delta, k);
}

proof fn lemma_distributes(v: int, a: int, b: int)
    ensures
        v * (a + b) == v * a + v * b,
{
    assert(v * (a + b) == v * a + v * b) by (nonlinear_arith);
}

/// The coordinate `position + velocity * span`, if it can be stored.
fn displaced(position: i64, velocity: i64, span: u64) -> (moved: Option<i64>)
    ensures
        moved is Some <==> i64::MIN <= position + velocity * span <= i64::MAX,
        moved matches Some(m) ==> m == position + velocity * span,
{
    let v: i128 = velocity as i128;
    let k: i128 = span as i128;
    assert(-0x7FFF_FFFF_FFFF_FFFF_8000_0000_0000_0000 <= v * k
        <= 0x7FFF_FFFF_FFFF_FFFF_0000_0000_0000_0000) by (nonlinear_arith)
        requires
            -0x8000_0000_0000_0000 <= v <= 0x7FFF_FFFF_FFFF_FFFF,
            0 <= k <= 0xFFFF_FFFF_FFFF_FFFF,
    ;
    let sum: i128 = position as i128 + v * k;
    if sum < i64::MIN as i128 || sum > i64::MAX as i128 {
        None
    } else {
        Some(sum as i64)
    }
}

} // verus!
