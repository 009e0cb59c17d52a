//! The orientation of the camera: the angles that the pointer turns, and the heading
//! that turns what is level in the camera's own space to where the camera faces.

use vstd::prelude::*;
use crate::math::{Vec3, Vector3, UNIT};

verus! {

/// Half a turn in microradians, rounded down.
pub const HALF_TURN: i32 = 3_141_592;

/// A full turn in microradians: the number of angles from `-HALF_TURN` to `HALF_TURN`.
pub const FULL_TURN: i32 = 6_283_185;

/// A quarter of a turn in microradians: straight up.
pub const QUARTER_TURN: i32 = 1_570_796;

/// How far the camera may look up or down: ten milliradians short of straight up, so
/// that the heading never flips at the poles.
pub const PITCH_LIMIT: i32 = QUARTER_TURN - 10_000;

/// The angle in `-HALF_TURN ..= HALF_TURN` that differs from `angle` by whole turns.
pub open spec fn wrap_angle(angle: int) -> int {
    (angle + HALF_TURN) % (FULL_TURN as int) - HALF_TURN
}

/// The pitch nearest to `angle` that the camera may have.
pub open spec fn clamp_pitch(angle: int) -> int {
    if angle < -PITCH_LIMIT {
        -PITCH_LIMIT as int
    } else if angle > PITCH_LIMIT {
        PITCH_LIMIT as int
    } else {
        angle
    }
}

/// Whatever angle is asked for, the pitch that the camera gets is within the limit, and
/// the limit is short of straight up; an angle within the limit is left as it is.
pub proof fn lemma_clamp_pitch(angle: int)
    ensures
        -PITCH_LIMIT <= clamp_pitch(angle) <= PITCH_LIMIT,
        -QUARTER_TURN < clamp_pitch(angle) < QUARTER_TURN,
        -PITCH_LIMIT <= angle <= PITCH_LIMIT ==> clamp_pitch(angle) == angle,
{
}

/// A wrapped angle lies within half a turn of zero and differs from the angle it came
/// from by whole turns; an angle already in that range is left as it is.
pub proof fn lemma_wrap_angle(angle: int)
    ensures
        -HALF_TURN <= wrap_angle(angle) <= HALF_TURN,
        (angle - wrap_angle(angle)) % (FULL_TURN as int) == 0,
        -HALF_TURN <= angle <= HALF_TURN ==> wrap_angle(angle) == angle,
{
    let shifted = angle + HALF_TURN;
    let turn = FULL_TURN as int;
    vstd::arithmetic::div_mod::lemma_fundamental_div_mod(shifted, turn);
    vstd::arithmetic::div_mod::lemma_mod_multiples_basic(shifted / turn, turn);
    assert(turn * (shifted / turn) == (shifted / turn) * turn) by (nonlinear_arith);
    if -HALF_TURN <= angle <= HALF_TURN {
        vstd::arithmetic::div_mod::lemma_small_mod(shifted as nat, turn as nat);
    }
}

/// The heading, elevation and tilt of the camera in microradians, taken in that order:
/// turn about the vertical axis, then look up or down, then tilt.
///
/// The yaw is kept within half a turn of zero and the pitch within [`PITCH_LIMIT`].
#[derive(Clone, Copy, Debug, PartialEq, Eq, Structural)]
pub struct Orientation {
    yaw: i32,
    pitch: i32,
    roll: i32,
}

impl Orientation {
    #[verifier::type_invariant]
    spec fn inv(self) -> bool {
        &&& -HALF_TURN <= self.yaw <= HALF_TURN
        &&& -PITCH_LIMIT <= self.pitch <= PITCH_LIMIT
    }

    /// The heading: positive toward the left.
    pub closed spec fn spec_yaw(&self) -> i32 {
        self.yaw
    }

    /// The elevation: positive upward.
    pub closed spec fn spec_pitch(&self) -> i32 {
        self.pitch
    }

    /// The tilt about the line of sight.
    pub closed spec fn spec_roll(&self) -> i32 {
        self.roll
    }

    /// Whether the angles are in the ranges that every orientation keeps.
    pub open spec fn in_range(&self) -> bool {
        &&& -HALF_TURN <= self.yaw() <= HALF_TURN
        &&& -PITCH_LIMIT <= self.pitch() <= PITCH_LIMIT
    }

    #[verifier::when_used_as_spec(spec_yaw)]
    pub fn yaw(&self) -> (yaw: i32)
        ensures
            yaw == self.yaw(),
            -HALF_TURN <= yaw <= HALF_TURN,
    {
        proof {
            use_type_invariant(self);
        }
        self.yaw
    }

    #[verifier::when_used_as_spec(spec_pitch)]
    pub fn pitch(&self) -> (pitch: i32)
        ensures
            pitch == self.pitch(),
            -PITCH_LIMIT <= pitch <= PITCH_LIMIT,
    {
        proof {
            use_type_invariant(self);
        }
        self.pitch
    }

    #[verifier::when_used_as_spec(spec_roll)]
    pub fn roll(&self) -> (roll: i32)
        ensures
            roll == self.roll(),
    {
        self.roll
    }

    /// The orientation with the given angles, the yaw brought within half a turn of zero
    /// and the pitch brought within the limit.
    pub fn from_euler(yaw: i64, pitch: i64, roll: i32) -> (orientation: Orientation)
        ensures
            orientation.yaw() == wrap_angle(yaw as int),
            orientation.pitch() == clamp_pitch(pitch as int),
            orientation.roll() == roll,
            orientation.in_range(),
    {
        proof {
            lemma_wrap_angle(yaw as int);
        }
        let shifted: i128 = yaw as i128 + HALF_TURN as i128;
        let turn: i128 = FULL_TURN as i128;
        let remainder: i128 = shifted % turn;
        let wrapped: i128 = if remainder < 0 {
            remainder + turn
        } else {
            remainder
        };
        assert(wrapped == (shifted as int) % (turn as int)) by {
            lemma_signed_remainder(shifted as int, turn as int);
        }
        let clamped: i64 = if pitch < -(PITCH_LIMIT as i64) {
            -(PITCH_LIMIT as i64)
        } else if pitch > PITCH_LIMIT as i64 {
            PITCH_LIMIT as i64
        } else {
            pitch
        };
        Orientation { yaw: (wrapped - HALF_TURN as i128) as i32, pitch: clamped as i32, roll }
    }
}

/// How the remainder that the machine computes, which takes the sign of the dividend,
/// relates to the remainder of mathematics, which is never negative.
proof fn lemma_signed_remainder(a: int, b: int)
    requires
        b > 0,
    ensures
        a >= 0 ==> a % b == a - (a / b) * b,
        a < 0 ==> a % b == ({
            let r = -((-a) % b);
            if r < 0 {
                r + b
            } else {
                r
            }
        }),
{
    vstd::arithmetic::div_mod::lemma_fundamental_div_mod(a, b);
    assert(b * (a / b) == (a / b) * b) by (nonlinear_arith);
    if a < 0 {
        let q = (-a) / b;
        let r = (-a) % b;
        vstd::arithmetic::div_mod::lemma_fundamental_div_mod(-a, b);
        vstd::arithmetic::div_mod::lemma_mod_bound(-a, b);
        vstd::arithmetic::div_mod::lemma_mod_bound(a, b);
        assert(b * q == q * b) by (nonlinear_arith);
        if r == 0 {
            assert(a == (-q) * b) by (nonlinear_arith)
                requires
                    -a == q * b,
            ;
            vstd::arithmetic::div_mod::lemma_mod_multiples_basic(-q, b);
        } else {
            assert(a == (-q - 1) * b + (b - r)) by (nonlinear_arith)
                requires
                    -a == q * b + r,
            ;
            vstd::arithmetic::div_mod::lemma_fundamental_div_mod_converse(a, b, -q - 1, b - r);
        }
    }
}

impl Default for Orientation {
    /// Looking level along the world's -Z axis, upright.
    fn default() -> (orientation: Orientation)
        ensures
            orientation.yaw() == 0,
            orientation.pitch() == 0,
            orientation.roll() == 0,
    {
        Orientation { yaw: 0, pitch: 0, roll: 0 }
    }
}

/// The least squared length that a heading may have: one, less what rounding a cosine
/// and a sine to whole millionths can take from it.
pub const HEADING_NORM_MIN: i64 = 999_998_000_000;

/// The greatest squared length that a heading may have.
pub const HEADING_NORM_MAX: i64 = 1_000_002_000_000;

/// The mathematical model of a [`Heading`]: the cosine and the sine of the camera's
/// yaw, in fixed point.
pub struct Bearing {
    pub cos: int,
    pub sin: int,
}

impl Bearing {
    /// The square of the length of the pair, which for a true cosine and sine is one.
    pub open spec fn norm_squared(self) -> int {
        self.cos * self.cos + self.sin * self.sin
    }

    /// Whether the pair is as long as one, up to rounding.
    pub open spec fn is_unit(self) -> bool {
        HEADING_NORM_MIN <= self.norm_squared() <= HEADING_NORM_MAX
    }

    /// The image of `v` under the turn about the vertical axis. The turn carries the
    /// camera's +X to `(cos, 0, -sin)` and its +Z to `(sin, 0, cos)`, and leaves the
    /// vertical axis where it is: what is level stays level.
    pub open spec fn turn(self, v: Vector3) -> Vector3 {
        Vector3 {
            x: self.cos * v.x + self.sin * v.z,
            y: UNIT * v.y,
            z: -self.sin * v.x + self.cos * v.z,
        }
    }

    /// Facing the world's -Z: the turn that turns nothing.
    pub open spec fn ahead() -> Bearing {
        Bearing { cos: UNIT as int, sin: 0 }
    }
}

/// Neither part of a pair of unit length is further from zero than [`UNIT`].
pub proof fn lemma_unit_bearing_parts(bearing: Bearing)
    requires
        bearing.is_unit(),
    ensures
        -UNIT <= bearing.cos <= UNIT,
        -UNIT <= bearing.sin <= UNIT,
{
    let c = bearing.cos;
    let s = bearing.sin;
    assert(-1_000_000 <= c <= 1_000_000) by (nonlinear_arith)
        requires
            c * c + s * s <= 1_000_002_000_000,
    ;
    assert(-1_000_000 <= s <= 1_000_000) by (nonlinear_arith)
        requires
            c * c + s * s <= 1_000_002_000_000,
    ;
}

/// The turn of a bearing multiplies squared lengths of level vectors by the squared
/// length of the bearing, and keeps level vectors level.
pub proof fn lemma_turn_of_level(bearing: Bearing, v: Vector3)
    requires
        v.y == 0,
    ensures
        bearing.turn(v).y == 0,
        bearing.turn(v).norm_squared() == (v.x * v.x + v.z * v.z) * bearing.norm_squared(),
{
    let c = bearing.cos;
    let s = bearing.sin;
    let x = v.x;
    let z = v.z;
    assert(UNIT * 0 == 0) by (nonlinear_arith);
    let (p, q, r, t) = (c * x, s * z, s * x, c * z);
    let (cc, ss, xx, zz) = (c * c, s * s, x * x, z * z);
    assert(-s * x == -r) by (nonlinear_arith)
        requires
            r == s * x,
    ;
    assert((p + q) * (p + q) == p * p + 2 * (p * q) + q * q) by (nonlinear_arith);
    assert((-r + t) * (-r + t) == r * r - 2 * (r * t) + t * t) by (nonlinear_arith);
    assert(p * q == r * t) by (nonlinear_arith)
        requires
            p == c * x,
            q == s * z,
            r == s * x,
            t == c * z,
    ;
    assert(p * p == cc * xx) by (nonlinear_arith)
        requires
            p == c * x,
            cc == c * c,
            xx == x * x,
    ;
    assert(q * q == ss * zz) by (nonlinear_arith)
        requires
            q == s * z,
            ss == s * s,
            zz == z * z,
    ;
    assert(r * r == ss * xx) by (nonlinear_arith)
        requires
            r == s * x,
            ss == s * s,
            xx == x * x,
    ;
    assert(t * t == cc * zz) by (nonlinear_arith)
        requires
            t == c * z,
            cc == c * c,
            zz == z * z,
    ;
    assert((xx + zz) * (cc + ss) == cc * xx + ss * zz + ss * xx + cc * zz) by (nonlinear_arith);
    assert(0 * 0 == 0) by (nonlinear_arith);
}

/// The horizontal facing of the camera: the cosine and the sine of its yaw in fixed
/// point. Together they are as long as one, up to rounding.
///
/// This library does no trigonometry. Whoever composes the camera's rotation from the
/// angles of its [`Orientation`] hands the cosine and sine of the yaw over. The pitch
/// and the roll have no part in it: nobody walks up or down by looking there.
#[derive(Clone, Copy, Debug, PartialEq, Eq, Structural)]
pub struct Heading {
    cos: i64,
    sin: i64,
}

impl View for Heading {
    type V = Bearing;

    closed spec fn view(&self) -> Bearing {
        Bearing { cos: self.cos as int, sin: self.sin as int }
    }
}

impl Heading {
    #[verifier::type_invariant]
    spec fn inv(self) -> bool {
        HEADING_NORM_MIN <= self.cos * self.cos + self.sin * self.sin <= HEADING_NORM_MAX
    }

    /// The heading with the given cosine and sine, if the two are together as long as
    /// one, up to rounding.
    pub fn new(cos: i64, sin: i64) -> (heading: Option<Heading>)
        ensures
            heading is Some <==> (Bearing { cos: cos as int, sin: sin as int }).is_unit(),
            heading matches Some(h) ==> h@ == (Bearing { cos: cos as int, sin: sin as int }),
    {
        let norm: u128 = Vec3::new(cos, 0, sin).norm_squared();
        assert(0 * 0 == 0) by (nonlinear_arith);
        if HEADING_NORM_MIN as u128 <= norm && norm <= HEADING_NORM_MAX as u128 {
            Some(Heading { cos, sin })
        } else {
            None
        }
    }

    /// The cosine of the yaw.
    pub fn cos(&self) -> (cos: i64)
        ensures
            cos == self@.cos,
            -UNIT <= cos <= UNIT,
            self@.is_unit(),
    {
        proof {
            use_type_invariant(self);
            lemma_unit_bearing_parts(self@);
        }
        self.cos
    }

    /// The sine of the yaw.
    pub fn sin(&self) -> (sin: i64)
        ensures
            sin == self@.sin,
            -UNIT <= sin <= UNIT,
            self@.is_unit(),
    {
        proof {
            use_type_invariant(self);
            lemma_unit_bearing_parts(self@);
        }
        self.sin
    }

    /// Turns a level direction given along the camera's axes into the world. The
    /// coordinates of `v` are whole numbers; the result is in fixed-point coordinates.
    pub fn turn(&self, v: Vec3) -> (image: Vec3)
        requires
            i32::MIN <= v.x <= i32::MAX,
            i32::MIN <= v.y <= i32::MAX,
            i32::MIN <= v.z <= i32::MAX,
        ensures
            image@ == self@.turn(v@),
            self@.is_unit(),
    {
        let c: i64 = self.cos();
        let s: i64 = self.sin();
        Vec3 {
            x: weighted_sum(c, v.x, s, v.z),
            y: weighted_sum(UNIT, v.y, 0, 0),
            z: weighted_sum(-s, v.x, c, v.z),
        }
    }
}

impl Default for Heading {
    /// Facing the world's -Z.
    fn default() -> (heading: Heading)
        ensures
            heading@ == Bearing::ahead(),
    {
        assert(1_000_000 * 1_000_000 + 0 * 0 == 1_000_000_000_000) by (nonlinear_arith);
        Heading { cos: UNIT, sin: 0 }
    }
}

/// Two parts of a heading, each times a whole number, added up.
fn weighted_sum(a: i64, x: i64, b: i64, z: i64) -> (sum: i64)
    requires
        -UNIT <= a <= UNIT,
        -UNIT <= b <= UNIT,
        i32::MIN <= x <= i32::MAX,
        i32::MIN <= z <= i32::MAX,
    ensures
        sum == a * x + b * z,
{
    assert(-0x10_0000_0000_0000 <= a * x <= 0x10_0000_0000_0000) by (nonlinear_arith)
        requires
            -1_000_000 <= a <= 1_000_000,
            -0x8000_0000 <= x <= 0x8000_0000,
    ;
    assert(-0x10_0000_0000_0000 <= b * z <= 0x10_0000_0000_0000) by (nonlinear_arith)
        requires
            -1_000_000 <= b <= 1_000_000,
            -0x8000_0000 <= z <= 0x8000_0000,
    ;
    a * x + b * z
}

} // verus!
