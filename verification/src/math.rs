//! Fixed-point scalars and vectors, with their mathematical models.

use vstd::prelude::*;

verus! {

/// The number that stands for 1.0 in directions and speeds.
pub const UNIT: i64 = 1_000_000;

/// The quotient of `a` by a positive `b`, rounded toward zero.
pub open spec fn trunc_div(a: int, b: int) -> int
    recommends
        b > 0,
{
    if a >= 0 {
        a / b
    } else {
        -((-a) / b)
    }
}

/// The value `numer / denom` of the way from `from` to `to`, rounded toward `from`.
pub open spec fn lerp_int(from: int, to: int, numer: int, denom: int) -> int
    recommends
        0 <= numer <= denom,
        denom > 0,
{
    from + trunc_div((to - from) * numer, denom)
}

/// `trunc_div` never moves away from zero, and misses the exact quotient by less than one.
pub proof fn lemma_trunc_div_bounds(a: int, b: int)
    requires
        b > 0,
    ensures
        a >= 0 ==> 0 <= trunc_div(a, b) * b <= a < (trunc_div(a, b) + 1) * b,
        a <= 0 ==> (trunc_div(a, b) - 1) * b < a <= trunc_div(a, b) * b <= 0,
        a >= 0 ==> trunc_div(a, b) >= 0,
        a <= 0 ==> trunc_div(a, b) <= 0,
{
    if a >= 0 {
        let q = a / b;
        assert(0 <= q && q * b <= a < (q + 1) * b) by (nonlinear_arith)
            requires
                a >= 0,
                b > 0,
                q == a / b,
        ;
        if a == 0 {
            assert(q == 0) by (nonlinear_arith)
                requires
                    q * b <= 0,
                    0 <= q,
                    b > 0,
            ;
            assert((q - 1) * b < 0) by (nonlinear_arith)
                requires
                    q == 0,
                    b > 0,
            ;
        }
    } else {
        let q = (-a) / b;
        assert(0 <= q && q * b <= -a < (q + 1) * b) by (nonlinear_arith)
            requires
                -a >= 0,
                b > 0,
                q == (-a) / b,
        ;
        assert((-q) * b == -(q * b) && (-q - 1) * b == -((q + 1) * b)) by (nonlinear_arith);
    }
}

/// A multiple divides back exactly.
pub proof fn lemma_trunc_div_multiple(k: int, b: int)
    requires
        b > 0,
    ensures
        trunc_div(k * b, b) == k,
{
    lemma_trunc_div_bounds(k * b, b);
    let q = trunc_div(k * b, b);
    assert(q == k) by (nonlinear_arith)
        requires
            b > 0,
            k * b >= 0 ==> q * b <= k * b < (q + 1) * b,
            k * b <= 0 ==> (q - 1) * b < k * b <= q * b,
    ;
}

/// A larger dividend never gives a smaller quotient.
pub proof fn lemma_trunc_div_monotonic(a: int, later: int, b: int)
    requires
        b > 0,
        a <= later,
    ensures
        trunc_div(a, b) <= trunc_div(later, b),
{
    lemma_trunc_div_bounds(a, b);
    lemma_trunc_div_bounds(later, b);
    let q = trunc_div(a, b);
    let r = trunc_div(later, b);
    if a >= 0 {
        assert(q <= r) by (nonlinear_arith)
            requires
                b > 0,
                q * b <= a,
                a <= later,
                later < (r + 1) * b,
        ;
    } else if later <= 0 {
        assert(q <= r) by (nonlinear_arith)
            requires
                b > 0,
                (q - 1) * b < a,
                a <= later,
                later <= r * b,
        ;
    }
}

/// Whether `value` lies between `from` and `to`, the ends included.
pub open spec fn lies_between(from: int, to: int, value: int) -> bool {
    (from <= value <= to) || (to <= value <= from)
}

/// Whether `value` is short of `to` by the part `(denom - numer) / denom` of the way
/// from `from` to `to`, up to a rounding of less than one.
pub open spec fn falls_short_by_rest(from: int, to: int, value: int, numer: int, denom: int) -> bool {
    -denom < (to - value) * denom - (to - from) * (denom - numer) < denom
}

/// Where an interpolated value lies: between its two ends, on an end when the fraction is
/// 0 or 1, and short of `to` by the fraction that is left of the whole way, up to a
/// rounding of less than one.
pub proof fn lemma_lerp_int(from: int, to: int, numer: int, denom: int)
    requires
        0 <= numer <= denom,
        denom > 0,
    ensures
        numer == 0 ==> lerp_int(from, to, numer, denom) == from,
        numer == denom ==> lerp_int(from, to, numer, denom) == to,
        lies_between(from, to, lerp_int(from, to, numer, denom)),
        falls_short_by_rest(from, to, lerp_int(from, to, numer, denom), numer, denom),
{
    let d = to - from;
    let p = d * numer;
    let q = trunc_div(p, denom);
    lemma_trunc_div_bounds(p, denom);
    assert(d >= 0 ==> 0 <= p <= d * denom) by (nonlinear_arith)
        requires
            p == d * numer,
            0 <= numer <= denom,
    ;
    assert(d <= 0 ==> d * denom <= p <= 0) by (nonlinear_arith)
        requires
            p == d * numer,
            0 <= numer <= denom,
    ;
    assert(d >= 0 ==> 0 <= q <= d) by (nonlinear_arith)
        requires
            denom > 0,
            p >= 0 ==> 0 <= q * denom <= p,
            d >= 0 ==> 0 <= p <= d * denom,
    ;
    assert(d <= 0 ==> d <= q <= 0) by (nonlinear_arith)
        requires
            denom > 0,
            p <= 0 ==> p <= q * denom <= 0,
            d <= 0 ==> d * denom <= p <= 0,
    ;
    assert((d - q) * denom - d * (denom - numer) == p - q * denom) by (nonlinear_arith)
        requires
            p == d * numer,
    ;
    assert((q + 1) * denom == q * denom + denom && (q - 1) * denom == q * denom - denom)
        by (nonlinear_arith);
    if numer == 0 {
        assert(p == 0) by (nonlinear_arith)
            requires
                p == d * numer,
                numer == 0,
        ;
    }
    if numer == denom {
        lemma_trunc_div_multiple(d, denom);
    }
}

/// A later fraction never gives a value further from `to`.
pub proof fn lemma_lerp_int_monotonic(from: int, to: int, numer: int, later: int, denom: int)
    requires
        0 <= numer <= later <= denom,
        denom > 0,
    ensures
        from <= to ==> lerp_int(from, to, numer, denom) <= lerp_int(from, to, later, denom),
        to <= from ==> lerp_int(from, to, later, denom) <= lerp_int(from, to, numer, denom),
{
    let d = to - from;
    if d >= 0 {
        assert(d * numer <= d * later) by (nonlinear_arith)
            requires
                d >= 0,
                numer <= later,
        ;
        lemma_trunc_div_monotonic(d * numer, d * later, denom);
    }
    if d <= 0 {
        assert(d * later <= d * numer) by (nonlinear_arith)
            requires
                d <= 0,
                numer <= later,
        ;
        lemma_trunc_div_monotonic(d * later, d * numer, denom);
    }
}

/// Interpolates between two coordinates by the fraction `numer / denom`.
pub fn lerp_i64(from: i64, to: i64, numer: u32, denom: u32) -> (r: i64)
    requires
        numer <= denom,
        denom > 0,
    ensures
        r == lerp_int(from as int, to as int, numer as int, denom as int),
{
    let d: i128 = to as i128 - from as i128;
    assert(-0x1_0000_0000_0000_0000_0000_0000 <= d * (numer as i128)
        <= 0x1_0000_0000_0000_0000_0000_0000) by (nonlinear_arith)
        requires
            -0x1_0000_0000_0000_0000 <= d <= 0x1_0000_0000_0000_0000,
            0 <= numer <= 0x1_0000_0000,
    ;
    let p: i128 = d * (numer as i128);
    let q: i128 = p / (denom as i128);
    proof {
        assert(q == trunc_div(p as int, denom as int));
        lemma_lerp_int(from as int, to as int, numer as int, denom as int);
    }
    (from as i128 + q) as i64
}

/// `s` is the least natural number whose square reaches `n`.
pub open spec fn is_ceil_sqrt(n: int, s: int) -> bool {
    &&& s >= 0
    &&& s * s >= n
    &&& (s == 0 || (s - 1) * (s - 1) < n)
}

/// The square root of `n`, rounded up.
pub open spec fn ceil_sqrt(n: int) -> int {
    choose|s: int| is_ceil_sqrt(n, s)
}

/// A rounded-up square root is unique: two numbers that both qualify are equal.
pub proof fn lemma_ceil_sqrt_unique(n: int, s: int, t: int)
    requires
        is_ceil_sqrt(n, s),
        is_ceil_sqrt(n, t),
    ensures
        s == t,
{
    if s < t {
        assert(s * s <= (t - 1) * (t - 1)) by (nonlinear_arith)
            requires
                0 <= s <= t - 1,
        ;
    } else if t < s {
        assert(t * t <= (s - 1) * (s - 1)) by (nonlinear_arith)
            requires
                0 <= t <= s - 1,
        ;
    }
}

/// Any number that qualifies as the rounded-up square root of `n` is `ceil_sqrt(n)`.
pub proof fn lemma_ceil_sqrt_is(n: int, s: int)
    requires
        is_ceil_sqrt(n, s),
    ensures
        ceil_sqrt(n) == s,
{
    lemma_ceil_sqrt_unique(n, s, ceil_sqrt(n));
}

/// Every integer has a rounded-up square root.
pub proof fn lemma_ceil_sqrt_exists(n: int)
    ensures
        is_ceil_sqrt(n, ceil_sqrt(n)),
    decreases n,
{
    if n <= 0 {
        assert(is_ceil_sqrt(n, 0));
    } else {
        lemma_ceil_sqrt_exists(n - 1);
        let t = ceil_sqrt(n - 1);
        if t * t >= n {
            assert(is_ceil_sqrt(n, t));
        } else {
            assert((t + 1) * (t + 1) >= n) by (nonlinear_arith)
                requires
                    t >= 0,
                    t * t >= n - 1,
            ;
            assert(is_ceil_sqrt(n, t + 1));
        }
    }
}

/// Computes the square root of `n`, rounded up.
pub fn ceil_sqrt_u128(n: u128) -> (s: u128)
    ensures
        is_ceil_sqrt(n as int, s as int),
        s == ceil_sqrt(n as int),
        s <= 0x1_0000_0000_0000_0000,
{
    if n == 0 {
        proof {
            lemma_ceil_sqrt_is(0, 0);
        }
        return 0;
    }
    let mut low: u128 = 0;
    let mut high: u128 = 0x1_0000_0000_0000_0000;
    assert(high * high >= n) by (nonlinear_arith)
        requires
            high == 0x1_0000_0000_0000_0000,
            n <= u128::MAX,
    ;
    while high - low > 1
        invariant
            low < high <= 0x1_0000_0000_0000_0000,
            low * low < n,
            high * high >= n,
        decreases high - low,
    {
        let mid: u128 = low + (high - low) / 2;
        assert(mid * mid <= 0xFFFF_FFFF_FFFF_FFFF * 0xFFFF_FFFF_FFFF_FFFF) by (nonlinear_arith)
            requires
                0 <= mid <= 0xFFFF_FFFF_FFFF_FFFF,
        ;
        let square: u128 = mid * mid;
        if square >= n {
            high = mid;
        } else {
            low = mid;
        }
    }
    proof {
        lemma_ceil_sqrt_is(n as int, high as int);
    }
    high
}

/// A pair of whole numbers: a pointer motion, a pair of axis inputs, a pair of rates.
#[derive(Clone, Copy, Debug, PartialEq, Eq, Structural)]
pub struct Vec2 {
    pub x: i32,
    pub y: i32,
}

impl Vec2 {
    /// The pair with both coordinates zero.
    pub open spec fn spec_zero() -> Vec2 {
        Vec2 { x: 0, y: 0 }
    }

    /// The pair with both coordinates zero.
    #[verifier::when_used_as_spec(spec_zero)]
    pub fn zero() -> (v: Vec2)
        ensures
            v == Vec2::spec_zero(),
    {
        Vec2 { x: 0, y: 0 }
    }

    pub fn new(x: i32, y: i32) -> (v: Vec2)
        ensures
            v == (Vec2 { x, y }),
    {
        Vec2 { x, y }
    }

    /// Whether both coordinates are zero.
    pub fn is_zero(&self) -> (zero: bool)
        ensures
            zero == (*self == Vec2::spec_zero()),
    {
        self.x == 0 && self.y == 0
    }
}

impl Default for Vec2 {
    fn default() -> (v: Vec2)
        ensures
            v == Vec2::spec_zero(),
    {
        Vec2::zero()
    }
}

/// The mathematical model of a [`Vec3`]: three unbounded integer coordinates.
pub struct Vector3 {
    pub x: int,
    pub y: int,
    pub z: int,
}

impl Vector3 {
    /// The coordinate-wise sum.
    pub open spec fn plus(self, other: Vector3) -> Vector3 {
        Vector3 { x: self.x + other.x, y: self.y + other.y, z: self.z + other.z }
    }

    /// Every coordinate multiplied by `factor`.
    pub open spec fn scaled(self, factor: int) -> Vector3 {
        Vector3 { x: self.x * factor, y: self.y * factor, z: self.z * factor }
    }

    /// The square of the Euclidean length.
    pub open spec fn norm_squared(self) -> int {
        self.x * self.x + self.y * self.y + self.z * self.z
    }

    /// The point `numer / denom` of the way from `self` to `to`, each coordinate rounded
    /// toward `self`.
    pub open spec fn lerp(self, to: Vector3, numer: int, denom: int) -> Vector3
        recommends
            0 <= numer <= denom,
            denom > 0,
    {
        Vector3 {
            x: lerp_int(self.x, to.x, numer, denom),
            y: lerp_int(self.y, to.y, numer, denom),
            z: lerp_int(self.z, to.z, numer, denom),
        }
    }

    /// The vector itself if it is no longer than `max`; otherwise the vector shrunk onto
    /// length `max`: each coordinate times `max`, divided by the rounded-up length and
    /// rounded toward zero.
    pub open spec fn clamp_length_max(self, max: int) -> Vector3
        recommends
            max >= 0,
    {
        if self.norm_squared() <= max * max {
            self
        } else {
            let length = ceil_sqrt(self.norm_squared());
            Vector3 {
                x: trunc_div(self.x * max, length),
                y: trunc_div(self.y * max, length),
                z: trunc_div(self.z * max, length),
            }
        }
    }

    /// Whether every coordinate can be stored in 64 bits.
    pub open spec fn fits(self) -> bool {
        &&& i64::MIN <= self.x <= i64::MAX
        &&& i64::MIN <= self.y <= i64::MAX
        &&& i64::MIN <= self.z <= i64::MAX
    }

    /// The stored vector with these coordinates. It stands for `self` if `self` fits.
    pub open spec fn stored(self) -> Vec3
        recommends
            self.fits(),
    {
        Vec3 { x: self.x as i64, y: self.y as i64, z: self.z as i64 }
    }
}

/// One coordinate of a shrunk vector: it keeps its sign, does not grow, and its square,
/// weighted by the squared divisor, stays under the weighted square it came from.
proof fn lemma_shrunk_coordinate(a: int, max: int, length: int)
    requires
        0 <= max <= length,
        length > 0,
    ensures
        ({
            let c = trunc_div(a * max, length);
            &&& c * c * (length * length) <= a * a * (max * max)
            &&& a >= 0 ==> 0 <= c <= a
            &&& a <= 0 ==> a <= c <= 0
        }),
{
    let p = a * max;
    let c = trunc_div(p, length);
    lemma_trunc_div_bounds(p, length);
    assert(a >= 0 ==> 0 <= p <= a * length) by (nonlinear_arith)
        requires
            p == a * max,
            0 <= max <= length,
    ;
    assert(a <= 0 ==> a * length <= p <= 0) by (nonlinear_arith)
        requires
            p == a * max,
            0 <= max <= length,
    ;
    assert(a >= 0 ==> 0 <= c <= a) by (nonlinear_arith)
        requires
            length > 0,
            p >= 0 ==> 0 <= c * length <= p,
            p >= 0 ==> c >= 0,
            a >= 0 ==> 0 <= p <= a * length,
    ;
    assert(a <= 0 ==> a <= c <= 0) by (nonlinear_arith)
        requires
            length > 0,
            p <= 0 ==> p <= c * length <= 0,
            p <= 0 ==> c <= 0,
            a <= 0 ==> a * length <= p <= 0,
    ;
    let cs = c * length;
    assert(cs * cs <= p * p) by (nonlinear_arith)
        requires
            (0 <= cs <= p) || (p <= cs <= 0),
    ;
    assert(cs * cs == c * c * (length * length)) by (nonlinear_arith)
        requires
            cs == c * length,
    ;
    assert(p * p == a * a * (max * max)) by (nonlinear_arith)
        requires
            p == a * max,
    ;
}

/// A clamped vector is no longer than the bound, a vector within the bound is left as it
/// is, and no coordinate changes sign or grows.
pub proof fn lemma_clamp_length_max(v: Vector3, max: int)
    requires
        max >= 0,
    ensures
        v.clamp_length_max(max).norm_squared() <= max * max,
        v.norm_squared() <= max * max ==> v.clamp_length_max(max) == v,
        v.x >= 0 ==> 0 <= v.clamp_length_max(max).x <= v.x,
        v.x <= 0 ==> v.x <= v.clamp_length_max(max).x <= 0,
        v.y >= 0 ==> 0 <= v.clamp_length_max(max).y <= v.y,
        v.y <= 0 ==> v.y <= v.clamp_length_max(max).y <= 0,
        v.z >= 0 ==> 0 <= v.clamp_length_max(max).z <= v.z,
        v.z <= 0 ==> v.z <= v.clamp_length_max(max).z <= 0,
{
    let n = v.norm_squared();
    if n > max * max {
        let length = ceil_sqrt(n);
        lemma_ceil_sqrt_exists(n);
        assert(max * max >= 0) by (nonlinear_arith);
        assert(length > max) by (nonlinear_arith)
            requires
                length >= 0,
                max >= 0,
                length * length > max * max,
        ;
        lemma_shrunk_coordinate(v.x, max, length);
        lemma_shrunk_coordinate(v.y, max, length);
        lemma_shrunk_coordinate(v.z, max, length);
        let c = v.clamp_length_max(max);
        let ll = length * length;
        let mm = max * max;
        let (cxx, cyy, czz) = (c.x * c.x, c.y * c.y, c.z * c.z);
        let (vxx, vyy, vzz) = (v.x * v.x, v.y * v.y, v.z * v.z);
        let total = cxx + cyy + czz;
        assert(total * ll == cxx * ll + cyy * ll + czz * ll) by (nonlinear_arith)
            requires
                total == cxx + cyy + czz,
        ;
        assert(n * mm == vxx * mm + vyy * mm + vzz * mm) by (nonlinear_arith)
            requires
                n == vxx + vyy + vzz,
        ;
        assert(n * mm <= ll * mm) by (nonlinear_arith)
            requires
                n <= ll,
                mm >= 0,
        ;
        assert(total <= mm) by (nonlinear_arith)
            requires
                total * ll <= ll * mm,
                ll > 0,
        ;
    }
}

/// One coordinate of a shrunk vector is short of the exact quotient by less than one:
/// its size plus one, times the divisor, is more than the size of the dividend.
proof fn lemma_shrunk_coordinate_near(a: int, max: int, length: int)
    requires
        max >= 0,
        length > 0,
    ensures
        ({
            let c = trunc_div(a * max, length);
            let b = if c >= 0 {
                c
            } else {
                -c
            };
            &&& b * b == c * c
            &&& (b + 1) * (b + 1) * (length * length) > (a * a) * (max * max)
        }),
{
    let p = a * max;
    let c = trunc_div(p, length);
    let b = if c >= 0 {
        c
    } else {
        -c
    };
    let size = if p >= 0 {
        p
    } else {
        -p
    };
    lemma_trunc_div_bounds(p, length);
    assert((c + 1) * length == c * length + length && (c - 1) * length == c * length - length)
        by (nonlinear_arith);
    assert((-c) * length == -(c * length)) by (nonlinear_arith);
    let reach = (b + 1) * length;
    assert(reach == b * length + length) by (nonlinear_arith)
        requires
            reach == (b + 1) * length,
    ;
    assert(reach > size);
    assert(reach * reach > size * size) by (nonlinear_arith)
        requires
            reach > size,
            size >= 0,
    ;
    assert(size * size == p * p) by (nonlinear_arith)
        requires
            size == p || size == -p,
    ;
    assert(b * b == c * c) by (nonlinear_arith)
        requires
            b == c || b == -c,
    ;
    assert(p * p == (a * a) * (max * max)) by (nonlinear_arith)
        requires
            p == a * max,
    ;
    assert(reach * reach == (b + 1) * (b + 1) * (length * length)) by (nonlinear_arith)
        requires
            reach == (b + 1) * length,
    ;
}

/// A level vector that is shortened to `max` ends up short of `max` by less than two
/// and a half: no more is lost to the rounding of the length and of the two
/// coordinates.
pub proof fn lemma_clamp_length_max_near(v: Vector3, max: int)
    requires
        max >= 3,
        v.y == 0,
        v.norm_squared() > max * max,
    ensures
        4 * v.clamp_length_max(max).norm_squared() >= (2 * max - 5) * (2 * max - 5),
        v.clamp_length_max(max).y == 0,
{
    let n = v.norm_squared();
    let length = ceil_sqrt(n);
    lemma_ceil_sqrt_exists(n);
    lemma_clamp_length_max(v, max);
    assert(max * max >= 0) by (nonlinear_arith);
    assert(length > max) by (nonlinear_arith)
        requires
            length >= 0,
            max >= 0,
            length * length > max * max,
    ;
    lemma_shrunk_coordinate_near(v.x, max, length);
    lemma_shrunk_coordinate_near(v.z, max, length);
    let c = v.clamp_length_max(max);
    let bx = if c.x >= 0 {
        c.x
    } else {
        -c.x
    };
    let bz = if c.z >= 0 {
        c.z
    } else {
        -c.z
    };
    let ll = length * length;
    let mm = max * max;
    let px = (bx + 1) * (bx + 1);
    let pz = (bz + 1) * (bz + 1);
    let (vxx, vzz) = (v.x * v.x, v.z * v.z);
    assert(0 * 0 == 0) by (nonlinear_arith);
    assert(n == vxx + vzz);
    // the shrunk sizes, each plus one, reach further than the vector itself
    assert((px + pz) * ll == px * ll + pz * ll) by (nonlinear_arith);
    assert((vxx + vzz) * mm == vxx * mm + vzz * mm) by (nonlinear_arith);
    assert((px + pz) * ll > n * mm);
    // and the vector reaches further than the bound less one, at this divisor
    let below = (length - 1) * max;
    let target = (max - 1) * length;
    assert(n * mm > below * below) by (nonlinear_arith)
        requires
            n > (length - 1) * (length - 1),
            mm == max * max,
            max >= 3,
            below == (length - 1) * max,
    ;
    assert(below > target && target >= 0) by (nonlinear_arith)
        requires
            below == (length - 1) * max,
            target == (max - 1) * length,
            length > max,
            max >= 3,
    ;
    assert(below * below > target * target) by (nonlinear_arith)
        requires
            below > target,
            target >= 0,
    ;
    assert(target * target == ((max - 1) * (max - 1)) * ll) by (nonlinear_arith)
        requires
            target == (max - 1) * length,
            ll == length * length,
    ;
    let goal = (max - 1) * (max - 1);
    assert(px + pz > goal) by (nonlinear_arith)
        requires
            (px + pz) * ll > goal * ll,
            ll > 0,
    ;
    // so the shrunk vector itself cannot be much shorter
    let sum = bx + bz;
    let total = bx * bx + bz * bz;
    assert(px + pz == total + 2 * sum + 2) by (nonlinear_arith)
        requires
            px == (bx + 1) * (bx + 1),
            pz == (bz + 1) * (bz + 1),
            sum == bx + bz,
            total == bx * bx + bz * bz,
    ;
    assert(sum * sum <= 2 * total) by (nonlinear_arith)
        requires
            sum == bx + bz,
            total == bx * bx + bz * bz,
    ;
    let w = 2 * max - 5;
    assert(goal * 4 == (w + 3) * (w + 3)) by (nonlinear_arith)
        requires
            goal == (max - 1) * (max - 1),
            w == 2 * max - 5,
    ;
    if 4 * total < w * w {
        assert(4 * sum <= 3 * w) by (nonlinear_arith)
            requires
                2 * (sum * sum) < w * w,
                sum >= 0,
                w >= 1,
        ;
        assert((w + 3) * (w + 3) == w * w + 6 * w + 9) by (nonlinear_arith);
        assert(false);
    }
    assert(c.norm_squared() == total);
}

/// A point or displacement of space in fixed-point coordinates.
#[derive(Clone, Copy, Debug, PartialEq, Eq, Structural)]
pub struct Vec3 {
    pub x: i64,
    pub y: i64,
    pub z: i64,
}

impl View for Vec3 {
    type V = Vector3;

    open spec fn view(&self) -> Vector3 {
        Vector3 { x: self.x as int, y: self.y as int, z: self.z as int }
    }
}

impl Vec3 {
    /// The vector with all coordinates zero.
    pub open spec fn spec_zero() -> Vec3 {
        Vec3 { x: 0, y: 0, z: 0 }
    }

    /// The vector with all coordinates zero.
    #[verifier::when_used_as_spec(spec_zero)]
    pub fn zero() -> (v: Vec3)
        ensures
            v == Vec3::spec_zero(),
    {
        Vec3 { x: 0, y: 0, z: 0 }
    }

    pub fn new(x: i64, y: i64, z: i64) -> (v: Vec3)
        ensures
            v == (Vec3 { x, y, z }),
    {
        Vec3 { x, y, z }
    }

    /// The square of the Euclidean length.
    pub fn norm_squared(&self) -> (n: u128)
        ensures
            n == self@.norm_squared(),
    {
        let x: i128 = self.x as i128;
        let y: i128 = self.y as i128;
        let z: i128 = self.z as i128;
        assert(0 <= x * x <= 0x4000_0000_0000_0000_0000_0000_0000_0000) by (nonlinear_arith)
            requires
                -0x8000_0000_0000_0000 <= x <= 0x8000_0000_0000_0000,
        ;
        assert(0 <= y * y <= 0x4000_0000_0000_0000_0000_0000_0000_0000) by (nonlinear_arith)
            requires
                -0x8000_0000_0000_0000 <= y <= 0x8000_0000_0000_0000,
        ;
        assert(0 <= z * z <= 0x4000_0000_0000_0000_0000_0000_0000_0000) by (nonlinear_arith)
            requires
                -0x8000_0000_0000_0000 <= z <= 0x8000_0000_0000_0000,
        ;
        let xx: u128 = (x * x) as u128;
        let yy: u128 = (y * y) as u128;
        let zz: u128 = (z * z) as u128;
        xx + yy + zz
    }

    /// Every coordinate multiplied by `factor`.
    pub fn scaled(self, factor: i64) -> (r: Vec3)
        requires
            self@.scaled(factor as int).fits(),
        ensures
            r@ == self@.scaled(factor as int),
    {
        Vec3 { x: self.x * factor, y: self.y * factor, z: self.z * factor }
    }

    /// The point `numer / denom` of the way from `self` to `to`.
    pub fn lerp(self, to: Vec3, numer: u32, denom: u32) -> (r: Vec3)
        requires
            numer <= denom,
            denom > 0,
        ensures
            r@ == self@.lerp(to@, numer as int, denom as int),
    {
        Vec3 {
            x: lerp_i64(self.x, to.x, numer, denom),
            y: lerp_i64(self.y, to.y, numer, denom),
            z: lerp_i64(self.z, to.z, numer, denom),
        }
    }

    /// Shortens the vector to length `max` if it is longer, and keeps its direction.
    pub fn clamp_length_max(self, max: i64) -> (r: Vec3)
        requires
            max >= 0,
        ensures
            r@ == self@.clamp_length_max(max as int),
            r@.norm_squared() <= max * max,
    {
        proof {
            lemma_clamp_length_max(self@, max as int);
        }
        let n: u128 = self.norm_squared();
        let m: i128 = max as i128;
        assert(0 <= m * m <= 0x4000_0000_0000_0000_0000_0000_0000_0000) by (nonlinear_arith)
            requires
                0 <= m <= 0x8000_0000_0000_0000,
        ;
        let bound: u128 = (m * m) as u128;
        if n <= bound {
            return self;
        }
        let length: i128 = ceil_sqrt_u128(n) as i128;
        assert(length > m) by (nonlinear_arith)
            requires
                length >= 0,
                m >= 0,
                length * length > m * m,
        ;
        Vec3 {
            x: shrink_i64(self.x, max, length),
            y: shrink_i64(self.y, max, length),
            z: shrink_i64(self.z, max, length),
        }
    }
}

/// One coordinate times `max`, divided by `length` and rounded toward zero.
fn shrink_i64(a: i64, max: i64, length: i128) -> (c: i64)
    requires
        0 <= max <= length,
        length > 0,
    ensures
        c == trunc_div(a * max, length as int),
{
    let wide: i128 = a as i128;
    let m: i128 = max as i128;
    assert(-0x4000_0000_0000_0000_0000_0000_0000_0000 <= wide * m
        <= 0x4000_0000_0000_0000_0000_0000_0000_0000) by (nonlinear_arith)
        requires
            -0x8000_0000_0000_0000 <= wide <= 0x8000_0000_0000_0000,
            0 <= m <= 0x8000_0000_0000_0000,
    ;
    proof {
        lemma_shrunk_coordinate(a as int, max as int, length as int);
    }
    let q: i128 = (wide * m) / length;
    q as i64
}

} // verus!
