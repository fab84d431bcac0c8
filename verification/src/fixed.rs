//! Fixed-point quantities and three-dimensional vectors.
//!
//! A length, a speed, a hit-point count or a mix level is an `i64` counted in
//! millionths of its unit; a time is a count of microseconds. A speed is in
//! length units per second, so a speed times a time is divided by [`SCALE`].

use vstd::prelude::*;

verus! {

/// How many fixed-point steps make one unit, and how many microseconds one
/// second.
pub const SCALE: i64 = 1_000_000;

/// The largest coordinate, in fixed-point steps, that the spatial mix accepts.
pub const WORLD_LIMIT: i64 = 1_000_000_000_000;

/// Whether `v` can be held in an `i64`.
pub open spec fn fits_i64(v: int) -> bool {
    i64::MIN <= v <= i64::MAX
}

/// Whether `r` is the largest number whose square is at most `n`.
pub open spec fn is_isqrt(n: nat, r: nat) -> bool {
    r * r <= n < (r + 1) * (r + 1)
}

/// The integer square root: the largest `r` with `r * r <= n`.
pub open spec fn isqrt(n: nat) -> nat {
    choose|r: nat| is_isqrt(n, r)
}

/// A number whose square is at most `n` and whose successor's square is
/// above `n` is the integer square root of `n`.
pub proof fn lemma_isqrt_unique(n: nat, r: nat)
    requires
        is_isqrt(n, r),
    ensures
        isqrt(n) == r,
{
    let s = isqrt(n);
    assert(is_isqrt(n, s));
    if s < r {
        assert((s + 1) * (s + 1) <= r * r) by (nonlinear_arith)
            requires
                s + 1 <= r,
        ;
    }
    if r < s {
        assert((r + 1) * (r + 1) <= s * s) by (nonlinear_arith)
            requires
                r + 1 <= s,
        ;
    }
}

/// Computes the integer square root by bisection.
pub fn integer_sqrt(n: u128) -> (r: u64)
    ensures
        r == isqrt(n as nat),
        is_isqrt(n as nat, r as nat),
{
    let mut lo: u128 = 0;
    let mut hi: u128 = 0x1_0000_0000_0000_0000;
    assert(n < 0x1_0000_0000_0000_0000 * 0x1_0000_0000_0000_0000);
    while hi - lo > 1
        invariant
            lo < hi <= 0x1_0000_0000_0000_0000,
            lo * lo <= n < hi * hi,
        decreases hi - lo,
    {
        let mid: u128 = lo + (hi - lo) / 2;
        assert(mid * mid < 0x1_0000_0000_0000_0000 * 0x1_0000_0000_0000_0000) by (nonlinear_arith)
            requires
                mid < 0x1_0000_0000_0000_0000,
        ;
        assert(0x1_0000_0000_0000_0000 * 0x1_0000_0000_0000_0000 - 1 == u128::MAX);
        if mid * mid <= n {
            lo = mid;
        } else {
            hi = mid;
        }
    }
    proof {
        assert(hi == lo + 1);
        lemma_isqrt_unique(n as nat, lo as nat);
    }
    lo as u64
}

/// The mathematical value of a vector: three integers.
pub ghost struct V3 {
    pub x: int,
    pub y: int,
    pub z: int,
}

impl V3 {
    /// The sum of two vectors.
    pub open spec fn plus(self, other: V3) -> V3 {
        V3 { x: self.x + other.x, y: self.y + other.y, z: self.z + other.z }
    }

    /// The difference of two vectors.
    pub open spec fn minus(self, other: V3) -> V3 {
        V3 { x: self.x - other.x, y: self.y - other.y, z: self.z - other.z }
    }

    /// The vector stretched by a whole factor.
    pub open spec fn times(self, factor: int) -> V3 {
        V3 { x: self.x * factor, y: self.y * factor, z: self.z * factor }
    }

    /// The way covered at this velocity in `micros` microseconds, each
    /// component rounded down.
    pub open spec fn over_time(self, micros: int) -> V3 {
        V3 {
            x: (self.x * micros) / (SCALE as int),
            y: (self.y * micros) / (SCALE as int),
            z: (self.z * micros) / (SCALE as int),
        }
    }

    /// The scalar product.
    pub open spec fn dot(self, other: V3) -> int {
        self.x * other.x + self.y * other.y + self.z * other.z
    }

    /// The square of the length.
    pub open spec fn norm_squared(self) -> nat {
        (self.x * self.x + self.y * self.y + self.z * self.z) as nat
    }

    /// The length, rounded down.
    pub open spec fn norm(self) -> nat {
        isqrt(self.norm_squared())
    }

    /// Whether each component can be held in an `i64`.
    pub open spec fn fits(self) -> bool {
        fits_i64(self.x) && fits_i64(self.y) && fits_i64(self.z)
    }

    /// The vector of `i64` components with this value, where it fits.
    pub open spec fn to_vec3(self) -> Vec3 {
        Vec3 { x: self.x as i64, y: self.y as i64, z: self.z as i64 }
    }

    /// Whether each component is within [`WORLD_LIMIT`] of zero.
    pub open spec fn in_bounds(self) -> bool {
        &&& -WORLD_LIMIT <= self.x <= WORLD_LIMIT
        &&& -WORLD_LIMIT <= self.y <= WORLD_LIMIT
        &&& -WORLD_LIMIT <= self.z <= WORLD_LIMIT
    }
}

/// A vector or a point in space, in fixed-point steps.
#[derive(Clone, Copy, Debug, PartialEq, Eq, Structural, Hash)]
pub struct Vec3 {
    pub x: i64,
    pub y: i64,
    pub z: i64,
}

impl View for Vec3 {
    type V = V3;

    open spec fn view(&self) -> V3 {
        V3 { x: self.x as int, y: self.y as int, z: self.z as int }
    }
}

/// `numerator / divisor` rounded down, for a numerator of either sign.
pub fn floor_div(numerator: i128, divisor: i128) -> (q: i128)
    requires
        0 < divisor,
        i128::MIN + divisor < numerator,
    ensures
        q == (numerator as int) / (divisor as int),
{
    if numerator >= 0 {
        numerator / divisor
    } else {
        let magnitude: i128 = -numerator;
        let up: i128 = magnitude + (divisor - 1);
        let q: i128 = up / divisor;
        proof {
            let d = divisor as int;
            let r = (up as int) % d;
            vstd::arithmetic::div_mod::lemma_fundamental_div_mod(up as int, d);
            vstd::arithmetic::div_mod::lemma_mod_bound(up as int, d);
            vstd::arithmetic::div_mod::lemma_div_pos_is_pos(up as int, d);
            assert(numerator as int == (-(q as int)) * d + (d - 1 - r)) by (nonlinear_arith)
                requires
                    up as int == d * (q as int) + r,
                    up as int == -(numerator as int) + d - 1,
            ;
            vstd::arithmetic::div_mod::lemma_fundamental_div_mod_converse(
                numerator as int,
                d,
                -(q as int),
                d - 1 - r,
            );
        }
        -q
    }
}

/// `a * b` for a speed and a time.
fn speed_times(a: i64, b: u64) -> (p: i128)
    ensures
        p == a as int * b as int,
        -0x8000_0000_0000_0000 * 0xffff_ffff_ffff_ffff <= p <= 0x8000_0000_0000_0000
            * 0xffff_ffff_ffff_ffff,
{
    assert(-0x8000_0000_0000_0000 * 0xffff_ffff_ffff_ffff <= a as int * b as int
        <= 0x8000_0000_0000_0000 * 0xffff_ffff_ffff_ffff) by (nonlinear_arith)
        requires
            -0x8000_0000_0000_0000 <= a as int <= 0x8000_0000_0000_0000,
            0 <= b as int <= 0xffff_ffff_ffff_ffff,
    ;
    (a as i128) * (b as i128)
}

/// The way covered at speed `v` in `dt` microseconds, rounded down.
pub fn way_over_time(v: i64, dt: u64) -> (w: i128)
    ensures
        w == (v as int * dt as int) / (SCALE as int),
        -0x1000_0000_0000_0000_0000_0000_0000 <= w <= 0x1000_0000_0000_0000_0000_0000_0000,
{
    let product = speed_times(v, dt);
    floor_div(product, 1_000_000)
}

/// `a * b` for a coordinate and a time.
fn coordinate_times(a: i64, b: u32) -> (p: i128)
    ensures
        p == a as int * b as int,
        -0x8000_0000_0000_0000_0000_0000 <= p <= 0x8000_0000_0000_0000_0000_0000,
{
    assert(-0x8000_0000_0000_0000 * 0x1_0000_0000 <= a as int * b as int <= 0x8000_0000_0000_0000
        * 0x1_0000_0000) by (nonlinear_arith)
        requires
            -0x8000_0000_0000_0000 <= a as int <= 0x8000_0000_0000_0000,
            0 <= b as int <= 0x1_0000_0000,
    ;
    (a as i128) * (b as i128)
}

/// `a * a` for any coordinate.
fn wide_square(a: i64) -> (p: u128)
    ensures
        p == a * a,
        p <= 0x4000_0000_0000_0000_0000_0000_0000_0000,
{
    let m: u128 = if a < 0 { (-(a as i128)) as u128 } else { a as u128 };
    assert(m * m == a * a) by (nonlinear_arith)
        requires
            m == a || m == -a,
    ;
    assert(m * m <= 0x8000_0000_0000_0000 * 0x8000_0000_0000_0000) by (nonlinear_arith)
        requires
            0 <= m <= 0x8000_0000_0000_0000,
    ;
    m * m
}

impl Vec3 {
    /// The vector with the given components.
    pub fn new(x: i64, y: i64, z: i64) -> (r: Vec3)
        ensures
            r.x == x,
            r.y == y,
            r.z == z,
    {
        Vec3 { x, y, z }
    }

    /// The zero vector.
    pub fn zero() -> (r: Vec3)
        ensures
            r@ == (V3 { x: 0, y: 0, z: 0 }),
    {
        Vec3 { x: 0, y: 0, z: 0 }
    }

    /// Whether every component is zero.
    pub fn is_zero(&self) -> (r: bool)
        ensures
            r == (self@ == V3 { x: 0, y: 0, z: 0 }),
    {
        self.x == 0 && self.y == 0 && self.z == 0
    }

    /// Whether each component is within [`WORLD_LIMIT`] of zero.
    pub fn within_bounds(&self) -> (r: bool)
        ensures
            r == self@.in_bounds(),
    {
        -WORLD_LIMIT <= self.x && self.x <= WORLD_LIMIT && -WORLD_LIMIT <= self.y && self.y
            <= WORLD_LIMIT && -WORLD_LIMIT <= self.z && self.z <= WORLD_LIMIT
    }

    /// `self + other * factor`, where every component of it fits.
    pub fn checked_offset(&self, other: &Vec3, factor: u32) -> (r: Option<Vec3>)
        ensures
            self@.plus(other@.times(factor as int)).fits() <==> r is Some,
            r is Some ==> r->Some_0@ == self@.plus(other@.times(factor as int)),
    {
        let x: i128 = self.x as i128 + coordinate_times(other.x, factor);
        let y: i128 = self.y as i128 + coordinate_times(other.y, factor);
        let z: i128 = self.z as i128 + coordinate_times(other.z, factor);
        if i64::MIN as i128 <= x && x <= i64::MAX as i128 && i64::MIN as i128 <= y && y
            <= i64::MAX as i128 && i64::MIN as i128 <= z && z <= i64::MAX as i128 {
            Some(Vec3 { x: x as i64, y: y as i64, z: z as i64 })
        } else {
            None
        }
    }

    /// The square of the length.
    pub fn length_squared(&self) -> (r: u128)
        ensures
            r == self@.norm_squared(),
    {
        let x: u128 = wide_square(self.x);
        let y: u128 = wide_square(self.y);
        let z: u128 = wide_square(self.z);
        x + y + z
    }

    /// The length, rounded down.
    pub fn length(&self) -> (r: u64)
        ensures
            r == self@.norm(),
    {
        integer_sqrt(self.length_squared())
    }
}

/// An orientation, as the four components of a quaternion in fixed-point
/// steps. The rules only carry it from one place to another.
#[derive(Clone, Copy, Debug, PartialEq, Eq, Structural, Hash)]
pub struct Quat {
    pub x: i64,
    pub y: i64,
    pub z: i64,
    pub w: i64,
}

/// Where something is and how it is turned.
#[derive(Clone, Copy, Debug, PartialEq, Eq, Structural, Hash)]
pub struct Transform {
    pub translation: Vec3,
    pub rotation: Quat,
}

} // verus!
