//! Units and plain geometric values.
//!
//! Every quantity is an integer: lengths count meters, fractions count
//! millionths, and an angle is kept as the direction it points in.

use vstd::prelude::*;
use crate::numeric::{floor_sqrt, isqrt, lemma_floor_sqrt_bounds, lemma_floor_sqrt_monotonic, lemma_sqrt_of_square};

verus! {

/// The number of meters in one kilometer.
pub const METERS_PER_KILOMETER: i64 = 1000;

/// The largest magnitude, in meters, that a length or a coordinate may have.
pub const MAX_LENGTH: i64 = 1_000_000_000_000_000;

/// The fixed-point representation of the fraction one: a millionth is the
/// smallest step of a factor, a color component or a noise sample.
pub const UNIT: i64 = 1_000_000;

/// Unit type for lengths given in kilometers.
#[derive(Clone, Copy, Debug, Default)]
pub struct Kilometers;


/// By how much the squares of the components of a direction, in millionths,
/// may miss one when they are added up: three millionths of one.
pub const DIRECTION_TOLERANCE: i64 = 3 * UNIT;

/// A signed length, counted in meters.
#[derive(Clone, Copy, Debug, PartialEq, Eq, Structural)]
pub struct Length {
    pub meters: i64,
}

/// A position in the plane, in meters.
#[derive(Clone, Copy, Debug, PartialEq, Eq, Structural)]
pub struct Point {
    pub x: i64,
    pub y: i64,
}

/// A direction in the plane: the cosine and the sine of an angle, in millionths.
#[derive(Clone, Copy, Debug, PartialEq, Eq, Structural)]
pub struct Angle {
    pub cos: i32,
    pub sin: i32,
}

/// An 8-bit sRGB color.
#[derive(Clone, Copy, Debug, PartialEq, Eq, Structural)]
pub struct Rgb {
    pub red: u8,
    pub green: u8,
    pub blue: u8,
}

impl Kilometers {
    /// The length of `km` kilometers.
    pub fn new(km: i32) -> (r: Length)
        ensures
            r.meters == km * METERS_PER_KILOMETER,
    {
        let wide: i64 = km as i64;
        Length { meters: wide * METERS_PER_KILOMETER }
    }
}

impl Length {
    /// Whether the length is within the magnitude the library computes with.
    pub open spec fn in_range(self) -> bool {
        -MAX_LENGTH <= self.meters <= MAX_LENGTH
    }

    /// The length of `meters` meters.
    pub fn from_meters(meters: i64) -> (r: Length)
        ensures
            r.meters == meters,
    {
        Length { meters }
    }

    /// The number of meters.
    pub fn get(&self) -> (m: i64)
        ensures
            m == self.meters,
    {
        self.meters
    }
}

impl Point {
    /// Whether both coordinates are within the magnitude the library computes with.
    pub open spec fn in_range(self) -> bool {
        &&& -MAX_LENGTH <= self.x <= MAX_LENGTH
        &&& -MAX_LENGTH <= self.y <= MAX_LENGTH
    }

    /// The square of the distance between two points.
    pub open spec fn distance_squared(self, other: Point) -> int {
        (self.x - other.x) * (self.x - other.x) + (self.y - other.y) * (self.y - other.y)
    }

    /// The point with the given coordinates, in meters.
    pub fn new(x: i64, y: i64) -> (r: Point)
        ensures
            r.x == x,
            r.y == y,
    {
        Point { x, y }
    }
}

impl Angle {
    /// Whether both components are fractions between minus one and one.
    pub open spec fn in_range(self) -> bool {
        &&& -UNIT <= self.cos <= UNIT
        &&& -UNIT <= self.sin <= UNIT
    }

    /// Whether the direction is no longer than one: the squares of its
    /// components add up to one at most.
    pub open spec fn is_unit(self) -> bool {
        self.cos * self.cos + self.sin * self.sin <= UNIT * UNIT
    }

    /// Whether the components are the cosine and the sine of an angle, but
    /// for the rounding: they are fractions, and their squares add up to
    /// one within three millionths.
    pub open spec fn is_direction(self) -> bool {
        &&& self.in_range()
        &&& UNIT * UNIT - DIRECTION_TOLERANCE <= self.cos * self.cos + self.sin * self.sin <= UNIT
            * UNIT + DIRECTION_TOLERANCE
    }

    /// Tells whether the components are the cosine and the sine of an angle.
    pub fn is_a_direction(&self) -> (direction: bool)
        ensures
            direction == self.is_direction(),
    {
        if self.cos < -1_000_000 || self.cos > 1_000_000 || self.sin < -1_000_000 || self.sin
            > 1_000_000 {
            return false;
        }
        let c: i64 = self.cos as i64;
        let s: i64 = self.sin as i64;
        assert(0 <= c * c <= 1_000_000 * 1_000_000 && 0 <= s * s <= 1_000_000 * 1_000_000)
            by (nonlinear_arith)
            requires
                -1_000_000 <= c <= 1_000_000,
                -1_000_000 <= s <= 1_000_000,
        ;
        let squares: i64 = c * c + s * s;
        1_000_000 * 1_000_000 - DIRECTION_TOLERANCE <= squares && squares <= 1_000_000 * 1_000_000
            + DIRECTION_TOLERANCE
    }

    /// The direction with the given cosine and sine, in millionths.
    pub fn new(cos: i32, sin: i32) -> (r: Angle)
        ensures
            r.cos == cos,
            r.sin == sin,
    {
        Angle { cos, sin }
    }

    /// The magnitude, in millionths, of the component along an axis of the
    /// direction of a vector: the part that the square of the vector's own
    /// component has in the square of its length, under the root.
    pub open spec fn share(component: int, other: int) -> int {
        floor_sqrt(
            (component * component * (UNIT * UNIT)) / (component * component + other * other),
        )
    }

    /// The direction in which the vector `(dx, dy)` points; that of the
    /// x axis for the vector without length.
    pub open spec fn toward_of(dx: int, dy: int) -> Angle {
        if dx == 0 && dy == 0 {
            Angle { cos: 1_000_000i32, sin: 0i32 }
        } else {
            Angle {
                cos: (if dx < 0 {
                    -Self::share(dx, dy)
                } else {
                    Self::share(dx, dy)
                }) as i32,
                sin: (if dy < 0 {
                    -Self::share(dy, dx)
                } else {
                    Self::share(dy, dx)
                }) as i32,
            }
        }
    }

    /// The shares of the two components of a vector are fractions, and
    /// their squares add up to one at most, and to one within three
    /// millionths.
    pub proof fn lemma_shares(dx: int, dy: int)
        requires
            dx != 0 || dy != 0,
        ensures
            0 <= Self::share(dx, dy) <= UNIT,
            0 <= Self::share(dy, dx) <= UNIT,
            Self::share(dx, dy) * Self::share(dx, dy) + Self::share(dy, dx) * Self::share(dy, dx)
                <= UNIT * UNIT,
            Self::share(dx, dy) * Self::share(dx, dy) + Self::share(dy, dx) * Self::share(dy, dx)
                >= UNIT * UNIT - DIRECTION_TOLERANCE,
    {
        let u: int = UNIT * UNIT;
        let a = dx * dx;
        let b = dy * dy;
        let n = a + b;
        assert(a >= 0 && b >= 0 && n > 0 && dy * dy + dx * dx == n) by (nonlinear_arith)
            requires
                a == dx * dx,
                b == dy * dy,
                n == a + b,
                dx != 0 || dy != 0,
        ;
        assert(0 <= a * u <= n * u && 0 <= b * u <= n * u && a * u + b * u == n * u)
            by (nonlinear_arith)
            requires
                0 <= a <= n,
                0 <= b <= n,
                a + b == n,
                u >= 0,
        ;
        let qa = (a * u) / n;
        let qb = (b * u) / n;
        vstd::arithmetic::div_mod::lemma_fundamental_div_mod(a * u, n);
        vstd::arithmetic::div_mod::lemma_fundamental_div_mod(b * u, n);
        vstd::arithmetic::div_mod::lemma_mod_bound(a * u, n);
        vstd::arithmetic::div_mod::lemma_mod_bound(b * u, n);
        vstd::arithmetic::div_mod::lemma_div_pos_is_pos(a * u, n);
        vstd::arithmetic::div_mod::lemma_div_pos_is_pos(b * u, n);
        assert(qa + qb <= u) by (nonlinear_arith)
            requires
                n * qa <= a * u,
                n * qb <= b * u,
                a * u + b * u == n * u,
                n > 0,
        ;
        assert(qa + qb >= u - 1) by (nonlinear_arith)
            requires
                n * qa > a * u - n,
                n * qb > b * u - n,
                a * u + b * u == n * u,
                n > 0,
        ;
        lemma_floor_sqrt_bounds(qa);
        lemma_floor_sqrt_bounds(qb);
        lemma_floor_sqrt_monotonic(qa, u);
        lemma_floor_sqrt_monotonic(qb, u);
        lemma_sqrt_of_square(UNIT as int);
        let c = floor_sqrt(qa);
        let s = floor_sqrt(qb);
        assert(c * c >= qa - 2 * c && s * s >= qb - 2 * s) by (nonlinear_arith)
            requires
                qa < (c + 1) * (c + 1),
                qb < (s + 1) * (s + 1),
        ;
        assert(c + s < 1_414_214) by (nonlinear_arith)
            requires
                0 <= c,
                0 <= s,
                c * c + s * s <= 1_000_000_000_000,
        ;
    }

    /// The direction in which the vector `(dx, dy)` points.
    pub fn toward(dx: i32, dy: i32) -> (angle: Angle)
        ensures
            angle == Self::toward_of(dx as int, dy as int),
            angle.in_range(),
            angle.is_unit(),
            angle.is_direction(),
    {
        if dx == 0 && dy == 0 {
            return Angle { cos: 1_000_000, sin: 0 };
        }
        let a: u128 = if dx < 0 { (-(dx as i64)) as u128 } else { dx as u128 };
        let b: u128 = if dy < 0 { (-(dy as i64)) as u128 } else { dy as u128 };
        assert(a * a <= 0x4000_0000_0000_0000 && b * b <= 0x4000_0000_0000_0000 && a * a == dx * dx
            && b * b == dy * dy && a * a + b * b > 0) by (nonlinear_arith)
            requires
                0 <= a <= 0x8000_0000,
                0 <= b <= 0x8000_0000,
                a == dx || a == -dx,
                b == dy || b == -dy,
                a != 0 || b != 0,
        ;
        let n: u128 = a * a + b * b;
        let u: u128 = 1_000_000_000_000;
        assert(a * a * u <= 0x4000_0000_0000_0000 * 1_000_000_000_000 && b * b * u
            <= 0x4000_0000_0000_0000 * 1_000_000_000_000) by (nonlinear_arith)
            requires
                0 <= a * a <= 0x4000_0000_0000_0000,
                0 <= b * b <= 0x4000_0000_0000_0000,
                u == 1_000_000_000_000,
        ;
        proof {
            Self::lemma_shares(dx as int, dy as int);
            assert(a * a * u == dx * dx * (UNIT * UNIT)) by (nonlinear_arith)
                requires
                    a * a == dx * dx,
                    u == UNIT * UNIT,
            ;
            assert(b * b * u == dy * dy * (UNIT * UNIT)) by (nonlinear_arith)
                requires
                    b * b == dy * dy,
                    u == UNIT * UNIT,
            ;
            assert(dy * dy + dx * dx == n);
        }
        let c: i32 = isqrt(a * a * u / n) as i32;
        let s: i32 = isqrt(b * b * u / n) as i32;
        let angle = Angle { cos: if dx < 0 { -c } else { c }, sin: if dy < 0 { -s } else { s } };
        assert(angle.cos * angle.cos == c * c && angle.sin * angle.sin == s * s) by (nonlinear_arith)
            requires
                angle.cos == c || angle.cos == -c,
                angle.sin == s || angle.sin == -s,
        ;
        angle
    }
}

impl Rgb {
    /// The color with the given components.
    pub fn new(red: u8, green: u8, blue: u8) -> (r: Rgb)
        ensures
            r == (Rgb { red, green, blue }),
    {
        Rgb { red, green, blue }
    }
}

} // verus!
