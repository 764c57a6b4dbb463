//! The disc that a body covers in its image: which pixels lie inside it,
//! how opaque its edge is, and which point of the body a pixel shows.
//!
//! The disc is centered on the image and as wide as the image.  Distances
//! are kept doubled and squared, so that every test is exact: the offset
//! of a pixel from the center is `x - pixels / 2`, its double `2 * x - pixels`.

use vstd::prelude::*;
use crate::numeric::{
    ceil_sqrt, div_toward_zero, isqrt_ceil, lemma_ceil_sqrt_bounds, lemma_sqrt_of_square,
    lemma_trunc_div_scaled, magnitude, trunc_div,
};
use crate::raster::MAX_RESOLUTION;
use crate::types::{Length, Point, MAX_LENGTH};

verus! {

/// Twice the offset of column or row `v` from the center of the image.
pub open spec fn doubled_offset(pixels: int, v: int) -> int {
    2 * v - pixels
}

/// Four times the square of the distance of a pixel from the center.
pub open spec fn spread_of(pixels: int, x: int, y: int) -> int {
    doubled_offset(pixels, x) * doubled_offset(pixels, x) + doubled_offset(pixels, y)
        * doubled_offset(pixels, y)
}

/// Whether a pixel with this spread lies inside the disc: its distance from
/// the center is less than half the side of the image.
pub open spec fn is_inside(pixels: int, spread: int) -> bool {
    spread < pixels * pixels
}

/// The opacity of a pixel with this spread.
///
/// Outside the disc a pixel is transparent.  Inside, it is opaque unless
/// it lies less than one pixel from the edge: there the opacity is 255
/// times its distance from the edge, rounded down.
pub open spec fn alpha_of(pixels: int, spread: int) -> int {
    if !is_inside(pixels, spread) {
        0
    } else if pixels >= 2 && spread <= (pixels - 2) * (pixels - 2) {
        255
    } else {
        (255 * pixels - ceil_sqrt(65025 * spread)) / 2
    }
}

/// The coordinate, relative to the center of a body of the given radius,
/// that a doubled offset stands for.
pub open spec fn planet_coordinate(radius: int, pixels: int, doubled: int) -> int {
    trunc_div(radius * doubled, pixels)
}

/// The point of the body that the pixel in column `x` of row `y` shows.
pub open spec fn planet_point_of(radius: int, pixels: int, x: int, y: int) -> Point {
    Point {
        x: planet_coordinate(radius, pixels, doubled_offset(pixels, x)) as i64,
        y: planet_coordinate(radius, pixels, doubled_offset(pixels, y)) as i64,
    }
}

/// Whether pixel `i` of the image, counted row after row, lies inside the
/// disc.
pub open spec fn pixel_inside(pixels: int, i: int) -> bool {
    is_inside(pixels, spread_of(pixels, i % pixels, i / pixels))
}

/// The point of the body that pixel `i` of the image, counted row after
/// row, shows.
pub open spec fn pixel_point(radius: int, pixels: int, i: int) -> Point {
    planet_point_of(radius, pixels, i % pixels, i / pixels)
}

/// Every pixel of an image shows a point in the square that bounds the
/// body.
pub proof fn lemma_pixel_point_covered(radius: int, pixels: int, i: int)
    requires
        0 < radius <= MAX_LENGTH,
        0 < pixels,
        0 <= i < pixels * pixels,
    ensures
        -radius <= pixel_point(radius, pixels, i).x <= radius,
        -radius <= pixel_point(radius, pixels, i).y <= radius,
{
    let x = i % pixels;
    let y = i / pixels;
    vstd::arithmetic::div_mod::lemma_mod_bound(i, pixels);
    vstd::arithmetic::div_mod::lemma_div_pos_is_pos(i, pixels);
    vstd::arithmetic::div_mod::lemma_multiply_divide_lt(i, pixels, pixels);
    let dx = doubled_offset(pixels, x);
    let dy = doubled_offset(pixels, y);
    assert(magnitude(radius * dx) <= radius * pixels && magnitude(radius * dy) <= radius * pixels)
        by (nonlinear_arith)
        requires
            -pixels <= dx <= pixels,
            -pixels <= dy <= pixels,
            0 < radius,
    ;
    lemma_trunc_div_scaled(radius * dx, pixels, radius);
    lemma_trunc_div_scaled(radius * dy, pixels, radius);
}

/// The number of pixels inside the disc among the first `upto` pixels of
/// the image, counted row after row.
pub open spec fn inside_count(pixels: int, upto: int) -> int
    decreases upto,
{
    if upto <= 0 || pixels <= 0 {
        0
    } else {
        let i = upto - 1;
        inside_count(pixels, i) + if pixel_inside(pixels, i) {
            1int
        } else {
            0int
        }
    }
}

/// The opacity at the three distances that mark the edge of the disc: a
/// pixel half a pixel inside the edge is neither transparent nor opaque, a
/// pixel a whole pixel outside the edge is transparent, and one at the
/// center of a disc at least two pixels wide is opaque.
pub proof fn lemma_alpha_at_edge(pixels: int)
    requires
        1 <= pixels,
    ensures
        0 < alpha_of(pixels, (pixels - 1) * (pixels - 1)) < 255,
        alpha_of(pixels, (pixels + 2) * (pixels + 2)) == 0,
        pixels >= 2 ==> alpha_of(pixels, 0) == 255,
{
    let p = pixels;
    assert((p + 2) * (p + 2) >= p * p) by (nonlinear_arith)
        requires
            p >= 1,
    ;
    assert((p - 1) * (p - 1) < p * p) by (nonlinear_arith)
        requires
            p >= 1,
    ;
    if p >= 2 {
        assert((p - 1) * (p - 1) > (p - 2) * (p - 2)) by (nonlinear_arith)
            requires
                p >= 2,
        ;
        assert(0 < p * p && 0 <= (p - 2) * (p - 2)) by (nonlinear_arith)
            requires
                p >= 2,
        ;
    }
    let r = 255 * (p - 1);
    assert(65025 * ((p - 1) * (p - 1)) == r * r) by (nonlinear_arith)
        requires
            r == 255 * (p - 1),
    ;
    lemma_sqrt_of_square(r);
}

/// A spread is a sum of squares.
pub proof fn lemma_spread_not_negative(pixels: int, x: int, y: int)
    ensures
        spread_of(pixels, x, y) >= 0,
{
    let dx = doubled_offset(pixels, x);
    let dy = doubled_offset(pixels, y);
    assert(dx * dx >= 0 && dy * dy >= 0) by (nonlinear_arith);
}

/// Inside the disc the opacity is a level between 0 and 255.
pub proof fn lemma_alpha_bounds(pixels: int, spread: int)
    requires
        0 <= pixels,
        0 <= spread,
    ensures
        0 <= alpha_of(pixels, spread) <= 255,
        !is_inside(pixels, spread) ==> alpha_of(pixels, spread) == 0,
{
    if is_inside(pixels, spread) && !(pixels >= 2 && spread <= (pixels - 2) * (pixels - 2)) {
        let n = 65025 * spread;
        let r = 255 * pixels;
        lemma_ceil_sqrt_bounds(n);
        let c = ceil_sqrt(n);
        // the root is at most 255 * pixels, since the spread is below pixels squared
        if c > r {
            assert((c - 1) * (c - 1) >= r * r) by (nonlinear_arith)
                requires
                    c - 1 >= r,
                    r >= 0,
            ;
            assert(r * r == 65025 * (pixels * pixels)) by (nonlinear_arith)
                requires
                    r == 255 * pixels,
            ;
        }
        // and more than 255 * (pixels - 2), since the spread is above (pixels - 2) squared
        if pixels >= 2 {
            let q = 255 * (pixels - 2);
            if c <= q {
                assert(c * c <= q * q) by (nonlinear_arith)
                    requires
                        0 <= c <= q,
                ;
                assert(q * q == 65025 * ((pixels - 2) * (pixels - 2))) by (nonlinear_arith)
                    requires
                        q == 255 * (pixels - 2),
                ;
            }
        }
    }
}

/// Four times the square of the distance of a pixel from the center.
pub fn spread(pixels: u32, x: u32, y: u32) -> (s: u64)
    requires
        pixels <= MAX_RESOLUTION,
        x < pixels,
        y < pixels,
    ensures
        s == spread_of(pixels as int, x as int, y as int),
        s <= 2 * pixels * pixels,
{
    let dx: i64 = 2 * (x as i64) - pixels as i64;
    let dy: i64 = 2 * (y as i64) - pixels as i64;
    let p: i64 = pixels as i64;
    assert(0 <= dx * dx <= p * p && 0 <= dy * dy <= p * p && p * p <= 16_384 * 16_384)
        by (nonlinear_arith)
        requires
            -p <= dx <= p,
            -p <= dy <= p,
            0 <= p <= 16_384,
    ;
    assert(2 * pixels * pixels == 2 * (p * p)) by (nonlinear_arith)
        requires
            p == pixels,
    ;
    (dx * dx + dy * dy) as u64
}

/// Whether a pixel with this spread lies inside the disc.
pub fn inside(pixels: u32, spread: u64) -> (within: bool)
    requires
        pixels <= MAX_RESOLUTION,
    ensures
        within == is_inside(pixels as int, spread as int),
{
    let p: u64 = pixels as u64;
    assert(p * p <= 16_384 * 16_384) by (nonlinear_arith)
        requires
            0 <= p <= 16_384,
    ;
    spread < p * p
}

/// The opacity of a pixel with this spread.
pub fn alpha(pixels: u32, spread: u64) -> (opacity: u8)
    requires
        pixels <= MAX_RESOLUTION,
    ensures
        opacity == alpha_of(pixels as int, spread as int),
{
    let p: u64 = pixels as u64;
    assert(p * p <= 16_384 * 16_384) by (nonlinear_arith)
        requires
            0 <= p <= 16_384,
    ;
    proof {
        lemma_alpha_bounds(pixels as int, spread as int);
    }
    if spread >= p * p {
        return 0;
    }
    if p >= 2 {
        assert((p - 2) * (p - 2) <= p * p) by (nonlinear_arith)
            requires
                p >= 2,
        ;
        if spread <= (p - 2) * (p - 2) {
            return 255;
        }
    }
    let root: u128 = isqrt_ceil(65025 * (spread as u128));
    let level: u128 = (255 * (p as u128) - root) / 2;
    level as u8
}

/// The point of a body that the pixel in column `x` of row `y` shows.
pub fn planet_point(radius: Length, pixels: u32, x: u32, y: u32) -> (point: Point)
    requires
        0 < radius.meters <= MAX_LENGTH,
        0 < pixels <= MAX_RESOLUTION,
        x < pixels,
        y < pixels,
    ensures
        point == planet_point_of(radius.meters as int, pixels as int, x as int, y as int),
        -radius.meters <= point.x <= radius.meters,
        -radius.meters <= point.y <= radius.meters,
{
    let r: i128 = radius.meters as i128;
    let p: i128 = pixels as i128;
    let dx: i128 = 2 * (x as i128) - p;
    let dy: i128 = 2 * (y as i128) - p;
    proof {
        assert(magnitude(r * dx) <= r * p && magnitude(r * dy) <= r * p && r * p
            <= 1_000_000_000_000_000 * 16_384) by (nonlinear_arith)
            requires
                -p <= dx <= p,
                -p <= dy <= p,
                0 < p <= 16_384,
                0 < r <= 1_000_000_000_000_000,
        ;
        lemma_trunc_div_scaled((r * dx) as int, p as int, r as int);
        lemma_trunc_div_scaled((r * dy) as int, p as int, r as int);
    }
    Point { x: div_toward_zero(r * dx, p) as i64, y: div_toward_zero(r * dy, p) as i64 }
}

} // verus!
