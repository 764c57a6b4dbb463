//! The light of a star on the surface of a body.
//!
//! Colors are mixed as linear light.  How much of the star's light is
//! taken away at a point depends on the star's intensity, on how far the
//! point is from the star, and on how far it is from the focus: the point
//! of the body that faces the star.

use vstd::prelude::*;
use crate::curve::{TransferCurve, encode, is_curve, lemma_encode_decode, lemma_encode_monotonic};
use crate::numeric::{
    div_toward_zero, hypot, hypotenuse, lemma_trunc_div_bounds, lemma_trunc_div_scaled, magnitude,
    trunc_div,
};
use crate::disc::{
    inside, lemma_pixel_point_covered, pixel_inside, pixel_point, planet_point, spread,
};
use crate::raster::{MAX_RESOLUTION, lemma_cell_in_square};
use crate::types::{Length, Point, Rgb, MAX_LENGTH, METERS_PER_KILOMETER, UNIT};

verus! {

/// Structure representing a star projecting light. It is not scientific
#[derive(Clone, Copy, Debug, PartialEq, Eq, Structural)]
pub struct Light {
    /// The color of the light. In most cases, you should use a color close to white.
    pub color: Rgb,
    /// The intensity of the light, in thousandths of the brightness that an
    /// Earth-like planet has at an Earth-like distance.
    pub sols: u32,
}

/// The intensity of one sun, in thousandths.
pub const ONE_SOL: u32 = 1000;

impl Default for Light {
    fn default() -> (light: Light)
        ensures
            light == (Light { color: Rgb { red: 255, green: 255, blue: 255 }, sols: ONE_SOL }),
    {
        Light { color: Rgb { red: 255, green: 255, blue: 255 }, sols: ONE_SOL }
    }
}

impl Light {
    /// A light of the given color and intensity.
    pub fn from_u8(red: u8, green: u8, blue: u8, sols: u32) -> (light: Light)
        ensures
            light == (Light { color: Rgb { red, green, blue }, sols }),
    {
        Light { color: Rgb { red, green, blue }, sols }
    }
}

/// One coordinate of the focus: the point at the distance `radius` from the
/// center of the body, in the direction opposite to the one in which the
/// surface point lies from the star.
pub open spec fn focus_coordinate(radius: int, offset: int, distance: int) -> int {
    trunc_div(-(radius * offset), distance)
}

/// How much of the light a star at `distance` meters lets through, in
/// millionths: one, less the inverse of the distance in kilometers.
pub open spec fn distance_dimming(distance: int) -> int {
    trunc_div((distance - METERS_PER_KILOMETER) * UNIT, distance)
}

/// How far a point is from the lit face, in millionths: its distance from
/// the focus over seven fifths of the radius.
pub open spec fn sphere_dimming(distance_from_focus: int, radius: int) -> int {
    (distance_from_focus * 5 * UNIT) / (7 * radius)
}

/// The product of the intensity and the two dimmings, in millionths,
/// limited to one.
pub open spec fn combined_factor(sols: int, by_distance: int, by_sphere: int) -> int {
    let raw = trunc_div(sols * by_distance * by_sphere, ONE_SOL * UNIT);
    if raw > UNIT {
        UNIT as int
    } else {
        raw
    }
}

/// The amount, in millionths, by which the light of a star of intensity
/// `sols` is darkened at `planet_point`, a point given relative to the
/// center of a body that lies at `origin` from the star.
pub open spec fn sun_factor_of(origin: Point, radius: int, planet_point: Point, sols: int) -> int {
    let sx = origin.x + planet_point.x;
    let sy = origin.y + planet_point.y;
    let distance_to_sun = hypotenuse(sx, sy);
    let fx = focus_coordinate(radius, sx, distance_to_sun);
    let fy = focus_coordinate(radius, sy, distance_to_sun);
    let distance_from_focus = hypotenuse(planet_point.x - fx, planet_point.y - fy);
    combined_factor(
        sols,
        distance_dimming(distance_to_sun),
        sphere_dimming(distance_from_focus, radius),
    )
}

/// One component of a color under a light darkened by `factor`: the
/// product of the two linear intensities, encoded.
pub open spec fn lit_level(curve: Seq<u32>, base: u8, light: u8, factor: int) -> u8 {
    encode(curve, trunc_div(curve[base as int] * (curve[light as int] - factor), UNIT as int)) as u8
}

/// A color under a light darkened by `factor`.
pub open spec fn lit(curve: Seq<u32>, base: Rgb, light: Rgb, factor: int) -> Rgb {
    Rgb {
        red: lit_level(curve, base.red, light.red, factor),
        green: lit_level(curve, base.green, light.green, factor),
        blue: lit_level(curve, base.blue, light.blue, factor),
    }
}

/// The smallest value of a combined factor.
pub const FACTOR_FLOOR: i64 = -20_000_000_000_000_000;

/// Whether the star does not stand at `planet_point`, a point given
/// relative to the center of a body at `origin`.
pub open spec fn away_from_sun(origin: Point, planet_point: Point) -> bool {
    origin.x + planet_point.x != 0 || origin.y + planet_point.y != 0
}

/// Whether the star stands at none of the points that an image of `pixels`
/// by `pixels` shows of a body: no pixel inside the disc shows the point at
/// which the star is.
pub open spec fn clear_of_star(origin: Point, radius: int, pixels: int) -> bool {
    forall|i: int|
        0 <= i < pixels * pixels && pixel_inside(pixels, i) ==> away_from_sun(
            origin,
            #[trigger] pixel_point(radius, pixels, i),
        )
}

/// A star outside the square that bounds a body stands at none of the
/// points of the body.
pub proof fn lemma_star_outside_is_clear(origin: Point, radius: int, pixels: int)
    requires
        0 < radius <= MAX_LENGTH,
        0 <= pixels,
        magnitude(origin.x as int) > radius || magnitude(origin.y as int) > radius,
    ensures
        clear_of_star(origin, radius, pixels),
{
    assert forall|i: int| 0 <= i < pixels * pixels && pixel_inside(pixels, i) implies away_from_sun(
        origin,
        #[trigger] pixel_point(radius, pixels, i),
    ) by {
        assert(pixels > 0) by (nonlinear_arith)
            requires
                0 <= pixels,
                0 <= i < pixels * pixels,
        ;
        lemma_pixel_point_covered(radius, pixels, i);
    }
}

/// Tells whether the star stands at none of the points that an image of
/// `pixels` by `pixels` shows of a body.
pub fn is_clear_of_star(origin: Point, radius: Length, pixels: u32) -> (clear: bool)
    requires
        0 < radius.meters <= MAX_LENGTH,
        pixels <= MAX_RESOLUTION,
    ensures
        clear == clear_of_star(origin, radius.meters as int, pixels as int),
{
    let r: i128 = radius.meters as i128;
    let ox: i128 = origin.x as i128;
    let oy: i128 = origin.y as i128;
    if ox > r || -ox > r || oy > r || -oy > r {
        proof {
            lemma_star_outside_is_clear(origin, radius.meters as int, pixels as int);
        }
        return true;
    }
    let mut y: u32 = 0;
    while y < pixels
        invariant
            0 <= y <= pixels,
            0 < radius.meters <= MAX_LENGTH,
            pixels <= MAX_RESOLUTION,
            forall|i: int|
                0 <= i < y * pixels && pixel_inside(pixels as int, i) ==> away_from_sun(
                    origin,
                    #[trigger] pixel_point(radius.meters as int, pixels as int, i),
                ),
        decreases pixels - y,
    {
        let mut x: u32 = 0;
        while x < pixels
            invariant
                0 <= x <= pixels,
                0 <= y < pixels,
                0 < radius.meters <= MAX_LENGTH,
                pixels <= MAX_RESOLUTION,
                forall|i: int|
                    0 <= i < y * pixels + x && pixel_inside(pixels as int, i) ==> away_from_sun(
                        origin,
                        #[trigger] pixel_point(radius.meters as int, pixels as int, i),
                    ),
            decreases pixels - x,
        {
            let ghost i: int = y * pixels + x;
            proof {
                lemma_cell_in_square(x as int, y as int, pixels as int);
                vstd::arithmetic::div_mod::lemma_fundamental_div_mod_converse(
                    i,
                    pixels as int,
                    y as int,
                    x as int,
                );
            }
            if inside(pixels, spread(pixels, x, y)) {
                let shown: Point = planet_point(radius, pixels, x, y);
                if origin.x as i128 + shown.x as i128 == 0 && origin.y as i128 + shown.y as i128 == 0 {
                    assert(!away_from_sun(origin, pixel_point(radius.meters as int, pixels as int, i)));
                    return false;
                }
            }
            x += 1;
        }
        proof {
            assert((y + 1) * pixels == y * pixels + pixels) by (nonlinear_arith);
        }
        y += 1;
    }
    true
}

/// The amount by which the light of a star is darkened at a point of a body.
pub fn sun_factor(origin: Point, radius: Length, planet_point: Point, sols: u32) -> (factor: i64)
    requires
        origin.in_range(),
        0 < radius.meters <= MAX_LENGTH,
        -radius.meters <= planet_point.x <= radius.meters,
        -radius.meters <= planet_point.y <= radius.meters,
        away_from_sun(origin, planet_point),
    ensures
        factor == sun_factor_of(origin, radius.meters as int, planet_point, sols as int),
        FACTOR_FLOOR <= factor <= UNIT,
        hypotenuse(origin.x + planet_point.x, origin.y + planet_point.y) >= METERS_PER_KILOMETER
            ==> factor >= 0,
{
    let r: i128 = radius.meters as i128;
    let sx: i64 = origin.x + planet_point.x;
    let sy: i64 = origin.y + planet_point.y;
    let d: i64 = hypot(sx, sy);
    assert(d >= 1);
    proof {
        assert(magnitude(r * sx) <= r * d && magnitude(r * sy) <= r * d) by (nonlinear_arith)
            requires
                magnitude(sx as int) <= d,
                magnitude(sy as int) <= d,
                r > 0,
        ;
        assert(magnitude(-(r * sx)) == magnitude(r * sx));
        assert(magnitude(-(r * sy)) == magnitude(r * sy));
        lemma_trunc_div_scaled(-(r * sx), d as int, r as int);
        lemma_trunc_div_scaled(-(r * sy), d as int, r as int);
        assert(r * d <= 1_000_000_000_000_000 * 4_000_000_000_000_000) by (nonlinear_arith)
            requires
                0 < r <= 1_000_000_000_000_000,
                0 <= d <= 4_000_000_000_000_000,
        ;
    }
    let fx: i128 = div_toward_zero(-(r * sx as i128), d as i128);
    let fy: i128 = div_toward_zero(-(r * sy as i128), d as i128);
    let gx: i64 = (planet_point.x as i128 - fx) as i64;
    let gy: i64 = (planet_point.y as i128 - fy) as i64;
    let dff: i64 = hypot(gx, gy);
    assert(0 <= dff <= 4 * r);
    // one, less the inverse of the distance in kilometers
    let near: i128 = (d as i128 - 1000) * 1_000_000;
    proof {
        assert(magnitude(near as int) <= 1_000_000_000 * d);
        lemma_trunc_div_scaled(near as int, d as int, 1_000_000_000);
    }
    let by_distance: i128 = div_toward_zero(near, d as i128);
    // the distance from the focus over seven fifths of the radius
    proof {
        assert(dff * 5 * 1_000_000 <= 3_000_000 * (7 * r));
        lemma_trunc_div_scaled((dff * 5 * 1_000_000) as int, (7 * r) as int, 3_000_000);
        lemma_trunc_div_bounds((dff * 5 * 1_000_000) as int, (7 * r) as int);
    }
    let by_sphere: i128 = (dff as i128 * 5 * 1_000_000) / (7 * r);
    let s: i128 = sols as i128;
    proof {
        assert(-4_294_967_296 * 1_000_000_000 <= s * by_distance <= 4_294_967_296 * 1_000_000_000)
            by (nonlinear_arith)
            requires
                0 <= s <= 4_294_967_296,
                -1_000_000_000 <= by_distance <= 1_000_000_000,
        ;
        let t = s * by_distance;
        assert(-4_294_967_296_000_000_000 * 3_000_000 <= t * by_sphere <= 4_294_967_296_000_000_000
            * 3_000_000) by (nonlinear_arith)
            requires
                -4_294_967_296_000_000_000 <= t <= 4_294_967_296_000_000_000,
                0 <= by_sphere <= 3_000_000,
        ;
        lemma_trunc_div_scaled(t * by_sphere, 1_000_000_000, 12_884_901_888_000_000);
        lemma_trunc_div_bounds(near as int, d as int);
        lemma_trunc_div_bounds(t * by_sphere, 1_000_000_000);
        if d >= 1000 {
            assert(t * by_sphere >= 0) by (nonlinear_arith)
                requires
                    t == s * by_distance,
                    s >= 0,
                    by_distance >= 0,
                    by_sphere >= 0,
            ;
        }
    }
    let raw: i128 = div_toward_zero(s * by_distance * by_sphere, 1_000_000_000);
    if raw > 1_000_000 {
        1_000_000
    } else {
        raw as i64
    }
}

/// A light that is darkened, or left as it is, brightens no component of a
/// color: the component under the light is no higher than the component
/// itself.
pub proof fn lemma_light_never_brightens(curve: Seq<u32>, base: u8, light: u8, factor: int)
    requires
        is_curve(curve),
        0 <= factor,
    ensures
        lit_level(curve, base, light, factor) <= base,
{
    let u = UNIT as int;
    let b = curve[base as int] as int;
    let l = curve[light as int] - factor;
    assert(curve[light as int] <= curve[255]);
    let mixed = trunc_div(b * l, u);
    if l >= 0 {
        assert(magnitude(b * l) <= b * u) by (nonlinear_arith)
            requires
                0 <= b,
                0 <= l <= u,
        ;
        lemma_trunc_div_scaled(b * l, u, b);
    } else {
        assert(b * l <= 0) by (nonlinear_arith)
            requires
                0 <= b,
                l < 0,
        ;
        lemma_trunc_div_bounds(b * l, u);
    }
    assert(mixed <= b);
    lemma_encode_monotonic(curve, mixed, b, 255);
    lemma_encode_decode(curve, base as int);
}

/// One component of a color under a light darkened by `factor`.
fn light_level(curve: &TransferCurve, base: u8, light: u8, factor: i64) -> (level: u8)
    requires
        curve.wf(),
        FACTOR_FLOOR <= factor <= UNIT,
    ensures
        level == lit_level(curve@, base, light, factor as int),
        factor >= 0 ==> level <= base,
{
    proof {
        if factor >= 0 {
            lemma_light_never_brightens(curve@, base, light, factor as int);
        }
    }
    let b: i128 = curve.to_linear(base) as i128;
    let l: i128 = curve.to_linear(light) as i128 - factor as i128;
    assert(-1_000_000 * 1_000_000 <= b * l <= 1_000_000 * 20_000_000_001_000_000) by (nonlinear_arith)
        requires
            0 <= b <= 1_000_000,
            -1_000_000 <= l <= 20_000_000_001_000_000,
    ;
    proof {
        lemma_trunc_div_bounds((b * l) as int, 1_000_000);
    }
    let mixed: i128 = div_toward_zero(b * l, 1_000_000);
    curve.from_linear(mixed as i64)
}

/// A color under a light darkened by `factor`.
pub fn light_color(curve: &TransferCurve, base: Rgb, light: Rgb, factor: i64) -> (color: Rgb)
    requires
        curve.wf(),
        FACTOR_FLOOR <= factor <= UNIT,
    ensures
        color == lit(curve@, base, light, factor as int),
        factor >= 0 ==> color.red <= base.red && color.green <= base.green && color.blue
            <= base.blue,
{
    Rgb {
        red: light_level(curve, base.red, light.red, factor),
        green: light_level(curve, base.green, light.green, factor),
        blue: light_level(curve, base.blue, light.blue, factor),
    }
}

} // verus!
