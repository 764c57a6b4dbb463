//! A body, the light that falls on it, and the image generated of it.

use vstd::prelude::*;
use crate::coloring::{
    ElevationColor, SurfaceDefinition, MAX_ANCHORS, is_palette, sorted_by_elevation,
};
use crate::curve::TransferCurve;
use crate::elevation::Strategy;
use crate::lighting::{Light, clear_of_star, is_clear_of_star};
use crate::numeric::{
    div_toward_zero, hypotenuse, lemma_floor_sqrt_monotonic, lemma_sqrt_of_square,
    lemma_trunc_div_bounds, lemma_trunc_div_scaled, magnitude, trunc_div,
};
use crate::disc::{alpha_of, inside_count, pixel_point, spread_of};
use crate::raster::{Image, MAX_RESOLUTION};
use crate::sorting::{is_stable_sort_of, sort_by_elevation};
use crate::terrain::{Terrain, chaos_of, noise_place, noise_seed_of, seed_word};
use crate::types::{Angle, Length, Point, MAX_LENGTH, UNIT};

verus! {

/// A Procedural Planet definition
#[derive(Debug)]
pub struct Planet<Kind> {
    /// The unique value that is used to seed the random number generator
    pub seed: u128,
    /// The origin of the planet relative to the star it orbits
    pub origin: Point,
    /// The radius of the planet
    pub radius: Length,
    /// The ElevationColors used to generate the terrain
    pub colors: Vec<ElevationColor<Kind>>,
}

/// The number of pixels that show one kind of surface.
#[derive(Clone, Copy, Debug)]
pub struct CategoryCount<Kind> {
    pub kind: Kind,
    pub count: u32,
}

/// What the caller is to evaluate for a field of noise: coherent noise
/// with this seed, at each of these places, given in millionths.
pub struct NoiseField {
    pub seed: u32,
    /// One place for each pixel of the image, row after row.
    pub places: Vec<Point>,
}

/// The image of a body, and how many of its pixels show each category.
pub struct GeneratedPlanet<Kind> {
    pub image: Image,
    /// One count for each kind of surface, in the order of the kinds.  A
    /// kind that no pixel shows has the count zero.
    pub stats: Vec<CategoryCount<Kind>>,
}

/// The sum of the counts.
pub open spec fn total_of<Kind>(stats: Seq<CategoryCount<Kind>>) -> int
    decreases stats.len(),
{
    if stats.len() == 0 {
        0
    } else {
        total_of(stats.drop_last()) + stats.last().count
    }
}

/// Raising one count by one raises the sum by one.
pub proof fn lemma_total_after_count<Kind>(
    stats: Seq<CategoryCount<Kind>>,
    category: int,
    counted: CategoryCount<Kind>,
)
    requires
        0 <= category < stats.len(),
        counted.count == stats[category].count + 1,
    ensures
        total_of(stats.update(category, counted)) == total_of(stats) + 1,
    decreases stats.len(),
{
    let after = stats.update(category, counted);
    if category == stats.len() - 1 {
        assert(after.drop_last() =~= stats.drop_last());
    } else {
        assert(after.drop_last() =~= stats.drop_last().update(category, counted));
        lemma_total_after_count(stats.drop_last(), category, counted);
    }
}

/// No count exceeds the sum of the counts.
pub proof fn lemma_count_within_total<Kind>(stats: Seq<CategoryCount<Kind>>, category: int)
    requires
        0 <= category < stats.len(),
    ensures
        stats[category].count <= total_of(stats),
        0 <= total_of(stats),
    decreases stats.len(),
{
    lemma_total_not_negative(stats.drop_last());
    if category < stats.len() - 1 {
        lemma_count_within_total(stats.drop_last(), category);
    }
}

/// The sum of the counts is not negative.
pub proof fn lemma_total_not_negative<Kind>(stats: Seq<CategoryCount<Kind>>)
    ensures
        0 <= total_of(stats),
    decreases stats.len(),
{
    if stats.len() > 0 {
        lemma_total_not_negative(stats.drop_last());
    }
}

/// The sum of counts that are all zero is zero.
pub proof fn lemma_total_of_zeros<Kind>(stats: Seq<CategoryCount<Kind>>)
    requires
        forall|i: int| 0 <= i < stats.len() ==> (#[trigger] stats[i]).count == 0,
    ensures
        total_of(stats) == 0,
    decreases stats.len(),
{
    if stats.len() > 0 {
        assert(stats.last() == stats[stats.len() - 1]);
        lemma_total_of_zeros(stats.drop_last());
    }
}

/// One coordinate of the origin of a body that orbits its star at
/// `distance`, where `component` is the cosine or the sine, in millionths,
/// of the angle of its orbit.  The angle points from the body to the star,
/// which stands where the coordinates are zero, so the body lies on the
/// opposite side: the coordinate is the negative of the distance times the
/// component.
pub open spec fn orbit_coordinate(distance: int, component: int) -> int {
    -trunc_div(distance * component, UNIT as int)
}

/// The square of a coordinate of an origin is the square of the distance
/// times the component, but for the rounding: it is no larger, and smaller
/// by less than twice the distance times the component.
pub proof fn lemma_coordinate_square(distance: int, component: int)
    ensures
        ({
            let x = orbit_coordinate(distance, component);
            let u = UNIT as int;
            &&& (x * x) * (u * u) <= (distance * distance) * (component * component)
            &&& (x * x) * (u * u) >= (distance * distance) * (component * component) - 2 * u * (
            magnitude(distance) * magnitude(component))
        }),
{
    let u = UNIT as int;
    let a = distance * component;
    let t = trunc_div(a, u);
    let x = orbit_coordinate(distance, component);
    let m = magnitude(a);
    let q = magnitude(t);
    lemma_trunc_div_bounds(a, u);
    assert(q * u <= m < q * u + u) by (nonlinear_arith)
        requires
            q == magnitude(t),
            m == magnitude(a),
            a >= 0 ==> 0 <= t && a - u < t * u <= a,
            a <= 0 ==> t <= 0 && a <= t * u < a + u,
            u > 0,
    ;
    assert(x * x == q * q) by (nonlinear_arith)
        requires
            x == -t,
            q == t || q == -t,
    ;
    assert(m * m == (distance * distance) * (component * component)) by (nonlinear_arith)
        requires
            m == distance * component || m == -(distance * component),
    ;
    assert(m == magnitude(distance) * magnitude(component)) by (nonlinear_arith)
        requires
            m == magnitude(distance * component),
    ;
    assert((q * q) * (u * u) <= m * m) by (nonlinear_arith)
        requires
            0 <= q * u <= m,
    ;
    assert((q * q) * (u * u) >= m * m - 2 * u * m) by (nonlinear_arith)
        requires
            0 <= q,
            q * u <= m < q * u + u,
            u > 0,
    ;
}

/// A body whose orbit has an angle that is no longer than one lies no
/// farther from its star than the distance of its orbit.
pub proof fn lemma_orbit_kept(distance: int, angle: Angle)
    requires
        distance >= 0,
        angle.is_unit(),
    ensures
        hypotenuse(
            orbit_coordinate(distance, angle.cos as int),
            orbit_coordinate(distance, angle.sin as int),
        ) <= distance,
{
    let u = UNIT as int;
    let c = angle.cos as int;
    let s = angle.sin as int;
    let x = orbit_coordinate(distance, c);
    let y = orbit_coordinate(distance, s);
    let dd = distance * distance;
    lemma_coordinate_square(distance, c);
    lemma_coordinate_square(distance, s);
    assert(dd * (c * c) + dd * (s * s) <= dd * (u * u)) by (nonlinear_arith)
        requires
            c * c + s * s <= u * u,
            dd == distance * distance,
    ;
    assert(x * x + y * y <= dd) by (nonlinear_arith)
        requires
            (x * x) * (u * u) + (y * y) * (u * u) <= dd * (u * u),
            u > 0,
    ;
    assert(x * x + y * y >= 0) by (nonlinear_arith);
    lemma_floor_sqrt_monotonic(x * x + y * y, dd);
    lemma_sqrt_of_square(distance);
}

/// Whether the place `(x, y)` lies on the circle of radius `distance`
/// around the star, but for the rounding: the square of its distance from
/// the star differs from the square of `distance` by no more than three
/// millionths of that square and four times the distance.
pub open spec fn on_circle(x: int, y: int, distance: int) -> bool {
    &&& (x * x + y * y) * UNIT <= (distance * distance) * (UNIT + 3)
    &&& (x * x + y * y) * UNIT >= (distance * distance) * (UNIT - 3) - 4 * UNIT * magnitude(
        distance,
    )
}

/// A body whose orbit has an angle that is a direction lies on the circle
/// of its orbit: it keeps the distance.
pub proof fn lemma_origin_keeps_distance(distance: int, angle: Angle)
    requires
        angle.is_direction(),
    ensures
        on_circle(
            orbit_coordinate(distance, angle.cos as int),
            orbit_coordinate(distance, angle.sin as int),
            distance,
        ),
{
    let u = UNIT as int;
    let c = angle.cos as int;
    let s = angle.sin as int;
    let x = orbit_coordinate(distance, c);
    let y = orbit_coordinate(distance, s);
    let dd = distance * distance;
    let n = c * c + s * s;
    let m = magnitude(distance);
    let z = x * x + y * y;
    lemma_coordinate_square(distance, c);
    lemma_coordinate_square(distance, s);
    assert(dd >= 0 && m >= 0) by (nonlinear_arith)
        requires
            dd == distance * distance,
            m == magnitude(distance),
    ;
    assert(z * (u * u) == (x * x) * (u * u) + (y * y) * (u * u) && dd * n == dd * (c * c) + dd * (
    s * s)) by (nonlinear_arith)
        requires
            z == x * x + y * y,
            n == c * c + s * s,
    ;
    let mc = m * magnitude(c);
    let ms = m * magnitude(s);
    assert(0 <= mc <= m * 1_000_000 && 0 <= ms <= m * 1_000_000) by (nonlinear_arith)
        requires
            m >= 0,
            mc == m * magnitude(c),
            ms == m * magnitude(s),
            0 <= magnitude(c) <= 1_000_000,
            0 <= magnitude(s) <= 1_000_000,
    ;
    assert(2 * u * mc == 2_000_000 * mc && 2 * u * ms == 2_000_000 * ms && 2 * u * (m * (2 * u))
        == 4_000_000_000_000 * m) by (nonlinear_arith)
        requires
            u == 1_000_000,
    ;
    assert(z * (u * u) <= dd * n);
    assert(z * (u * u) >= dd * n - 2 * u * (m * (2 * u)));
    assert(dd * n <= dd * (u * u + 3 * u) && dd * n >= dd * (u * u - 3 * u)) by (nonlinear_arith)
        requires
            dd >= 0,
            u * u - 3 * u <= n <= u * u + 3 * u,
    ;
    assert(z * u <= dd * (u + 3)) by (nonlinear_arith)
        requires
            z * (u * u) <= dd * (u * u + 3 * u),
            u > 0,
    ;
    assert(z * u >= dd * (u - 3) - 4 * u * m) by (nonlinear_arith)
        requires
            z * (u * u) >= dd * (u * u - 3 * u) - 2 * u * (m * (2 * u)),
            u > 0,
    ;
}

/// The origin of a planet that orbits its star in an exact circle at
/// `distance`, under the angle `angle`.  The angle points from the planet
/// to its star, so the origin is the negative of the distance times the
/// direction.  Where the angle is a direction, the planet keeps the
/// distance.
pub fn calculate_origin(angle: Angle, distance: Length) -> (origin: Point)
    requires
        angle.in_range(),
        distance.in_range(),
    ensures
        origin.x == orbit_coordinate(distance.meters as int, angle.cos as int),
        origin.y == orbit_coordinate(distance.meters as int, angle.sin as int),
        origin.x == -trunc_div(distance.meters * angle.cos, UNIT as int),
        origin.y == -trunc_div(distance.meters * angle.sin, UNIT as int),
        origin.in_range(),
        angle.is_direction() ==> on_circle(origin.x as int, origin.y as int, distance.meters as int),
{
    let d: i128 = distance.meters as i128;
    let c: i128 = angle.cos as i128;
    let s: i128 = angle.sin as i128;
    proof {
        let m = magnitude(d as int);
        assert(magnitude(d * c) <= m * 1_000_000 && magnitude(d * s) <= m * 1_000_000 && m
            * 1_000_000 <= 1_000_000_000_000_000 * 1_000_000) by (nonlinear_arith)
            requires
                m == magnitude(d as int),
                m <= 1_000_000_000_000_000,
                -1_000_000 <= c <= 1_000_000,
                -1_000_000 <= s <= 1_000_000,
        ;
        lemma_trunc_div_scaled((d * c) as int, 1_000_000, m);
        lemma_trunc_div_scaled((d * s) as int, 1_000_000, m);
        if angle.is_direction() {
            lemma_origin_keeps_distance(distance.meters as int, angle);
        }
    }
    let x: i128 = div_toward_zero(d * c, 1_000_000);
    let y: i128 = div_toward_zero(d * s, 1_000_000);
    Point { x: (-x) as i64, y: (-y) as i64 }
}

impl<Kind: SurfaceDefinition> Planet<Kind> {
    /// Whether the body can be rendered: its palette is a palette, its
    /// radius is positive, and it lies in range.
    pub open spec fn wf(&self) -> bool {
        &&& is_palette(self.colors@)
        &&& 0 < self.radius.meters <= MAX_LENGTH
        &&& self.origin.in_range()
    }

    /// Whether the star, which stands where the coordinates are zero,
    /// stands at none of the points that an image of `pixels` by `pixels`
    /// shows of the body.
    pub open spec fn clear_of_star(&self, pixels: u32) -> bool {
        clear_of_star(self.origin, self.radius.meters as int, pixels as int)
    }

    /// Whether two bodies are the same: they have the same seed, the same
    /// place, the same radius and the same palette.
    pub open spec fn same_as(&self, other: Self) -> bool {
        &&& self.seed == other.seed
        &&& self.origin == other.origin
        &&& self.radius == other.radius
        &&& self.colors@ == other.colors@
    }

    /// Tells whether the body can be rendered.
    pub fn is_well_formed(&self) -> (well_formed: bool)
        ensures
            well_formed == self.wf(),
    {
        if self.radius.meters <= 0 || self.radius.meters > MAX_LENGTH {
            return false;
        }
        if self.origin.x < -MAX_LENGTH || self.origin.x > MAX_LENGTH || self.origin.y < -MAX_LENGTH
            || self.origin.y > MAX_LENGTH {
            return false;
        }
        let n: usize = self.colors.len();
        if n == 0 || n > MAX_ANCHORS {
            return false;
        }
        let mut i: usize = 0;
        while i < n
            invariant
                0 <= i <= n,
                n == self.colors.len(),
                forall|k: int| 0 <= k < i ==> (#[trigger] self.colors[k]).elevation.in_range(),
                forall|a: int, b: int|
                    0 <= a <= b < i ==> self.colors[a].elevation.meters
                        <= self.colors[b].elevation.meters,
            decreases n - i,
        {
            let meters: i64 = self.colors[i].elevation.meters;
            if meters < -MAX_LENGTH || meters > MAX_LENGTH {
                assert(!self.colors@[i as int].elevation.in_range());
                return false;
            }
            if i > 0 && self.colors[i - 1].elevation.meters > meters {
                return false;
            }
            assert forall|a: int, b: int| 0 <= a <= b < i + 1 implies self.colors[a].elevation.meters
                <= self.colors[b].elevation.meters by {
                if b == i && a < i {
                    assert(self.colors[a].elevation.meters <= self.colors[i - 1].elevation.meters);
                }
            }
            i += 1;
        }
        true
    }

    /// Tells whether the star stands at none of the points that an image of
    /// `pixels` by `pixels` shows of the body.
    pub fn is_clear_of_star(&self, pixels: u32) -> (clear: bool)
        requires
            0 < self.radius.meters <= MAX_LENGTH,
            pixels <= MAX_RESOLUTION,
        ensures
            clear == self.clear_of_star(pixels),
    {
        is_clear_of_star(self.origin, self.radius, pixels)
    }

    /// A body with the given placement, whose palette is `colors` sorted by
    /// elevation.
    pub fn new_from_iter(seed: u128, origin: Point, radius: Length, colors: Vec<ElevationColor<Kind>>)
        -> (planet: Self)
        ensures
            planet.seed == seed,
            planet.origin == origin,
            planet.radius == radius,
            is_stable_sort_of(planet.colors@, colors@),
            sorted_by_elevation(planet.colors@),
    {
        Self { seed, origin, radius, colors: sort_by_elevation(&colors) }
    }

    /// Whether `generated` is the image of the body at `pixels` by
    /// `pixels`: the image of the terrain that grows for the body, with an
    /// elevation field of the kind asked for, from the samples of noise
    /// handed in.
    pub open spec fn shows(
        &self,
        generated: GeneratedPlanet<Kind>,
        pixels: u32,
        sun: Option<Light>,
        strategy: Strategy,
        noise: Seq<i32>,
        curve: Seq<u32>,
    ) -> bool {
        exists|terrain: Terrain<Kind>|
            terrain.grown_from(*self, strategy, curve) && terrain.renders(
                generated,
                pixels,
                sun,
                noise,
                curve,
            )
    }

    /// A body has one image only: whenever it, or a body that is the same,
    /// is generated at the same size, under the same light, from the same
    /// noise and through the same curve, the pixels and the counts are the
    /// same.  Nothing but what is handed in enters the image.
    pub proof fn lemma_one_image(
        self,
        other: Self,
        first: GeneratedPlanet<Kind>,
        second: GeneratedPlanet<Kind>,
        pixels: u32,
        sun: Option<Light>,
        strategy: Strategy,
        noise: Seq<i32>,
        curve: Seq<u32>,
    )
        requires
            self.same_as(other),
            self.shows(first, pixels, sun, strategy, noise, curve),
            other.shows(second, pixels, sun, strategy, noise, curve),
        ensures
            first.image@ == second.image@,
            first.stats@ == second.stats@,
    {
        let one = choose|terrain: Terrain<Kind>|
            terrain.grown_from(self, strategy, curve) && terrain.renders(
                first,
                pixels,
                sun,
                noise,
                curve,
            );
        let two = choose|terrain: Terrain<Kind>|
            terrain.grown_from(other, strategy, curve) && terrain.renders(
                second,
                pixels,
                sun,
                noise,
                curve,
            );
        one.lemma_one_image_of_planet(
            two,
            self,
            other,
            strategy,
            first,
            second,
            pixels,
            sun,
            noise,
            curve,
        );
    }

    /// Where and with which seed the noise is to be evaluated for an image
    /// of `pixels` by `pixels` whose elevations come from noise: the seed
    /// and the places are those of the terrain that grows for the body.
    pub fn noise_points(&self, pixels: u32, curve: &TransferCurve) -> (field: NoiseField)
        requires
            self.wf(),
            pixels <= MAX_RESOLUTION,
            curve.wf(),
        ensures
            field.seed == noise_seed_of(seed_word(self.seed), self.colors.len() as nat),
            field.places.len() == pixels * pixels,
            forall|i: int|
                0 <= i < field.places.len() ==> field.places[i] == noise_place(
                    self.radius.meters as int,
                    chaos_of(seed_word(self.seed), self.colors.len() as nat, Kind::chaos_limit()),
                    pixel_point(self.radius.meters as int, pixels as int, i),
                ),
    {
        let terrain = Terrain::generate(self, Strategy::Noise, curve);
        let seed: u32 = match terrain.noise_seed() {
            Some(seed) => seed,
            None => 0,
        };
        NoiseField { seed, places: terrain.noise_points(pixels) }
    }

    /// Generates an image of `pixels` wide, and `pixels` tall. If a light is provided
    /// a shadow is simulated, and the colors are mixed with the light's color
    ///
    /// The terrain is grown from the seed, with an elevation field of the
    /// kind asked for.  For a field of noise, `noise` holds the sample for
    /// each pixel, row after row: the noise with the seed and at the places
    /// that `noise_points` gives.  A field of points does not read it.
    pub fn generate(
        &self,
        pixels: u32,
        sun: &Option<Light>,
        strategy: Strategy,
        noise: &Vec<i32>,
        curve: &TransferCurve,
    ) -> (generated: GeneratedPlanet<Kind>)
        requires
            self.wf(),
            pixels <= MAX_RESOLUTION,
            curve.wf(),
            strategy == Strategy::Noise ==> noise.len() == pixels * pixels,
            sun.is_some() ==> self.clear_of_star(pixels),
        ensures
            self.shows(generated, pixels, *sun, strategy, noise@, curve@),
            generated.image.wf(),
            generated.image.side() == pixels,
            generated.stats.len() == Kind::kinds(),
            forall|c: int|
                0 <= c < generated.stats.len() ==> (#[trigger] generated.stats[c]).kind.index_of()
                    == c,
            total_of(generated.stats@) == inside_count(pixels as int, pixels * pixels),
            forall|i: int|
                0 <= i < pixels * pixels ==> (#[trigger] generated.image.pixels()[i]).alpha == alpha_of(
                    pixels as int,
                    spread_of(pixels as int, i % (pixels as int), i / (pixels as int)),
                ),
    {
        let terrain = Terrain::generate(self, strategy, curve);
        let ghost grown = terrain;
        let generated = terrain.generate_planet(pixels, sun, noise, curve);
        proof {
            assert(grown.renders(generated, pixels, *sun, noise@, curve@));
            grown.lemma_image_shape(generated, pixels, *sun, noise@, curve@);
        }
        generated
    }

    /// Moves the planet to where it would be if it orbited its star in an
    /// exact circle at `distance`, under the angle `angle`.
    pub fn set_origin_by_angle(&mut self, angle: Angle, distance: Length)
        requires
            angle.in_range(),
            distance.in_range(),
        ensures
            old(self).wf() ==> final(self).wf(),
            final(self).origin.x == orbit_coordinate(distance.meters as int, angle.cos as int),
            final(self).origin.y == orbit_coordinate(distance.meters as int, angle.sin as int),
            final(self).origin.in_range(),
            final(self).seed == old(self).seed,
            final(self).radius == old(self).radius,
            final(self).colors == old(self).colors,
    {
        self.origin = calculate_origin(angle, distance);
    }
}

} // verus!
