//! The terrain of a body: its elevation field and its gradient, and the
//! image painted from them.

use vstd::prelude::*;
use crate::coloring::{ElevationColor, SurfaceDefinition, MAX_ANCHORS};
use crate::curve::TransferCurve;
use crate::disc::{
    alpha, alpha_of, inside, inside_count, lemma_alpha_bounds, lemma_spread_not_negative,
    pixel_inside, pixel_point, planet_point, spread, spread_of,
};
use crate::elevation::{
    Elevation, ElevationSource, Strategy, MAX_POINTS, MIN_POINTS, from_noise, is_scattered,
    noise_elevation, sample, sample_of, scatter, scattered,
};
use crate::gradient::{
    BandDraw, ElevationRange, closest_elevation, closest_index, expand, gradient_of, is_gradient,
    is_table, lemma_gradient_is_table, target_range, target_range_of,
};
use crate::lighting::{
    Light, away_from_sun, clear_of_star, light_color, lit, sun_factor, sun_factor_of,
};
use crate::numeric::{div_toward_zero, hypotenuse, lemma_trunc_div_scaled, magnitude, trunc_div};
use crate::planet::{
    CategoryCount, GeneratedPlanet, Planet, lemma_count_within_total, lemma_total_after_count,
    lemma_total_of_zeros, total_of,
};
use crate::random::{draw_between, draw_fraction, draw_of, fraction_of};
use crate::raster::{Image, Rgba, MAX_RESOLUTION, lemma_cell_in_square, transparent};
use crate::types::{Length, Point, Rgb, MAX_LENGTH, METERS_PER_KILOMETER};

verus! {

/// A randomly generated elevation map
pub struct Terrain<Kind> {
    /// Per kilometer of distance between another point, how much can the
    /// surface change?  In thousandths.
    pub surface_chaos: u32,
    /// The origin of the planet
    pub origin: Point,
    /// The radius of the planet
    pub radius: Length,
    /// Where the elevation of a point comes from
    pub source: ElevationSource,
    /// The gradient: a sorted collection of ElevationColors
    pub elevations: Vec<ElevationColor<Kind>>,
}

/// The smallest surface chaos, in thousandths.
pub const MIN_CHAOS: u32 = 1000;

/// The word that seeds the random stream of a body: the two halves of the
/// body's seed, combined bit by bit.
pub open spec fn seed_word(seed: u128) -> u64 {
    ((seed / 0x1_0000_0000_0000_0000) as u64) ^ ((seed % 0x1_0000_0000_0000_0000) as u64)
}

/// Folds the seed of a body into the word that seeds its random stream.
pub fn fold_seed(seed: u128) -> (word: u64)
    ensures
        word == seed_word(seed),
{
    let high: u128 = seed >> 64;
    let low: u128 = seed & 0xffff_ffff_ffff_ffff;
    assert(high == seed / 0x1_0000_0000_0000_0000) by (bit_vector)
        requires
            high == seed >> 64,
    ;
    assert(low == seed % 0x1_0000_0000_0000_0000) by (bit_vector)
        requires
            low == seed & 0xffff_ffff_ffff_ffff,
    ;
    (high as u64) ^ (low as u64)
}

/// The place, in millionths, at which the noise is evaluated for a point of
/// a body: the point over the radius, times the surface chaos, which is
/// given in thousandths.
pub open spec fn noise_place(radius: int, chaos: u32, planet_point: Point) -> Point {
    Point {
        x: trunc_div(planet_point.x * (chaos * 1000), radius) as i64,
        y: trunc_div(planet_point.y * (chaos * 1000), radius) as i64,
    }
}

/// Whether no component of `color` is higher than that of `base`.
pub open spec fn no_brighter(color: Rgb, base: Rgb) -> bool {
    color.red <= base.red && color.green <= base.green && color.blue <= base.blue
}

impl<Kind: Copy> Terrain<Kind> {
    /// Whether the terrain can be sampled and painted: it has a radius,
    /// its elevations never fall from one anchor to the next, and its
    /// elevation field can be sampled.
    pub open spec fn wf(&self) -> bool {
        &&& 0 < self.radius.meters <= MAX_LENGTH
        &&& is_table(self.elevations@)
        &&& self.source.wf()
    }

    /// Whether the terrain can be lit through `curve`: the curve is a
    /// curve, and the body lies in range of the star.
    pub open spec fn can_be_lit(&self, curve: TransferCurve) -> bool {
        curve.wf() && self.origin.in_range()
    }

    /// Whether the star, which stands where the coordinates are zero,
    /// stands at none of the points that an image of `pixels` by `pixels`
    /// shows.
    pub open spec fn clear_of_star(&self, pixels: u32) -> bool {
        clear_of_star(self.origin, self.radius.meters as int, pixels as int)
    }

    /// Whether `planet_point` lies at least a kilometer from the star:
    /// there the light of the star is darkened and never lightened.
    pub open spec fn far_from_star(&self, planet_point: Point) -> bool {
        hypotenuse(self.origin.x + planet_point.x, self.origin.y + planet_point.y)
            >= METERS_PER_KILOMETER
    }

    /// Whether `planet_point` lies in the square that bounds the body.
    pub open spec fn covers(&self, planet_point: Point) -> bool {
        &&& -self.radius.meters <= planet_point.x <= self.radius.meters
        &&& -self.radius.meters <= planet_point.y <= self.radius.meters
    }

    /// The place, in millionths, at which the noise is evaluated for
    /// `planet_point`: the point over the radius, times the surface chaos.
    pub open spec fn noise_point_of(&self, planet_point: Point) -> Point {
        noise_place(self.radius.meters as int, self.surface_chaos, planet_point)
    }

    /// The elevation at `planet_point`.  A field of points interpolates it;
    /// a field of noise maps the sample `noise`, taken at the noise point of
    /// `planet_point`, onto the elevations of the gradient.
    pub open spec fn elevation_of(&self, planet_point: Point, noise: int) -> int {
        match self.source {
            ElevationSource::Points(points) => sample_of(points@, planet_point),
            ElevationSource::Noise(_) => noise_elevation(
                self.elevations[0].elevation.meters as int,
                self.elevations[self.elevations.len() - 1].elevation.meters as int,
                noise,
            ),
        }
    }

    /// The anchor of the gradient that `planet_point` resolves to.
    pub open spec fn anchor_of(&self, planet_point: Point, noise: int) -> int {
        closest_index(self.elevations@, self.elevation_of(planet_point, noise))
    }

    /// The color of `planet_point`: without a light the color of its
    /// anchor, with one that color under the light.
    pub open spec fn color_of(
        &self,
        planet_point: Point,
        sun: Option<Light>,
        noise: int,
        curve: Seq<u32>,
    ) -> Rgb {
        let base = self.elevations[self.anchor_of(planet_point, noise)].color;
        match sun {
            None => base,
            Some(light) => lit(
                curve,
                base,
                light.color,
                sun_factor_of(self.origin, self.radius.meters as int, planet_point, light.sols as int),
            ),
        }
    }

    /// The point of the body that pixel `i` of a `pixels` wide image shows.
    pub open spec fn shown_by(&self, pixels: int, i: int) -> Point {
        pixel_point(self.radius.meters as int, pixels, i)
    }

    /// Whether pixel `i` of a `pixels` wide image lies inside the disc.
    pub open spec fn paints(pixels: int, i: int) -> bool {
        pixel_inside(pixels, i)
    }

    /// Pixel `i` of the image, counted row after row: transparent outside
    /// the disc, and inside it the color of the point it shows, with the
    /// opacity of its place.
    pub open spec fn pixel_of(
        &self,
        pixels: int,
        i: int,
        sun: Option<Light>,
        noise: Seq<i32>,
        curve: Seq<u32>,
    ) -> Rgba {
        if Self::paints(pixels, i) {
            let color = self.color_of(self.shown_by(pixels, i), sun, noise[i] as int, curve);
            Rgba {
                red: color.red,
                green: color.green,
                blue: color.blue,
                alpha: alpha_of(pixels, spread_of(pixels, i % pixels, i / pixels)) as u8,
            }
        } else {
            transparent()
        }
    }

    /// The kind of surface that pixel `i` shows: the kind of the anchor
    /// that its point resolves to.
    pub open spec fn kind_of(&self, pixels: int, i: int, noise: Seq<i32>) -> Kind {
        self.elevations[self.anchor_of(self.shown_by(pixels, i), noise[i] as int)].kind
    }

    /// The number of pixels inside the disc, among the first `upto`, that
    /// show the kind `kind`.
    pub open spec fn tally(&self, pixels: int, noise: Seq<i32>, kind: Kind, upto: int) -> int
        decreases upto,
    {
        if upto <= 0 {
            0
        } else {
            let i = upto - 1;
            self.tally(pixels, noise, kind, i) + if Self::paints(pixels, i) && self.kind_of(
                pixels,
                i,
                noise,
            ) == kind {
                1int
            } else {
                0int
            }
        }
    }

    /// The place at which the noise is evaluated for `planet_point`, in
    /// millionths.
    pub fn noise_point(&self, planet_point: Point) -> (place: Point)
        requires
            0 < self.radius.meters <= MAX_LENGTH,
            self.covers(planet_point),
        ensures
            place == self.noise_point_of(planet_point),
    {
        let r: i128 = self.radius.meters as i128;
        let scale: i128 = self.surface_chaos as i128 * 1000;
        let px: i128 = planet_point.x as i128;
        let py: i128 = planet_point.y as i128;
        proof {
            assert(magnitude(px * scale) <= scale * r && magnitude(py * scale) <= scale * r && scale
                * r <= 4_294_967_296_000 * 1_000_000_000_000_000) by (nonlinear_arith)
                requires
                    -r <= px <= r,
                    -r <= py <= r,
                    0 < r <= 1_000_000_000_000_000,
                    0 <= scale <= 4_294_967_296_000,
            ;
            lemma_trunc_div_scaled((px * scale) as int, r as int, scale as int);
            lemma_trunc_div_scaled((py * scale) as int, r as int, scale as int);
        }
        Point { x: div_toward_zero(px * scale, r) as i64, y: div_toward_zero(py * scale, r) as i64 }
    }

    /// The seed of the noise, where the elevations come from noise.
    pub fn noise_seed(&self) -> (seed: Option<u32>)
        ensures
            seed == match self.source {
                ElevationSource::Noise(seed) => Some(seed),
                ElevationSource::Points(_) => None::<u32>,
            },
    {
        match &self.source {
            ElevationSource::Noise(seed) => Some(*seed),
            ElevationSource::Points(_) => None,
        }
    }

    /// The places at which the noise is evaluated for the pixels of an
    /// image, row after row.
    pub fn noise_points(&self, pixels: u32) -> (places: Vec<Point>)
        requires
            0 < self.radius.meters <= MAX_LENGTH,
            pixels <= MAX_RESOLUTION,
        ensures
            places.len() == pixels * pixels,
            forall|i: int|
                0 <= i < places.len() ==> places[i] == self.noise_point_of(
                    self.shown_by(pixels as int, i),
                ),
    {
        let mut places: Vec<Point> = Vec::new();
        let mut y: u32 = 0;
        while y < pixels
            invariant
                0 <= y <= pixels,
                0 < self.radius.meters <= MAX_LENGTH,
                pixels <= MAX_RESOLUTION,
                places.len() == y * pixels,
                forall|i: int|
                    0 <= i < places.len() ==> places[i] == self.noise_point_of(
                        self.shown_by(pixels as int, i),
                    ),
            decreases pixels - y,
        {
            let mut x: u32 = 0;
            while x < pixels
                invariant
                    0 <= x <= pixels,
                    0 <= y < pixels,
                    0 < self.radius.meters <= MAX_LENGTH,
                    pixels <= MAX_RESOLUTION,
                    places.len() == y * pixels + x,
                    forall|i: int|
                        0 <= i < places.len() ==> places[i] == self.noise_point_of(
                            self.shown_by(pixels as int, i),
                        ),
                decreases pixels - x,
            {
                proof {
                    vstd::arithmetic::div_mod::lemma_fundamental_div_mod_converse(
                        y * pixels + x,
                        pixels as int,
                        y as int,
                        x as int,
                    );
                }
                let shown: Point = planet_point(self.radius, pixels, x, y);
                places.push(self.noise_point(shown));
                x += 1;
            }
            proof {
                assert((y + 1) * pixels == y * pixels + pixels) by (nonlinear_arith);
            }
            y += 1;
        }
        places
    }

    /// The elevation at `planet_point`.
    pub fn elevation_at(&self, planet_point: Point, noise: i32) -> (elevation: Elevation)
        requires
            self.wf(),
            planet_point.in_range(),
        ensures
            elevation.0 == self.elevation_of(planet_point, noise as int),
    {
        match &self.source {
            ElevationSource::Points(points) => sample(points, planet_point),
            ElevationSource::Noise(_) => {
                let last: usize = self.elevations.len() - 1;
                assert(self.elevations@[0].elevation.meters
                    <= self.elevations@[last as int].elevation.meters);
                from_noise(self.elevations[0].elevation, self.elevations[last].elevation, noise)
            },
        }
    }

    /// The anchor of the gradient that `planet_point` resolves to.
    pub fn resolve(&self, planet_point: Point, noise: i32) -> (anchor: usize)
        requires
            self.wf(),
            planet_point.in_range(),
        ensures
            anchor == self.anchor_of(planet_point, noise as int),
            anchor < self.elevations.len(),
    {
        let elevation: Elevation = self.elevation_at(planet_point, noise);
        closest_elevation(&self.elevations, elevation.0)
    }

    /// The color of anchor `anchor` at `planet_point`, under the light if
    /// there is one.
    fn shade(&self, anchor: usize, planet_point: Point, sun: &Option<Light>, curve: &TransferCurve)
        -> (color: Rgb)
        requires
            self.wf(),
            anchor < self.elevations.len(),
            sun.is_some() ==> self.can_be_lit(*curve) && self.covers(planet_point) && away_from_sun(
                self.origin,
                planet_point,
            ),
        ensures
            color == match *sun {
                None => self.elevations[anchor as int].color,
                Some(light) => lit(
                    curve@,
                    self.elevations[anchor as int].color,
                    light.color,
                    sun_factor_of(
                        self.origin,
                        self.radius.meters as int,
                        planet_point,
                        light.sols as int,
                    ),
                ),
            },
            self.far_from_star(planet_point) ==> no_brighter(
                color,
                self.elevations[anchor as int].color,
            ),
    {
        let base: Rgb = self.elevations[anchor].color;
        match sun {
            Some(light) => {
                let factor: i64 = sun_factor(self.origin, self.radius, planet_point, light.sols);
                light_color(curve, base, light.color, factor)
            },
            None => base,
        }
    }

    /// For a given point on the surface, return what kind and what color the point is
    ///
    /// `noise` is the sample of the noise at the noise point of
    /// `planet_point`; a field of points does not read it.  Without a
    /// light the point may lie anywhere in range and the curve is not read;
    /// under a light the point lies in the square that bounds the body,
    /// and not where the star is.
    pub fn extrapolate_point(
        &self,
        planet_point: Point,
        sun: &Option<Light>,
        noise: i32,
        curve: &TransferCurve,
    ) -> (found: (Kind, Rgb))
        requires
            self.wf(),
            planet_point.in_range(),
            sun.is_some() ==> self.can_be_lit(*curve) && self.covers(planet_point) && away_from_sun(
                self.origin,
                planet_point,
            ),
        ensures
            found.0 == self.elevations[self.anchor_of(planet_point, noise as int)].kind,
            found.1 == self.color_of(planet_point, *sun, noise as int, curve@),
            sun.is_none() ==> found.1 == self.elevations[self.anchor_of(
                planet_point,
                noise as int,
            )].color,
            self.far_from_star(planet_point) ==> no_brighter(
                found.1,
                self.elevations[self.anchor_of(planet_point, noise as int)].color,
            ),
    {
        let anchor: usize = self.resolve(planet_point, noise);
        let color: Rgb = self.shade(anchor, planet_point, sun, curve);
        (self.elevations[anchor].kind, color)
    }
}

impl<Kind: SurfaceDefinition> Terrain<Kind> {
    /// Whether `generated` is the image of this terrain at `pixels` by
    /// `pixels`, with its statistics: every pixel is the one that
    /// `pixel_of` gives; there is one count for each kind of surface, in
    /// the order of the kinds, which is the number of pixels inside the
    /// disc that show that kind; and the counts add up to the number of
    /// pixels inside the disc.
    pub open spec fn renders(
        &self,
        generated: GeneratedPlanet<Kind>,
        pixels: u32,
        sun: Option<Light>,
        noise: Seq<i32>,
        curve: Seq<u32>,
    ) -> bool {
        &&& generated.image.wf()
        &&& generated.image.side() == pixels
        &&& forall|i: int|
            0 <= i < pixels * pixels ==> generated.image.pixels()[i] == self.pixel_of(
                pixels as int,
                i,
                sun,
                noise,
                curve,
            )
        &&& generated.stats.len() == Kind::kinds()
        &&& forall|c: int|
            0 <= c < generated.stats.len() ==> (#[trigger] generated.stats[c]).kind.index_of() == c
                && generated.stats[c].count == self.tally(
                pixels as int,
                noise,
                generated.stats[c].kind,
                pixels * pixels,
            )
        &&& total_of(generated.stats@) == inside_count(pixels as int, pixels * pixels)
    }

    /// Whether two terrains are the same: they lie in the same place, and
    /// their chaos, their gradients and their elevation fields are equal.
    pub open spec fn same_as(&self, other: Self) -> bool {
        &&& self.surface_chaos == other.surface_chaos
        &&& self.origin == other.origin
        &&& self.radius == other.radius
        &&& self.elevations@ == other.elevations@
        &&& match (self.source, other.source) {
            (ElevationSource::Points(mine), ElevationSource::Points(theirs)) => mine@ == theirs@,
            (ElevationSource::Noise(mine), ElevationSource::Noise(theirs)) => mine == theirs,
            _ => false,
        }
    }

    /// Terrains that are the same show the same pixels and count the same.
    pub proof fn lemma_same_image(
        self,
        other: Self,
        pixels: u32,
        sun: Option<Light>,
        noise: Seq<i32>,
        curve: Seq<u32>,
        upto: int,
    )
        requires
            self.same_as(other),
        ensures
            forall|i: int|
                self.pixel_of(pixels as int, i, sun, noise, curve) == other.pixel_of(
                    pixels as int,
                    i,
                    sun,
                    noise,
                    curve,
                ),
            forall|kind: Kind|
                self.tally(pixels as int, noise, kind, upto) == other.tally(
                    pixels as int,
                    noise,
                    kind,
                    upto,
                ),
        decreases upto,
    {
        assert forall|i: int|
            self.pixel_of(pixels as int, i, sun, noise, curve) == other.pixel_of(
                pixels as int,
                i,
                sun,
                noise,
                curve,
            ) by {
            let shown = self.shown_by(pixels as int, i);
            assert(other.shown_by(pixels as int, i) == shown);
            assert(self.elevation_of(shown, noise[i] as int) == other.elevation_of(
                shown,
                noise[i] as int,
            ));
        }
        if upto > 0 {
            self.lemma_same_image(other, pixels, sun, noise, curve, upto - 1);
            let i = upto - 1;
            let shown = self.shown_by(pixels as int, i);
            assert(other.shown_by(pixels as int, i) == shown);
            assert(self.elevation_of(shown, noise[i] as int) == other.elevation_of(
                shown,
                noise[i] as int,
            ));
            assert forall|kind: Kind|
                self.tally(pixels as int, noise, kind, upto) == other.tally(
                    pixels as int,
                    noise,
                    kind,
                    upto,
                ) by {
                assert(self.tally(pixels as int, noise, kind, upto - 1) == other.tally(
                    pixels as int,
                    noise,
                    kind,
                    upto - 1,
                ));
            }
        } else {
            assert forall|kind: Kind|
                self.tally(pixels as int, noise, kind, upto) == other.tally(
                    pixels as int,
                    noise,
                    kind,
                    upto,
                ) by {}
        }
    }

    /// A terrain has one image only: two renderings of it under the same
    /// light, from the same noise and through the same curve, show the same
    /// pixels and count the same.
    pub proof fn lemma_one_image(
        self,
        first: GeneratedPlanet<Kind>,
        second: GeneratedPlanet<Kind>,
        pixels: u32,
        sun: Option<Light>,
        noise: Seq<i32>,
        curve: Seq<u32>,
    )
        requires
            self.renders(first, pixels, sun, noise, curve),
            self.renders(second, pixels, sun, noise, curve),
        ensures
            first.image.side() == second.image.side(),
            first.image@ == second.image@,
            first.stats@ == second.stats@,
    {
        assert(first.image.pixels() =~= second.image.pixels());
        assert forall|c: int| 0 <= c < first.stats@.len() implies first.stats@[c] == second.stats@[c] by {
            first.stats@[c].kind.lemma_index_names_kind(second.stats@[c].kind);
            assert(first.stats@[c].kind == second.stats@[c].kind);
            assert(first.stats@[c].count == second.stats@[c].count);
        }
        assert(first.stats@ =~= second.stats@);
    }

    /// The number of pixels that show a kind does not fall as more pixels
    /// are looked at, and a pixel inside the disc is counted under its kind.
    pub proof fn lemma_tally_counts(&self, pixels: int, noise: Seq<i32>, kind: Kind, i: int, upto: int)
        requires
            0 <= i < upto,
        ensures
            0 <= self.tally(pixels, noise, kind, i) <= self.tally(pixels, noise, kind, upto),
            Self::paints(pixels, i) && self.kind_of(pixels, i, noise) == kind ==> self.tally(
                pixels,
                noise,
                kind,
                upto,
            ) >= 1,
        decreases upto,
    {
        if i > 0 {
            self.lemma_tally_counts(pixels, noise, kind, i - 1, i);
        }
        if upto - 1 > i {
            self.lemma_tally_counts(pixels, noise, kind, i, upto - 1);
        }
    }

    /// In an image every pixel inside the disc is counted under the kind
    /// that it shows: the count of that kind carries the kind and is not
    /// zero.
    pub proof fn lemma_kind_has_its_count(
        self,
        generated: GeneratedPlanet<Kind>,
        pixels: u32,
        sun: Option<Light>,
        noise: Seq<i32>,
        curve: Seq<u32>,
        i: int,
    )
        requires
            self.renders(generated, pixels, sun, noise, curve),
            0 <= i < pixels * pixels,
            Self::paints(pixels as int, i),
        ensures
            ({
                let kind = self.kind_of(pixels as int, i, noise);
                &&& kind.index_of() < generated.stats.len()
                &&& generated.stats[kind.index_of() as int].kind == kind
                &&& generated.stats[kind.index_of() as int].count >= 1
            }),
    {
        let kind = self.kind_of(pixels as int, i, noise);
        kind.lemma_index_in_range();
        let count = generated.stats[kind.index_of() as int];
        count.kind.lemma_index_names_kind(kind);
        self.lemma_tally_counts(pixels as int, noise, kind, i, pixels * pixels);
    }

    /// Whatever the terrain, its image has the side asked for and one count
    /// for each kind of surface; the counts add up to the number of
    /// pixels inside the disc; the opacity of a pixel is that of its place,
    /// and a pixel outside the disc is transparent.
    pub proof fn lemma_image_shape(
        self,
        generated: GeneratedPlanet<Kind>,
        pixels: u32,
        sun: Option<Light>,
        noise: Seq<i32>,
        curve: Seq<u32>,
    )
        requires
            self.renders(generated, pixels, sun, noise, curve),
        ensures
            generated.image.side() == pixels,
            generated.image.pixels().len() == pixels * pixels,
            generated.stats.len() == Kind::kinds(),
            total_of(generated.stats@) == inside_count(pixels as int, pixels * pixels),
            forall|i: int|
                0 <= i < pixels * pixels ==> (#[trigger] generated.image.pixels()[i]).alpha == alpha_of(
                    pixels as int,
                    spread_of(pixels as int, i % (pixels as int), i / (pixels as int)),
                ),
            forall|i: int|
                0 <= i < pixels * pixels && !Self::paints(pixels as int, i)
                    ==> #[trigger] generated.image.pixels()[i] == transparent(),
    {
        assert forall|i: int| 0 <= i < pixels * pixels implies (#[trigger] generated.image.pixels()[i]).alpha
            == alpha_of(
            pixels as int,
            spread_of(pixels as int, i % (pixels as int), i / (pixels as int)),
        ) by {
            assert(generated.image.pixels()[i] == self.pixel_of(pixels as int, i, sun, noise, curve));
            lemma_spread_not_negative(pixels as int, i % (pixels as int), i / (pixels as int));
            lemma_alpha_bounds(
                pixels as int,
                spread_of(pixels as int, i % (pixels as int), i / (pixels as int)),
            );
        }
        assert forall|i: int|
            0 <= i < pixels * pixels && !Self::paints(
                pixels as int,
                i,
            ) implies #[trigger] generated.image.pixels()[i] == transparent() by {
            assert(generated.image.pixels()[i] == self.pixel_of(pixels as int, i, sun, noise, curve));
        }
    }

    /// Generates an image of `pixels` wide, and `pixels` tall. If a light is provided
    /// a shadow is simulated, and the colors are mixed with the light's color
    ///
    /// `noise` holds, for a field of noise, the sample for each pixel, row
    /// after row: the noise at the noise point of the point that the pixel
    /// shows.  A field of points does not read it.  Without a light
    /// neither the curve nor the origin is read; under a light the star
    /// must stand at none of the points that the image shows.
    pub fn generate_planet(
        self,
        pixels: u32,
        sun: &Option<Light>,
        noise: &Vec<i32>,
        curve: &TransferCurve,
    ) -> (generated: GeneratedPlanet<Kind>)
        requires
            self.wf(),
            pixels <= MAX_RESOLUTION,
            self.source is Noise ==> noise.len() == pixels * pixels,
            sun.is_some() ==> self.can_be_lit(*curve) && self.clear_of_star(pixels),
        ensures
            self.renders(generated, pixels, *sun, noise@, curve@),
    {
        let kinds: usize = Kind::kind_count();
        let mut stats: Vec<CategoryCount<Kind>> = Vec::new();
        let mut c: usize = 0;
        while c < kinds
            invariant
                0 <= c <= kinds,
                kinds == Kind::kinds(),
                stats.len() == c,
                forall|k: int|
                    0 <= k < c ==> (#[trigger] stats[k]).kind.index_of() == k && stats[k].count == 0,
            decreases kinds - c,
        {
            stats.push(CategoryCount { kind: Kind::from_index(c), count: 0 });
            c += 1;
        }
        proof {
            lemma_total_of_zeros(stats@);
        }
        let mut image = Image::new(pixels);
        let p: usize = pixels as usize;
        assert(p * p <= 16_384 * 16_384) by (nonlinear_arith)
            requires
                0 <= p <= 16_384,
        ;
        let mut y: u32 = 0;
        while y < pixels
            invariant
                0 <= y <= pixels,
                p == pixels,
                p * p <= 16_384 * 16_384,
                self.wf(),
                pixels <= MAX_RESOLUTION,
                self.source is Noise ==> noise.len() == pixels * pixels,
                sun.is_some() ==> self.can_be_lit(*curve) && self.clear_of_star(pixels),
                image.wf(),
                image.side() == pixels,
                stats.len() == Kind::kinds(),
                forall|i: int|
                    0 <= i < y * pixels ==> image.pixels()[i] == self.pixel_of(
                        pixels as int,
                        i,
                        *sun,
                        noise@,
                        curve@,
                    ),
                forall|i: int| y * pixels <= i < pixels * pixels ==> image.pixels()[i] == transparent(),
                forall|k: int|
                    0 <= k < stats.len() ==> (#[trigger] stats[k]).kind.index_of() == k
                        && stats[k].count == self.tally(
                        pixels as int,
                        noise@,
                        stats[k].kind,
                        y * pixels,
                    ),
                total_of(stats@) == inside_count(pixels as int, y * pixels),
                total_of(stats@) <= y * pixels,
            decreases pixels - y,
        {
            let mut x: u32 = 0;
            while x < pixels
                invariant
                    0 <= x <= pixels,
                    0 <= y < pixels,
                    p == pixels,
                    p * p <= 16_384 * 16_384,
                    self.wf(),
                    pixels <= MAX_RESOLUTION,
                    self.source is Noise ==> noise.len() == pixels * pixels,
                    sun.is_some() ==> self.can_be_lit(*curve) && self.clear_of_star(pixels),
                    image.wf(),
                    image.side() == pixels,
                    stats.len() == Kind::kinds(),
                    forall|i: int|
                        0 <= i < y * pixels + x ==> image.pixels()[i] == self.pixel_of(
                            pixels as int,
                            i,
                            *sun,
                            noise@,
                            curve@,
                        ),
                    forall|i: int|
                        y * pixels + x <= i < pixels * pixels ==> image.pixels()[i] == transparent(),
                    forall|k: int|
                        0 <= k < stats.len() ==> (#[trigger] stats[k]).kind.index_of() == k
                            && stats[k].count == self.tally(
                            pixels as int,
                            noise@,
                            stats[k].kind,
                            y * pixels + x,
                        ),
                    total_of(stats@) == inside_count(pixels as int, y * pixels + x),
                    total_of(stats@) <= y * pixels + x,
                decreases pixels - x,
            {
                let ghost i: int = y * pixels + x;
                proof {
                    lemma_cell_in_square(x as int, y as int, pixels as int);
                    vstd::arithmetic::div_mod::lemma_fundamental_div_mod_converse(
                        i,
                        pixels as int,
                        y as int,
                        x as int,
                    );
                    assert(i % (pixels as int) == x && i / (pixels as int) == y);
                }
                let s: u64 = spread(pixels, x, y);
                if inside(pixels, s) {
                    let place: Point = planet_point(self.radius, pixels, x, y);
                    let index: usize = y as usize * p + x as usize;
                    let value: i32 = match &self.source {
                        ElevationSource::Noise(_) => noise[index],
                        ElevationSource::Points(_) => 0,
                    };
                    assert(self.elevation_of(place, value as int) == self.elevation_of(
                        place,
                        noise@[i] as int,
                    ));
                    let anchor: usize = self.resolve(place, value);
                    assert(place == pixel_point(self.radius.meters as int, pixels as int, i));
                    let color: Rgb = self.shade(anchor, place, sun, curve);
                    let opacity: u8 = alpha(pixels, s);
                    let kind: Kind = self.elevations[anchor].kind;
                    let category: usize = kind.index();
                    proof {
                        assert(kind == self.kind_of(pixels as int, i, noise@));
                        lemma_count_within_total(stats@, category as int);
                        stats@[category as int].kind.lemma_index_names_kind(kind);
                    }
                    let counted = CategoryCount { kind, count: stats[category].count + 1 };
                    proof {
                        lemma_total_after_count(stats@, category as int, counted);
                    }
                    stats.set(category, counted);
                    image.put_pixel(
                        x,
                        y,
                        Rgba { red: color.red, green: color.green, blue: color.blue, alpha: opacity },
                    );
                }
                x += 1;
            }
            proof {
                assert((y + 1) * pixels == y * pixels + pixels) by (nonlinear_arith);
            }
            y += 1;
        }
        GeneratedPlanet { image, stats }
    }
}

/// The smallest limit that the surface chaos is drawn below.
pub open spec fn chaos_bound(limit: u32) -> i64 {
    if limit > MIN_CHAOS + 1 {
        limit as i64
    } else {
        (MIN_CHAOS + 1) as i64
    }
}

/// The fraction by which the target range reaches beyond the palette: the
/// first draw of the stream.
pub open spec fn range_draw_of(word: u64) -> u32 {
    fraction_of(word, 0)
}

/// The draws for the bands of a gradient of `bands` bands: three for each
/// band, after the draw of the range.
pub open spec fn band_draws_of(word: u64, bands: nat) -> Seq<BandDraw> {
    Seq::new(
        bands,
        |k: int|
            BandDraw {
                end: fraction_of(word, (1 + 3 * k) as u64),
                mid: fraction_of(word, (2 + 3 * k) as u64),
                shade: fraction_of(word, (3 + 3 * k) as u64),
            },
    )
}

/// The surface chaos: the draw after those of the gradient, at least one
/// and below the limit of the kind of surface.
pub open spec fn chaos_of(word: u64, bands: nat, limit: u32) -> u32 {
    draw_of(word, (3 * bands + 1) as u64, MIN_CHAOS as i64, (chaos_bound(limit) - 1) as i64) as u32
}

/// The seed of a field of noise: the draw after that of the chaos.
pub open spec fn noise_seed_of(word: u64, bands: nat) -> u32 {
    draw_of(word, (3 * bands + 2) as u64, 0, u32::MAX as i64) as u32
}

/// The number of points of a field of points: the draw after that of the
/// chaos.
pub open spec fn point_count_of(word: u64, bands: nat) -> nat {
    draw_of(word, (3 * bands + 2) as u64, MIN_POINTS, MAX_POINTS) as nat
}

impl<Kind: SurfaceDefinition> Terrain<Kind> {
    /// Whether the terrain is the one that grows for `planet`.
    ///
    /// The random stream is seeded with the seed word of the planet.  Its
    /// first draw stretches the target range, the next draws shape the
    /// bands of the gradient, then comes the surface chaos, and last the
    /// elevation field: the seed of the noise, or the number of the sample
    /// points and the points themselves.
    pub open spec fn grown_from(&self, planet: Planet<Kind>, strategy: Strategy, curve: Seq<u32>)
        -> bool {
        let word = seed_word(planet.seed);
        let bands = planet.colors.len() as nat;
        let range = target_range_of(planet.colors@, range_draw_of(word));
        &&& self.wf()
        &&& self.origin == planet.origin
        &&& self.radius == planet.radius
        &&& self.surface_chaos == chaos_of(word, bands, Kind::chaos_limit())
        &&& self.elevations@ == gradient_of(planet.colors@, range, band_draws_of(word, bands), curve)
        &&& match strategy {
            Strategy::Noise => self.source == ElevationSource::Noise(noise_seed_of(word, bands)),
            Strategy::Points => self.source matches ElevationSource::Points(points) && points@
                == scattered(
                word,
                (3 * bands + 3) as u64,
                planet.radius.meters,
                self.surface_chaos,
                range,
                point_count_of(word, bands),
            ),
        }
    }

    /// A terrain grown for a body has three anchors for each anchor of the
    /// body's palette, which carry its category.
    pub proof fn lemma_kinds_of_palette(self, planet: Planet<Kind>, strategy: Strategy, curve: Seq<u32>)
        requires
            self.grown_from(planet, strategy, curve),
        ensures
            self.elevations.len() == 3 * planet.colors.len(),
            forall|i: int|
                0 <= i < self.elevations.len() ==> (#[trigger] self.elevations[i]).kind
                    == planet.colors[i / 3].kind,
    {
        let word = seed_word(planet.seed);
        let bands = planet.colors.len() as nat;
        let range = target_range_of(planet.colors@, range_draw_of(word));
        assert forall|i: int| 0 <= i < self.elevations.len() implies (
        #[trigger] self.elevations[i]).kind == planet.colors[i / 3].kind by {
            assert(self.elevations@[i] == crate::gradient::gradient_anchor(
                planet.colors@,
                range,
                band_draws_of(word, bands),
                curve,
                i,
            ));
        }
    }

    /// A body has one terrain only: two terrains grown for it, or for a
    /// body that is the same, are the same.
    pub proof fn lemma_one_terrain(
        self,
        other: Self,
        planet: Planet<Kind>,
        twin: Planet<Kind>,
        strategy: Strategy,
        curve: Seq<u32>,
    )
        requires
            planet.same_as(twin),
            self.grown_from(planet, strategy, curve),
            other.grown_from(twin, strategy, curve),
        ensures
            self.same_as(other),
    {
    }

    /// A body has one image only: two renderings of terrains grown for it,
    /// or for a body that is the same, under the same light and through
    /// the same curve, show the same pixels and count the same.
    pub proof fn lemma_one_image_of_planet(
        self,
        other: Self,
        planet: Planet<Kind>,
        twin: Planet<Kind>,
        strategy: Strategy,
        first: GeneratedPlanet<Kind>,
        second: GeneratedPlanet<Kind>,
        pixels: u32,
        sun: Option<Light>,
        noise: Seq<i32>,
        curve: Seq<u32>,
    )
        requires
            planet.same_as(twin),
            self.grown_from(planet, strategy, curve),
            other.grown_from(twin, strategy, curve),
            self.renders(first, pixels, sun, noise, curve),
            other.renders(second, pixels, sun, noise, curve),
        ensures
            first.image.side() == second.image.side(),
            first.image@ == second.image@,
            first.stats@ == second.stats@,
    {
        self.lemma_one_terrain(other, planet, twin, strategy, curve);
        self.lemma_same_image(other, pixels, sun, noise, curve, pixels * pixels);
        assert forall|i: int| 0 <= i < pixels * pixels implies first.image.pixels()[i] == second.image.pixels()[i] by {
            assert(first.image.pixels()[i] == self.pixel_of(pixels as int, i, sun, noise, curve));
            assert(second.image.pixels()[i] == other.pixel_of(pixels as int, i, sun, noise, curve));
        }
        assert(first.image.pixels() =~= second.image.pixels());
        assert forall|c: int| 0 <= c < first.stats@.len() implies first.stats@[c] == second.stats@[c] by {
            first.stats@[c].kind.lemma_index_names_kind(second.stats@[c].kind);
            assert(first.stats@[c].kind == second.stats@[c].kind);
            assert(first.stats@[c].count == second.stats@[c].count);
        }
        assert(first.stats@ =~= second.stats@);
    }

    /// Randomly generate a new terrain for the Planet provided
    pub fn generate(planet: &Planet<Kind>, strategy: Strategy, curve: &TransferCurve) -> (terrain:
        Self)
        requires
            planet.wf(),
            curve.wf(),
        ensures
            terrain.grown_from(*planet, strategy, curve@),
            is_gradient(terrain.elevations@),
            MIN_CHAOS <= terrain.surface_chaos < chaos_bound(Kind::chaos_limit()),
            strategy == Strategy::Points ==> (terrain.source matches ElevationSource::Points(points)
                && MIN_POINTS <= points.len() <= MAX_POINTS && is_scattered(
                points@,
                terrain.radius.meters as int,
                terrain.surface_chaos,
                target_range_of(planet.colors@, range_draw_of(seed_word(planet.seed))),
            )),
    {
        let word: u64 = fold_seed(planet.seed);
        let bands: usize = planet.colors.len();
        let range_draw: u32 = draw_fraction(word, 0);
        let range: ElevationRange = target_range(&planet.colors, range_draw);
        let mut draws: Vec<BandDraw> = Vec::new();
        let mut k: usize = 0;
        while k < bands
            invariant
                0 <= k <= bands,
                bands == planet.colors.len(),
                bands <= MAX_ANCHORS,
                draws.len() == k,
                forall|j: int| 0 <= j < k ==> draws[j] == band_draws_of(word, bands as nat)[j],
            decreases bands - k,
        {
            let at: u64 = 3 * (k as u64);
            let end: u32 = draw_fraction(word, at + 1);
            let mid: u32 = draw_fraction(word, at + 2);
            let shade: u32 = draw_fraction(word, at + 3);
            draws.push(BandDraw { end, mid, shade });
            k += 1;
        }
        assert(draws@ =~= band_draws_of(word, bands as nat));
        let elevations = expand(&planet.colors, range, &draws, curve);
        proof {
            lemma_gradient_is_table(elevations@);
        }
        // How much variation in elevation do we want to allow per kilometer of distance?
        let limit: u32 = Kind::max_chaos();
        let above: i64 = if limit > MIN_CHAOS + 1 { limit as i64 } else { MIN_CHAOS as i64 + 1 };
        let after: u64 = 3 * (bands as u64);
        let surface_chaos: u32 = draw_between(word, after + 1, MIN_CHAOS as i64, above - 1) as u32;
        let source = match strategy {
            Strategy::Noise => ElevationSource::Noise(
                draw_between(word, after + 2, 0, u32::MAX as i64) as u32,
            ),
            Strategy::Points => {
                let count: i64 = draw_between(word, after + 2, MIN_POINTS, MAX_POINTS);
                ElevationSource::Points(
                    scatter(word, after + 3, planet.radius, surface_chaos, range, count as usize),
                )
            },
        };
        Terrain { origin: planet.origin, radius: planet.radius, source, surface_chaos, elevations }
    }
}

} // verus!
