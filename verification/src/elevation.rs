//! Elevation fields: where the elevation of a point of the body comes from.
//!
//! A field is either a set of scattered sample points, between which the
//! elevation is interpolated from the three nearest, or coherent noise,
//! whose samples the caller evaluates and hands in.

use vstd::prelude::*;
use crate::gradient::{ElevationRange, GRADIENT_LIMIT, scale, scaled};
use crate::numeric::{
    div_toward_zero, floor_sqrt, isqrt, lemma_floor_sqrt_monotonic, lemma_sqrt_of_square,
    lemma_trunc_div_bounds, lemma_trunc_div_scaled, magnitude, trunc_div,
};
use crate::random::{MAX_DRAWS, draw_between, draw_fraction, draw_of, fraction_of};
use crate::terrain_point::{TerrainLocation, TerrainPoint};
use crate::types::{Length, Point, MAX_LENGTH, UNIT};

verus! {

/// An elevation, in meters.
#[derive(Clone, Copy, Debug, PartialEq, Eq, Structural)]
pub struct Elevation(pub i64);

impl Elevation {
    /// The number of coordinates of an elevation.
    pub fn dimensions() -> (count: usize)
        ensures
            count == 1,
    {
        1
    }

    /// The elevation of `value` meters.
    pub fn from_value(value: i64) -> (elevation: Self)
        ensures
            elevation.0 == value,
    {
        Elevation(value)
    }

    /// The one coordinate of an elevation, whatever the index.
    pub fn nth(&self, _index: usize) -> (value: i64)
        ensures
            value == self.0,
    {
        self.0
    }

    /// Replaces the one coordinate of an elevation, whatever the index.
    pub fn set_nth(&mut self, _index: usize, value: i64)
        ensures
            final(self).0 == value,
    {
        self.0 = value;
    }
}

/// Where the elevations of a terrain come from.
#[derive(Debug)]
pub enum ElevationSource {
    /// Scattered sample points.
    Points(Vec<TerrainPoint>),
    /// Coherent noise with this seed, evaluated by the caller.
    Noise(u32),
}

/// The choice between the two kinds of elevation field.
#[derive(Clone, Copy, Debug, PartialEq, Eq, Structural)]
pub enum Strategy {
    Points,
    Noise,
}

/// The smallest number of sample points in a field.
pub const MIN_POINTS: i64 = 50;

/// The largest number of sample points in a field.
pub const MAX_POINTS: i64 = 1000;

/// The number of sample points that an elevation is interpolated from.
pub const NEIGHBORS: usize = 3;

/// Whether every sample point lies in range and carries an elevation within
/// the gradient limit.
pub open spec fn points_in_range(points: Seq<TerrainPoint>) -> bool {
    forall|i: int|
        0 <= i < points.len() ==> {
            &&& (#[trigger] points[i]).location.point.in_range()
            &&& -GRADIENT_LIMIT <= points[i].elevation.meters <= GRADIENT_LIMIT
        }
}

impl ElevationSource {
    /// Whether the field can be sampled: a field of points holds at least
    /// three, all in range.
    pub open spec fn wf(&self) -> bool {
        match self {
            ElevationSource::Points(points) => points.len() >= NEIGHBORS && points_in_range(
                points@,
            ),
            ElevationSource::Noise(_) => true,
        }
    }
}

/// The square of the distance from sample point `i` to `query`.
pub open spec fn gap_squared(points: Seq<TerrainPoint>, i: int, query: Point) -> int {
    points[i].location.point.distance_squared(query)
}

/// Whether sample point `i` comes before sample point `j` as a neighbor of
/// `query`: it is nearer, or as near and earlier in the field.
pub open spec fn nearer(points: Seq<TerrainPoint>, query: Point, i: int, j: int) -> bool {
    gap_squared(points, i, query) < gap_squared(points, j, query) || (gap_squared(points, i, query)
        == gap_squared(points, j, query) && i < j)
}

/// Whether `index` is the nearest neighbor of `query`.
pub open spec fn is_nearest(points: Seq<TerrainPoint>, query: Point, index: int) -> bool {
    &&& 0 <= index < points.len()
    &&& forall|j: int| 0 <= j < points.len() && j != index ==> nearer(points, query, index, j)
}

/// Whether `a`, `b` and `c` are the three nearest neighbors of `query`,
/// nearest first.
pub open spec fn is_nearest_three(points: Seq<TerrainPoint>, query: Point, a: int, b: int, c: int)
    -> bool {
    &&& 0 <= a < points.len()
    &&& 0 <= b < points.len()
    &&& 0 <= c < points.len()
    &&& nearer(points, query, a, b)
    &&& nearer(points, query, b, c)
    &&& forall|j: int|
        0 <= j < points.len() && j != a && j != b && j != c ==> nearer(points, query, c, j)
}

/// The index of the nearest neighbor of `query`.
pub open spec fn nearest_index(points: Seq<TerrainPoint>, query: Point) -> int {
    choose|index: int| is_nearest(points, query, index)
}

/// A point has one nearest neighbor only.
pub proof fn lemma_nearest_unique(points: Seq<TerrainPoint>, query: Point, a: int, b: int)
    requires
        is_nearest(points, query, a),
        is_nearest(points, query, b),
    ensures
        a == b,
{
    if a != b {
        assert(nearer(points, query, a, b));
        assert(nearer(points, query, b, a));
    }
}

/// A point has one triple of three nearest neighbors only.
pub proof fn lemma_nearest_three_unique(
    points: Seq<TerrainPoint>,
    query: Point,
    a: int,
    b: int,
    c: int,
    d: int,
    e: int,
    f: int,
)
    requires
        is_nearest_three(points, query, a, b, c),
        is_nearest_three(points, query, d, e, f),
    ensures
        a == d,
        b == e,
        c == f,
{
    // every index outside one triple comes after all of that triple
    if d != a && d != b && d != c {
        assert(nearer(points, query, c, d));
        if a != d && a != e && a != f {
            assert(nearer(points, query, f, a));
        }
        if b != d && b != e && b != f {
            assert(nearer(points, query, f, b));
        }
        if c != d && c != e && c != f {
            assert(nearer(points, query, f, c));
        }
    }
    if e != a && e != b && e != c {
        assert(nearer(points, query, c, e));
        if a != d && a != e && a != f {
            assert(nearer(points, query, f, a));
        }
        if b != d && b != e && b != f {
            assert(nearer(points, query, f, b));
        }
        if c != d && c != e && c != f {
            assert(nearer(points, query, f, c));
        }
    }
    if f != a && f != b && f != c {
        assert(nearer(points, query, c, f));
        if a != d && a != e && a != f {
            assert(nearer(points, query, f, a));
        }
        if b != d && b != e && b != f {
            assert(nearer(points, query, f, b));
        }
        if c != d && c != e && c != f {
            assert(nearer(points, query, f, c));
        }
    }
}

/// The square of the distance between two points in range.
pub fn distance_squared(a: Point, b: Point) -> (square: u128)
    requires
        a.in_range(),
        b.in_range(),
    ensures
        square == a.distance_squared(b),
        square <= 8 * MAX_LENGTH * MAX_LENGTH,
{
    let dx: i128 = a.x as i128 - b.x as i128;
    let dy: i128 = a.y as i128 - b.y as i128;
    assert(0 <= dx * dx <= 4 * 1_000_000_000_000_000 * 1_000_000_000_000_000) by (nonlinear_arith)
        requires
            -2_000_000_000_000_000 <= dx <= 2_000_000_000_000_000,
    ;
    assert(0 <= dy * dy <= 4 * 1_000_000_000_000_000 * 1_000_000_000_000_000) by (nonlinear_arith)
        requires
            -2_000_000_000_000_000 <= dy <= 2_000_000_000_000_000,
    ;
    (dx * dx + dy * dy) as u128
}

/// Finds the nearest neighbor of `query`; of neighbors that are equally
/// near, the earliest.
pub fn nearest(points: &Vec<TerrainPoint>, query: Point) -> (index: usize)
    requires
        points.len() > 0,
        points_in_range(points@),
        query.in_range(),
    ensures
        is_nearest(points@, query, index as int),
        index == nearest_index(points@, query),
{
    let mut best: usize = 0;
    let mut best_gap: u128 = distance_squared(points[0].location.point, query);
    let mut i: usize = 1;
    while i < points.len()
        invariant
            1 <= i <= points.len(),
            points_in_range(points@),
            query.in_range(),
            0 <= best < i,
            best_gap == gap_squared(points@, best as int, query),
            forall|j: int|
                0 <= j < i && j != best ==> best_gap < #[trigger] gap_squared(points@, j, query) || (
                best_gap == gap_squared(points@, j, query) && best < j),
        decreases points.len() - i,
    {
        let gap: u128 = distance_squared(points[i].location.point, query);
        if gap < best_gap {
            best = i;
            best_gap = gap;
        }
        i += 1;
    }
    proof {
        assert forall|j: int| 0 <= j < points@.len() && j != best implies nearer(
            points@,
            query,
            best as int,
            j,
        ) by {
            assert(best_gap <= gap_squared(points@, j, query));
        }
        lemma_nearest_unique(points@, query, best as int, nearest_index(points@, query));
    }
    best
}

/// Finds the three nearest neighbors of `query`, nearest first; of
/// neighbors that are equally near, the earlier comes first.
pub fn nearest_three(points: &Vec<TerrainPoint>, query: Point) -> (found: (usize, usize, usize))
    requires
        points.len() >= NEIGHBORS,
        points_in_range(points@),
        query.in_range(),
    ensures
        is_nearest_three(points@, query, found.0 as int, found.1 as int, found.2 as int),
{
    let g0: u128 = distance_squared(points[0].location.point, query);
    let g1: u128 = distance_squared(points[1].location.point, query);
    let g2: u128 = distance_squared(points[2].location.point, query);
    let mut a: usize = 0;
    let mut b: usize = 1;
    let mut c: usize = 2;
    let mut ga: u128 = g0;
    let mut gb: u128 = g1;
    let mut gc: u128 = g2;
    if g1 < g0 {
        a = 1;
        b = 0;
        ga = g1;
        gb = g0;
    }
    if g2 < gb {
        c = b;
        gc = gb;
        if g2 < ga {
            b = a;
            gb = ga;
            a = 2;
            ga = g2;
        } else {
            b = 2;
            gb = g2;
        }
    }
    let mut i: usize = 3;
    while i < points.len()
        invariant
            3 <= i <= points.len(),
            points_in_range(points@),
            query.in_range(),
            0 <= a < i,
            0 <= b < i,
            0 <= c < i,
            ga == gap_squared(points@, a as int, query),
            gb == gap_squared(points@, b as int, query),
            gc == gap_squared(points@, c as int, query),
            nearer(points@, query, a as int, b as int),
            nearer(points@, query, b as int, c as int),
            forall|j: int|
                0 <= j < i && j != a && j != b && j != c ==> gc < #[trigger] gap_squared(
                    points@,
                    j,
                    query,
                ) || (gc == gap_squared(points@, j, query) && c < j),
        decreases points.len() - i,
    {
        let gap: u128 = distance_squared(points[i].location.point, query);
        if gap < gc {
            if gap < gb {
                c = b;
                gc = gb;
                if gap < ga {
                    b = a;
                    gb = ga;
                    a = i;
                    ga = gap;
                } else {
                    b = i;
                    gb = gap;
                }
            } else {
                c = i;
                gc = gap;
            }
        }
        i += 1;
    }
    proof {
        assert forall|j: int|
            0 <= j < points@.len() && j != a && j != b && j != c implies nearer(
            points@,
            query,
            c as int,
            j,
        ) by {
            assert(gc <= gap_squared(points@, j, query));
        }
    }
    (a, b, c)
}

/// The elevation between three sample points: each elevation weighted by
/// the distance of its point from the query, over the sum of the three
/// distances.  Where all three points lie at the query, the elevation of
/// the first.
pub open spec fn weighted_elevation(
    points: Seq<TerrainPoint>,
    query: Point,
    a: int,
    b: int,
    c: int,
) -> int {
    let da = floor_sqrt(gap_squared(points, a, query));
    let db = floor_sqrt(gap_squared(points, b, query));
    let dc = floor_sqrt(gap_squared(points, c, query));
    let total = da + db + dc;
    if total == 0 {
        points[a].elevation.meters as int
    } else {
        trunc_div(
            da * points[a].elevation.meters + db * points[b].elevation.meters + dc
                * points[c].elevation.meters,
            total,
        )
    }
}

/// Whether `elevation` is what a field of points gives at `query`: the
/// weighted elevation of the three nearest neighbors.
pub open spec fn is_sample(points: Seq<TerrainPoint>, query: Point, elevation: int) -> bool {
    exists|a: int, b: int, c: int|
        is_nearest_three(points, query, a, b, c) && elevation == weighted_elevation(
            points,
            query,
            a,
            b,
            c,
        )
}

/// The elevation that a field of points gives at `query`.
pub open spec fn sample_of(points: Seq<TerrainPoint>, query: Point) -> int {
    choose|elevation: int| is_sample(points, query, elevation)
}

/// The distance between two points in range, rounded down.
fn distance(a: Point, b: Point) -> (d: i128)
    requires
        a.in_range(),
        b.in_range(),
    ensures
        d == floor_sqrt(a.distance_squared(b)),
        0 <= d <= 3 * MAX_LENGTH,
{
    let square: u128 = distance_squared(a, b);
    let root: u128 = isqrt(square);
    proof {
        let limit: int = 3 * MAX_LENGTH;
        assert(8 * MAX_LENGTH * MAX_LENGTH <= limit * limit) by (nonlinear_arith)
            requires
                limit == 3 * MAX_LENGTH,
        ;
        lemma_floor_sqrt_monotonic(square as int, limit * limit);
        lemma_sqrt_of_square(limit);
    }
    root as i128
}

/// Interpolates the elevation at `query` from the three nearest sample points.
pub fn sample(points: &Vec<TerrainPoint>, query: Point) -> (elevation: Elevation)
    requires
        points.len() >= NEIGHBORS,
        points_in_range(points@),
        query.in_range(),
    ensures
        is_sample(points@, query, elevation.0 as int),
        elevation.0 == sample_of(points@, query),
        -GRADIENT_LIMIT <= elevation.0 <= GRADIENT_LIMIT,
{
    let (a, b, c) = nearest_three(points, query);
    let da: i128 = distance(points[a].location.point, query);
    let db: i128 = distance(points[b].location.point, query);
    let dc: i128 = distance(points[c].location.point, query);
    let ea: i128 = points[a].elevation.meters as i128;
    let eb: i128 = points[b].elevation.meters as i128;
    let ec: i128 = points[c].elevation.meters as i128;
    let total: i128 = da + db + dc;
    let value: i64 = if total == 0 {
        points[a].elevation.meters
    } else {
        let limit: i128 = 3_000_000_000_000_000;
        assert(magnitude(da * ea) <= da * limit && da * limit <= limit * limit) by (nonlinear_arith)
            requires
                0 <= da <= limit,
                -limit <= ea <= limit,
        ;
        assert(magnitude(db * eb) <= db * limit && db * limit <= limit * limit) by (nonlinear_arith)
            requires
                0 <= db <= limit,
                -limit <= eb <= limit,
        ;
        assert(magnitude(dc * ec) <= dc * limit && dc * limit <= limit * limit) by (nonlinear_arith)
            requires
                0 <= dc <= limit,
                -limit <= ec <= limit,
        ;
        assert(limit * limit == 9_000_000_000_000_000_000_000_000_000_000) by (nonlinear_arith)
            requires
                limit == 3_000_000_000_000_000,
        ;
        let sum: i128 = da * ea + db * eb + dc * ec;
        proof {
            assert(da * limit + db * limit + dc * limit == limit * total) by (nonlinear_arith)
                requires
                    total == da + db + dc,
            ;
            lemma_trunc_div_scaled(sum as int, total as int, limit as int);
        }
        div_toward_zero(sum, total) as i64
    };
    proof {
        let e = value as int;
        assert(e == weighted_elevation(points@, query, a as int, b as int, c as int));
        assert(is_sample(points@, query, e));
        let other = sample_of(points@, query);
        assert(is_sample(points@, query, other));
        let (d, f, g) = choose|d: int, f: int, g: int|
            is_nearest_three(points@, query, d, f, g) && other == weighted_elevation(
                points@,
                query,
                d,
                f,
                g,
            );
        lemma_nearest_three_unique(points@, query, a as int, b as int, c as int, d, f, g);
    }
    Elevation(value)
}

/// The elevation that a noise sample stands for: the sample, limited to
/// the interval from minus one to one, mapped linearly onto the interval
/// from `low` to `high`.
pub open spec fn noise_elevation(low: int, high: int, noise: int) -> int {
    let limited = if noise < -UNIT {
        -UNIT as int
    } else if noise > UNIT {
        UNIT as int
    } else {
        noise
    };
    low + (high - low) * (limited + UNIT) / (2 * UNIT)
}

/// Maps a noise sample, given in millionths, onto the elevations from `low`
/// to `high`.
pub fn from_noise(low: Length, high: Length, noise: i32) -> (elevation: Elevation)
    requires
        -GRADIENT_LIMIT <= low.meters <= high.meters <= GRADIENT_LIMIT,
    ensures
        elevation.0 == noise_elevation(low.meters as int, high.meters as int, noise as int),
        low.meters <= elevation.0 <= high.meters,
{
    let limited: i128 = if noise < -1_000_000 {
        -1_000_000
    } else if noise > 1_000_000 {
        1_000_000
    } else {
        noise as i128
    };
    let span: i128 = high.meters as i128 - low.meters as i128;
    let part: i128 = limited + 1_000_000;
    assert(0 <= span * part <= span * 2_000_000 && span * 2_000_000 <= 12_000_000_000_000_000_000_000)
        by (nonlinear_arith)
        requires
            0 <= span <= 6_000_000_000_000_000,
            0 <= part <= 2_000_000,
    ;
    proof {
        lemma_trunc_div_scaled((span * part) as int, 2_000_000, span as int);
        lemma_trunc_div_bounds((span * part) as int, 2_000_000);
    }
    let offset: i128 = span * part / 2_000_000;
    Elevation((low.meters as i128 + offset) as i64)
}

/// How far the elevation may change over `distance` meters: the chaos, given
/// in thousandths, times the distance.
pub open spec fn reach_of(chaos: int, distance: int) -> int {
    chaos * distance / 1000
}

/// `value` limited to the interval of `range`.
pub open spec fn limited_to(range: ElevationRange, value: int) -> int {
    if value < range.min.meters {
        range.min.meters as int
    } else if value > range.max.meters {
        range.max.meters as int
    } else {
        value
    }
}

/// The elevation of a new sample point at `location`.
///
/// The first point of a field lies within the chaos of zero.  Every other
/// point lies within the reach of its nearest neighbor's elevation, and
/// within the target range.  `draw` picks the elevation from that interval.
pub open spec fn placed_elevation(
    points: Seq<TerrainPoint>,
    location: Point,
    chaos: u32,
    range: ElevationRange,
    draw: u32,
) -> int {
    if points.len() == 0 {
        -chaos + scaled(2 * chaos, draw)
    } else {
        let neighbor = nearest_index(points, location);
        let near = points[neighbor].elevation.meters;
        let reach = reach_of(chaos as int, floor_sqrt(gap_squared(points, neighbor, location)));
        let low = limited_to(range, near - reach);
        let high = limited_to(range, near + reach);
        low + scaled(high - low, draw)
    }
}

/// Chooses the elevation of a new sample point at `location`.
pub fn place(
    points: &Vec<TerrainPoint>,
    location: Point,
    chaos: u32,
    range: ElevationRange,
    draw: u32,
) -> (elevation: Length)
    requires
        points_in_range(points@),
        location.in_range(),
        range.wf(),
    ensures
        elevation.meters == placed_elevation(points@, location, chaos, range, draw),
        -GRADIENT_LIMIT <= elevation.meters <= GRADIENT_LIMIT,
        points.len() > 0 ==> range.min.meters <= elevation.meters <= range.max.meters,
{
    if points.len() == 0 {
        let c: i64 = chaos as i64;
        Length { meters: -c + scale(2 * c, draw) }
    } else {
        let neighbor: usize = nearest(points, location);
        let near: i128 = points[neighbor].elevation.meters as i128;
        let d: i128 = distance(points[neighbor].location.point, location);
        let c: i128 = chaos as i128;
        assert(0 <= c * d <= 4_294_967_296 * 3_000_000_000_000_000) by (nonlinear_arith)
            requires
                0 <= c <= 4_294_967_296,
                0 <= d <= 3_000_000_000_000_000,
        ;
        let reach: i128 = c * d / 1000;
        let low: i64 = limit_to(range, near - reach);
        let high: i64 = limit_to(range, near + reach);
        Length { meters: low + scale(high - low, draw) }
    }
}

/// Limits `value` to the interval of `range`.
fn limit_to(range: ElevationRange, value: i128) -> (limited: i64)
    requires
        range.wf(),
    ensures
        limited == limited_to(range, value as int),
        range.min.meters <= limited <= range.max.meters,
{
    if value < range.min.meters as i128 {
        range.min.meters
    } else if value > range.max.meters as i128 {
        range.max.meters
    } else {
        value as i64
    }
}

/// Whether the field is coherent: every point lies in the bounding square
/// of a body of the given radius, and its elevation is one that
/// `placed_elevation` allows after the points before it.
pub open spec fn is_scattered(
    points: Seq<TerrainPoint>,
    radius: int,
    chaos: u32,
    range: ElevationRange,
) -> bool {
    forall|i: int|
        0 <= i < points.len() ==> {
            &&& -radius <= (#[trigger] points[i]).location.point.x <= radius
            &&& -radius <= points[i].location.point.y <= radius
            &&& exists|draw: u32|
                points[i].elevation.meters == placed_elevation(
                    points.subrange(0, i),
                    points[i].location.point,
                    chaos,
                    range,
                    draw,
                )
        }
}

/// The number of draws that one sample point takes: its two coordinates
/// and the choice of its elevation.
pub const DRAWS_PER_POINT: u64 = 3;

/// The field of `count` sample points that the stream of `seed` gives from
/// draw number `first` on.  Point `j` takes three draws: its two
/// coordinates, anywhere in the bounding square of the body, and the choice
/// of its elevation among those that the points before it allow.
pub open spec fn scattered(
    seed: u64,
    first: u64,
    radius: i64,
    chaos: u32,
    range: ElevationRange,
    count: nat,
) -> Seq<TerrainPoint>
    decreases count,
{
    if count == 0 {
        Seq::empty()
    } else {
        let before = scattered(seed, first, radius, chaos, range, (count - 1) as nat);
        let at = first + DRAWS_PER_POINT * (count - 1);
        let location = Point {
            x: draw_of(seed, at as u64, (-radius) as i64, radius),
            y: draw_of(seed, (at + 1) as u64, (-radius) as i64, radius),
        };
        let elevation = placed_elevation(
            before,
            location,
            chaos,
            range,
            fraction_of(seed, (at + 2) as u64),
        );
        before.push(
            TerrainPoint {
                location: TerrainLocation { point: location },
                elevation: Length { meters: elevation as i64 },
            },
        )
    }
}

/// Grows a field of `count` sample points over the bounding square of a
/// body, each at a random place and with an elevation near that of its
/// nearest neighbor.
pub fn scatter(seed: u64, first: u64, radius: Length, chaos: u32, range: ElevationRange, count: usize)
    -> (points: Vec<TerrainPoint>)
    requires
        0 < radius.meters <= MAX_LENGTH,
        range.wf(),
        first + DRAWS_PER_POINT * count <= MAX_DRAWS,
    ensures
        points@ == scattered(seed, first, radius.meters, chaos, range, count as nat),
        points.len() == count,
        points_in_range(points@),
        is_scattered(points@, radius.meters as int, chaos, range),
{
    let mut points: Vec<TerrainPoint> = Vec::new();
    let mut i: usize = 0;
    while i < count
        invariant
            0 <= i <= count,
            points.len() == i,
            0 < radius.meters <= MAX_LENGTH,
            range.wf(),
            first + DRAWS_PER_POINT * count <= MAX_DRAWS,
            points@ == scattered(seed, first, radius.meters, chaos, range, i as nat),
            points_in_range(points@),
            is_scattered(points@, radius.meters as int, chaos, range),
        decreases count - i,
    {
        let at: u64 = first + DRAWS_PER_POINT * (i as u64);
        let x: i64 = draw_between(seed, at, -radius.meters, radius.meters);
        let y: i64 = draw_between(seed, at + 1, -radius.meters, radius.meters);
        let draw: u32 = draw_fraction(seed, at + 2);
        let location = Point { x, y };
        let elevation: Length = place(&points, location, chaos, range, draw);
        let ghost before = points@;
        points.push(TerrainPoint { location: TerrainLocation { point: location }, elevation });
        proof {
            assert(points@.subrange(0, i as int) =~= before);
            assert forall|k: int| 0 <= k < points@.len() implies {
                &&& -radius.meters <= (#[trigger] points@[k]).location.point.x <= radius.meters
                &&& -radius.meters <= points@[k].location.point.y <= radius.meters
                &&& exists|draw: u32|
                    points@[k].elevation.meters == placed_elevation(
                        points@.subrange(0, k),
                        points@[k].location.point,
                        chaos,
                        range,
                        draw,
                    )
            } by {
                if k < i {
                    assert(points@[k] == before[k]);
                    assert(points@.subrange(0, k) =~= before.subrange(0, k));
                }
            }
        }
        i += 1;
    }
    points
}

} // verus!
