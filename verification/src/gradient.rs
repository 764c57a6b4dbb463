//! The banded gradient grown from a palette, and the search that resolves an
//! elevation to one of its anchors.

use vstd::prelude::*;
use crate::coloring::{
    ElevationColor, MAX_ANCHORS, is_palette, sorted_by_elevation, strictly_ascending,
};
use crate::curve::{TransferCurve, encode, lemma_encode_decode};
use crate::numeric::larger;
use crate::types::{Length, Rgb, MAX_LENGTH, UNIT};

verus! {

/// The closed interval of elevations that a gradient is to cover.
#[derive(Clone, Copy, Debug, PartialEq, Eq, Structural)]
pub struct ElevationRange {
    pub min: Length,
    pub max: Length,
}

/// The random fractions, in millionths, that shape one band of a gradient.
/// A fraction above one counts as one.
#[derive(Clone, Copy, Debug, PartialEq, Eq, Structural)]
pub struct BandDraw {
    /// How far the band reaches toward the next anchor.
    pub end: u32,
    /// Where between the band's edges its middle anchor lies.
    pub mid: u32,
    /// How much of the shade delta lightens the middle anchor.
    pub shade: u32,
}

/// The amount, in millionths of linear light, by which the two edges of a
/// band are darkened and lightened.
pub const SHADE_DELTA: i64 = 100_000;

/// The share of a palette's span, in hundredths, by which the target range
/// may reach beyond each end of the palette.
pub const RANGE_EXTENSION_PERCENT: i64 = 30;

/// The largest magnitude of an elevation in a gradient.
pub const GRADIENT_LIMIT: i64 = 3 * MAX_LENGTH;

/// A fraction in millionths, limited to one.
pub open spec fn fraction(draw: u32) -> int {
    if draw > UNIT {
        UNIT as int
    } else {
        draw as int
    }
}

/// The part `draw` of a non-negative `span`, rounded down.
pub open spec fn scaled(span: int, draw: u32) -> int {
    span * fraction(draw) / (UNIT as int)
}

/// A scaled part lies between zero and the whole.
pub proof fn lemma_scaled_bounds(span: int, draw: u32)
    requires
        span >= 0,
    ensures
        0 <= scaled(span, draw) <= span,
{
    let f = fraction(draw);
    let u = UNIT as int;
    assert(0 <= span * f <= span * u) by (nonlinear_arith)
        requires
            span >= 0,
            0 <= f <= u,
    ;
    vstd::arithmetic::div_mod::lemma_div_is_ordered(0, span * f, u);
    vstd::arithmetic::div_mod::lemma_div_is_ordered(span * f, span * u, u);
    vstd::arithmetic::div_mod::lemma_div_multiples_vanish(span, u);
    assert(span * u == u * span) by (nonlinear_arith);
    assert(0int / u == 0);
}

/// The part `draw` of `span`, rounded down.
pub fn scale(span: i64, draw: u32) -> (part: i64)
    requires
        0 <= span <= 10 * MAX_LENGTH,
    ensures
        part == scaled(span as int, draw),
        0 <= part <= span,
{
    let f: i128 = if draw > 1_000_000 { 1_000_000 } else { draw as i128 };
    let wide: i128 = span as i128;
    assert(0 <= wide * f <= 10_000_000_000_000_000 * 1_000_000) by (nonlinear_arith)
        requires
            0 <= wide <= 10_000_000_000_000_000,
            0 <= f <= 1_000_000,
    ;
    proof {
        lemma_scaled_bounds(span as int, draw);
    }
    let part: i128 = wide * f / 1_000_000;
    part as i64
}

impl ElevationRange {
    /// Whether the range is ordered and within twice the largest length.
    pub open spec fn wf(self) -> bool {
        -2 * MAX_LENGTH <= self.min.meters <= self.max.meters <= 2 * MAX_LENGTH
    }

    /// Whether the range covers every elevation of `anchors`.
    pub open spec fn covers<Kind>(self, anchors: Seq<ElevationColor<Kind>>) -> bool {
        forall|i: int|
            0 <= i < anchors.len() ==> self.min.meters <= (#[trigger] anchors[i]).elevation.meters
                <= self.max.meters
    }
}

/// The span of a palette stretched at both ends by the part `draw` of the
/// range extension.
pub open spec fn target_range_of<Kind>(anchors: Seq<ElevationColor<Kind>>, draw: u32)
    -> ElevationRange {
    let low = anchors[0].elevation.meters;
    let high = anchors[anchors.len() - 1].elevation.meters;
    let reach = scaled((high - low) * RANGE_EXTENSION_PERCENT / 100, draw);
    ElevationRange {
        min: Length { meters: (low - reach) as i64 },
        max: Length { meters: (high + reach) as i64 },
    }
}

/// The range of elevations that the gradient of a palette covers: the span
/// of the palette, stretched at both ends by the part `draw` of three
/// tenths of that span.
pub fn target_range<Kind>(anchors: &Vec<ElevationColor<Kind>>, draw: u32) -> (range: ElevationRange)
    requires
        is_palette(anchors@),
    ensures
        range == target_range_of(anchors@, draw),
        range.wf(),
        range.covers(anchors@),
        anchors[0].elevation.meters - range.min.meters == range.max.meters - anchors[anchors.len()
            - 1].elevation.meters,
        0 <= range.max.meters - anchors[anchors.len() - 1].elevation.meters <= (anchors[anchors.len()
            - 1].elevation.meters - anchors[0].elevation.meters) * RANGE_EXTENSION_PERCENT / 100,
{
    let low: i64 = anchors[0].elevation.meters;
    let high: i64 = anchors[anchors.len() - 1].elevation.meters;
    let ghost last = anchors.len() - 1;
    assert(anchors@[0].elevation.in_range());
    assert(anchors@[last].elevation.in_range());
    let span: i64 = high - low;
    let most: i64 = span * RANGE_EXTENSION_PERCENT / 100;
    let reach: i64 = scale(most, draw);
    let range = ElevationRange {
        min: Length { meters: low - reach },
        max: Length { meters: high + reach },
    };
    assert forall|i: int| 0 <= i < anchors@.len() implies range.min.meters <= (
    #[trigger] anchors@[i]).elevation.meters <= range.max.meters by {
        assert(anchors@[0].elevation.meters <= anchors@[i].elevation.meters);
        assert(anchors@[i].elevation.meters <= anchors@[last].elevation.meters);
    }
    range
}

/// The elevation at which band `k` of the gradient ends.
///
/// A band starts one meter above the end of the band before it, the first
/// at the lower end of the target range.  It is at least two meters wide,
/// so that its three anchors never fall together.  The last band reaches
/// the upper end of the target range.  Every other band ends between its
/// own anchor and the next one, as far toward the next as the draw says;
/// where the palette leaves a band no room, the band ends two meters above
/// its start and pushes the bands after it upward.
pub open spec fn band_end<Kind>(
    anchors: Seq<ElevationColor<Kind>>,
    range: ElevationRange,
    draws: Seq<BandDraw>,
    k: int,
) -> int
    decreases k,
{
    let start = if k <= 0 {
        range.min.meters as int
    } else {
        band_end(anchors, range, draws, k - 1) + 1
    };
    band_end_from(anchors, range, draws, k, start)
}

/// The end of band `k`, given where it starts.
pub open spec fn band_end_from<Kind>(
    anchors: Seq<ElevationColor<Kind>>,
    range: ElevationRange,
    draws: Seq<BandDraw>,
    k: int,
    start: int,
) -> int {
    if k >= anchors.len() - 1 {
        larger(range.max.meters as int, start + 2)
    } else {
        let low = larger(anchors[k].elevation.meters as int, start + 2);
        let high = larger(anchors[k + 1].elevation.meters as int, low);
        low + scaled(high - low, draws[k].end)
    }
}

/// The elevation at which band `k` of the gradient starts.
pub open spec fn band_start<Kind>(
    anchors: Seq<ElevationColor<Kind>>,
    range: ElevationRange,
    draws: Seq<BandDraw>,
    k: int,
) -> int {
    if k <= 0 {
        range.min.meters as int
    } else {
        band_end(anchors, range, draws, k - 1) + 1
    }
}

/// The elevation of the middle anchor of band `k`: strictly between the
/// band's edges, as far toward the upper edge as the draw says.
pub open spec fn band_mid<Kind>(
    anchors: Seq<ElevationColor<Kind>>,
    range: ElevationRange,
    draws: Seq<BandDraw>,
    k: int,
) -> int {
    let start = band_start(anchors, range, draws, k);
    let end = band_end(anchors, range, draws, k);
    start + 1 + scaled(end - start - 2, draws[k].mid)
}

/// Whether the anchors of a palette lie at least three meters apart, which
/// leaves every band its room.
pub open spec fn is_spaced<Kind>(anchors: Seq<ElevationColor<Kind>>) -> bool {
    forall|i: int, j: int|
        0 <= i < j < anchors.len() ==> anchors[i].elevation.meters + 3 <= anchors[j].elevation.meters
}

/// Over a palette whose anchors lie at least three meters apart, a band
/// that is not the last starts no higher than one meter above its own
/// anchor and ends between its own anchor and the next.
pub proof fn lemma_band_between_anchors<Kind>(
    anchors: Seq<ElevationColor<Kind>>,
    range: ElevationRange,
    draws: Seq<BandDraw>,
    k: int,
)
    requires
        is_spaced(anchors),
        range.min.meters <= anchors[0].elevation.meters,
        0 <= k < anchors.len() - 1,
    ensures
        band_start(anchors, range, draws, k) <= anchors[k].elevation.meters + 1,
        anchors[k].elevation.meters <= band_end(anchors, range, draws, k) <= anchors[k
            + 1].elevation.meters,
    decreases k,
{
    if k > 0 {
        lemma_band_between_anchors(anchors, range, draws, k - 1);
    }
    let start = band_start(anchors, range, draws, k);
    let low = larger(anchors[k].elevation.meters as int, start + 2);
    let high = larger(anchors[k + 1].elevation.meters as int, low);
    assert(anchors[k].elevation.meters + 3 <= anchors[k + 1].elevation.meters);
    lemma_scaled_bounds(high - low, draws[k].end);
}

/// Over a palette whose anchors lie at least three meters apart and above
/// the lower end of the target range, the gradient ends at the upper end
/// of the target range wherever that lies three meters above the last
/// anchor, and in no case more than three meters above the last anchor or
/// the upper end of the range.
pub proof fn lemma_gradient_extent<Kind>(
    anchors: Seq<ElevationColor<Kind>>,
    range: ElevationRange,
    draws: Seq<BandDraw>,
)
    requires
        anchors.len() > 0,
        is_spaced(anchors),
        range.min.meters <= anchors[0].elevation.meters,
    ensures
        ({
            let last = anchors.len() - 1;
            let end = band_end(anchors, range, draws, last);
            &&& range.max.meters <= end <= larger(
                range.max.meters as int,
                anchors[last].elevation.meters + 3,
            )
            &&& range.max.meters >= anchors[last].elevation.meters + 3 ==> end == range.max.meters
        }),
{
    let last = anchors.len() - 1;
    if last > 0 {
        lemma_band_between_anchors(anchors, range, draws, last - 1);
    }
}

/// One color component lightened by `amount` millionths of linear light
/// (darkened where `amount` is negative).
pub open spec fn shaded_level(curve: Seq<u32>, level: u8, amount: int) -> u8 {
    encode(curve, curve[level as int] + amount) as u8
}

/// A color lightened by `amount` millionths of linear light.
pub open spec fn shaded(curve: Seq<u32>, color: Rgb, amount: int) -> Rgb {
    Rgb {
        red: shaded_level(curve, color.red, amount),
        green: shaded_level(curve, color.green, amount),
        blue: shaded_level(curve, color.blue, amount),
    }
}

/// Anchor `i` of the gradient.  Anchors `3k`, `3k + 1` and `3k + 2` belong
/// to band `k` and carry the category of anchor `k` of the palette: the
/// darkened color at the band's start, a color lightened by the drawn part
/// of the shade delta at the band's middle, and the lightened color at the
/// band's end.
pub open spec fn gradient_anchor<Kind>(
    anchors: Seq<ElevationColor<Kind>>,
    range: ElevationRange,
    draws: Seq<BandDraw>,
    curve: Seq<u32>,
    i: int,
) -> ElevationColor<Kind> {
    let k = i / 3;
    let source = anchors[k];
    if i % 3 == 0 {
        ElevationColor {
            kind: source.kind,
            color: shaded(curve, source.color, -SHADE_DELTA),
            elevation: Length { meters: band_start(anchors, range, draws, k) as i64 },
        }
    } else if i % 3 == 1 {
        ElevationColor {
            kind: source.kind,
            color: shaded(curve, source.color, scaled(SHADE_DELTA as int, draws[k].shade)),
            elevation: Length { meters: band_mid(anchors, range, draws, k) as i64 },
        }
    } else {
        ElevationColor {
            kind: source.kind,
            color: shaded(curve, source.color, SHADE_DELTA as int),
            elevation: Length { meters: band_end(anchors, range, draws, k) as i64 },
        }
    }
}

/// The gradient of a palette: three anchors for each anchor of the palette.
pub open spec fn gradient_of<Kind>(
    anchors: Seq<ElevationColor<Kind>>,
    range: ElevationRange,
    draws: Seq<BandDraw>,
    curve: Seq<u32>,
) -> Seq<ElevationColor<Kind>> {
    Seq::new(3 * anchors.len(), |i: int| gradient_anchor(anchors, range, draws, curve, i))
}

/// A table that elevations can be resolved against: at least one anchor,
/// elevations that never fall and stay within the gradient limit.
pub open spec fn is_table<Kind>(table: Seq<ElevationColor<Kind>>) -> bool {
    &&& 0 < table.len() <= 3 * MAX_ANCHORS
    &&& sorted_by_elevation(table)
    &&& forall|i: int|
        0 <= i < table.len() ==> -GRADIENT_LIMIT <= (#[trigger] table[i]).elevation.meters
            <= GRADIENT_LIMIT
}

/// A gradient is a table.
pub proof fn lemma_gradient_is_table<Kind>(gradient: Seq<ElevationColor<Kind>>)
    requires
        is_gradient(gradient),
    ensures
        is_table(gradient),
{
    assert forall|i: int, j: int| 0 <= i <= j < gradient.len() implies gradient[i].elevation.meters
        <= gradient[j].elevation.meters by {
        if i < j {
            assert(gradient[i].elevation.meters < gradient[j].elevation.meters);
        }
    }
}

/// A gradient: a positive multiple of three anchors whose elevations rise
/// strictly and stay within the gradient limit.
pub open spec fn is_gradient<Kind>(gradient: Seq<ElevationColor<Kind>>) -> bool {
    &&& 0 < gradient.len() <= 3 * MAX_ANCHORS
    &&& gradient.len() % 3 == 0
    &&& strictly_ascending(gradient)
    &&& forall|i: int|
        0 <= i < gradient.len() ==> -GRADIENT_LIMIT <= (#[trigger] gradient[i]).elevation.meters
            <= GRADIENT_LIMIT
}

/// Lightens one color component by `amount` millionths of linear light.
fn shade_level(curve: &TransferCurve, level: u8, amount: i64) -> (r: u8)
    requires
        curve.wf(),
        -UNIT <= amount <= UNIT,
    ensures
        r == shaded_level(curve@, level, amount as int),
        amount == 0 ==> r == level,
{
    proof {
        lemma_encode_decode(curve@, level as int);
    }
    let linear: u32 = curve.to_linear(level);
    curve.from_linear(linear as i64 + amount)
}

/// Lightens a color by `amount` millionths of linear light.  An amount of
/// nothing leaves the color as it is.
pub fn shade(curve: &TransferCurve, color: Rgb, amount: i64) -> (r: Rgb)
    requires
        curve.wf(),
        -UNIT <= amount <= UNIT,
    ensures
        r == shaded(curve@, color, amount as int),
        amount == 0 ==> r == color,
{
    Rgb {
        red: shade_level(curve, color.red, amount),
        green: shade_level(curve, color.green, amount),
        blue: shade_level(curve, color.blue, amount),
    }
}

/// Grows the gradient of a palette.
///
/// Each anchor of the palette becomes a band of three anchors that carry its
/// category; the bands follow one another over the target range without
/// touching, so the elevations of the result rise strictly.
pub fn expand<Kind: Copy>(
    anchors: &Vec<ElevationColor<Kind>>,
    target_range: ElevationRange,
    draws: &Vec<BandDraw>,
    curve: &TransferCurve,
) -> (gradient: Vec<ElevationColor<Kind>>)
    requires
        is_palette(anchors@),
        target_range.wf(),
        draws.len() == anchors.len(),
        curve.wf(),
    ensures
        gradient@ == gradient_of(anchors@, target_range, draws@, curve@),
        gradient.len() == 3 * anchors.len(),
        strictly_ascending(gradient@),
        is_gradient(gradient@),
        forall|i: int| 0 <= i < gradient.len() ==> (#[trigger] gradient[i]).kind == anchors[i / 3].kind,
        gradient[0].elevation == target_range.min,
        gradient[gradient.len() - 1].elevation.meters >= target_range.max.meters,
{
    let n: usize = anchors.len();
    let mut gradient: Vec<ElevationColor<Kind>> = Vec::new();
    let mut start: i64 = target_range.min.meters;
    let mut k: usize = 0;
    while k < n
        invariant
            0 <= k <= n,
            n == anchors.len(),
            n == draws.len(),
            is_palette(anchors@),
            target_range.wf(),
            curve.wf(),
            gradient.len() == 3 * k,
            start == band_start(anchors@, target_range, draws@, k as int),
            -2 * MAX_LENGTH <= start <= 2 * MAX_LENGTH + 3 * k,
            forall|i: int|
                0 <= i < gradient.len() ==> gradient[i] == gradient_anchor(
                    anchors@,
                    target_range,
                    draws@,
                    curve@,
                    i,
                ),
            forall|i: int|
                0 <= i < gradient.len() ==> -GRADIENT_LIMIT <= (
                #[trigger] gradient[i]).elevation.meters < start,
            strictly_ascending(gradient@),
            k > 0 ==> gradient[0].elevation == target_range.min,
            k == n ==> start > target_range.max.meters,
        decreases n - k,
    {
        let source: ElevationColor<Kind> = anchors[k];
        assert(anchors@[k as int].elevation.in_range());
        let end: i64 = if k == n - 1 {
            if target_range.max.meters >= start + 2 {
                target_range.max.meters
            } else {
                start + 2
            }
        } else {
            assert(anchors@[k + 1].elevation.in_range());
            let own: i64 = source.elevation.meters;
            let next: i64 = anchors[k + 1].elevation.meters;
            let low: i64 = if own >= start + 2 { own } else { start + 2 };
            let high: i64 = if next >= low { next } else { low };
            low + scale(high - low, draws[k].end)
        };
        assert(end == band_end(anchors@, target_range, draws@, k as int));
        let mid: i64 = start + 1 + scale(end - start - 2, draws[k].mid);
        let lift: i64 = scale(SHADE_DELTA, draws[k].shade);
        let ghost before = gradient@;
        gradient.push(
            ElevationColor {
                kind: source.kind,
                color: shade(curve, source.color, -SHADE_DELTA),
                elevation: Length { meters: start },
            },
        );
        gradient.push(
            ElevationColor {
                kind: source.kind,
                color: shade(curve, source.color, lift),
                elevation: Length { meters: mid },
            },
        );
        gradient.push(
            ElevationColor {
                kind: source.kind,
                color: shade(curve, source.color, SHADE_DELTA),
                elevation: Length { meters: end },
            },
        );
        proof {
            let base = 3 * k as int;
            assert(gradient@[base] == gradient_anchor(anchors@, target_range, draws@, curve@, base));
            assert(gradient@[base + 1] == gradient_anchor(
                anchors@,
                target_range,
                draws@,
                curve@,
                base + 1,
            ));
            assert(gradient@[base + 2] == gradient_anchor(
                anchors@,
                target_range,
                draws@,
                curve@,
                base + 2,
            ));
            assert forall|i: int| 0 <= i < gradient.len() implies gradient[i] == gradient_anchor(
                anchors@,
                target_range,
                draws@,
                curve@,
                i,
            ) by {
                if i < base {
                    assert(gradient@[i] == before[i]);
                }
            }
            assert forall|i: int, j: int| 0 <= i < j < gradient.len() implies gradient@[i].elevation.meters
                < gradient@[j].elevation.meters by {
                if i < base {
                    assert(gradient@[i] == before[i]);
                }
                if j < base {
                    assert(gradient@[j] == before[j]);
                }
            }
            assert forall|i: int| 0 <= i < gradient.len() implies -GRADIENT_LIMIT <= (
            #[trigger] gradient[i]).elevation.meters < end + 1 by {
                if i < base {
                    assert(gradient@[i] == before[i]);
                }
            }
        }
        start = end + 1;
        k += 1;
    }
    proof {
        assert(gradient@ =~= gradient_of(anchors@, target_range, draws@, curve@));
        assert forall|i: int| 0 <= i < gradient.len() implies (#[trigger] gradient[i]).kind
            == anchors[i / 3].kind by {
            assert(gradient[i] == gradient_anchor(anchors@, target_range, draws@, curve@, i));
        }
    }
    gradient
}

/// How far anchor `i` lies from `elevation`.
pub open spec fn gap<Kind>(anchors: Seq<ElevationColor<Kind>>, i: int, elevation: int) -> int {
    let d = anchors[i].elevation.meters - elevation;
    if d < 0 {
        -d
    } else {
        d
    }
}

/// Whether `index` is the anchor that `elevation` resolves to: no anchor lies
/// nearer to the elevation, and every anchor before it lies farther away.
/// Of two anchors that are equally near, the lower one is chosen.
pub open spec fn is_closest<Kind>(anchors: Seq<ElevationColor<Kind>>, elevation: int, index: int)
    -> bool {
    &&& 0 <= index < anchors.len()
    &&& forall|j: int|
        0 <= j < anchors.len() ==> gap(anchors, index, elevation) <= #[trigger] gap(
            anchors,
            j,
            elevation,
        )
    &&& forall|j: int|
        0 <= j < index ==> gap(anchors, index, elevation) < #[trigger] gap(anchors, j, elevation)
}

/// The index of the anchor that `elevation` resolves to.
pub open spec fn closest_index<Kind>(anchors: Seq<ElevationColor<Kind>>, elevation: int) -> int {
    choose|index: int| is_closest(anchors, elevation, index)
}

/// An elevation resolves to one anchor only.
pub proof fn lemma_closest_unique<Kind>(
    anchors: Seq<ElevationColor<Kind>>,
    elevation: int,
    a: int,
    b: int,
)
    requires
        is_closest(anchors, elevation, a),
        is_closest(anchors, elevation, b),
    ensures
        a == b,
{
    if a < b {
        assert(gap(anchors, b, elevation) < gap(anchors, a, elevation));
        assert(gap(anchors, a, elevation) <= gap(anchors, b, elevation));
    } else if b < a {
        assert(gap(anchors, a, elevation) < gap(anchors, b, elevation));
        assert(gap(anchors, b, elevation) <= gap(anchors, a, elevation));
    }
}

/// The number of anchors that lie below `elevation`.
fn first_at_least<Kind>(anchors: &Vec<ElevationColor<Kind>>, elevation: i64) -> (index: usize)
    requires
        sorted_by_elevation(anchors@),
    ensures
        index <= anchors.len(),
        forall|j: int| 0 <= j < index ==> (#[trigger] anchors[j]).elevation.meters < elevation,
        forall|j: int|
            index <= j < anchors.len() ==> (#[trigger] anchors[j]).elevation.meters >= elevation,
{
    let mut low: usize = 0;
    let mut high: usize = anchors.len();
    while low < high
        invariant
            0 <= low <= high <= anchors.len(),
            sorted_by_elevation(anchors@),
            forall|j: int| 0 <= j < low ==> (#[trigger] anchors[j]).elevation.meters < elevation,
            forall|j: int|
                high <= j < anchors.len() ==> (#[trigger] anchors[j]).elevation.meters >= elevation,
        decreases high - low,
    {
        let mid: usize = low + (high - low) / 2;
        if anchors[mid].elevation.meters < elevation {
            assert forall|j: int| 0 <= j < mid + 1 implies (#[trigger] anchors[j]).elevation.meters
                < elevation by {
                assert(anchors@[j].elevation.meters <= anchors@[mid as int].elevation.meters);
            }
            low = mid + 1;
        } else {
            assert forall|j: int| mid <= j < anchors.len() implies (
            #[trigger] anchors[j]).elevation.meters >= elevation by {
                assert(anchors@[mid as int].elevation.meters <= anchors@[j].elevation.meters);
            }
            high = mid;
        }
    }
    low
}

/// Resolves an elevation to an anchor: the nearest one, and of two that are
/// equally near the lower.  An elevation below the first anchor resolves to
/// the first and one above the last to the last.
pub fn closest_elevation<Kind>(anchors: &Vec<ElevationColor<Kind>>, elevation: i64) -> (index:
    usize)
    requires
        anchors.len() > 0,
        sorted_by_elevation(anchors@),
    ensures
        is_closest(anchors@, elevation as int, index as int),
        index == closest_index(anchors@, elevation as int),
{
    let n: usize = anchors.len();
    let above: usize = first_at_least(anchors, elevation);
    let nearest: usize = if above == 0 {
        0
    } else if above == n {
        n - 1
    } else {
        let up: i128 = anchors[above].elevation.meters as i128 - elevation as i128;
        let down: i128 = elevation as i128 - anchors[above - 1].elevation.meters as i128;
        if up < down {
            above
        } else {
            above - 1
        }
    };
    let index: usize = first_at_least(anchors, anchors[nearest].elevation.meters);
    proof {
        let e = elevation as int;
        assert(index <= nearest);
        assert(anchors@[index as int].elevation.meters <= anchors@[nearest as int].elevation.meters);
        assert(anchors@[index as int].elevation.meters == anchors@[nearest as int].elevation.meters);
        assert forall|j: int| 0 <= j < anchors@.len() implies gap(anchors@, index as int, e)
            <= #[trigger] gap(anchors@, j, e) by {
            if j < above {
                if above > 0 {
                    assert(anchors@[j].elevation.meters <= anchors@[above - 1].elevation.meters);
                }
            } else {
                if above < n {
                    assert(anchors@[above as int].elevation.meters <= anchors@[j].elevation.meters);
                }
            }
        }
        assert forall|j: int| 0 <= j < index implies gap(anchors@, index as int, e) < #[trigger] gap(
            anchors@,
            j,
            e,
        ) by {
            assert(anchors@[j].elevation.meters < anchors@[nearest as int].elevation.meters);
            if above > 0 {
                assert(j < above ==> anchors@[j].elevation.meters <= anchors@[above
                    - 1].elevation.meters);
            }
        }
        assert(is_closest(anchors@, e, index as int));
        lemma_closest_unique(anchors@, e, index as int, closest_index(anchors@, e));
    }
    index
}

} // verus!
