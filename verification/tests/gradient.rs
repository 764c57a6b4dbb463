use magrathea::coloring::{Earthlike, ElevationColor, Sunlike};
use magrathea::curve::TransferCurve;
use magrathea::gradient::{
    closest_elevation, expand, scale, shade, target_range, BandDraw, ElevationRange,
};
use magrathea::types::{Kilometers, Length, Rgb};

fn linear_curve() -> TransferCurve {
    TransferCurve::new((0u64..256).map(|level| (level * 1_000_000 / 255) as u32).collect()).unwrap()
}

fn draws(count: usize, end: u32, mid: u32, shade: u32) -> Vec<BandDraw> {
    (0..count).map(|_| BandDraw { end, mid, shade }).collect()
}

fn anchor(meters: i64) -> ElevationColor<Earthlike> {
    ElevationColor::from_u8(Earthlike::Grass, 10, 20, 30, Length::from_meters(meters))
}

#[test]
fn parts_of_a_span() {
    assert_eq!(scale(1000, 0), 0);
    assert_eq!(scale(1000, 500_000), 500);
    assert_eq!(scale(1000, 1_000_000), 1000);
    assert_eq!(scale(1000, 4_000_000_000), 1000);
    assert_eq!(scale(3, 333_333), 0);
    assert_eq!(scale(3, 333_334), 1);
    assert_eq!(scale(0, 777), 0);
}

#[test]
fn target_range_reaches_beyond_the_palette() {
    let palette = ElevationColor::earthlike();
    let none = target_range(&palette, 0);
    assert_eq!(none.min.meters, -2_000_000);
    assert_eq!(none.max.meters, 1_700_000);
    let full = target_range(&palette, 1_000_000);
    assert_eq!(full.min.meters, -3_110_000);
    assert_eq!(full.max.meters, 2_810_000);
    let half = target_range(&palette, 500_000);
    assert_eq!(half.min.meters, -2_555_000);
    assert_eq!(half.max.meters, 2_255_000);
}

#[test]
fn target_range_of_one_anchor_is_that_anchor() {
    let palette = vec![anchor(42)];
    let range = target_range(&palette, 1_000_000);
    assert_eq!(range.min.meters, 42);
    assert_eq!(range.max.meters, 42);
}

#[test]
fn gradient_has_three_anchors_for_each_of_the_palette() {
    let curve = linear_curve();
    for count in 1usize..=7 {
        let palette: Vec<ElevationColor<Earthlike>> =
            ElevationColor::earthlike().into_iter().take(count).collect();
        let range = target_range(&palette, 250_000);
        let gradient = expand(&palette, range, &draws(count, 300_000, 600_000, 900_000), &curve);
        assert_eq!(gradient.len(), 3 * count);
    }
    let sun = ElevationColor::sunlike();
    let range = target_range(&sun, 1_000_000);
    assert_eq!(expand(&sun, range, &draws(3, 1, 2, 3), &curve).len(), 9);
}

#[test]
fn gradient_rises_strictly() {
    let curve = linear_curve();
    let palette = ElevationColor::earthlike();
    for (end, mid) in [(0, 0), (1_000_000, 1_000_000), (0, 1_000_000), (1_000_000, 0), (123_456, 654_321)] {
        for range_draw in [0, 400_000, 1_000_000] {
            let range = target_range(&palette, range_draw);
            let gradient = expand(&palette, range, &draws(7, end, mid, 0), &curve);
            for pair in gradient.windows(2) {
                assert!(pair[0].elevation.meters < pair[1].elevation.meters);
            }
        }
    }
}

#[test]
fn gradient_rises_strictly_where_anchors_coincide() {
    let curve = linear_curve();
    let palette = vec![anchor(5), anchor(5), anchor(5), anchor(6)];
    let range = target_range(&palette, 0);
    for draw in [0, 500_000, 1_000_000] {
        let gradient = expand(&palette, range, &draws(4, draw, draw, draw), &curve);
        assert_eq!(gradient.len(), 12);
        for pair in gradient.windows(2) {
            assert!(pair[0].elevation.meters < pair[1].elevation.meters);
        }
        assert_eq!(gradient[0].elevation.meters, 5);
    }
}

#[test]
fn gradient_carries_the_categories_of_the_palette() {
    let curve = linear_curve();
    let palette = ElevationColor::earthlike();
    let range = target_range(&palette, 700_000);
    let gradient = expand(&palette, range, &draws(7, 500_000, 500_000, 500_000), &curve);
    for (i, anchor) in gradient.iter().enumerate() {
        assert_eq!(anchor.kind, palette[i / 3].kind);
    }
}

#[test]
fn gradient_bands_with_the_lowest_draws() {
    let curve = linear_curve();
    let palette = ElevationColor::sunlike();
    let range = target_range(&palette, 0);
    let gradient = expand(&palette, range, &draws(3, 0, 0, 0), &curve);
    let elevations: Vec<i64> = gradient.iter().map(|anchor| anchor.elevation.meters).collect();
    assert_eq!(
        elevations,
        vec![
            -200_000, -199_999, -199_998,
            -199_997, -199_996, -180_000,
            -179_999, -179_998, 200_000,
        ]
    );
}

#[test]
fn gradient_bands_with_the_highest_draws() {
    let curve = linear_curve();
    let palette = ElevationColor::sunlike();
    let range = target_range(&palette, 1_000_000);
    assert_eq!(range.min.meters, -320_000);
    assert_eq!(range.max.meters, 320_000);
    let gradient =
        expand(&palette, range, &draws(3, 1_000_000, 1_000_000, 1_000_000), &curve);
    let elevations: Vec<i64> = gradient.iter().map(|anchor| anchor.elevation.meters).collect();
    assert_eq!(
        elevations,
        vec![
            -320_000, -180_001, -180_000,
            -179_999, 199_999, 200_000,
            200_001, 319_999, 320_000,
        ]
    );
}

#[test]
fn gradient_bands_with_draws_in_the_middle() {
    let curve = linear_curve();
    let palette = ElevationColor::sunlike();
    let range = ElevationRange { min: Kilometers::new(-300), max: Kilometers::new(250) };
    let gradient = expand(&palette, range, &draws(3, 500_000, 250_000, 0), &curve);
    let elevations: Vec<i64> = gradient.iter().map(|anchor| anchor.elevation.meters).collect();
    // first band: from -300000 to the middle between -200000 and -180000
    // second band: from one above to the middle between -180000 and 200000
    // third band: from one above to the upper end of the range
    assert_eq!(
        elevations,
        vec![
            -300_000, -300_000 + 1 + (110_000 - 2) / 4, -190_000,
            -189_999, -189_999 + 1 + (199_999 - 2) / 4, 10_000,
            10_001, 10_001 + 1 + (239_999 - 2) / 4, 250_000,
        ]
    );
}

#[test]
fn gradient_shades_darken_and_lighten() {
    let curve = linear_curve();
    let palette = vec![ElevationColor::from_u8(Sunlike::HotTop, 0, 128, 255, Kilometers::new(1))];
    let range = ElevationRange { min: Kilometers::new(0), max: Kilometers::new(2) };
    let gradient = expand(&palette, range, &draws(1, 0, 0, 500_000), &curve);
    // level 128 is 501960 millionths; a tenth less is 401960, a tenth more 601960
    assert_eq!(gradient[0].color, Rgb { red: 0, green: 102, blue: 229 });
    assert_eq!(gradient[1].color, Rgb { red: 12, green: 140, blue: 255 });
    assert_eq!(gradient[2].color, Rgb { red: 25, green: 153, blue: 255 });
}

#[test]
fn shading_by_nothing_keeps_the_color() {
    let curve = linear_curve();
    let color = Rgb { red: 19, green: 30, blue: 180 };
    assert_eq!(shade(&curve, color, 0), color);
}

#[test]
fn elevations_resolve_to_the_nearest_anchor() {
    let anchors = vec![anchor(-100), anchor(0), anchor(100), anchor(1000)];
    assert_eq!(closest_elevation(&anchors, -100), 0);
    assert_eq!(closest_elevation(&anchors, 0), 1);
    assert_eq!(closest_elevation(&anchors, 1000), 3);
    assert_eq!(closest_elevation(&anchors, -51), 0);
    assert_eq!(closest_elevation(&anchors, -49), 1);
    assert_eq!(closest_elevation(&anchors, 549), 2);
    assert_eq!(closest_elevation(&anchors, 551), 3);
}

#[test]
fn elevations_between_two_anchors_resolve_to_the_lower() {
    let anchors = vec![anchor(-100), anchor(0), anchor(100), anchor(1000)];
    assert_eq!(closest_elevation(&anchors, -50), 0);
    assert_eq!(closest_elevation(&anchors, 50), 1);
    assert_eq!(closest_elevation(&anchors, 550), 2);
}

#[test]
fn elevations_beyond_the_anchors_resolve_to_the_ends() {
    let anchors = vec![anchor(-100), anchor(0), anchor(100), anchor(1000)];
    assert_eq!(closest_elevation(&anchors, -101), 0);
    assert_eq!(closest_elevation(&anchors, i64::MIN), 0);
    assert_eq!(closest_elevation(&anchors, 1001), 3);
    assert_eq!(closest_elevation(&anchors, i64::MAX), 3);
    assert_eq!(closest_elevation(&vec![anchor(7)], 0), 0);
}

#[test]
fn elevations_resolve_to_the_first_of_equal_anchors() {
    let anchors = vec![anchor(0), anchor(5), anchor(5), anchor(5), anchor(9)];
    assert_eq!(closest_elevation(&anchors, 5), 1);
    assert_eq!(closest_elevation(&anchors, 6), 1);
    assert_eq!(closest_elevation(&anchors, 4), 1);
    assert_eq!(closest_elevation(&anchors, 100), 4);
    let top = vec![anchor(0), anchor(5), anchor(5)];
    assert_eq!(closest_elevation(&top, 100), 1);
}
