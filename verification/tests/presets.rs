use magrathea::coloring::{Earthlike, ElevationColor, Sunlike, SurfaceDefinition};
use magrathea::types::{Kilometers, Rgb};

#[test]
fn earthlike_first_and_last_anchor() {
    let palette = ElevationColor::earthlike();
    assert_eq!(palette.len(), 7);
    let first = &palette[0];
    assert_eq!(first.kind, Earthlike::DeepOcean);
    assert_eq!(first.color, Rgb { red: 19, green: 30, blue: 180 });
    assert_eq!(first.elevation.meters, -2_000_000);
    let last = &palette[6];
    assert_eq!(last.kind, Earthlike::Snow);
    assert_eq!(last.color, Rgb { red: 238, green: 246, blue: 245 });
    assert_eq!(last.elevation.meters, 1_700_000);
}

#[test]
fn earthlike_is_listed_in_rising_order() {
    let palette = ElevationColor::earthlike();
    let kinds: Vec<Earthlike> = palette.iter().map(|anchor| anchor.kind).collect();
    assert_eq!(
        kinds,
        vec![
            Earthlike::DeepOcean,
            Earthlike::ShallowOcean,
            Earthlike::Beach,
            Earthlike::Grass,
            Earthlike::Forest,
            Earthlike::Mountain,
            Earthlike::Snow,
        ]
    );
    for pair in palette.windows(2) {
        assert!(pair[0].elevation.meters < pair[1].elevation.meters);
    }
}

#[test]
fn sunlike_anchors() {
    let palette = ElevationColor::sunlike();
    assert_eq!(palette.len(), 3);
    assert_eq!(palette[0].kind, Sunlike::DeepBase);
    assert_eq!(palette[0].color, Rgb { red: 189, green: 31, blue: 10 });
    assert_eq!(palette[0].elevation.meters, -200_000);
    assert_eq!(palette[1].kind, Sunlike::BrightMiddle);
    assert_eq!(palette[1].elevation.meters, -180_000);
    assert_eq!(palette[2].kind, Sunlike::HotTop);
    assert_eq!(palette[2].color, Rgb { red: 255, green: 218, blue: 41 });
    assert_eq!(palette[2].elevation.meters, 200_000);
}

#[test]
fn chaos_limits_of_the_presets() {
    assert_eq!(Earthlike::max_chaos(), 7000);
    assert_eq!(Sunlike::max_chaos(), 20000);
}

#[test]
fn kilometers_are_counted_in_meters() {
    assert_eq!(Kilometers::new(6371).meters, 6_371_000);
    assert_eq!(Kilometers::new(-2000).meters, -2_000_000);
    assert_eq!(Kilometers::new(0).meters, 0);
}

#[test]
fn anchors_compare_by_elevation_only() {
    let a = ElevationColor::from_u8(Earthlike::Beach, 1, 2, 3, Kilometers::new(5));
    let b = ElevationColor::from_u8(Earthlike::Snow, 9, 9, 9, Kilometers::new(5));
    let c = ElevationColor::from_u8(Earthlike::Beach, 1, 2, 3, Kilometers::new(6));
    assert!(a == b);
    assert!(a != c);
}

#[test]
fn kinds_are_numbered_in_their_order() {
    assert_eq!(Earthlike::kind_count(), 7);
    assert_eq!(Sunlike::kind_count(), 3);
    let earth = [
        Earthlike::DeepOcean,
        Earthlike::ShallowOcean,
        Earthlike::Beach,
        Earthlike::Grass,
        Earthlike::Forest,
        Earthlike::Mountain,
        Earthlike::Snow,
    ];
    for (index, kind) in earth.iter().enumerate() {
        assert_eq!(kind.index(), index);
        assert_eq!(Earthlike::from_index(index), *kind);
    }
    let sun = [Sunlike::DeepBase, Sunlike::BrightMiddle, Sunlike::HotTop];
    for (index, kind) in sun.iter().enumerate() {
        assert_eq!(kind.index(), index);
        assert_eq!(Sunlike::from_index(index), *kind);
    }
}
