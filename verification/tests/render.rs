use magrathea::coloring::{Earthlike, ElevationColor, Sunlike, SurfaceDefinition};
use magrathea::curve::TransferCurve;
use magrathea::disc::{alpha, inside, planet_point, spread};
use magrathea::elevation::{ElevationSource, Strategy};
use magrathea::lighting::Light;
use magrathea::planet::{calculate_origin, GeneratedPlanet, Planet};
use magrathea::raster::Rgba;
use magrathea::terrain::{fold_seed, Terrain};
use magrathea::terrain_point::{TerrainLocation, TerrainPoint};
use magrathea::types::{Angle, Kilometers, Length, Point, Rgb};
use noise::{NoiseFn, Seedable};

fn srgb_curve() -> TransferCurve {
    let table = (0u16..256)
        .map(|level| {
            let color = palette::Srgb::new(level as u8, level as u8, level as u8);
            let linear = color.into_format::<f32>().into_linear();
            (linear.red as f64 * 1_000_000.0).round() as u32
        })
        .collect();
    TransferCurve::new(table).unwrap()
}

fn earth(seed: u128) -> Planet<Earthlike> {
    Planet::new_from_iter(
        seed,
        calculate_origin(Angle::new(-707_104, -707_110), Kilometers::new(150_200_000)),
        Kilometers::new(6371),
        ElevationColor::earthlike(),
    )
}

fn noise_samples<Kind: Copy>(terrain: &Terrain<Kind>, pixels: u32) -> Vec<i32> {
    let seed = match terrain.source {
        ElevationSource::Noise(seed) => seed,
        ElevationSource::Points(_) => panic!("the terrain was asked to be of noise"),
    };
    let field = noise::OpenSimplex::new().set_seed(seed);
    terrain
        .noise_points(pixels)
        .iter()
        .map(|place| {
            let value = field.get([place.x as f64 / 1_000_000.0, place.y as f64 / 1_000_000.0]);
            (value * 1_000_000.0).round() as i32
        })
        .collect()
}

fn pixels_of<Kind>(generated: &GeneratedPlanet<Kind>) -> Vec<Rgba> {
    let side = generated.image.width();
    let mut all = Vec::new();
    for y in 0..side {
        for x in 0..side {
            all.push(generated.image.get_pixel(x, y).unwrap());
        }
    }
    all
}

fn inside_pixels(pixels: u32) -> u32 {
    let mut count = 0;
    let radius = pixels as f64 / 2.0;
    for y in 0..pixels {
        for x in 0..pixels {
            let dx = x as f64 - radius;
            let dy = y as f64 - radius;
            if (dx * dx + dy * dy).sqrt() < radius {
                count += 1;
            }
        }
    }
    count
}

#[test]
fn earth_under_a_white_sun() {
    let seed = uuid::Uuid::nil().as_u128();
    let planet = earth(seed);
    assert!(planet.is_well_formed());
    assert!(planet.is_clear_of_star(64));
    let sun = Some(Light::from_u8(255, 255, 255, 1000));
    let generated = planet.generate(64, &sun, Strategy::Points, &Vec::new(), &srgb_curve());
    assert_eq!(generated.image.width(), 64);
    assert_eq!(pixels_of(&generated).len(), 64 * 64);
    assert_eq!(generated.stats.len(), 7);
    let ocean: u32 = generated
        .stats
        .iter()
        .filter(|entry| entry.kind == Earthlike::DeepOcean || entry.kind == Earthlike::ShallowOcean)
        .map(|entry| entry.count)
        .sum();
    assert!(ocean > 0);
    // the pixel at the center lies inside the body
    assert_eq!(generated.image.get_pixel(32, 32).unwrap().alpha, 255);
}

#[test]
fn earth_of_noise_under_a_white_sun() {
    let planet = earth(uuid::Uuid::nil().as_u128());
    let curve = srgb_curve();
    let terrain = Terrain::generate(&planet, Strategy::Noise, &curve);
    let samples = noise_samples(&terrain, 64);
    assert_eq!(samples.len(), 64 * 64);
    let sun = Some(Light::from_u8(255, 255, 255, 1000));
    let generated = terrain.generate_planet(64, &sun, &samples, &curve);
    assert_eq!(generated.image.width(), 64);
    assert_eq!(generated.stats.len(), 7);
    let total: u32 = generated.stats.iter().map(|entry| entry.count).sum();
    assert_eq!(total, inside_pixels(64));
    let shown = generated.stats.iter().filter(|entry| entry.count > 0).count();
    assert!(shown >= 2);
}

#[test]
fn same_seed_gives_the_same_image() {
    let curve = srgb_curve();
    let sun = Some(Light::default());
    for seed in [0u128, 1, 0xdead_beef, u128::MAX] {
        let first = earth(seed).generate(48, &sun, Strategy::Points, &Vec::new(), &curve);
        let second = earth(seed).generate(48, &sun, Strategy::Points, &Vec::new(), &curve);
        assert_eq!(pixels_of(&first), pixels_of(&second));
        let counts = |generated: &GeneratedPlanet<Earthlike>| -> Vec<(Earthlike, u32)> {
            generated.stats.iter().map(|entry| (entry.kind, entry.count)).collect()
        };
        assert_eq!(counts(&first), counts(&second));
    }
}

#[test]
fn same_seed_gives_the_same_terrain_of_noise() {
    let curve = srgb_curve();
    let planet = earth(99);
    let first = Terrain::generate(&planet, Strategy::Noise, &curve);
    let second = Terrain::generate(&planet, Strategy::Noise, &curve);
    assert_eq!(first.surface_chaos, second.surface_chaos);
    let elevations = |terrain: &Terrain<Earthlike>| -> Vec<(i64, Rgb)> {
        terrain.elevations.iter().map(|anchor| (anchor.elevation.meters, anchor.color)).collect()
    };
    assert_eq!(elevations(&first), elevations(&second));
    let samples = noise_samples(&first, 32);
    assert_eq!(samples, noise_samples(&second, 32));
    let one = first.generate_planet(32, &None, &samples, &curve);
    let other = second.generate_planet(32, &None, &samples, &curve);
    assert_eq!(pixels_of(&one), pixels_of(&other));
}

#[test]
fn other_seeds_give_other_terrains() {
    let curve = srgb_curve();
    let first = Terrain::generate(&earth(1), Strategy::Points, &curve);
    let second = Terrain::generate(&earth(2), Strategy::Points, &curve);
    let points = |terrain: &Terrain<Earthlike>| -> Vec<TerrainPoint> {
        match &terrain.source {
            ElevationSource::Points(points) => points.clone(),
            ElevationSource::Noise(_) => panic!("the terrain was asked to be of points"),
        }
    };
    assert_ne!(points(&first), points(&second));
}

#[test]
fn seed_is_folded_into_one_word() {
    assert_eq!(fold_seed(0), 0);
    assert_eq!(fold_seed(1), 1);
    assert_eq!(fold_seed(1 << 64), 1);
    assert_eq!(fold_seed((1 << 64) | 1), 0);
    assert_eq!(fold_seed(u128::MAX), 0);
    assert_eq!(fold_seed(0x0123_4567_89ab_cdef_0000_0000_0000_00ff), 0x0123_4567_89ab_cd10);
}

#[test]
fn counts_add_up_to_the_pixels_inside_the_disc() {
    let curve = srgb_curve();
    for pixels in [0u32, 1, 2, 3, 7, 16, 33, 64] {
        let generated = earth(5).generate(pixels, &None, Strategy::Points, &Vec::new(), &curve);
        let total: u32 = generated.stats.iter().map(|entry| entry.count).sum();
        assert_eq!(total, inside_pixels(pixels));
        let opaque_or_edge = pixels_of(&generated).iter().filter(|pixel| pixel.alpha > 0).count();
        assert!(opaque_or_edge as u32 <= total);
    }
}

#[test]
fn pixels_outside_the_disc_are_transparent() {
    let curve = srgb_curve();
    let pixels = 40;
    let generated = earth(5).generate(pixels, &Some(Light::default()), Strategy::Points, &Vec::new(), &curve);
    for y in 0..pixels {
        for x in 0..pixels {
            let place = spread(pixels, x, y);
            let pixel = generated.image.get_pixel(x, y).unwrap();
            assert_eq!(pixel.alpha, alpha(pixels, place));
            if !inside(pixels, place) {
                assert_eq!(pixel, Rgba { red: 0, green: 0, blue: 0, alpha: 0 });
            }
        }
    }
    assert_eq!(generated.image.get_pixel(0, 0).unwrap().alpha, 0);
    assert_eq!(generated.image.get_pixel(20, 20).unwrap().alpha, 255);
    // one pixel right of the left edge, on the middle row: half a pixel inside
    assert_eq!(generated.image.get_pixel(1, 20).unwrap().alpha, 255);
    assert_eq!(generated.image.get_pixel(0, 20).unwrap().alpha, 0);
}

#[test]
fn without_a_light_every_pixel_has_a_color_of_the_gradient() {
    let curve = srgb_curve();
    let planet = earth(17);
    let terrain = Terrain::generate(&planet, Strategy::Points, &curve);
    let gradient: Vec<Rgb> = terrain.elevations.iter().map(|anchor| anchor.color).collect();
    let pixels = 32;
    let generated = terrain.generate_planet(pixels, &None, &Vec::new(), &curve);
    let mut seen = 0;
    for pixel in pixels_of(&generated) {
        if pixel.alpha > 0 {
            let color = Rgb { red: pixel.red, green: pixel.green, blue: pixel.blue };
            assert!(gradient.contains(&color));
            seen += 1;
        }
    }
    assert!(seen > 0);
}

#[test]
fn without_a_light_a_point_has_the_color_of_its_anchor() {
    let curve = srgb_curve();
    let planet = earth(17);
    let terrain = Terrain::generate(&planet, Strategy::Noise, &curve);
    for noise in [-1_000_000, -250_000, 0, 123_456, 1_000_000] {
        let place = Point::new(1_000_000, -2_000_000);
        let anchor = terrain.resolve(place, noise);
        let (kind, color) = terrain.extrapolate_point(place, &None, noise, &curve);
        assert_eq!(kind, terrain.elevations[anchor].kind);
        assert_eq!(color, terrain.elevations[anchor].color);
    }
    // the lowest noise resolves to the first anchor, the highest to the last
    let place = Point::new(0, 0);
    assert_eq!(terrain.resolve(place, -1_000_000), 0);
    assert_eq!(terrain.resolve(place, 1_000_000), terrain.elevations.len() - 1);
    assert_eq!(terrain.extrapolate_point(place, &None, -1_000_000, &curve).0, Earthlike::DeepOcean);
    assert_eq!(terrain.extrapolate_point(place, &None, 1_000_000, &curve).0, Earthlike::Snow);
}

#[test]
fn a_light_darkens_the_far_side() {
    let curve = srgb_curve();
    let planet = Planet::new_from_iter(
        3,
        Point::new(-150_000_000_000, 0),
        Kilometers::new(6371),
        ElevationColor::sunlike(),
    );
    let terrain = Terrain::generate(&planet, Strategy::Noise, &curve);
    let sun = Some(Light::default());
    // the star lies to the right of the body: the focus is its right rim
    let near = terrain.extrapolate_point(Point::new(6_371_000, 0), &sun, 0, &curve);
    let far = terrain.extrapolate_point(Point::new(-6_371_000, 0), &sun, 0, &curve);
    let unlit = terrain.extrapolate_point(Point::new(6_371_000, 0), &None, 0, &curve);
    assert_eq!(near.0, far.0);
    assert_eq!(near.1, unlit.1);
    assert_eq!(far.1, Rgb { red: 0, green: 0, blue: 0 });
}

#[test]
fn terrain_is_grown_within_its_limits() {
    let curve = srgb_curve();
    for seed in 0u128..6 {
        let planet = earth(seed);
        let terrain = Terrain::generate(&planet, Strategy::Points, &curve);
        assert_eq!(terrain.origin, planet.origin);
        assert_eq!(terrain.radius, planet.radius);
        assert!(terrain.surface_chaos >= 1000 && terrain.surface_chaos < 7000);
        assert_eq!(terrain.elevations.len(), 21);
        for pair in terrain.elevations.windows(2) {
            assert!(pair[0].elevation.meters < pair[1].elevation.meters);
        }
        assert!(terrain.elevations[0].elevation.meters <= -2_000_000);
        assert!(terrain.elevations[0].elevation.meters >= -3_110_000);
        assert!(terrain.elevations[20].elevation.meters >= 1_700_000);
        assert!(terrain.elevations[20].elevation.meters <= 2_810_000);
        match &terrain.source {
            ElevationSource::Points(points) => {
                assert!(points.len() >= 50 && points.len() <= 1000);
                let low = terrain.elevations[0].elevation.meters;
                let high = terrain.elevations[20].elevation.meters;
                for (i, point) in points.iter().enumerate() {
                    assert!(point.location.point.x.abs() <= 6_371_000);
                    assert!(point.location.point.y.abs() <= 6_371_000);
                    if i == 0 {
                        assert!(point.elevation.meters.abs() <= terrain.surface_chaos as i64);
                    } else {
                        assert!(point.elevation.meters >= low && point.elevation.meters <= high);
                    }
                }
                let first: TerrainLocation = points[0].location;
                assert!(points.iter().any(|point| point.location != first));
            }
            ElevationSource::Noise(_) => panic!("the terrain was asked to be of points"),
        }
    }
}

#[test]
fn terrain_of_a_star() {
    let curve = srgb_curve();
    let star = Planet::new_from_iter(
        8,
        Point::new(0, 0),
        Kilometers::new(696_000),
        ElevationColor::sunlike(),
    );
    let terrain = Terrain::generate(&star, Strategy::Points, &curve);
    assert!(terrain.surface_chaos >= 1000 && terrain.surface_chaos < 20_000);
    assert_eq!(terrain.elevations.len(), 9);
    let generated = terrain.generate_planet(24, &None, &Vec::new(), &curve);
    assert_eq!(generated.stats.len(), 3);
    assert_eq!(generated.stats[0].kind, Sunlike::DeepBase);
    assert_eq!(generated.stats[1].kind, Sunlike::BrightMiddle);
    assert_eq!(generated.stats[2].kind, Sunlike::HotTop);
}

#[test]
fn noise_is_evaluated_at_the_point_over_the_radius_times_the_chaos() {
    let terrain: Terrain<Earthlike> = Terrain {
        surface_chaos: 2500,
        origin: Point::new(0, 0),
        radius: Length::from_meters(1000),
        source: ElevationSource::Noise(1),
        elevations: ElevationColor::earthlike(),
    };
    assert_eq!(terrain.noise_point(Point::new(1000, 0)), Point::new(2_500_000, 0));
    assert_eq!(terrain.noise_point(Point::new(-500, 250)), Point::new(-1_250_000, 625_000));
    assert_eq!(terrain.noise_point(Point::new(1, -1)), Point::new(2_500, -2_500));
    assert_eq!(terrain.noise_point(Point::new(0, 0)), Point::new(0, 0));
    let thirds: Terrain<Earthlike> = Terrain {
        surface_chaos: 1000,
        origin: Point::new(0, 0),
        radius: Length::from_meters(3),
        source: ElevationSource::Noise(1),
        elevations: ElevationColor::earthlike(),
    };
    assert_eq!(thirds.noise_point(Point::new(2, -1)), Point::new(666_666, -333_333));
    let places = thirds.noise_points(2);
    assert_eq!(
        places,
        vec![Point::new(-1_000_000, -1_000_000), Point::new(0, -1_000_000), Point::new(-1_000_000, 0), Point::new(0, 0)]
    );
    assert_eq!(planet_point(Length::from_meters(3), 2, 0, 1), Point::new(-3, 0));
}

#[test]
fn statistics_follow_the_palette() {
    let curve = srgb_curve();
    let generated = earth(21).generate(16, &None, Strategy::Points, &Vec::new(), &curve);
    let kinds: Vec<Earthlike> = generated.stats.iter().map(|entry| entry.kind).collect();
    assert_eq!(
        kinds,
        vec![
            Earthlike::DeepOcean,
            Earthlike::ShallowOcean,
            Earthlike::Beach,
            Earthlike::Grass,
            Earthlike::Forest,
            Earthlike::Mountain,
            Earthlike::Snow,
        ]
    );
}

#[test]
fn planet_of_noise_is_the_image_of_its_terrain() {
    let curve = srgb_curve();
    let planet = earth(uuid::Uuid::nil().as_u128());
    let field = planet.noise_points(32, &curve);
    let terrain = Terrain::generate(&planet, Strategy::Noise, &curve);
    assert_eq!(terrain.noise_seed(), Some(field.seed));
    assert_eq!(field.places, terrain.noise_points(32));
    let noise = noise::OpenSimplex::new().set_seed(field.seed);
    let samples: Vec<i32> = field
        .places
        .iter()
        .map(|place| {
            let value = noise.get([place.x as f64 / 1_000_000.0, place.y as f64 / 1_000_000.0]);
            (value * 1_000_000.0).round() as i32
        })
        .collect();
    let sun = Some(Light::default());
    let whole = planet.generate(32, &sun, Strategy::Noise, &samples, &curve);
    let parts = terrain.generate_planet(32, &sun, &samples, &curve);
    assert_eq!(pixels_of(&whole), pixels_of(&parts));
    let again = planet.generate(32, &sun, Strategy::Noise, &samples, &curve);
    assert_eq!(pixels_of(&whole), pixels_of(&again));
    let total: u32 = whole.stats.iter().map(|entry| entry.count).sum();
    assert_eq!(total, inside_pixels(32));
}

#[test]
fn equal_planets_have_the_same_image() {
    let curve = srgb_curve();
    let one = earth(31);
    let other = Planet::new_from_iter(31, one.origin, one.radius, ElevationColor::earthlike());
    let sun = Some(Light::default());
    let first = one.generate(24, &sun, Strategy::Points, &Vec::new(), &curve);
    let second = other.generate(24, &sun, Strategy::Points, &Vec::new(), &curve);
    assert_eq!(pixels_of(&first), pixels_of(&second));
    for (a, b) in first.stats.iter().zip(second.stats.iter()) {
        assert_eq!((a.kind, a.count), (b.kind, b.count));
    }
}

fn palette_terrain(origin: Point) -> Terrain<Earthlike> {
    Terrain {
        surface_chaos: 1000,
        origin,
        radius: Kilometers::new(6371),
        source: ElevationSource::Noise(1),
        elevations: ElevationColor::earthlike(),
    }
}

#[test]
fn terrain_over_a_palette_resolves_to_the_nearest_anchor() {
    let curve = srgb_curve();
    let terrain = palette_terrain(Point::new(0, 0));
    // the palette runs from -2000 km to 1700 km: the noise 0 stands for -150 km
    let place = Point::new(1000, 1000);
    let found = terrain.extrapolate_point(place, &None, 0, &curve);
    assert_eq!(terrain.elevation_at(place, 0).0, -150_000);
    assert_eq!(found.0, Earthlike::ShallowOcean);
    assert_eq!(found.1, Rgb { red: 98, green: 125, blue: 223 });
    // just below and just above the middle between the shallow ocean and the beach
    assert_eq!(terrain.elevation_at(place, 108_108).0, 49_999);
    assert_eq!(terrain.extrapolate_point(place, &None, 108_108, &curve).0, Earthlike::ShallowOcean);
    assert_eq!(terrain.elevation_at(place, 108_109).0, 50_001);
    assert_eq!(terrain.extrapolate_point(place, &None, 108_109, &curve).0, Earthlike::Beach);
}

#[test]
fn without_a_light_a_point_may_lie_anywhere_and_the_origin_is_not_read() {
    let curve = srgb_curve();
    let near = palette_terrain(Point::new(0, 0));
    let far = palette_terrain(Point::new(-987_654_321, 123_456_789));
    for place in [
        Point::new(0, 0),
        Point::new(6_371_000, -6_371_000),
        Point::new(1_000_000_000_000_000, -1_000_000_000_000_000),
    ] {
        for noise in [-1_000_000, -300_000, 0, 450_000, 1_000_000] {
            let found = near.extrapolate_point(place, &None, noise, &curve);
            let anchor = near.resolve(place, noise);
            assert_eq!(found.0, near.elevations[anchor].kind);
            assert_eq!(found.1, near.elevations[anchor].color);
            assert_eq!(found, far.extrapolate_point(place, &None, noise, &curve));
        }
    }
}

/// The counts that an image should have: for each kind, the number of
/// pixels inside the disc whose point has that kind.
fn counted_by_kind(terrain: &Terrain<Earthlike>, pixels: u32, samples: &[i32]) -> Vec<u32> {
    let curve = srgb_curve();
    let mut counts = vec![0; 7];
    for y in 0..pixels {
        for x in 0..pixels {
            if inside(pixels, spread(pixels, x, y)) {
                let place = planet_point(terrain.radius, pixels, x, y);
                let sample = samples[(y * pixels + x) as usize];
                let (kind, _) = terrain.extrapolate_point(place, &None, sample, &curve);
                counts[kind.index()] += 1;
            }
        }
    }
    counts
}

fn ramp(pixels: u32) -> Vec<i32> {
    let step = 2_000_000 / (pixels * pixels) as i32;
    (0..pixels * pixels).map(|i| i as i32 * step - 1_000_000).collect()
}

#[test]
fn terrain_over_a_palette_counts_by_kind() {
    let curve = srgb_curve();
    let pixels = 20;
    let samples = ramp(pixels);
    let expected = counted_by_kind(&palette_terrain(Point::new(0, 0)), pixels, &samples);
    let generated = palette_terrain(Point::new(0, 0)).generate_planet(pixels, &None, &samples, &curve);
    assert_eq!(generated.stats.len(), 7);
    for (index, entry) in generated.stats.iter().enumerate() {
        assert_eq!(entry.kind, Earthlike::from_index(index));
        assert_eq!(entry.count, expected[index]);
    }
    // the ramp of samples runs through the kinds of the palette
    assert!(generated.stats.iter().filter(|entry| entry.count > 0).count() >= 5);
    let total: u32 = generated.stats.iter().map(|entry| entry.count).sum();
    assert_eq!(total, inside_pixels(pixels));
    for y in 0..pixels {
        for x in 0..pixels {
            let pixel = generated.image.get_pixel(x, y).unwrap();
            if !inside(pixels, spread(pixels, x, y)) {
                assert_eq!(pixel, Rgba { red: 0, green: 0, blue: 0, alpha: 0 });
            }
        }
    }
}

#[test]
fn terrain_of_two_anchors_counts_each_under_its_kind() {
    let curve = srgb_curve();
    let table = vec![
        ElevationColor::from_u8(Earthlike::Beach, 209, 207, 169, Kilometers::new(0)),
        ElevationColor::from_u8(Earthlike::Forest, 47, 106, 42, Kilometers::new(100)),
    ];
    let terrain = |elevations: Vec<ElevationColor<Earthlike>>| Terrain {
        surface_chaos: 1000,
        origin: Point::new(0, 0),
        radius: Kilometers::new(10),
        source: ElevationSource::Noise(1),
        elevations,
    };
    // at 2 pixels one pixel lies inside the disc; the highest noise resolves to the second anchor
    let high = terrain(table.clone()).generate_planet(2, &None, &vec![1_000_000; 4], &curve);
    let counts: Vec<u32> = high.stats.iter().map(|entry| entry.count).collect();
    assert_eq!(counts, vec![0, 0, 0, 0, 1, 0, 0]);
    assert_eq!(high.stats[4].kind, Earthlike::Forest);
    assert_eq!(high.image.get_pixel(1, 1).unwrap(), Rgba { red: 47, green: 106, blue: 42, alpha: 255 });
    let low = terrain(table.clone()).generate_planet(2, &None, &vec![-1_000_000; 4], &curve);
    let counts: Vec<u32> = low.stats.iter().map(|entry| entry.count).collect();
    assert_eq!(counts, vec![0, 0, 1, 0, 0, 0, 0]);
    assert_eq!(low.stats[2].kind, Earthlike::Beach);
    let pixels = 12;
    let samples = ramp(pixels);
    let both = terrain(table.clone()).generate_planet(pixels, &None, &samples, &curve);
    assert_eq!(
        both.stats.iter().map(|entry| entry.count).collect::<Vec<u32>>(),
        counted_by_kind(&terrain(table), pixels, &samples)
    );
    assert!(both.stats[2].count > 0 && both.stats[4].count > 0);
    assert_eq!(both.stats[2].count + both.stats[4].count, inside_pixels(pixels));
}

#[test]
fn anchors_of_one_kind_are_counted_together() {
    let curve = srgb_curve();
    let table = vec![
        ElevationColor::from_u8(Earthlike::Grass, 1, 1, 1, Kilometers::new(0)),
        ElevationColor::from_u8(Earthlike::Snow, 2, 2, 2, Kilometers::new(10)),
        ElevationColor::from_u8(Earthlike::Grass, 3, 3, 3, Kilometers::new(20)),
        ElevationColor::from_u8(Earthlike::Grass, 4, 4, 4, Kilometers::new(30)),
    ];
    let terrain = Terrain {
        surface_chaos: 1000,
        origin: Point::new(0, 0),
        radius: Kilometers::new(10),
        source: ElevationSource::Noise(1),
        elevations: table,
    };
    let pixels = 16;
    let samples = ramp(pixels);
    let expected = counted_by_kind(&terrain, pixels, &samples);
    let generated = terrain.generate_planet(pixels, &None, &samples, &curve);
    let counts: Vec<u32> = generated.stats.iter().map(|entry| entry.count).collect();
    assert_eq!(counts, expected);
    assert!(counts[3] > counts[6] && counts[6] > 0);
    assert_eq!(counts[3] + counts[6], inside_pixels(pixels));
}

#[test]
fn a_light_from_inside_the_square_around_the_body() {
    let curve = srgb_curve();
    // the star beside the body, within the square that bounds it
    let origin = Point::new(6_000_000, -6_000_000);
    let terrain = palette_terrain(origin);
    let samples = vec![0; 16 * 16];
    let generated = terrain.generate_planet(16, &Some(Light::default()), &samples, &curve);
    let total: u32 = generated.stats.iter().map(|entry| entry.count).sum();
    assert_eq!(total, inside_pixels(16));
}
