use magrathea::elevation::{
    distance_squared, from_noise, nearest, nearest_three, place, sample, Elevation,
};
use magrathea::gradient::ElevationRange;
use magrathea::terrain_point::{TerrainLocation, TerrainPoint};
use magrathea::types::{Length, Point};

fn point(x: i64, y: i64, meters: i64) -> TerrainPoint {
    TerrainPoint {
        location: TerrainLocation::new(Point::new(x, y)),
        elevation: Length::from_meters(meters),
    }
}

fn range(min: i64, max: i64) -> ElevationRange {
    ElevationRange { min: Length::from_meters(min), max: Length::from_meters(max) }
}

#[test]
fn squares_of_distances() {
    assert_eq!(distance_squared(Point::new(0, 0), Point::new(3, 4)), 25);
    assert_eq!(distance_squared(Point::new(-1, -1), Point::new(-1, -1)), 0);
    assert_eq!(
        distance_squared(
            Point::new(-1_000_000_000_000_000, 1_000_000_000_000_000),
            Point::new(1_000_000_000_000_000, -1_000_000_000_000_000)
        ),
        8_000_000_000_000_000_000_000_000_000_000
    );
}

#[test]
fn nearest_neighbor_is_found() {
    let points = vec![point(10, 0, 1), point(0, 5, 2), point(-3, 0, 3), point(0, -4, 4)];
    assert_eq!(nearest(&points, Point::new(0, 0)), 2);
    assert_eq!(nearest(&points, Point::new(9, 1)), 0);
    assert_eq!(nearest(&points, Point::new(0, -100)), 3);
}

#[test]
fn nearest_neighbor_of_equals_is_the_earliest() {
    let points = vec![point(5, 0, 1), point(0, 5, 2), point(-5, 0, 3), point(0, -5, 4)];
    assert_eq!(nearest(&points, Point::new(0, 0)), 0);
    let twice = vec![point(7, 7, 1), point(1, 1, 2), point(1, 1, 3)];
    assert_eq!(nearest(&twice, Point::new(1, 1)), 1);
}

#[test]
fn three_nearest_neighbors_come_nearest_first() {
    let points = vec![
        point(100, 0, 0),
        point(0, 4, 0),
        point(50, 50, 0),
        point(3, 0, 0),
        point(3, 4, 0),
        point(-60, 0, 0),
    ];
    assert_eq!(nearest_three(&points, Point::new(0, 0)), (3, 1, 4));
    assert_eq!(nearest_three(&points, Point::new(100, 1)), (0, 2, 3));
}

#[test]
fn three_nearest_neighbors_of_equals_come_in_their_order() {
    let points = vec![point(0, 2, 0), point(2, 0, 0), point(0, -2, 0), point(-2, 0, 0)];
    assert_eq!(nearest_three(&points, Point::new(0, 0)), (0, 1, 2));
    let mixed = vec![point(0, 9, 0), point(2, 0, 0), point(0, 1, 0), point(-2, 0, 0), point(0, 2, 0)];
    assert_eq!(nearest_three(&mixed, Point::new(0, 0)), (2, 1, 3));
    let three = vec![point(9, 9, 0), point(1, 1, 0), point(5, 5, 0)];
    assert_eq!(nearest_three(&three, Point::new(0, 0)), (1, 2, 0));
}

#[test]
fn sample_weights_each_elevation_by_its_distance() {
    let points = vec![
        point(3, 0, 100),
        point(0, 4, 200),
        point(3, 4, 300),
        point(1000, 1000, 99_999),
    ];
    // distances 3, 4 and 5: (3 * 100 + 4 * 200 + 5 * 300) / 12
    assert_eq!(sample(&points, Point::new(0, 0)), Elevation(216));
}

#[test]
fn sample_rounds_toward_zero() {
    let points = vec![point(3, 0, -100), point(0, 4, -200), point(3, 4, -300)];
    assert_eq!(sample(&points, Point::new(0, 0)), Elevation(-216));
}

#[test]
fn sample_on_top_of_a_point_leaves_that_point_out() {
    let points = vec![point(0, 0, 5000), point(0, 10, 100), point(10, 0, 300)];
    // distances 0, 10 and 10
    assert_eq!(sample(&points, Point::new(0, 0)), Elevation(200));
}

#[test]
fn sample_where_all_three_points_coincide() {
    let points = vec![point(7, 7, 11), point(7, 7, 22), point(7, 7, 33)];
    assert_eq!(sample(&points, Point::new(7, 7)), Elevation(11));
}

#[test]
fn noise_is_mapped_onto_the_elevations() {
    let low = Length::from_meters(-1000);
    let high = Length::from_meters(1000);
    assert_eq!(from_noise(low, high, -1_000_000), Elevation(-1000));
    assert_eq!(from_noise(low, high, 0), Elevation(0));
    assert_eq!(from_noise(low, high, 1_000_000), Elevation(1000));
    assert_eq!(from_noise(low, high, 500_000), Elevation(500));
    assert_eq!(from_noise(low, high, -999_999), Elevation(-1000));
    assert_eq!(from_noise(low, high, 1), Elevation(0));
    assert_eq!(from_noise(Length::from_meters(10), Length::from_meters(13), 0), Elevation(11));
}

#[test]
fn noise_beyond_one_is_limited() {
    let low = Length::from_meters(-1000);
    let high = Length::from_meters(1000);
    assert_eq!(from_noise(low, high, 1_000_001), Elevation(1000));
    assert_eq!(from_noise(low, high, i32::MAX), Elevation(1000));
    assert_eq!(from_noise(low, high, i32::MIN), Elevation(-1000));
}

#[test]
fn first_point_lies_within_the_chaos() {
    let none: Vec<TerrainPoint> = Vec::new();
    let wide = range(-1_000_000, 1_000_000);
    assert_eq!(place(&none, Point::new(5, 5), 2000, wide, 0).meters, -2000);
    assert_eq!(place(&none, Point::new(5, 5), 2000, wide, 1_000_000).meters, 2000);
    assert_eq!(place(&none, Point::new(5, 5), 2000, wide, 500_000).meters, 0);
    assert_eq!(place(&none, Point::new(5, 5), 2000, wide, 750_000).meters, 1000);
    // the first point is not held to the range
    assert_eq!(place(&none, Point::new(5, 5), 2000, range(-10, 10), 0).meters, -2000);
}

#[test]
fn later_points_lie_within_reach_of_their_neighbor() {
    let points = vec![point(0, 0, 500), point(100_000, 0, -90_000)];
    let wide = range(-1_000_000, 1_000_000);
    // 3000 meters from the first point, with a chaos of 1.5: a reach of 4500
    let at = Point::new(0, 3000);
    assert_eq!(place(&points, at, 1500, wide, 0).meters, -4000);
    assert_eq!(place(&points, at, 1500, wide, 1_000_000).meters, 5000);
    assert_eq!(place(&points, at, 1500, wide, 500_000).meters, 500);
    // nearer to the second point: 5000 meters, a reach of 7500
    let other = Point::new(100_000, -5000);
    assert_eq!(place(&points, other, 1500, wide, 0).meters, -97_500);
    assert_eq!(place(&points, other, 1500, wide, 1_000_000).meters, -82_500);
}

#[test]
fn later_points_lie_within_the_range() {
    let points = vec![point(0, 0, 500)];
    let at = Point::new(0, 3000);
    let narrow = range(0, 1000);
    assert_eq!(place(&points, at, 1500, narrow, 0).meters, 0);
    assert_eq!(place(&points, at, 1500, narrow, 1_000_000).meters, 1000);
    assert_eq!(place(&points, at, 1500, narrow, 250_000).meters, 250);
    // a neighbor far below the range pulls the point to the lower end
    let deep = vec![point(0, 0, -1_000_000)];
    assert_eq!(place(&deep, at, 1500, narrow, 0).meters, 0);
    assert_eq!(place(&deep, at, 1500, narrow, 1_000_000).meters, 0);
}

#[test]
fn coordinates_of_locations_and_elevations() {
    let mut location = TerrainLocation::new(Point::new(3, -4));
    assert_eq!(TerrainLocation::dimensions(), 2);
    assert_eq!(location.nth(0), 3);
    assert_eq!(location.nth(1), -4);
    location.set_nth(1, 9);
    assert_eq!(location.point, Point::new(3, 9));
    location.set_nth(0, -1);
    assert_eq!(location.point, Point::new(-1, 9));
    assert_eq!(TerrainLocation::from_value(6).point, Point::new(6, 6));
    let spot = point(1, 2, 3);
    assert_eq!(spot.position(), TerrainLocation::new(Point::new(1, 2)));
    let mut elevation = Elevation::from_value(12);
    assert_eq!(Elevation::dimensions(), 1);
    assert_eq!(elevation.nth(0), 12);
    assert_eq!(elevation.nth(5), 12);
    elevation.set_nth(0, -7);
    assert_eq!(elevation, Elevation(-7));
}
