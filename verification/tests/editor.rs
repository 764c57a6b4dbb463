use magrathea::cli::args::{ConfigError, Edit, NewPlanetOptions, PlanetCommand};
use magrathea::curve::TransferCurve;
use magrathea::elevation::Strategy;
use magrathea::editor::window::{
    EditorCommand, EditorMessage, EditorWindow, EventStatus, Throttle, WindowPosition,
    REGENERATE_DELAY,
};
use magrathea::lighting::Light;
use magrathea::types::{Angle, Point};

fn linear_curve() -> TransferCurve {
    TransferCurve::new((0u64..256).map(|level| (level * 1_000_000 / 255) as u32).collect()).unwrap()
}

fn window(distance: i32, resolution: u32) -> EditorWindow {
    let options = Edit {
        resolution: Some(resolution),
        command: Some(PlanetCommand::New(NewPlanetOptions {
            distance: Some(distance),
            angle: Some(Angle::new(600_000, 800_000)),
            radius: Some(1),
        })),
        sun_color: Some("FFFFFF".to_string()),
        sols: None,
    };
    EditorWindow::new(options, 77).unwrap()
}

fn at(x: i32, y: i32) -> WindowPosition {
    WindowPosition { x, y }
}

#[test]
fn editor_of_no_options() {
    let editor = EditorWindow::new(Edit::default(), 11).unwrap();
    assert_eq!(editor.resolution, 128);
    assert_eq!(editor.light, None);
    assert_eq!(editor.planet.seed, 11);
    assert_eq!(editor.planet.radius.meters, 6_371_000);
}

#[test]
fn editor_of_given_options() {
    let editor = window(10, 32);
    assert_eq!(editor.resolution, 32);
    assert_eq!(editor.light, Some(Light::default()));
    assert_eq!(editor.planet.origin, Point::new(-6000, -8000));
    assert_eq!(editor.planet.radius.meters, 1000);
}

#[test]
fn editor_refuses_bad_options() {
    let mut bad = Edit::default();
    bad.sun_color = Some("xyz".to_string());
    assert_eq!(EditorWindow::new(bad, 1).err(), Some(ConfigError::MalformedColor));
}

#[test]
fn title_of_the_window() {
    assert_eq!(EditorWindow::window_title(), "Magrathea");
}

#[test]
fn click_moves_the_planet_along_its_orbit() {
    let mut editor = window(10, 32);
    // the planet orbits at 10000 m; a click to the right of the middle
    let command = editor.set_origin(at(500, 300), at(400, 300));
    assert_eq!(command, EditorCommand::RegenerateImage);
    assert_eq!(editor.planet.origin, Point::new(-10_000, 0));
    editor.set_origin(at(400, 0), at(400, 300));
    assert_eq!(editor.planet.origin, Point::new(0, 10_000));
    editor.set_origin(at(370, 260), at(400, 300));
    assert_eq!(editor.planet.origin, Point::new(6000, 8000));
    assert_eq!(editor.planet.seed, 77);
    assert_eq!(editor.resolution, 32);
}

#[test]
fn click_in_the_middle_points_along_the_x_axis() {
    let mut editor = window(10, 32);
    editor.set_origin(at(400, 300), at(400, 300));
    assert_eq!(editor.planet.origin, Point::new(-10_000, 0));
}

#[test]
fn clicks_never_widen_the_orbit() {
    let mut editor = window(10, 32);
    let middle = at(0, 0);
    for (x, y) in [(1, 1), (-7, 3), (2, -9), (1000, 999), (-1, -1), (5, 7), (-3, 11)] {
        editor.set_origin(at(x, y), middle);
        let origin = editor.planet.origin;
        let squared = origin.x * origin.x + origin.y * origin.y;
        assert!(squared <= 100_000_000);
    }
    let origin = editor.planet.origin;
    assert!(origin.x * origin.x + origin.y * origin.y > 99_000_000);
}

#[test]
fn new_seed_replaces_the_seed() {
    let mut editor = window(10, 32);
    let before = editor.planet.origin;
    let command = editor.receive_message(EditorMessage::NewSeed, 123_456);
    assert_eq!(command, EditorCommand::RegenerateImage);
    assert_eq!(editor.planet.seed, 123_456);
    assert_eq!(editor.planet.origin, before);
    assert_eq!(editor.resolution, 32);
}

#[test]
fn mouse_down_moves_the_planet() {
    let mut editor = window(10, 32);
    let done = editor.mouse_down(at(0, 50), at(0, 0));
    assert_eq!(done, (EventStatus::Processed, EditorCommand::RegenerateImage));
    assert_eq!(editor.planet.origin, Point::new(0, -10_000));
}

#[test]
fn mouse_drag_moves_the_planet_inside_the_window_only() {
    let mut editor = window(10, 32);
    assert_eq!(editor.mouse_drag(None, at(0, 0)), None);
    assert_eq!(editor.planet.origin, Point::new(-6000, -8000));
    assert_eq!(editor.mouse_drag(Some(at(-4, 0)), at(0, 0)), Some(EditorCommand::RegenerateImage));
    assert_eq!(editor.planet.origin, Point::new(10_000, 0));
}

#[test]
fn image_is_regenerated_on_command() {
    let curve = linear_curve();
    let editor = window(10, 16);
    let none = Vec::new();
    let generated = editor
        .receive_input(EditorCommand::RegenerateImage, Strategy::Points, &none, &curve)
        .unwrap();
    assert_eq!(generated.image.width(), 16);
    let again = editor.generate_image(Strategy::Points, &none, &curve).unwrap();
    for y in 0..16 {
        for x in 0..16 {
            assert_eq!(generated.image.get_pixel(x, y), again.image.get_pixel(x, y));
        }
    }
}

#[test]
fn no_image_while_the_sun_is_at_a_point_that_is_shown() {
    let curve = linear_curve();
    let none = Vec::new();
    let mut editor = window(10, 16);
    // the star at (-500, 500) of the planet, which the pixel (4, 12) shows
    editor.planet.origin = Point::new(500, -500);
    assert!(editor.generate_image(Strategy::Points, &none, &curve).is_none());
    editor.light = None;
    assert!(editor.generate_image(Strategy::Points, &none, &curve).is_some());
    // the star inside the planet, at a point between the pixels
    editor.light = Some(Light::default());
    editor.planet.origin = Point::new(501, -500);
    assert!(editor.generate_image(Strategy::Points, &none, &curve).is_some());
}

#[test]
fn image_of_noise_is_generated_from_the_samples() {
    let curve = linear_curve();
    let editor = window(10, 16);
    let field = editor.planet.noise_points(16, &curve);
    assert_eq!(field.places.len(), 256);
    let low = vec![-1_000_000; 256];
    let high = vec![1_000_000; 256];
    let deep = editor.generate_image(Strategy::Noise, &low, &curve).unwrap();
    let snow = editor.generate_image(Strategy::Noise, &high, &curve).unwrap();
    assert!(deep.stats[0].count > 0);
    assert_eq!(deep.stats[6].count, 0);
    assert!(snow.stats[6].count > 0);
    assert_eq!(snow.stats[0].count, 0);
}

#[test]
fn requests_in_quick_succession_are_carried_out_as_one() {
    let mut throttle = Throttle::new(REGENERATE_DELAY);
    assert_eq!(throttle.poll(0), None);
    throttle.send(EditorCommand::RegenerateImage, 100);
    assert_eq!(throttle.due, Some(150));
    assert_eq!(throttle.poll(120), None);
    throttle.send(EditorCommand::RegenerateImage, 130);
    throttle.send(EditorCommand::RegenerateImage, 140);
    assert_eq!(throttle.due, Some(150));
    assert_eq!(throttle.poll(149), None);
    assert_eq!(throttle.poll(150), Some(EditorCommand::RegenerateImage));
    assert_eq!(throttle.poll(151), None);
    assert_eq!(throttle.due, None);
    throttle.send(EditorCommand::RegenerateImage, 160);
    assert_eq!(throttle.due, Some(210));
    assert_eq!(throttle.poll(500), Some(EditorCommand::RegenerateImage));
}

#[test]
fn a_request_at_the_end_of_time_is_due_then() {
    let mut throttle = Throttle::new(50);
    throttle.send(EditorCommand::RegenerateImage, u64::MAX - 10);
    assert_eq!(throttle.due, Some(u64::MAX));
    assert_eq!(throttle.poll(u64::MAX - 1), None);
    assert_eq!(throttle.poll(u64::MAX), Some(EditorCommand::RegenerateImage));
}
