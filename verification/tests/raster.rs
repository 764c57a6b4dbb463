use magrathea::raster::{Image, Rgba};

#[test]
fn new_image_is_transparent() {
    let image = Image::new(4);
    assert_eq!(image.width(), 4);
    for y in 0..4 {
        for x in 0..4 {
            assert_eq!(image.get_pixel(x, y), Some(Rgba { red: 0, green: 0, blue: 0, alpha: 0 }));
        }
    }
}

#[test]
fn empty_image_has_no_pixels() {
    let image = Image::new(0);
    assert_eq!(image.width(), 0);
    assert_eq!(image.get_pixel(0, 0), None);
}

#[test]
fn pixels_outside_the_image_are_none() {
    let image = Image::new(3);
    assert_eq!(image.get_pixel(3, 0), None);
    assert_eq!(image.get_pixel(0, 3), None);
    assert_eq!(image.get_pixel(u32::MAX, u32::MAX), None);
    assert!(image.get_pixel(2, 2).is_some());
}

#[test]
fn put_pixel_replaces_one_pixel() {
    let mut image = Image::new(3);
    let red = Rgba { red: 255, green: 1, blue: 2, alpha: 200 };
    image.put_pixel(2, 1, red);
    for y in 0..3 {
        for x in 0..3 {
            let expected = if (x, y) == (2, 1) {
                red
            } else {
                Rgba { red: 0, green: 0, blue: 0, alpha: 0 }
            };
            assert_eq!(image.get_pixel(x, y), Some(expected));
        }
    }
    let blue = Rgba { red: 0, green: 0, blue: 255, alpha: 255 };
    image.put_pixel(1, 2, blue);
    image.put_pixel(2, 1, blue);
    assert_eq!(image.get_pixel(1, 2), Some(blue));
    assert_eq!(image.get_pixel(2, 1), Some(blue));
    assert_eq!(image.width(), 3);
}
