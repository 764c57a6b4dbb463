//! The pixel grid that a planet is painted on, kept in an image buffer of
//! the `image` crate.

use vstd::prelude::*;

verus! {

/// The largest side, in pixels, of an image.
pub const MAX_RESOLUTION: u32 = 16_384;

/// One pixel: 8-bit sRGB color and opacity.
#[derive(Clone, Copy, Debug, PartialEq, Eq, Structural)]
pub struct Rgba {
    pub red: u8,
    pub green: u8,
    pub blue: u8,
    pub alpha: u8,
}

/// A square RGBA image, held in an image buffer of the `image` crate.  What
/// the buffer holds is named by `image_pixels` and `image_side`.
#[verifier::external_body]
pub struct Image {
    buffer: image::RgbaImage,
}

/// The pixels of an image, row after row from the top.
pub uninterp spec fn image_pixels(image: Image) -> Seq<Rgba>;

/// The number of pixels in a row, and of rows, of an image.
pub uninterp spec fn image_side(image: Image) -> u32;

/// The pixel that is fully transparent and black.
pub open spec fn transparent() -> Rgba {
    Rgba { red: 0, green: 0, blue: 0, alpha: 0 }
}

/// Calls `image::ImageBuffer::new` for a square of `side` pixels, which
/// panics when the buffer would not fit in memory.  The contract claims that
/// the image has that side and that every sample of it is zero.
#[verifier::external_body]
fn blank(side: u32) -> (image: Image)
    requires
        side <= MAX_RESOLUTION,
    ensures
        image_side(image) == side,
        image_pixels(image) == Seq::new((side * side) as nat, |i: int| transparent()),
{
    Image { buffer: image::RgbaImage::new(side, side) }
}

/// Calls `image::ImageBuffer::put_pixel`, which panics outside the image.
/// The contract claims that the pixel in column `x` of row `y` is replaced
/// and every other pixel kept.
#[verifier::external_body]
fn put(image: &mut Image, x: u32, y: u32, pixel: Rgba)
    requires
        x < image_side(*old(image)),
        y < image_side(*old(image)),
    ensures
        image_side(*final(image)) == image_side(*old(image)),
        image_pixels(*final(image)) == image_pixels(*old(image)).update(
            y * image_side(*old(image)) + x,
            pixel,
        ),
{
    image.buffer.put_pixel(x, y, image::Rgba([pixel.red, pixel.green, pixel.blue, pixel.alpha]));
}

/// Calls `image::ImageBuffer::get_pixel`, which panics outside the image.
/// The contract claims that the pixel in column `x` of row `y` is returned.
#[verifier::external_body]
fn pixel_at(image: &Image, x: u32, y: u32) -> (pixel: Rgba)
    requires
        x < image_side(*image),
        y < image_side(*image),
    ensures
        pixel == image_pixels(*image)[y * image_side(*image) + x],
{
    let found = image.buffer.get_pixel(x, y);
    Rgba { red: found.0[0], green: found.0[1], blue: found.0[2], alpha: found.0[3] }
}

/// Calls `image::ImageBuffer::width`.
#[verifier::external_body]
fn side_of(image: &Image) -> (side: u32)
    ensures
        side == image_side(*image),
{
    image.buffer.width()
}

/// A place inside a square has an index inside its row-major listing.
pub proof fn lemma_cell_in_square(x: int, y: int, side: int)
    requires
        0 <= x < side,
        0 <= y < side,
    ensures
        0 <= y * side + x < side * side,
{
    assert(0 <= y * side + x < side * side) by (nonlinear_arith)
        requires
            0 <= x < side,
            0 <= y < side,
    ;
}

/// What an image is: its side and its pixels.
pub struct ImageView {
    /// The number of pixels in a row, and of rows.
    pub side: u32,
    /// The pixels, row after row from the top.
    pub pixels: Seq<Rgba>,
}

impl View for Image {
    type V = ImageView;

    open spec fn view(&self) -> ImageView {
        ImageView { side: image_side(*self), pixels: image_pixels(*self) }
    }
}

impl Image {
    /// The number of pixels in a row, and of rows.
    pub open spec fn side(&self) -> u32 {
        self@.side
    }

    /// The pixels, row after row from the top.
    pub open spec fn pixels(&self) -> Seq<Rgba> {
        self@.pixels
    }

    /// Whether the image holds a pixel for every place of its square.
    pub open spec fn wf(&self) -> bool {
        &&& self.side() <= MAX_RESOLUTION
        &&& self.pixels().len() == self.side() * self.side()
    }

    /// The pixel in column `x` of row `y`.
    pub open spec fn at(&self, x: int, y: int) -> Rgba {
        self.pixels()[y * self.side() + x]
    }

    /// A fully transparent image of `side` by `side` pixels.
    pub fn new(side: u32) -> (image: Image)
        requires
            side <= MAX_RESOLUTION,
        ensures
            image.wf(),
            image.side() == side,
            forall|i: int| 0 <= i < side * side ==> image.pixels()[i] == transparent(),
    {
        let image = blank(side);
        assert(side * side >= 0) by (nonlinear_arith);
        image
    }

    /// The side of the image, in pixels.
    pub fn width(&self) -> (side: u32)
        ensures
            side == self.side(),
    {
        side_of(self)
    }

    /// The pixel in column `x` of row `y`; nothing outside the image.
    pub fn get_pixel(&self, x: u32, y: u32) -> (pixel: Option<Rgba>)
        ensures
            pixel.is_some() <==> x < self.side() && y < self.side(),
            pixel matches Some(found) ==> found == self.at(x as int, y as int),
    {
        let side: u32 = side_of(self);
        if x < side && y < side {
            Some(pixel_at(self, x, y))
        } else {
            None
        }
    }

    /// Replaces the pixel in column `x` of row `y`.
    pub fn put_pixel(&mut self, x: u32, y: u32, pixel: Rgba)
        requires
            old(self).wf(),
            x < old(self).side(),
            y < old(self).side(),
        ensures
            final(self).wf(),
            final(self).side() == old(self).side(),
            final(self).pixels() == old(self).pixels().update(y * old(self).side() + x, pixel),
    {
        proof {
            lemma_cell_in_square(x as int, y as int, self.side() as int);
        }
        put(self, x, y, pixel);
    }
}

} // verus!
