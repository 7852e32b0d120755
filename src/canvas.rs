use vstd::prelude::*;

use crate::color::RgbColor;
use image::{ImageBuffer, Rgb, RgbImage};

verus! {

/// A pixel canvas backed by an `image::RgbImage`.
///
/// Verus cannot see inside the image, so what it holds is given by
/// `canvas_pixels`, `canvas_width` and `canvas_height`.
#[verifier::external_body]
pub struct Canvas {
    img: RgbImage,
}

/// The pixels of a canvas, keyed by `(x, y)` with the origin at the top left.
pub uninterp spec fn canvas_pixels(c: Canvas) -> Map<(int, int), (u8, u8, u8)>;

/// The width of a canvas in pixels.
pub uninterp spec fn canvas_width(c: Canvas) -> u32;

/// The height of a canvas in pixels.
pub uninterp spec fn canvas_height(c: Canvas) -> u32;

/// The coordinates of a `width` by `height` image.
pub open spec fn grid(width: int, height: int) -> Set<(int, int)> {
    Set::new(|p: (int, int)| 0 <= p.0 < width && 0 <= p.1 < height)
}

/// The bytes of an image laid out row by row, three channels per pixel.
pub open spec fn raw_layout(
    pixels: Map<(int, int), (u8, u8, u8)>,
    width: int,
    height: int,
    bytes: Seq<u8>,
) -> bool {
    &&& bytes.len() == 3 * width * height
    &&& forall|x: int, y: int|
        0 <= x < width && 0 <= y < height ==> {
            let i = 3 * (y * width + x);
            &&& #[trigger] pixels[(x, y)] == (bytes[i], bytes[i + 1], bytes[i + 2])
        }
}

impl Canvas {
    /// Relies on `ImageBuffer::from_pixel`: an image of the given size with
    /// every pixel set to `color`. It panics when the buffer length overflows
    /// `usize`.
    #[verifier::external_body]
    pub(crate) fn filled(width: u32, height: u32, color: RgbColor) -> (r: Canvas)
        requires
            3 * width * height <= usize::MAX,
        ensures
            canvas_width(r) == width,
            canvas_height(r) == height,
            canvas_pixels(r) == Map::new(
                |p: (int, int)| grid(width as int, height as int).contains(p),
                |p: (int, int)| color.triple(),
            ),
    {
        Canvas { img: ImageBuffer::from_pixel(width, height, Rgb([color.r, color.g, color.b])) }
    }

    /// Relies on `ImageBuffer::put_pixel`: the pixel at `(x, y)` becomes
    /// `color` and the rest stay. It panics when `(x, y)` is out of bounds.
    #[verifier::external_body]
    pub(crate) fn put_pixel(&mut self, x: u32, y: u32, color: RgbColor)
        requires
            x < canvas_width(*old(self)),
            y < canvas_height(*old(self)),
        ensures
            canvas_width(*final(self)) == canvas_width(*old(self)),
            canvas_height(*final(self)) == canvas_height(*old(self)),
            canvas_pixels(*final(self)) == canvas_pixels(*old(self)).insert(
                (x as int, y as int),
                color.triple(),
            ),
    {
        self.img.put_pixel(x, y, Rgb([color.r, color.g, color.b]));
    }

    /// Relies on `ImageBuffer::into_raw`: the buffer of an `RgbImage` holds
    /// its pixels row by row, three channels each.
    #[verifier::external_body]
    pub(crate) fn into_raw(self) -> (r: Vec<u8>)
        ensures
            raw_layout(
                canvas_pixels(self),
                canvas_width(self) as int,
                canvas_height(self) as int,
                r@,
            ),
    {
        self.img.into_raw()
    }
}

} // verus!
