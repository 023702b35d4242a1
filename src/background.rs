use image::GenericImageView;
use vstd::prelude::*;

verus! {

#[verifier::external_type_specification]
#[verifier::external_body]
pub struct ExDynamicImage(image::DynamicImage);

/// Width and height of an image, in pixels.
pub uninterp spec fn image_size(img: image::DynamicImage) -> (u32, u32);

/// The pixels of an image read as 8-bit RGBA, keyed by (column, row).
pub uninterp spec fn image_texels(img: image::DynamicImage) -> Map<(u32, u32), [u8; 4]>;

/// Whether an image stores its samples as `f32`.
pub uninterp spec fn image_has_float_samples(img: image::DynamicImage) -> bool;

/// Relies on `DynamicImage::color`: the image's color type, of which
/// `Rgb32F` and `Rgba32F` hold `f32` samples.
#[verifier::external_body]
fn has_float_samples(img: &image::DynamicImage) -> (r: bool)
    ensures
        r == image_has_float_samples(*img),
{
    match img.color() {
        image::ColorType::Rgb32F | image::ColorType::Rgba32F => true,
        _ => false,
    }
}

/// Relies on `GenericImageView::dimensions` for `DynamicImage`: the image's
/// width and height.
#[verifier::external_body]
fn dimensions(img: &image::DynamicImage) -> (r: (u32, u32))
    ensures
        r == image_size(*img),
{
    img.dimensions()
}

/// Relies on `GenericImageView::get_pixel` for `DynamicImage`: the pixel in
/// column `x` and row `y`, converted to 8-bit RGBA. It panics outside the
/// image, and on a NaN sample of an `f32` image, so it is kept to images with
/// integer samples.
#[verifier::external_body]
fn texel(img: &image::DynamicImage, x: u32, y: u32) -> (r: [u8; 4])
    requires
        !image_has_float_samples(*img),
        x < image_size(*img).0,
        y < image_size(*img).1,
    ensures
        r == image_texels(*img)[(x, y)],
{
    img.get_pixel(x, y).0
}

/// Relies on `DynamicImage::new_rgb8`: an RGB image of `w` by `h` pixels,
/// zero-filled, so each pixel reads back as opaque black. It panics when the
/// buffer length `3 * w * h`, computed as `(3 * w) * h`, overflows `usize`.
#[verifier::external_body]
fn blank_rgb8(w: u32, h: u32) -> (r: image::DynamicImage)
    requires
        3 * w <= usize::MAX,
        3 * w * h <= usize::MAX,
    ensures
        image_size(r) == (w, h),
        !image_has_float_samples(r),
        forall|x: u32, y: u32|
            x < w && y < h ==> #[trigger] image_texels(r)[(x, y)] == [0u8, 0u8, 0u8, 255u8],
{
    image::DynamicImage::new_rgb8(w, h)
}

/// An image that can be sampled: it holds at least one pixel, and its
/// samples are integers.
pub open spec fn usable(img: image::DynamicImage) -> bool {
    image_size(img).0 > 0 && image_size(img).1 > 0 && !image_has_float_samples(img)
}

/// The environment texture of the background: a sky dome sampled by the
/// direction of rays that hit nothing else.
pub struct Background {
    pub image: image::DynamicImage,
    pub width: u32,
    pub height: u32,
}

impl Background {
    /// The cached size is the image's, and the image can be sampled.
    pub open spec fn wf(&self) -> bool {
        &&& usable(self.image)
        &&& image_size(self.image) == (self.width, self.height)
        &&& self.width > 0
        &&& self.height > 0
    }

    /// The background for a texture as it was loaded: `None` when loading
    /// failed. A failed load, an image without pixels, or one with `f32`
    /// samples (which may hold NaN) is replaced by a single opaque black pixel.
    pub fn new(loaded: Option<image::DynamicImage>) -> (r: Background)
        ensures
            r.wf(),
            loaded is Some && usable(loaded->0) ==> r.image == loaded->0,
            !(loaded is Some && usable(loaded->0)) ==> {
                &&& image_size(r.image) == (1u32, 1u32)
                &&& image_texels(r.image)[(0u32, 0u32)] == [0u8, 0u8, 0u8, 255u8]
            },
    {
        let image = match loaded {
            Some(img) => {
                let (w, h) = dimensions(&img);
                if w > 0 && h > 0 && !has_float_samples(&img) {
                    img
                } else {
                    blank_rgb8(1, 1)
                }
            },
            None => blank_rgb8(1, 1),
        };
        let (width, height) = dimensions(&image);
        Background { image, width, height }
    }

    /// The texel in column `x` and row `y`; coordinates past the last column
    /// or row are held to it.
    pub fn texel_at(&self, x: u32, y: u32) -> (r: [u8; 4])
        requires
            self.wf(),
        ensures
            r == image_texels(self.image)[(
                if x < self.width { x } else { (self.width - 1) as u32 },
                if y < self.height { y } else { (self.height - 1) as u32 },
            )],
    {
        let cx = if x < self.width { x } else { self.width - 1 };
        let cy = if y < self.height { y } else { self.height - 1 };
        texel(&self.image, cx, cy)
    }
}

} // verus!
