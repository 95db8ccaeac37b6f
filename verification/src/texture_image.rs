//! A texture read off a decoded image.
use crate::color::Color;
use crate::scalar::Scalar;
use crate::scalar::lemma_div_sign;
use crate::vec3::{not_negative, Point3};
use image::{DynamicImage, GenericImageView, Pixel};
use vstd::prelude::*;

verus! {

/// A decoded image, `image::DynamicImage`. Nothing of its inside is known
/// here; it is read through the three functions below, whose contracts are
/// taken on trust from the `image` crate.
#[verifier::external_type_specification]
#[verifier::external_body]
pub struct ExDynamicImage(image::DynamicImage);

/// The width of the image, in pixels: what `DynamicImage::width` returns.
pub uninterp spec fn image_width(image: image::DynamicImage) -> u32;

/// The height of the image, in pixels: what `DynamicImage::height`
/// returns.
pub uninterp spec fn image_height(image: image::DynamicImage) -> u32;

/// The red, green and blue of the pixel in the column `x` and the row `y`
/// of the image, each as a level of 0 to 255: what
/// `GenericImageView::get_pixel` returns, less its transparency.
pub uninterp spec fn image_pixel(image: image::DynamicImage, x: u32, y: u32) -> (u8, u8, u8);

/// The width of the image, by `DynamicImage::width`. On trust: the call
/// returns, and the same image has the same width at every call.
#[verifier::external_body]
fn width_of(image: &DynamicImage) -> (r: u32)
    ensures
        r == image_width(*image),
{
    image.width()
}

/// The height of the image, by `DynamicImage::height`. On trust: the call
/// returns, and the same image has the same height at every call.
#[verifier::external_body]
fn height_of(image: &DynamicImage) -> (r: u32)
    ensures
        r == image_height(*image),
{
    image.height()
}

/// The pixel at `(x, y)`, by `GenericImageView::get_pixel`, and its red,
/// green and blue by `Pixel::to_rgb`. On trust: the call returns for a
/// place in the image (it panics elsewhere), and the same place of the same
/// image has the same colour at every call.
#[verifier::external_body]
fn pixel_of(image: &DynamicImage, x: u32, y: u32) -> (r: (u8, u8, u8))
    requires
        x < image_width(*image),
        y < image_height(*image),
    ensures
        r == image_pixel(*image, x, y),
{
    let pixel = image.get_pixel(x, y).to_rgb();
    (pixel.0[0], pixel.0[1], pixel.0[2])
}

/// A texture that shows an image, its top row at `v = 1`.
#[derive(Debug)]
pub struct TextureImage {
    pub image: DynamicImage,
}

impl TextureImage {
    /// The texture that shows `image`.
    pub fn new(image: DynamicImage) -> (r: TextureImage)
        ensures
            r.image == image,
    {
        TextureImage { image }
    }

    /// The width of the image, in pixels.
    pub fn width(&self) -> (r: u32)
        ensures
            r == image_width(self.image),
    {
        width_of(&self.image)
    }

    /// The height of the image, in pixels.
    pub fn height(&self) -> (r: u32)
        ensures
            r == image_height(self.image),
    {
        height_of(&self.image)
    }

    /// The colour with the levels `(red, green, blue)` of 0 to 255: each
    /// level over 255.
    pub open spec fn spec_color_of(levels: (u8, u8, u8)) -> Color {
        Color::new(
            Scalar::from_int(levels.0 as i32).div(Scalar::from_int(255)),
            Scalar::from_int(levels.1 as i32).div(Scalar::from_int(255)),
            Scalar::from_int(levels.2 as i32).div(Scalar::from_int(255)),
        )
    }

    /// See [`TextureImage::spec_color_of`].
    #[verifier::when_used_as_spec(spec_color_of)]
    pub fn color_of(levels: (u8, u8, u8)) -> (r: Color)
        ensures
            r == TextureImage::spec_color_of(levels),
    {
        Color::new(
            Scalar::from_int(levels.0 as i32).div(Scalar::from_int(255)),
            Scalar::from_int(levels.1 as i32).div(Scalar::from_int(255)),
            Scalar::from_int(levels.2 as i32).div(Scalar::from_int(255)),
        )
    }

    /// The coordinate `at` held to the pixels along a side of `extent`
    /// pixels: at most the last of them.
    pub open spec fn held(at: u32, extent: u32) -> u32 {
        if at >= extent {
            (extent - 1) as u32
        } else {
            at
        }
    }

    /// The colour of the pixel in the column `x` and the row `y`, each held
    /// to the image. An image without pixels is black.
    pub open spec fn pixel_color(&self, x: u32, y: u32) -> Color {
        if image_width(self.image) == 0 || image_height(self.image) == 0 {
            Color::zero()
        } else {
            TextureImage::color_of(
                image_pixel(
                    self.image,
                    TextureImage::held(x, image_width(self.image)),
                    TextureImage::held(y, image_height(self.image)),
                ),
            )
        }
    }

    /// See [`TextureImage::pixel_color`].
    pub fn pixel_data(&self, x: u32, y: u32) -> (r: Color)
        ensures
            r == self.pixel_color(x, y),
    {
        let width = self.width();
        let height = self.height();
        if width == 0 || height == 0 {
            return Color::zero();
        }
        let clamped_x = if x >= width {
            width - 1
        } else {
            x
        };
        let clamped_y = if y >= height {
            height - 1
        } else {
            y
        };
        TextureImage::color_of(pixel_of(&self.image, clamped_x, clamped_y))
    }

    /// The pixel along a side of `extent` pixels at the surface coordinate
    /// `fraction`, held to `[0, 1]`: the whole part of `fraction extent`.
    pub open spec fn spec_pixel_at(fraction: Scalar, extent: u32) -> u32 {
        fraction.clamp(Scalar::zero(), Scalar::one()).mul(
            Scalar::of(extent * 1_000_000),
        ).whole_part() as u32
    }

    /// See [`TextureImage::spec_pixel_at`].
    #[verifier::when_used_as_spec(spec_pixel_at)]
    pub fn pixel_at(fraction: Scalar, extent: u32) -> (r: u32)
        ensures
            r == TextureImage::spec_pixel_at(fraction, extent),
    {
        let held = fraction.clamp(Scalar::zero(), Scalar::one());
        let size = Scalar { micros: (extent as i64) * 1_000_000 };
        let scaled = held.mul(size);
        proof {
            crate::scalar::lemma_mul_sign(held, size);
            crate::scalar::lemma_mul_bound(held, size);
        }
        let whole: i64 = scaled.whole_part();
        whole as u32
    }

    /// The colour at the surface coordinates `(u, v)`: that of the pixel at
    /// the fraction `u` of the width and the fraction `1 - v` of the height.
    pub open spec fn color_at(&self, u: Scalar, v: Scalar) -> Color {
        self.pixel_color(
            TextureImage::pixel_at(u, image_width(self.image)),
            TextureImage::pixel_at(
                Scalar::one().sub(v.clamp(Scalar::zero(), Scalar::one())),
                image_height(self.image),
            ),
        )
    }

    /// The colour at the surface coordinates `(u, v)`, whatever the place.
    pub fn get_color(&self, u: Scalar, v: Scalar, _point: &Point3) -> (r: Color)
        ensures
            r == self.color_at(u, v),
    {
        let v_flipped = Scalar::one().sub(v.clamp(Scalar::zero(), Scalar::one()));
        let x = TextureImage::pixel_at(u, self.width());
        let y = TextureImage::pixel_at(v_flipped, self.height());
        self.pixel_data(x, y)
    }
}

/// A picture has no negative colour: each level of 0 to 255 is a share of
/// 255 that is not negative.
pub proof fn lemma_picture_not_negative(picture: &TextureImage, u: Scalar, v: Scalar)
    ensures
        not_negative(picture.color_at(u, v)),
        forall|levels: (u8, u8, u8)| not_negative(#[trigger] TextureImage::color_of(levels)),
{
    assert forall|levels: (u8, u8, u8)| not_negative(
        #[trigger] TextureImage::color_of(levels),
    ) by {
        lemma_div_sign(Scalar::from_int(levels.0 as i32), Scalar::from_int(255));
        lemma_div_sign(Scalar::from_int(levels.1 as i32), Scalar::from_int(255));
        lemma_div_sign(Scalar::from_int(levels.2 as i32), Scalar::from_int(255));
    }
}

} // verus!
