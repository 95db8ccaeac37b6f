//! Textures: the colour of a surface at a point.
use crate::color::Color;
use crate::noise_texture::{lemma_marble_not_negative, NoiseTexture};
use crate::scalar::Scalar;
use crate::texture_image::{lemma_picture_not_negative, TextureImage};
use crate::vec3::{not_negative, Point3};
use vstd::prelude::*;

verus! {

/// One colour everywhere.
#[derive(Clone, Copy, Debug)]
pub struct SolidColor {
    pub albedo: Color,
}

impl SolidColor {
    /// The texture that is `albedo` everywhere.
    pub fn new(albedo: Color) -> (r: SolidColor)
        ensures
            r.albedo == albedo,
    {
        SolidColor { albedo }
    }

    /// The texture that is the colour `(red, green, blue)` everywhere.
    pub fn from_rgb(red: Scalar, green: Scalar, blue: Scalar) -> (r: SolidColor)
        ensures
            r.albedo == Color::new(red, green, blue),
    {
        SolidColor { albedo: Color::new(red, green, blue) }
    }

    /// The colour, whatever the place.
    pub fn get_color(&self, _u: Scalar, _v: Scalar, _point: &Point3) -> (r: Color)
        ensures
            r == self.albedo,
    {
        self.albedo
    }
}

/// A three-dimensional chequerboard of two textures, with cubic cells of
/// side `1 / inv_scale`.
#[derive(Debug)]
pub struct CheckerTexture {
    pub inv_scale: Scalar,
    pub even: Box<Texture>,
    pub odd: Box<Texture>,
}

impl CheckerTexture {
    /// The chequerboard with cells of side `scale`.
    pub fn new(scale: Scalar, even: Box<Texture>, odd: Box<Texture>) -> (r: CheckerTexture)
        ensures
            r.inv_scale == Scalar::one().div(scale),
            r.even == even,
            r.odd == odd,
    {
        CheckerTexture { inv_scale: Scalar::one().div(scale), even, odd }
    }

    /// The chequerboard of two plain colours with cells of side `scale`.
    pub fn from_colors(scale: Scalar, color1: Color, color2: Color) -> (r: CheckerTexture)
        ensures
            r.inv_scale == Scalar::one().div(scale),
            *r.even == Texture::Solid(SolidColor { albedo: color1 }),
            *r.odd == Texture::Solid(SolidColor { albedo: color2 }),
    {
        CheckerTexture {
            inv_scale: Scalar::one().div(scale),
            even: Box::new(Texture::Solid(SolidColor::new(color1))),
            odd: Box::new(Texture::Solid(SolidColor::new(color2))),
        }
    }

    /// The number of the cell that holds `coordinate`, along one axis.
    pub open spec fn cell_of(&self, coordinate: Scalar) -> int {
        self.inv_scale.mul(coordinate).whole_part() as int
    }

    /// Whether `point` lies in a cell of the even texture: the numbers of
    /// its cell along the three axes have an even sum.
    pub open spec fn spec_is_even_cell(&self, point: Point3) -> bool {
        (self.cell_of(point.x) + self.cell_of(point.y) + self.cell_of(point.z)) % 2 == 0
    }

    /// See [`CheckerTexture::spec_is_even_cell`].
    #[verifier::when_used_as_spec(spec_is_even_cell)]
    pub fn is_even_cell(&self, point: Point3) -> (r: bool)
        ensures
            r == self.spec_is_even_cell(point),
    {
        let x: i64 = self.inv_scale.mul(point.x()).whole_part();
        let y: i64 = self.inv_scale.mul(point.y()).whole_part();
        let z: i64 = self.inv_scale.mul(point.z()).whole_part();
        let sum: i64 = x + y + z;
        sum % 2 == 0
    }

    /// The colour at the place `point`: that of the even texture in an
    /// even cell, and that of the odd texture in an odd one.
    pub open spec fn color_at(&self, u: Scalar, v: Scalar, point: Point3) -> Color
        decreases self, 0nat,
    {
        if self.is_even_cell(point) {
            self.even.color_at(u, v, point)
        } else {
            self.odd.color_at(u, v, point)
        }
    }

    /// The colour at the surface coordinates `(u, v)` and the place
    /// `point`.
    pub fn get_color(&self, u: Scalar, v: Scalar, point: &Point3) -> (r: Color)
        ensures
            r == self.color_at(u, v, *point),
        decreases self, 0nat,
    {
        if self.is_even_cell(*point) {
            self.even.get_color(u, v, point)
        } else {
            self.odd.get_color(u, v, point)
        }
    }
}

/// The kinds of texture.
#[derive(Debug)]
pub enum Texture {
    Solid(SolidColor),
    Checker(CheckerTexture),
    Noise(NoiseTexture),
    Image(TextureImage),
}

impl Texture {
    /// The texture has no negative colour in it: no plain colour of it has
    /// a negative part. Noise and pictures never have.
    pub open spec fn colours_not_negative(&self) -> bool
        decreases self,
    {
        match self {
            Texture::Solid(solid) => not_negative(solid.albedo),
            Texture::Checker(checker) => checker.even.colours_not_negative()
                && checker.odd.colours_not_negative(),
            Texture::Noise(_) => true,
            Texture::Image(_) => true,
        }
    }

    /// The colour at the surface coordinates `(u, v)` and the place `point`.
    pub open spec fn color_at(&self, u: Scalar, v: Scalar, point: Point3) -> Color
        decreases self, 1nat,
    {
        match self {
            Texture::Solid(solid) => solid.albedo,
            Texture::Checker(checker) => checker.color_at(u, v, point),
            Texture::Noise(marble) => marble.color_at(point),
            Texture::Image(picture) => picture.color_at(u, v),
        }
    }

    /// The colour at the surface coordinates `(u, v)` and the place `point`.
    pub fn get_color(&self, u: Scalar, v: Scalar, point: &Point3) -> (r: Color)
        ensures
            r == self.color_at(u, v, *point),
        decreases self, 1nat,
    {
        match self {
            Texture::Solid(solid) => solid.get_color(u, v, point),
            Texture::Checker(checker) => checker.get_color(u, v, point),
            Texture::Noise(marble) => marble.get_color(u, v, point),
            Texture::Image(picture) => picture.get_color(u, v, point),
        }
    }
}

/// A texture without a negative colour in it gives no negative colour, at
/// any place.
pub proof fn lemma_colour_not_negative(texture: &Texture, u: Scalar, v: Scalar, point: Point3)
    requires
        texture.colours_not_negative(),
    ensures
        not_negative(texture.color_at(u, v, point)),
    decreases texture,
{
    match texture {
        Texture::Solid(_) => {},
        Texture::Checker(checker) => {
            if checker.is_even_cell(point) {
                lemma_colour_not_negative(&*checker.even, u, v, point);
            } else {
                lemma_colour_not_negative(&*checker.odd, u, v, point);
            }
        },
        Texture::Noise(marble) => {
            lemma_marble_not_negative(marble, point);
        },
        Texture::Image(picture) => {
            lemma_picture_not_negative(picture, u, v);
        },
    }
}

} // verus!
