//! A marble-like texture made of turbulent noise.
use crate::color::Color;
use crate::common::sin;
use crate::perlin::Perlin;
use crate::scalar::{lemma_mul_sign, Scalar};
use crate::vec3::{not_negative, Point3};
use vstd::prelude::*;

verus! {

/// How many octaves of noise make up the turbulence.
pub const OCTAVES: i32 = 7;

/// Grey veins along the z axis, bent by turbulence; `scale` is their
/// frequency.
#[derive(Debug)]
pub struct NoiseTexture {
    pub noise: Perlin,
    pub scale: Scalar,
}

impl NoiseTexture {
    /// The texture over a fresh random lattice, with veins of the frequency
    /// `scale`.
    pub fn new(scale: Scalar) -> (r: NoiseTexture)
        ensures
            r.scale == scale,
    {
        NoiseTexture { noise: Perlin::new(), scale }
    }

    /// The texture over the lattice `noise`, with veins of the frequency
    /// `scale`.
    pub fn from_noise(noise: Perlin, scale: Scalar) -> (r: NoiseTexture)
        ensures
            r.noise == noise,
            r.scale == scale,
    {
        NoiseTexture { noise, scale }
    }

    /// The colour at `point`: the grey
    /// `0.5 (1 + sin(scale z + 10 turbulence(point)))`.
    pub open spec fn color_at(&self, point: Point3) -> Color {
        Color::new(Scalar::half(), Scalar::half(), Scalar::half()).scale(
            Scalar::one().add(
                sin(
                    self.scale.mul(point.z).add(
                        Scalar::from_int(10).mul(self.noise.turbulence(&point, OCTAVES)),
                    ),
                ),
            ),
        )
    }

    /// The colour at `point`, whatever the surface coordinates.
    pub fn get_color(&self, _u: Scalar, _v: Scalar, point: &Point3) -> (r: Color)
        ensures
            r == self.color_at(*point),
    {
        Color::new(Scalar::half(), Scalar::half(), Scalar::half()).scale(
            Scalar::one().add(
                sin(
                    self.scale.mul(point.z()).add(
                        Scalar::from_int(10).mul(self.noise.turbulence(point, OCTAVES)),
                    ),
                ),
            ),
        )
    }
}

/// The marble is never darker than black: the sine is at least -1, so the
/// grey `0.5 (1 + sin(..))` is not negative.
pub proof fn lemma_marble_not_negative(marble: &NoiseTexture, point: Point3)
    ensures
        not_negative(marble.color_at(point)),
{
    let wave = sin(
        marble.scale.mul(point.z).add(
            Scalar::from_int(10).mul(marble.noise.turbulence(&point, OCTAVES)),
        ),
    );
    lemma_mul_sign(Scalar::half(), Scalar::one().add(wave));
}

} // verus!
