//! A path tracer over fixed-point numbers, with its rules stated as
//! contracts and proved.
//!
//! A [`camera::Camera`] casts rays into a scene of primitives
//! ([`hittable::Hittable`]), whose surfaces answer through their materials
//! ([`material::Material`]); directions are drawn from densities
//! ([`pdf::Pdf`]) that mix the lights with the material's own distribution.
//! All quantities are [`scalar::Scalar`]s, so every operation is total and
//! exact to state.
//!
//! Where a function draws at random, its contract is a relation that names
//! every result the call can give; what is computed from the draws is a
//! function of its own with an exact contract.
pub mod aabb;
pub mod camera;
pub mod color;
pub mod common;
pub mod constant_medium;
pub mod hittable;
pub mod hittable_list;
pub mod interval;
pub mod material;
pub mod noise_texture;
pub mod onb;
pub mod pdf;
pub mod perlin;
pub mod quad;
pub mod ray;
pub mod scalar;
pub mod sphere;
pub mod texture;
pub mod texture_image;
pub mod transformation;
pub mod vec2;
pub mod vec3;
