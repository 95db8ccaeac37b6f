//! Rays: a point, a direction and the time at which the ray travels.
use crate::scalar::Scalar;
use crate::vec3::{Point3, Vec3};
use vstd::prelude::*;

verus! {

/// The half-line `origin + t dir`, cast at `time`.
#[derive(Clone, Copy, Debug, PartialEq, Eq, Structural)]
pub struct Ray {
    pub origin: Point3,
    pub dir: Vec3,
    pub time: Scalar,
}

impl Ray {
    pub open spec fn spec_new(origin: Point3, dir: Vec3, time: Scalar) -> Ray {
        Ray { origin, dir, time }
    }

    /// The ray from `origin` along `dir`, cast at `time`.
    #[verifier::when_used_as_spec(spec_new)]
    pub fn new(origin: Point3, dir: Vec3, time: Scalar) -> (r: Ray)
        ensures
            r == Ray::spec_new(origin, dir, time),
    {
        Ray { origin, dir, time }
    }

    pub open spec fn spec_time(&self) -> Scalar {
        self.time
    }

    /// The time at which the ray travels.
    #[verifier::when_used_as_spec(spec_time)]
    pub fn time(&self) -> (r: Scalar)
        ensures
            r == self.time,
    {
        self.time
    }

    pub open spec fn spec_origin(&self) -> Point3 {
        self.origin
    }

    /// The point the ray starts from.
    #[verifier::when_used_as_spec(spec_origin)]
    pub fn origin(&self) -> (r: Point3)
        ensures
            r == self.origin,
    {
        self.origin
    }

    pub open spec fn spec_direction(&self) -> Vec3 {
        self.dir
    }

    /// The direction of the ray, of any length.
    #[verifier::when_used_as_spec(spec_direction)]
    pub fn direction(&self) -> (r: Vec3)
        ensures
            r == self.dir,
    {
        self.dir
    }

    pub open spec fn spec_at(&self, t: Scalar) -> Point3 {
        self.origin.add(self.dir.scale(t))
    }

    /// The point at parameter `t`: `origin + t dir`.
    #[verifier::when_used_as_spec(spec_at)]
    pub fn at(&self, t: Scalar) -> (r: Point3)
        ensures
            r == self.spec_at(t),
    {
        self.origin.add(self.dir.scale(t))
    }
}

impl Default for Ray {
    /// The ray that rests at the origin at time 0.
    fn default() -> (r: Ray)
        ensures
            r == Ray::new(Vec3::zero(), Vec3::zero(), Scalar::zero()),
    {
        Ray { origin: Vec3::zero(), dir: Vec3::zero(), time: Scalar::zero() }
    }
}

} // verus!
