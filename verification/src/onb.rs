//! Orthonormal bases, which carry directions sampled about the z axis to
//! directions about a given normal.
use crate::scalar::{lemma_mul_one, lemma_mul_zero};
use crate::vec3::{cross, has_opposite, lemma_shrink_has_opposite, unit_vector, Vec3};
use vstd::prelude::*;

verus! {

/// Three axes; the third is the direction the basis was built for.
#[derive(Clone, Copy, Debug, PartialEq, Eq, Structural)]
pub struct Onb {
    pub first: Vec3,
    pub second: Vec3,
    pub third: Vec3,
}

impl Onb {
    /// The axis that the basis about the unit vector `normal` is completed
    /// with: the y axis where the normal leans to the x axis by more than
    /// 0.9, the x axis otherwise.
    pub open spec fn helper_of(normal: Vec3) -> Vec3 {
        if normal.x.abs()@ > 900_000 {
            Vec3::from_ints(0, 1, 0)
        } else {
            Vec3::from_ints(1, 0, 0)
        }
    }

    /// The basis about `n`: the third axis is `n` at unit length, the first
    /// lies across the third and the helper axis, at unit length, and the
    /// second across the third and the first.
    pub open spec fn spec_new(n: &Vec3) -> Onb {
        let third = unit_vector(*n);
        let first = unit_vector(cross(third, Onb::helper_of(third)));
        Onb { first, second: cross(third, first), third }
    }

    /// The basis whose third axis is `n` at unit length.
    #[verifier::when_used_as_spec(spec_new)]
    pub fn new(n: &Vec3) -> (r: Onb)
        ensures
            r == Onb::spec_new(n),
            r.w() == unit_vector(*n),
    {
        let normal = unit_vector(*n);
        let a = if normal.x().abs().micros > 900_000 {
            Vec3::from_ints(0, 1, 0)
        } else {
            Vec3::from_ints(1, 0, 0)
        };
        let u = unit_vector(cross(normal, a));
        let v = cross(normal, u);
        Onb { first: u, second: v, third: normal }
    }

    pub open spec fn spec_u(&self) -> Vec3 {
        self.first
    }

    /// The first axis.
    #[verifier::when_used_as_spec(spec_u)]
    pub fn u(&self) -> (r: Vec3)
        ensures
            r == self.spec_u(),
    {
        self.first
    }

    pub open spec fn spec_v(&self) -> Vec3 {
        self.second
    }

    /// The second axis.
    #[verifier::when_used_as_spec(spec_v)]
    pub fn v(&self) -> (r: Vec3)
        ensures
            r == self.spec_v(),
    {
        self.second
    }

    pub open spec fn spec_w(&self) -> Vec3 {
        self.third
    }

    /// The third axis.
    #[verifier::when_used_as_spec(spec_w)]
    pub fn w(&self) -> (r: Vec3)
        ensures
            r == self.spec_w(),
    {
        self.third
    }

    pub open spec fn spec_transform(&self, v: Vec3) -> Vec3 {
        self.first.scale(v.x).add(self.second.scale(v.y)).add(self.third.scale(v.z))
    }

    /// The vector with the coordinates `v` in this basis:
    /// `v.x u + v.y v + v.z w`.
    #[verifier::when_used_as_spec(spec_transform)]
    pub fn transform(&self, v: Vec3) -> (r: Vec3)
        ensures
            r == self.spec_transform(v),
    {
        self.first.scale(v.x()).add(self.second.scale(v.y())).add(self.third.scale(v.z()))
    }
}

/// The vector with the coordinates `v` in the basis about `n`.
pub open spec fn spec_about(n: Vec3, v: Vec3) -> Vec3 {
    Onb::new(&n).transform(v)
}

/// See [`spec_about`].
#[verifier::when_used_as_spec(spec_about)]
pub fn about(n: Vec3, v: Vec3) -> (r: Vec3)
    ensures
        r == spec_about(n, v),
{
    Onb::new(&n).transform(v)
}

/// The basis about `n` carries the z axis to `n` at unit length: a
/// direction drawn about the z axis is a direction about the normal.
pub proof fn lemma_basis_carries_z_to_normal(n: Vec3)
    ensures
        about(n, Vec3::from_ints(0, 0, 1)) == unit_vector(n),
{
    let basis = Onb::new(&n);
    lemma_shrink_has_opposite(n, n.length());
    assert(has_opposite(basis.third));
    lemma_mul_zero(basis.first.x);
    lemma_mul_zero(basis.first.y);
    lemma_mul_zero(basis.first.z);
    lemma_mul_zero(basis.second.x);
    lemma_mul_zero(basis.second.y);
    lemma_mul_zero(basis.second.z);
    lemma_mul_one(basis.third.x);
    lemma_mul_one(basis.third.y);
    lemma_mul_one(basis.third.z);
}

} // verus!
