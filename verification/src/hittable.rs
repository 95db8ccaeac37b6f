//! What a ray can hit: the record of a hit, and the kinds of primitive.
//!
//! A primitive answers three questions. `hit` finds where a ray meets it,
//! `pdf_value` is the density with which `random` sends a direction from a
//! point toward it. Where chance enters (a medium scatters a ray at a random
//! depth, a direction is drawn at random), the contract is a relation: it
//! says which results the call can give.
use crate::constant_medium::ConstantMedium;
use crate::hittable_list::{
    all_colours_not_negative, all_without_chance, density_sum, lemma_density_sum_not_negative,
    lemma_sweep_is_determined, lemma_sweep_lies_within, lemma_sweep_material_not_negative,
    lemma_sweep_on_unit_square, sweep_admits, HittableList,
};
use crate::material::Material;
use crate::quad::Quad;
use crate::ray::Ray;
use crate::scalar::{Scalar, SCALE};
use crate::sphere::{lemma_sphere_density_not_negative, lemma_sphere_uv_range, Sphere};
use crate::transformation::{RotateY, Translate};
use crate::vec3::{dot, has_opposite, lemma_dot_neg, Point3, Vec3};
use std::sync::Arc;
use vstd::prelude::*;

verus! {

/// Another handle on the value that `a` holds, by `Arc::clone` of std.
///
/// The contract is taken on trust from the documentation of std: the new
/// handle points to the same value as `a`.
#[verifier::external_body]
pub(crate) fn share<T>(a: &Arc<T>) -> (r: Arc<T>)
    ensures
        r == *a,
{
    Arc::clone(a)
}

/// Where and how a ray met a surface.
#[derive(Clone, Debug)]
pub struct HitRecord {
    /// The point of the hit.
    pub p: Point3,
    /// The surface normal there, turned against the ray.
    pub normal: Vec3,
    /// The material of the surface.
    pub mat: Arc<Material>,
    /// The ray parameter of the hit.
    pub t: Scalar,
    /// The surface coordinates of the hit.
    pub u: Scalar,
    pub v: Scalar,
    /// Whether the ray came from outside.
    pub front_face: bool,
}

impl HitRecord {
    /// Whether a ray along `direction` meets a surface with the outward
    /// normal `outward_norm` from outside.
    pub open spec fn faces(direction: Vec3, outward_norm: Vec3) -> bool {
        dot(direction, outward_norm)@ < 0
    }

    /// The record with its face and normal set for the ray `r` and the
    /// outward normal `outward_norm`: the normal is the outward one where
    /// the ray comes from outside, and its opposite otherwise.
    pub open spec fn with_face_normal(self, r: Ray, outward_norm: Vec3) -> HitRecord {
        HitRecord {
            front_face: HitRecord::faces(r.dir, outward_norm),
            normal: if HitRecord::faces(r.dir, outward_norm) {
                outward_norm
            } else {
                outward_norm.neg()
            },
            ..self
        }
    }

    /// Sets `front_face` and `normal` from the ray and the outward normal.
    /// The normal then points against the ray.
    pub fn set_face_normal(&mut self, r: &Ray, outward_norm: Vec3)
        ensures
            *final(self) == old(self).with_face_normal(*r, outward_norm),
            has_opposite(outward_norm) ==> final(self).opposes(r.dir),
    {
        proof {
            if has_opposite(outward_norm) {
                lemma_dot_neg(r.dir, outward_norm);
            }
        }
        self.front_face = dot(r.direction(), outward_norm).micros < 0;
        self.normal = if self.front_face {
            outward_norm
        } else {
            outward_norm.neg()
        };
    }

    /// The normal points against `direction`: their dot product is not
    /// positive.
    pub open spec fn opposes(self, direction: Vec3) -> bool {
        dot(direction, self.normal)@ <= 0
    }

    /// The surface coordinates lie in `[0, 1]`.
    pub open spec fn on_unit_square(self) -> bool {
        0 <= self.u@ <= SCALE && 0 <= self.v@ <= SCALE
    }

    /// The ray parameter lies strictly between the two bounds.
    pub open spec fn within(self, t_min: Scalar, t_max: Scalar) -> bool {
        t_min@ < self.t@ < t_max@
    }
}

/// A hit, if there is one, lies strictly between the bounds.
pub open spec fn hit_within(hit: Option<HitRecord>, t_min: Scalar, t_max: Scalar) -> bool {
    hit matches Some(rec) ==> rec.within(t_min, t_max)
}

/// Names the hit of the wrapped primitive in the contract of a moved or
/// turned primitive.
pub open spec fn inner_hit(inner: Option<HitRecord>) -> bool {
    true
}

/// Names the two hits of the boundary and the draw in the contract of a
/// medium.
pub open spec fn medium_pass(
    first: Option<HitRecord>,
    second: Option<HitRecord>,
    draw: Scalar,
) -> bool {
    true
}

/// Names the member that a list draws toward in [`Hittable::sample_admits`].
pub open spec fn chosen_member(index: int) -> bool {
    true
}

/// The kinds of primitive.
#[derive(Debug)]
pub enum Hittable {
    Sphere(Sphere),
    Quad(Quad),
    ConstantMedium(ConstantMedium),
    Translate(Translate),
    RotateY(RotateY),
    List(HittableList),
}

impl Hittable {
    /// `out` is a result that `hit` can give for the ray and the bounds.
    ///
    /// A sphere and a quad have one result. A medium, a moved and a turned
    /// primitive give what the wrapped primitive lets them give, and a list
    /// gives the result of the sweep over its members.
    pub open spec fn admits(
        &self,
        ray: Ray,
        t_min: Scalar,
        t_max: Scalar,
        out: Option<HitRecord>,
    ) -> bool
        decreases self, 0nat,
    {
        match self {
            Hittable::Sphere(sphere) => out == sphere.spec_hit(ray, t_min, t_max),
            Hittable::Quad(quad) => out == quad.spec_hit(ray, t_min, t_max),
            Hittable::ConstantMedium(medium) => medium.admits(ray, t_min, t_max, out),
            Hittable::Translate(moved) => moved.admits(ray, t_min, t_max, out),
            Hittable::RotateY(turned) => turned.admits(ray, t_min, t_max, out),
            Hittable::List(list) => sweep_admits(
                list.objects@,
                list.objects@.len(),
                ray,
                t_min,
                t_max,
                out,
            ),
        }
    }

    /// No surface of the primitive has a negative colour in its material.
    pub open spec fn colours_not_negative(&self) -> bool
        decreases self, 0nat,
    {
        match self {
            Hittable::Sphere(sphere) => sphere.mat.colours_not_negative(),
            Hittable::Quad(quad) => quad.mat.colours_not_negative(),
            Hittable::ConstantMedium(medium) => medium.phase_function.colours_not_negative(),
            Hittable::Translate(moved) => moved.object.colours_not_negative(),
            Hittable::RotateY(turned) => turned.object.colours_not_negative(),
            Hittable::List(list) => all_colours_not_negative(list.objects@, list.objects@.len()),
        }
    }

    /// No chance enters where a ray hits the primitive: there is no medium
    /// in it.
    pub open spec fn without_chance(&self) -> bool
        decreases self, 0nat,
    {
        match self {
            Hittable::Sphere(_) => true,
            Hittable::Quad(_) => true,
            Hittable::ConstantMedium(_) => false,
            Hittable::Translate(moved) => moved.object.without_chance(),
            Hittable::RotateY(turned) => turned.object.without_chance(),
            Hittable::List(list) => all_without_chance(list.objects@, list.objects@.len()),
        }
    }

    /// The closest hit of `ray` strictly between `t_min` and `t_max`, if
    /// there is one.
    pub fn hit(&self, ray: &Ray, t_min: Scalar, t_max: Scalar) -> (r: Option<HitRecord>)
        ensures
            self.admits(*ray, t_min, t_max, r),
            hit_within(r, t_min, t_max),
        decreases self, 1nat,
    {
        match self {
            Hittable::Sphere(sphere) => sphere.hit(ray, t_min, t_max),
            Hittable::Quad(quad) => quad.hit(ray, t_min, t_max),
            Hittable::ConstantMedium(medium) => medium.hit(ray, t_min, t_max),
            Hittable::Translate(moved) => moved.hit(ray, t_min, t_max),
            Hittable::RotateY(turned) => turned.hit(ray, t_min, t_max),
            Hittable::List(list) => list.hit(ray, t_min, t_max),
        }
    }

    /// The density with which [`Hittable::random`] sends a direction from
    /// `origin` along `direction`. A sphere is sampled over the cone it
    /// fills, a list is the even mixture of its members, and no other
    /// primitive is sampled toward: its density is 0.
    pub open spec fn spec_pdf_value(&self, origin: Point3, direction: Vec3) -> Scalar
        decreases self, 0nat,
    {
        match self {
            Hittable::Sphere(sphere) => sphere.spec_pdf_value(origin, direction),
            Hittable::List(list) => density_sum(
                list.objects@,
                list.objects@.len(),
                origin,
                direction,
                list.weight(),
            ),
            _ => Scalar::zero(),
        }
    }

    /// See [`Hittable::spec_pdf_value`].
    pub fn pdf_value(&self, origin: Point3, direction: Vec3) -> (r: Scalar)
        ensures
            r == self.spec_pdf_value(origin, direction),
            r@ >= 0,
        decreases self, 1nat,
    {
        proof {
            lemma_densities_not_negative(origin, direction);
        }
        match self {
            Hittable::Sphere(sphere) => sphere.pdf_value(origin, direction),
            Hittable::List(list) => list.pdf_value(origin, direction),
            _ => Scalar::zero(),
        }
    }

    /// A direction can be drawn toward the primitive: no list in it is
    /// empty or longer than a draw can index.
    pub open spec fn samplable(&self) -> bool
        decreases self, 0nat,
    {
        match self {
            Hittable::List(list) => 0 < list.objects@.len() <= i32::MAX && all_samplable(
                list.objects@,
                list.objects@.len(),
            ),
            _ => true,
        }
    }

    /// Whether a direction can be drawn toward the primitive.
    pub fn can_sample(&self) -> (r: bool)
        ensures
            r == self.samplable(),
        decreases self, 1nat,
    {
        match self {
            Hittable::List(list) => list.can_sample(),
            _ => true,
        }
    }

    /// `out` is a direction that `random` can give from `origin`: for a
    /// sphere one into its cone, for a list one that a member can give, and
    /// for every other primitive the x axis.
    pub open spec fn sample_admits(&self, origin: Point3, out: Vec3) -> bool
        decreases self, 0nat,
    {
        match self {
            Hittable::Sphere(sphere) => sphere.sample_admits(origin, out),
            Hittable::List(list) => exists|index: int| #[trigger]
                chosen_member(index) && 0 <= index < list.objects@.len()
                    && list.objects@[index].sample_admits(origin, out),
            _ => out == Vec3::from_ints(1, 0, 0),
        }
    }

    /// A random direction from `origin` toward the primitive.
    pub fn random(&self, origin: Point3) -> (r: Vec3)
        requires
            self.samplable(),
        ensures
            self.sample_admits(origin, r),
        decreases self, 1nat,
    {
        match self {
            Hittable::Sphere(sphere) => sphere.random(origin),
            Hittable::List(list) => list.random(origin),
            _ => Vec3::from_ints(1, 0, 0),
        }
    }
}

/// The first `n` of `objects` can all be sampled toward.
pub open spec fn all_samplable(objects: Seq<Hittable>, n: nat) -> bool
    decreases objects, n,
{
    if n == 0 || n > objects.len() {
        true
    } else {
        all_samplable(objects, (n - 1) as nat) && objects[n - 1].samplable()
    }
}

/// Each of the first `n` objects can be sampled toward where all can.
pub proof fn lemma_member_samplable(objects: Seq<Hittable>, n: nat, index: int)
    requires
        n <= objects.len(),
        all_samplable(objects, n),
        0 <= index < n,
    ensures
        objects[index].samplable(),
    decreases n,
{
    if index < n - 1 {
        lemma_member_samplable(objects, (n - 1) as nat, index);
    }
}

/// The normal of a record whose face was set points against the ray, for an
/// outward normal that has an opposite.
pub proof fn lemma_face_normal_opposes_ray(rec: HitRecord, r: Ray, outward_norm: Vec3)
    requires
        has_opposite(outward_norm),
    ensures
        rec.with_face_normal(r, outward_norm).opposes(r.dir),
        rec.with_face_normal(r, outward_norm).front_face <==> dot(r.dir, outward_norm)@ < 0,
{
    lemma_dot_neg(r.dir, outward_norm);
}

/// Whatever a primitive can answer, a hit lies strictly between the bounds
/// it was asked with.
pub proof fn lemma_hit_lies_within(
    object: Hittable,
    ray: Ray,
    t_min: Scalar,
    t_max: Scalar,
    out: Option<HitRecord>,
)
    requires
        object.admits(ray, t_min, t_max, out),
    ensures
        hit_within(out, t_min, t_max),
    decreases object, 1nat,
{
    match object {
        Hittable::Sphere(_) => {},
        Hittable::Quad(_) => {},
        Hittable::ConstantMedium(_) => {},
        Hittable::Translate(moved) => {
            let inner = choose|inner: Option<HitRecord>| #[trigger]
                inner_hit(inner) && moved.object.admits(moved.local_ray(&ray), t_min, t_max, inner)
                    && out == moved.restore(inner);
            lemma_hit_lies_within(*moved.object, moved.local_ray(&ray), t_min, t_max, inner);
        },
        Hittable::RotateY(turned) => {
            let inner = choose|inner: Option<HitRecord>| #[trigger]
                inner_hit(inner) && turned.object.admits(
                    turned.local_ray(&ray),
                    t_min,
                    t_max,
                    inner,
                ) && out == turned.restore(inner);
            lemma_hit_lies_within(*turned.object, turned.local_ray(&ray), t_min, t_max, inner);
        },
        Hittable::List(list) => {
            lemma_sweep_lies_within(list.objects@, list.objects@.len(), ray, t_min, t_max, out);
        },
    }
}

/// A primitive without a medium in it has one answer to a ray: two results
/// that `hit` can give are the same.
pub proof fn lemma_hit_is_determined(
    object: Hittable,
    ray: Ray,
    t_min: Scalar,
    t_max: Scalar,
    one: Option<HitRecord>,
    other: Option<HitRecord>,
)
    requires
        object.without_chance(),
        object.admits(ray, t_min, t_max, one),
        object.admits(ray, t_min, t_max, other),
    ensures
        one == other,
    decreases object, 1nat,
{
    match object {
        Hittable::Sphere(_) => {},
        Hittable::Quad(_) => {},
        Hittable::ConstantMedium(_) => {},
        Hittable::Translate(moved) => {
            let first = choose|inner: Option<HitRecord>| #[trigger]
                inner_hit(inner) && moved.object.admits(moved.local_ray(&ray), t_min, t_max, inner)
                    && one == moved.restore(inner);
            let second = choose|inner: Option<HitRecord>| #[trigger]
                inner_hit(inner) && moved.object.admits(moved.local_ray(&ray), t_min, t_max, inner)
                    && other == moved.restore(inner);
            lemma_hit_is_determined(
                *moved.object,
                moved.local_ray(&ray),
                t_min,
                t_max,
                first,
                second,
            );
        },
        Hittable::RotateY(turned) => {
            let first = choose|inner: Option<HitRecord>| #[trigger]
                inner_hit(inner) && turned.object.admits(
                    turned.local_ray(&ray),
                    t_min,
                    t_max,
                    inner,
                ) && one == turned.restore(inner);
            let second = choose|inner: Option<HitRecord>| #[trigger]
                inner_hit(inner) && turned.object.admits(
                    turned.local_ray(&ray),
                    t_min,
                    t_max,
                    inner,
                ) && other == turned.restore(inner);
            lemma_hit_is_determined(
                *turned.object,
                turned.local_ray(&ray),
                t_min,
                t_max,
                first,
                second,
            );
        },
        Hittable::List(list) => {
            lemma_sweep_is_determined(
                list.objects@,
                list.objects@.len(),
                ray,
                t_min,
                t_max,
                one,
                other,
            );
        },
    }
}

/// Whatever a primitive without a negative colour can answer, the material
/// of a hit has no negative colour in it.
pub proof fn lemma_hit_material_not_negative(
    object: &Hittable,
    ray: Ray,
    t_min: Scalar,
    t_max: Scalar,
    out: Option<HitRecord>,
)
    requires
        object.colours_not_negative(),
        object.admits(ray, t_min, t_max, out),
    ensures
        out matches Some(rec) ==> rec.mat.colours_not_negative(),
    decreases object, 1nat,
{
    match object {
        Hittable::Sphere(_) => {},
        Hittable::Quad(_) => {},
        Hittable::ConstantMedium(_) => {},
        Hittable::Translate(moved) => {
            let inner = choose|inner: Option<HitRecord>| #[trigger]
                inner_hit(inner) && moved.object.admits(moved.local_ray(&ray), t_min, t_max, inner)
                    && out == moved.restore(inner);
            lemma_hit_material_not_negative(
                &*moved.object,
                moved.local_ray(&ray),
                t_min,
                t_max,
                inner,
            );
        },
        Hittable::RotateY(turned) => {
            let inner = choose|inner: Option<HitRecord>| #[trigger]
                inner_hit(inner) && turned.object.admits(
                    turned.local_ray(&ray),
                    t_min,
                    t_max,
                    inner,
                ) && out == turned.restore(inner);
            lemma_hit_material_not_negative(
                &*turned.object,
                turned.local_ray(&ray),
                t_min,
                t_max,
                inner,
            );
        },
        Hittable::List(list) => {
            lemma_sweep_material_not_negative(
                list.objects@,
                list.objects@.len(),
                ray,
                t_min,
                t_max,
                out,
            );
        },
    }
}

/// Whatever a primitive can answer, the surface coordinates of a hit lie in
/// `[0, 1]`.
pub proof fn lemma_hit_on_unit_square(
    object: Hittable,
    ray: Ray,
    t_min: Scalar,
    t_max: Scalar,
    out: Option<HitRecord>,
)
    requires
        object.admits(ray, t_min, t_max, out),
    ensures
        out matches Some(rec) ==> rec.on_unit_square(),
    decreases object, 1nat,
{
    match object {
        Hittable::Sphere(sphere) => {
            if let Some(t) = sphere.root(ray, t_min, t_max) {
                lemma_sphere_uv_range(sphere.outward_normal(ray, t));
            }
        },
        Hittable::Quad(_) => {},
        Hittable::ConstantMedium(_) => {},
        Hittable::Translate(moved) => {
            let inner = choose|inner: Option<HitRecord>| #[trigger]
                inner_hit(inner) && moved.object.admits(moved.local_ray(&ray), t_min, t_max, inner)
                    && out == moved.restore(inner);
            lemma_hit_on_unit_square(*moved.object, moved.local_ray(&ray), t_min, t_max, inner);
        },
        Hittable::RotateY(turned) => {
            let inner = choose|inner: Option<HitRecord>| #[trigger]
                inner_hit(inner) && turned.object.admits(
                    turned.local_ray(&ray),
                    t_min,
                    t_max,
                    inner,
                ) && out == turned.restore(inner);
            lemma_hit_on_unit_square(*turned.object, turned.local_ray(&ray), t_min, t_max, inner);
        },
        Hittable::List(list) => {
            lemma_sweep_on_unit_square(
                list.objects@,
                list.objects@.len(),
                ray,
                t_min,
                t_max,
                out,
            );
        },
    }
}

/// The density with which a primitive is sampled toward is never negative.
pub proof fn lemma_density_not_negative(object: Hittable, origin: Point3, direction: Vec3)
    ensures
        object.spec_pdf_value(origin, direction)@ >= 0,
    decreases object, 1nat,
{
    match object {
        Hittable::Sphere(sphere) => {
            lemma_sphere_density_not_negative(sphere, origin, direction);
        },
        Hittable::List(list) => {
            list.lemma_weight_not_negative();
            lemma_density_sum_not_negative(
                list.objects@,
                list.objects@.len(),
                origin,
                direction,
                list.weight(),
            );
        },
        _ => {},
    }
}

/// No primitive has a negative density along `direction` from `origin`.
pub proof fn lemma_densities_not_negative(origin: Point3, direction: Vec3)
    ensures
        forall|object: Hittable| (#[trigger] object.spec_pdf_value(origin, direction))@ >= 0,
{
    assert forall|object: Hittable| (#[trigger] object.spec_pdf_value(origin, direction))@
        >= 0 by {
        lemma_density_not_negative(object, origin, direction);
    }
}

} // verus!
