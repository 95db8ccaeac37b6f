//! Primitives moved or turned: the ray is carried into the frame of the
//! wrapped primitive, and the hit is carried back.
use crate::common::{cos, degrees_to_radians, sin};
use crate::hittable::{hit_within, inner_hit, HitRecord, Hittable};
use crate::ray::Ray;
use crate::scalar::{Scalar, LIMIT};
use crate::vec3::{has_opposite, Point3, Vec3};
use vstd::prelude::*;

verus! {

/// A primitive moved by `offset`.
#[derive(Debug)]
pub struct Translate {
    pub object: Box<Hittable>,
    pub offset: Vec3,
}

impl Translate {
    /// `object` moved by `offset`.
    pub fn new(object: Hittable, offset: Vec3) -> (r: Translate)
        ensures
            *r.object == object,
            r.offset == offset,
    {
        Translate { object: Box::new(object), offset }
    }

    /// The ray in the frame of the wrapped primitive: moved back by the
    /// offset.
    pub open spec fn spec_local_ray(&self, ray: &Ray) -> Ray {
        Ray::new(ray.origin.sub(self.offset), ray.dir, ray.time)
    }

    /// See [`Translate::spec_local_ray`].
    #[verifier::when_used_as_spec(spec_local_ray)]
    pub fn local_ray(&self, ray: &Ray) -> (r: Ray)
        ensures
            r == self.spec_local_ray(ray),
    {
        Ray::new(ray.origin().sub(self.offset), ray.direction(), ray.time())
    }

    /// The hit of the wrapped primitive carried back: its point moved by
    /// the offset, the rest as it is.
    pub open spec fn spec_restore(&self, inner: Option<HitRecord>) -> Option<HitRecord> {
        match inner {
            None => None,
            Some(rec) => Some(HitRecord { p: rec.p.add(self.offset), ..rec }),
        }
    }

    /// See [`Translate::spec_restore`].
    #[verifier::when_used_as_spec(spec_restore)]
    pub fn restore(&self, inner: Option<HitRecord>) -> (r: Option<HitRecord>)
        ensures
            r == self.spec_restore(inner),
    {
        match inner {
            None => None,
            Some(mut hit_record) => {
                hit_record.p = hit_record.p.add(self.offset);
                Some(hit_record)
            },
        }
    }

    /// `out` is a result that [`Translate::hit`] can give: what the wrapped
    /// primitive can give for the ray moved back, carried back.
    pub open spec fn admits(
        &self,
        ray: Ray,
        t_min: Scalar,
        t_max: Scalar,
        out: Option<HitRecord>,
    ) -> bool
        decreases self, 0nat,
    {
        exists|inner: Option<HitRecord>| #[trigger]
            inner_hit(inner) && self.object.admits(self.local_ray(&ray), t_min, t_max, inner)
                && out == self.restore(inner)
    }

    /// The hit of `ray` with the moved primitive: the hit of the ray moved
    /// back with the primitive itself, its point moved forth.
    pub fn hit(&self, ray: &Ray, t_min: Scalar, t_max: Scalar) -> (r: Option<HitRecord>)
        ensures
            self.admits(*ray, t_min, t_max, r),
            hit_within(r, t_min, t_max),
        decreases self, 0nat,
    {
        let inner = self.object.hit(&self.local_ray(ray), t_min, t_max);
        assert(inner_hit(inner));
        self.restore(inner)
    }
}

/// A primitive turned about the y axis by the angle with the given sine and
/// cosine.
#[derive(Debug)]
pub struct RotateY {
    pub object: Box<Hittable>,
    pub sin_theta: Scalar,
    pub cos_theta: Scalar,
}

impl RotateY {
    /// `object` turned about the y axis by `angle` degrees.
    pub fn new(object: Hittable, angle: Scalar) -> (r: RotateY)
        ensures
            *r.object == object,
            r.sin_theta == sin(degrees_to_radians(angle)),
            r.cos_theta == cos(degrees_to_radians(angle)),
    {
        let radians = degrees_to_radians(angle);
        let sin_theta = sin(radians);
        let cos_theta = cos(radians);
        RotateY { object: Box::new(object), sin_theta, cos_theta }
    }

    /// `v` turned into the frame of the wrapped primitive, by the opposite
    /// angle: `(cos x - sin z, y, sin x + cos z)`.
    pub open spec fn spec_to_local(&self, v: Vec3) -> Vec3 {
        Vec3::new(
            self.cos_theta.mul(v.x).sub(self.sin_theta.mul(v.z)),
            v.y,
            self.sin_theta.mul(v.x).add(self.cos_theta.mul(v.z)),
        )
    }

    /// See [`RotateY::spec_to_local`].
    #[verifier::when_used_as_spec(spec_to_local)]
    pub fn to_local(&self, v: Vec3) -> (r: Vec3)
        ensures
            r == self.spec_to_local(v),
    {
        Vec3::new(
            self.cos_theta.mul(v.x()).sub(self.sin_theta.mul(v.z())),
            v.y(),
            self.sin_theta.mul(v.x()).add(self.cos_theta.mul(v.z())),
        )
    }

    /// `v` turned back out of the frame of the wrapped primitive:
    /// `(cos x + sin z, y, -sin x + cos z)`.
    pub open spec fn spec_to_world(&self, v: Vec3) -> Vec3 {
        Vec3::new(
            self.cos_theta.mul(v.x).add(self.sin_theta.mul(v.z)),
            v.y,
            self.sin_theta.neg().mul(v.x).add(self.cos_theta.mul(v.z)),
        )
    }

    /// See [`RotateY::spec_to_world`].
    #[verifier::when_used_as_spec(spec_to_world)]
    pub fn to_world(&self, v: Vec3) -> (r: Vec3)
        ensures
            r == self.spec_to_world(v),
    {
        Vec3::new(
            self.cos_theta.mul(v.x()).add(self.sin_theta.mul(v.z())),
            v.y(),
            self.sin_theta.neg().mul(v.x()).add(self.cos_theta.mul(v.z())),
        )
    }

    /// The ray in the frame of the wrapped primitive: origin and direction
    /// turned into it.
    pub open spec fn spec_local_ray(&self, ray: &Ray) -> Ray {
        Ray::new(self.to_local(ray.origin), self.to_local(ray.dir), ray.time)
    }

    /// See [`RotateY::spec_local_ray`].
    #[verifier::when_used_as_spec(spec_local_ray)]
    pub fn local_ray(&self, ray: &Ray) -> (r: Ray)
        ensures
            r == self.spec_local_ray(ray),
    {
        Ray::new(self.to_local(ray.origin()), self.to_local(ray.direction()), ray.time())
    }

    /// The hit of the wrapped primitive carried back: its point and its
    /// normal turned back, the rest as it is.
    pub open spec fn spec_restore(&self, inner: Option<HitRecord>) -> Option<HitRecord> {
        match inner {
            None => None,
            Some(rec) => Some(
                HitRecord { p: self.to_world(rec.p), normal: self.to_world(rec.normal), ..rec },
            ),
        }
    }

    /// See [`RotateY::spec_restore`].
    #[verifier::when_used_as_spec(spec_restore)]
    pub fn restore(&self, inner: Option<HitRecord>) -> (r: Option<HitRecord>)
        ensures
            r == self.spec_restore(inner),
    {
        match inner {
            None => None,
            Some(mut hit_record) => {
                hit_record.p = self.to_world(hit_record.p);
                hit_record.normal = self.to_world(hit_record.normal);
                Some(hit_record)
            },
        }
    }

    /// `out` is a result that [`RotateY::hit`] can give: what the wrapped
    /// primitive can give for the ray turned into its frame, carried back.
    pub open spec fn admits(
        &self,
        ray: Ray,
        t_min: Scalar,
        t_max: Scalar,
        out: Option<HitRecord>,
    ) -> bool
        decreases self, 0nat,
    {
        exists|inner: Option<HitRecord>| #[trigger]
            inner_hit(inner) && self.object.admits(self.local_ray(&ray), t_min, t_max, inner)
                && out == self.restore(inner)
    }

    /// The hit of `ray` with the turned primitive: the hit of the ray
    /// turned into the frame of the primitive, its point and normal turned
    /// back.
    pub fn hit(&self, ray: &Ray, t_min: Scalar, t_max: Scalar) -> (r: Option<HitRecord>)
        ensures
            self.admits(*ray, t_min, t_max, r),
            hit_within(r, t_min, t_max),
        decreases self, 0nat,
    {
        let inner = self.object.hit(&self.local_ray(ray), t_min, t_max);
        assert(inner_hit(inner));
        self.restore(inner)
    }
}

/// A primitive moved by `offset` is hit by a ray where the primitive
/// itself is hit by the ray moved back by `offset`: whatever the primitive
/// can answer to the ray moved back, the moved primitive can answer to the
/// ray, with the point of the hit moved by `offset` and the rest of the hit
/// as it is.
pub proof fn lemma_moved_hit(
    object: Hittable,
    offset: Vec3,
    ray: Ray,
    t_min: Scalar,
    t_max: Scalar,
    inner: Option<HitRecord>,
)
    requires
        object.admits(Ray::new(ray.origin.sub(offset), ray.dir, ray.time), t_min, t_max, inner),
    ensures
        Hittable::Translate(Translate { object: Box::new(object), offset }).admits(
            ray,
            t_min,
            t_max,
            match inner {
                None => None,
                Some(rec) => Some(HitRecord { p: rec.p.add(offset), ..rec }),
            },
        ),
{
    assert(inner_hit(inner));
}

/// The converse of [`lemma_moved_hit`]: whatever a moved primitive answers
/// to a ray is an answer of the primitive itself to the ray moved back,
/// with the point of the hit moved by `offset`.
pub proof fn lemma_moved_hit_comes_from_inner(
    object: Hittable,
    offset: Vec3,
    ray: Ray,
    t_min: Scalar,
    t_max: Scalar,
    out: Option<HitRecord>,
)
    requires
        Hittable::Translate(Translate { object: Box::new(object), offset }).admits(
            ray,
            t_min,
            t_max,
            out,
        ),
    ensures
        exists|inner: Option<HitRecord>| #[trigger]
            inner_hit(inner) && object.admits(
                Ray::new(ray.origin.sub(offset), ray.dir, ray.time),
                t_min,
                t_max,
                inner,
            ) && out == (match inner {
                None => None,
                Some(rec) => Some(HitRecord { p: rec.p.add(offset), ..rec }),
            }),
{
}

/// Where no coordinate leaves the range of the scalars, moving a point back
/// and forth by `offset` gives the point again: the hit point of a moved
/// primitive is then exactly the hit point of the primitive, moved.
pub proof fn lemma_move_back_and_forth(p: Point3, offset: Vec3)
    requires
        has_opposite(p),
        -LIMIT <= p.x@ - offset.x@ <= LIMIT,
        -LIMIT <= p.y@ - offset.y@ <= LIMIT,
        -LIMIT <= p.z@ - offset.z@ <= LIMIT,
    ensures
        p.sub(offset).add(offset) == p,
{
}

} // verus!
