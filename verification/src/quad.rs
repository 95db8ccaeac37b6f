//! Parallelograms, and the box made of six of them.
use crate::hittable::{share, HitRecord, Hittable};
use crate::hittable_list::HittableList;
use crate::material::Material;
use crate::ray::Ray;
use crate::scalar::{Scalar, SCALE};
use crate::vec3::{cross, dot, has_opposite, unit_vector, Point3, Vec3};
use std::sync::Arc;
use vstd::prelude::*;

verus! {

/// A ray whose direction has a component along the normal smaller than
/// this, in millionths, counts as parallel to the plane.
pub const PARALLEL_MICROS: i64 = 1;

/// The parallelogram with the corner `q` and the edges `u` and `v`.
///
/// `normal` is the unit normal of its plane, `d` the plane's offset (the
/// plane is `normal . p = d`), and `area` the length of `u x v`. The normal
/// and the area give the coordinates of a point of the plane along the two
/// edges; a helper vector `n / (n . n)` with `n = u x v` would give the same
/// coordinates, but it is too short to be held exactly for a large
/// parallelogram.
#[derive(Clone, Debug)]
pub struct Quad {
    pub q: Point3,
    pub v: Vec3,
    pub u: Vec3,
    pub normal: Vec3,
    pub area: Scalar,
    pub d: Scalar,
    pub mat: Arc<Material>,
}

impl Quad {
    pub open spec fn spec_new(q: Point3, u: Vec3, v: Vec3, mat: Arc<Material>) -> Quad {
        Quad {
            q,
            u,
            v,
            area: cross(u, v).length(),
            mat,
            d: dot(unit_vector(cross(u, v)), q),
            normal: unit_vector(cross(u, v)),
        }
    }

    /// The parallelogram with the corner `q` and the edges `u` and `v`.
    #[verifier::when_used_as_spec(spec_new)]
    pub fn new(q: Point3, u: Vec3, v: Vec3, mat: Arc<Material>) -> (r: Quad)
        ensures
            r == Quad::spec_new(q, u, v, mat),
    {
        let n = cross(u, v);
        let normal = unit_vector(n);
        let d = dot(normal, q);
        let area = n.length();
        Quad { q, u, v, area, mat, d, normal }
    }

    /// The six sides of the box with the opposite corners `min` and `max`,
    /// in the order front, right, back, left, top, bottom.
    pub open spec fn box_sides(min: Point3, max: Point3, mat: Arc<Material>) -> Seq<Hittable> {
        let dx = Vec3::new(max.x.sub(min.x), Scalar::zero(), Scalar::zero());
        let dy = Vec3::new(Scalar::zero(), max.y.sub(min.y), Scalar::zero());
        let dz = Vec3::new(Scalar::zero(), Scalar::zero(), max.z.sub(min.z));
        seq![
            Hittable::Quad(Quad::new(Point3::new(min.x, min.y, max.z), dx, dy, mat)),
            Hittable::Quad(Quad::new(Point3::new(max.x, min.y, max.z), dz.neg(), dy, mat)),
            Hittable::Quad(Quad::new(Point3::new(max.x, min.y, min.z), dx.neg(), dy, mat)),
            Hittable::Quad(Quad::new(Point3::new(min.x, min.y, min.z), dz, dy, mat)),
            Hittable::Quad(Quad::new(Point3::new(min.x, max.y, max.z), dx, dz.neg(), mat)),
            Hittable::Quad(Quad::new(Point3::new(min.x, min.y, min.z), dx, dz, mat)),
        ]
    }

    /// The box with the opposite corners `min` and `max`, as the list of
    /// its six sides.
    pub fn get_box(min: Point3, max: Point3, mat: Arc<Material>) -> (r: HittableList)
        ensures
            r.objects@ == Quad::box_sides(min, max, mat),
    {
        let mut sides = HittableList::new();
        let dx = Vec3::new(max.x().sub(min.x()), Scalar::zero(), Scalar::zero());
        let dy = Vec3::new(Scalar::zero(), max.y().sub(min.y()), Scalar::zero());
        let dz = Vec3::new(Scalar::zero(), Scalar::zero(), max.z().sub(min.z()));
        sides.add(
            Hittable::Quad(Quad::new(Point3::new(min.x(), min.y(), max.z()), dx, dy, share(&mat))),
        );
        sides.add(
            Hittable::Quad(
                Quad::new(Point3::new(max.x(), min.y(), max.z()), dz.neg(), dy, share(&mat)),
            ),
        );
        sides.add(
            Hittable::Quad(
                Quad::new(Point3::new(max.x(), min.y(), min.z()), dx.neg(), dy, share(&mat)),
            ),
        );
        sides.add(
            Hittable::Quad(Quad::new(Point3::new(min.x(), min.y(), min.z()), dz, dy, share(&mat))),
        );
        sides.add(
            Hittable::Quad(
                Quad::new(Point3::new(min.x(), max.y(), max.z()), dx, dz.neg(), share(&mat)),
            ),
        );
        sides.add(
            Hittable::Quad(Quad::new(Point3::new(min.x(), min.y(), min.z()), dx, dz, share(&mat))),
        );
        assert(sides.objects@ =~= Quad::box_sides(min, max, mat));
        sides
    }

    /// The component of the ray's direction along the normal.
    pub open spec fn denominator(&self, ray: Ray) -> Scalar {
        dot(self.normal, ray.dir)
    }

    /// The ray runs along the plane, within the tolerance.
    pub open spec fn is_parallel(&self, ray: Ray) -> bool {
        self.denominator(ray).abs()@ < PARALLEL_MICROS
    }

    /// The parameter at which the ray meets the plane:
    /// `(d - normal . origin) / (normal . dir)`.
    pub open spec fn parameter(&self, ray: Ray) -> Scalar {
        self.d.sub(dot(self.normal, ray.origin)).div(self.denominator(ray))
    }

    /// The coordinate along the edge `u` of the point of `ray` at `t`:
    /// `normal . ((p - q) x v) / area`.
    pub open spec fn alpha(&self, ray: Ray, t: Scalar) -> Scalar {
        dot(self.normal, cross(ray.at(t).sub(self.q), self.v)).div(self.area)
    }

    /// The coordinate along the edge `v` of the point of `ray` at `t`:
    /// `normal . (u x (p - q)) / area`.
    pub open spec fn beta(&self, ray: Ray, t: Scalar) -> Scalar {
        dot(self.normal, cross(self.u, ray.at(t).sub(self.q))).div(self.area)
    }

    /// The coordinate lies in `[0, 1]`.
    pub open spec fn in_unit_range(coordinate: Scalar) -> bool {
        0 <= coordinate@ <= SCALE
    }

    /// The ray meets the parallelogram strictly between the bounds: it is
    /// not parallel to the plane, meets the plane between the bounds, and
    /// does so at coordinates in `[0, 1]` along both edges.
    pub open spec fn meets(&self, ray: Ray, t_min: Scalar, t_max: Scalar) -> bool {
        &&& !self.is_parallel(ray)
        &&& t_min@ < self.parameter(ray)@ < t_max@
        &&& Quad::in_unit_range(self.alpha(ray, self.parameter(ray)))
        &&& Quad::in_unit_range(self.beta(ray, self.parameter(ray)))
    }

    /// The record of the hit of `ray` at the parameter `t`; the surface
    /// coordinates are the coordinates along the edges.
    pub open spec fn record(&self, ray: Ray, t: Scalar) -> HitRecord {
        HitRecord {
            t,
            p: ray.at(t),
            mat: self.mat,
            normal: Vec3::zero(),
            front_face: false,
            u: self.alpha(ray, t),
            v: self.beta(ray, t),
        }.with_face_normal(ray, self.normal)
    }

    /// The hit of `ray` strictly between `t_min` and `t_max`.
    pub open spec fn spec_hit(&self, ray: Ray, t_min: Scalar, t_max: Scalar) -> Option<HitRecord> {
        if self.meets(ray, t_min, t_max) {
            Some(self.record(ray, self.parameter(ray)))
        } else {
            None
        }
    }

    /// The hit of `ray` strictly between `t_min` and `t_max`.
    pub fn hit(&self, ray: &Ray, t_min: Scalar, t_max: Scalar) -> (r: Option<HitRecord>)
        ensures
            r == self.spec_hit(*ray, t_min, t_max),
            r is Some <==> self.meets(*ray, t_min, t_max),
            r matches Some(rec) ==> rec.within(t_min, t_max) && rec.p == ray.at(rec.t)
                && Quad::in_unit_range(rec.u) && Quad::in_unit_range(rec.v),
            r matches Some(rec) ==> has_opposite(self.normal) ==> rec.opposes(ray.dir),
    {
        let denom = dot(self.normal, ray.direction());
        if denom.abs().micros < PARALLEL_MICROS {
            return None;
        }
        let t = self.d.sub(dot(self.normal, ray.origin())).div(denom);
        if t.micros <= t_min.micros || t.micros >= t_max.micros {
            return None;
        }
        let intersection = ray.at(t);
        let planar_hit_point = intersection.sub(self.q);
        let alpha = dot(self.normal, cross(planar_hit_point, self.v)).div(self.area);
        let beta = dot(self.normal, cross(self.u, planar_hit_point)).div(self.area);
        if alpha.micros < 0 || alpha.micros > SCALE || beta.micros < 0 || beta.micros > SCALE {
            return None;
        }
        let mut rec = HitRecord {
            t,
            p: intersection,
            mat: share(&self.mat),
            normal: Vec3::zero(),
            front_face: false,
            u: alpha,
            v: beta,
        };
        rec.set_face_normal(ray, self.normal);
        Some(rec)
    }
}

} // verus!
