//! Spheres, at rest or moving along a line.
use crate::common::{
    acos, atan2, cos, infinity, is_unit_draw, lemma_acos_range, lemma_atan2_range, pi,
    random_double, sin, TWO_PI_MICROS,
};
use crate::hittable::{share, HitRecord};
use crate::material::Material;
use crate::onb::about;
use crate::ray::Ray;
use crate::scalar::{
    lemma_div_at_most_one, lemma_div_sign, lemma_mul_bound, lemma_mul_neg, lemma_mul_sign,
    lemma_sqrt_value, Scalar, SCALE,
};
use crate::vec2::UV;
use crate::vec3::{
    dot, lemma_length_squared_not_negative, lemma_shrink_has_opposite, Point3, Vec3,
};
use std::sync::Arc;
use vstd::prelude::*;

verus! {

/// The lower bound on the ray parameter that keeps a ray from hitting the
/// surface it starts on: one thousandth.
pub const SURFACE_GAP_MICROS: i64 = 1_000;

/// A sphere. Its centre at the time `t` is `center.at(t)`, so `center` is
/// the line the sphere moves along.
#[derive(Clone, Debug)]
pub struct Sphere {
    pub center: Ray,
    pub radius: Scalar,
    pub mat: Arc<Material>,
}

impl Sphere {
    /// The sphere of the given radius and material whose centre moves along
    /// `center`.
    pub fn new(center: Ray, mat: Arc<Material>, radius: Scalar) -> (r: Sphere)
        ensures
            r.center == center,
            r.mat == mat,
            r.radius == radius,
    {
        Sphere { center, mat, radius }
    }

    /// The surface coordinates of the point `p` of the unit sphere: `u` is
    /// the angle about the y axis, counted from the negative x axis, as a
    /// fraction of the full turn, and `v` the angle from the south pole as a
    /// fraction of the half turn.
    pub open spec fn spec_get_sphere_uv(p: Point3) -> UV {
        UV {
            x: atan2(p.z.neg(), p.x).add(pi()).div(Scalar { micros: TWO_PI_MICROS }),
            y: acos(p.y.neg()).div(pi()),
        }
    }

    /// See [`Sphere::spec_get_sphere_uv`].
    #[verifier::when_used_as_spec(spec_get_sphere_uv)]
    pub fn get_sphere_uv(p: Point3) -> (r: UV)
        ensures
            r == Sphere::spec_get_sphere_uv(p),
            0 <= r.x@ <= SCALE,
            0 <= r.y@ <= SCALE,
    {
        let theta = acos(p.y().neg());
        let phi = atan2(p.z().neg(), p.x()).add(pi());
        proof {
            lemma_div_at_most_one(phi, Scalar { micros: TWO_PI_MICROS });
            lemma_div_at_most_one(theta, pi());
        }
        UV::new(phi.div(Scalar { micros: TWO_PI_MICROS }), theta.div(pi()))
    }

    /// The vector from the centre at the ray's time to the ray's origin.
    pub open spec fn offset(&self, ray: Ray) -> Vec3 {
        ray.origin.sub(self.center.at(ray.time))
    }

    /// Half the linear coefficient of the quadratic in the ray parameter.
    pub open spec fn half_b(&self, ray: Ray) -> Scalar {
        dot(self.offset(ray), ray.dir)
    }

    /// The discriminant of the quadratic `a t^2 + 2 half_b t + c = 0` whose
    /// roots are the parameters at which the ray meets the sphere, with
    /// `a = |dir|^2` and `c = |offset|^2 - radius^2`: `half_b^2 - a c`.
    pub open spec fn discriminant(&self, ray: Ray) -> Scalar {
        self.half_b(ray).mul(self.half_b(ray)).sub(
            ray.dir.length_squared().mul(
                self.offset(ray).length_squared().sub(self.radius.mul(self.radius)),
            ),
        )
    }

    /// The smaller root: `(-half_b - sqrt(discriminant)) / a`.
    pub open spec fn near_root(&self, ray: Ray) -> Scalar {
        self.half_b(ray).neg().sub(self.discriminant(ray).sqrt()).div(ray.dir.length_squared())
    }

    /// The larger root: `(-half_b + sqrt(discriminant)) / a`.
    pub open spec fn far_root(&self, ray: Ray) -> Scalar {
        self.half_b(ray).neg().add(self.discriminant(ray).sqrt()).div(ray.dir.length_squared())
    }

    /// The parameter of the hit: the smaller root where it lies strictly
    /// between the bounds, else the larger root where that one does. There
    /// is none where the discriminant is negative or neither root lies
    /// between the bounds.
    pub open spec fn root(&self, ray: Ray, t_min: Scalar, t_max: Scalar) -> Option<Scalar> {
        if self.discriminant(ray)@ < 0 {
            None
        } else if t_min@ < self.near_root(ray)@ < t_max@ {
            Some(self.near_root(ray))
        } else if t_min@ < self.far_root(ray)@ < t_max@ {
            Some(self.far_root(ray))
        } else {
            None
        }
    }

    /// The unit normal that points out of the sphere at the point of `ray`
    /// with parameter `t`.
    pub open spec fn outward_normal(&self, ray: Ray, t: Scalar) -> Vec3 {
        ray.at(t).sub(self.center.at(ray.time)).shrink(self.radius)
    }

    /// The record of the hit of `ray` at the parameter `t`.
    pub open spec fn record(&self, ray: Ray, t: Scalar) -> HitRecord {
        HitRecord {
            t,
            p: ray.at(t),
            mat: self.mat,
            normal: Vec3::zero(),
            front_face: false,
            u: Sphere::get_sphere_uv(self.outward_normal(ray, t)).x,
            v: Sphere::get_sphere_uv(self.outward_normal(ray, t)).y,
        }.with_face_normal(ray, self.outward_normal(ray, t))
    }

    /// The hit of `ray` strictly between `t_min` and `t_max`.
    pub open spec fn spec_hit(&self, ray: Ray, t_min: Scalar, t_max: Scalar) -> Option<HitRecord> {
        match self.root(ray, t_min, t_max) {
            Some(t) => Some(self.record(ray, t)),
            None => None,
        }
    }

    /// The hit of `ray` strictly between `t_min` and `t_max`: at the
    /// smaller root of the quadratic where that lies between the bounds,
    /// else at the larger.
    pub fn hit(&self, ray: &Ray, t_min: Scalar, t_max: Scalar) -> (r: Option<HitRecord>)
        ensures
            r == self.spec_hit(*ray, t_min, t_max),
            self.discriminant(*ray)@ < 0 ==> r is None,
            r matches Some(rec) ==> rec.within(t_min, t_max) && rec.p == ray.at(rec.t) && (rec.t
                == self.near_root(*ray) || rec.t == self.far_root(*ray)),
            r matches Some(rec) ==> rec.opposes(ray.dir),
    {
        let current_center = self.center.at(ray.time());
        let oc = ray.origin().sub(current_center);
        let a = ray.direction().length_squared();
        let half_b = dot(oc, ray.direction());
        let c = oc.length_squared().sub(self.radius.mul(self.radius));
        let discriminant = half_b.mul(half_b).sub(a.mul(c));
        if discriminant.micros < 0 {
            return None;
        }
        let sqrt_disc = discriminant.sqrt();
        let mut root = half_b.neg().sub(sqrt_disc).div(a);
        if root.micros <= t_min.micros || root.micros >= t_max.micros {
            root = half_b.neg().add(sqrt_disc).div(a);
            if root.micros <= t_min.micros || root.micros >= t_max.micros {
                return None;
            }
        }
        let outward_norm = ray.at(root).sub(current_center).shrink(self.radius);
        proof {
            lemma_shrink_has_opposite(ray.at(root).sub(current_center), self.radius);
        }
        let uv: UV = Sphere::get_sphere_uv(outward_norm);
        let mut rec = HitRecord {
            t: root,
            p: ray.at(root),
            mat: share(&self.mat),
            normal: Vec3::zero(),
            front_face: false,
            u: uv.x(),
            v: uv.y(),
        };
        rec.set_face_normal(ray, outward_norm);
        Some(rec)
    }

    /// The cosine of the half angle of the cone that the sphere fills as
    /// seen from a point at the squared distance `distance_squared` from its
    /// centre: `sqrt(1 - radius^2 / distance^2)`.
    pub open spec fn spec_cos_theta_max(radius: Scalar, distance_squared: Scalar) -> Scalar {
        Scalar::one().sub(radius.mul(radius).div(distance_squared)).sqrt()
    }

    /// See [`Sphere::spec_cos_theta_max`].
    #[verifier::when_used_as_spec(spec_cos_theta_max)]
    pub fn cos_theta_max(radius: Scalar, distance_squared: Scalar) -> (r: Scalar)
        ensures
            r == Sphere::spec_cos_theta_max(radius, distance_squared),
    {
        Scalar::one().sub(radius.mul(radius).div(distance_squared)).sqrt()
    }

    /// The ray from `origin` along `direction` that the density is asked
    /// about.
    pub open spec fn sight(origin: Point3, direction: Vec3) -> Ray {
        Ray::new(origin, direction, Scalar::zero())
    }

    /// Whether the ray from `origin` along `direction` meets the sphere, as
    /// it stands at time 0, beyond the surface gap.
    pub open spec fn seen_along(&self, origin: Point3, direction: Vec3) -> bool {
        self.spec_hit(
            Sphere::sight(origin, direction),
            Scalar { micros: SURFACE_GAP_MICROS },
            infinity(),
        ) is Some
    }

    /// The solid angle of the cone that the sphere fills as seen from
    /// `origin`: `2 pi (1 - cos_theta_max)`.
    pub open spec fn solid_angle(&self, origin: Point3) -> Scalar {
        Scalar { micros: TWO_PI_MICROS }.mul(
            Scalar::one().sub(
                Sphere::cos_theta_max(
                    self.radius,
                    self.center.at(Scalar::zero()).sub(origin).length_squared(),
                ),
            ),
        )
    }

    /// The density of [`Sphere::random`] along `direction`: 0 where the ray
    /// from `origin` along `direction` misses the sphere, and one over the
    /// solid angle of the sphere's cone where it hits.
    pub open spec fn spec_pdf_value(&self, origin: Point3, direction: Vec3) -> Scalar {
        if self.seen_along(origin, direction) {
            Scalar::one().div(self.solid_angle(origin))
        } else {
            Scalar::zero()
        }
    }

    /// See [`Sphere::spec_pdf_value`].
    pub fn pdf_value(&self, origin: Point3, direction: Vec3) -> (r: Scalar)
        ensures
            r == self.spec_pdf_value(origin, direction),
            !self.seen_along(origin, direction) ==> r@ == 0,
            self.seen_along(origin, direction) ==> r == Scalar::one().div(
                Scalar { micros: TWO_PI_MICROS }.mul(
                    Scalar::one().sub(
                        Sphere::cos_theta_max(
                            self.radius,
                            self.center.at(Scalar::zero()).sub(origin).length_squared(),
                        ),
                    ),
                ),
            ),
    {
        let sight = Ray::new(origin, direction, Scalar::zero());
        match self.hit(&sight, Scalar { micros: SURFACE_GAP_MICROS }, infinity()) {
            None => Scalar::zero(),
            Some(_) => {
                let dist_squared = self.center.at(Scalar::zero()).sub(origin).length_squared();
                let cos_theta_max = Sphere::cos_theta_max(self.radius, dist_squared);
                let solid_angle = Scalar { micros: TWO_PI_MICROS }.mul(
                    Scalar::one().sub(cos_theta_max),
                );
                Scalar::one().div(solid_angle)
            },
        }
    }

    /// The direction, in the frame whose z axis points at the sphere, that
    /// the draws `u1`, `u2` select in the sphere's cone: at the height
    /// `z = 1 + u2 (cos_theta_max - 1)`, at the angle `2 pi u1` about the
    /// axis, at the distance `sqrt(1 - z^2)` from it.
    pub open spec fn spec_cone_direction(
        radius: Scalar,
        distance_squared: Scalar,
        u1: Scalar,
        u2: Scalar,
    ) -> Vec3 {
        let z = Scalar::one().add(
            u2.mul(Sphere::cos_theta_max(radius, distance_squared).sub(Scalar::one())),
        );
        let phi = Scalar { micros: TWO_PI_MICROS }.mul(u1);
        let rim = Scalar::one().sub(z.mul(z)).sqrt();
        Vec3 { x: cos(phi).mul(rim), y: sin(phi).mul(rim), z }
    }

    /// See [`Sphere::spec_cone_direction`].
    #[verifier::when_used_as_spec(spec_cone_direction)]
    pub fn cone_direction(radius: Scalar, distance_squared: Scalar, u1: Scalar, u2: Scalar) -> (r:
        Vec3)
        ensures
            r == Sphere::spec_cone_direction(radius, distance_squared, u1, u2),
    {
        let z = Scalar::one().add(
            u2.mul(Sphere::cos_theta_max(radius, distance_squared).sub(Scalar::one())),
        );
        let phi = Scalar { micros: TWO_PI_MICROS }.mul(u1);
        let rim = Scalar::one().sub(z.mul(z)).sqrt();
        Vec3 { x: cos(phi).mul(rim), y: sin(phi).mul(rim), z }
    }

    /// `out` can come out of [`Sphere::random_to_sphere`].
    pub open spec fn is_cone_draw(radius: Scalar, distance_squared: Scalar, out: Vec3) -> bool {
        exists|u1: Scalar, u2: Scalar|
            is_unit_draw(u1) && is_unit_draw(u2) && out == #[trigger] Sphere::cone_direction(
                radius,
                distance_squared,
                u1,
                u2,
            )
    }

    /// A random direction of the cone of a sphere, in the frame whose z
    /// axis points at the sphere: the one that two draws of `[0, 1)` select.
    pub fn random_to_sphere(radius: Scalar, distance_squared: Scalar) -> (r: Vec3)
        ensures
            Sphere::is_cone_draw(radius, distance_squared, r),
    {
        let r1 = random_double();
        let r2 = random_double();
        Sphere::cone_direction(radius, distance_squared, r1, r2)
    }

    /// The direction from `origin` to the centre at time 0.
    pub open spec fn toward(&self, origin: Point3) -> Vec3 {
        self.center.at(Scalar::zero()).sub(origin)
    }

    /// `out` is a direction that [`Sphere::random`] can give from `origin`:
    /// a direction of the sphere's cone, carried into the basis about the
    /// direction to the centre.
    pub open spec fn sample_admits(&self, origin: Point3, out: Vec3) -> bool {
        exists|local: Vec3| #[trigger]
            Sphere::is_cone_draw(self.radius, self.toward(origin).length_squared(), local) && out
                == about(self.toward(origin), local)
    }

    /// A random direction from `origin` into the cone that the sphere
    /// fills, uniform over its solid angle.
    pub fn random(&self, origin: Point3) -> (r: Vec3)
        ensures
            self.sample_admits(origin, r),
    {
        let direction = self.center.at(Scalar::zero()).sub(origin);
        let distance_squared = direction.length_squared();
        let local = Sphere::random_to_sphere(self.radius, distance_squared);
        assert(Sphere::is_cone_draw(self.radius, self.toward(origin).length_squared(), local));
        about(direction, local)
    }
}

/// A ray whose quadratic has a negative discriminant does not hit the
/// sphere, whatever the bounds.
pub proof fn lemma_negative_discriminant_misses(
    sphere: Sphere,
    ray: Ray,
    t_min: Scalar,
    t_max: Scalar,
)
    requires
        sphere.discriminant(ray)@ < 0,
    ensures
        sphere.spec_hit(ray, t_min, t_max) is None,
{
}

/// A ray whose quadratic has the discriminant 0 touches the sphere: the two
/// roots are one, and the ray hits the sphere there and nowhere else, if
/// that root lies strictly between the bounds.
pub proof fn lemma_tangent_ray_hits_once(sphere: Sphere, ray: Ray, t_min: Scalar, t_max: Scalar)
    requires
        sphere.discriminant(ray)@ == 0,
    ensures
        sphere.near_root(ray) == sphere.far_root(ray),
        sphere.spec_hit(ray, t_min, t_max) is Some <==> t_min@ < sphere.near_root(ray)@ < t_max@,
        sphere.spec_hit(ray, t_min, t_max) matches Some(rec) ==> rec.t == sphere.near_root(ray)
            && rec.p == ray.at(sphere.near_root(ray)),
{
    let root = sphere.discriminant(ray).sqrt();
    lemma_sqrt_value(sphere.discriminant(ray));
    assert(root@ == 0) by (nonlinear_arith)
        requires
            0 <= root@,
            root@ * root@ <= 0,
    ;
}

/// The surface coordinates of a point of the sphere lie in `[0, 1]`.
pub proof fn lemma_sphere_uv_range(p: Point3)
    ensures
        0 <= Sphere::get_sphere_uv(p).x@ <= SCALE,
        0 <= Sphere::get_sphere_uv(p).y@ <= SCALE,
{
    lemma_atan2_range(p.z.neg(), p.x);
    lemma_acos_range(p.y.neg());
    lemma_div_at_most_one(atan2(p.z.neg(), p.x).add(pi()), Scalar { micros: TWO_PI_MICROS });
    lemma_div_at_most_one(acos(p.y.neg()), pi());
}

/// The cosine of the half angle of a sphere's cone lies in `[0, 1]`.
pub proof fn lemma_cos_theta_max_range(radius: Scalar, distance_squared: Scalar)
    requires
        distance_squared@ >= 0,
    ensures
        0 <= Sphere::cos_theta_max(radius, distance_squared)@ <= Scalar::one()@,
{
    let square = radius.mul(radius);
    lemma_mul_sign(radius, radius);
    let share = square.div(distance_squared);
    if distance_squared@ > 0 {
        lemma_div_sign(square, distance_squared);
    } else {
        reveal(Scalar::spec_div);
    }
    let rest = Scalar::one().sub(share);
    lemma_sqrt_value(rest);
    let root = rest.sqrt();
    if rest@ >= 0 {
        assert(root@ <= SCALE) by (nonlinear_arith)
            requires
                0 <= root@,
                root@ * root@ <= rest@ * SCALE,
                rest@ <= SCALE,
                SCALE == 1_000_000,
        ;
    }
}

/// A direction that is drawn into the cone of a sphere lies in the cone: in
/// the frame whose z axis points at the sphere, its height is at least the
/// cosine of the half angle of the cone, and at most 1.
pub proof fn lemma_cone_direction_lies_in_the_cone(
    radius: Scalar,
    distance_squared: Scalar,
    u1: Scalar,
    u2: Scalar,
)
    requires
        is_unit_draw(u2),
        distance_squared@ >= 0,
    ensures
        Sphere::cos_theta_max(radius, distance_squared)@ <= Sphere::cone_direction(
            radius,
            distance_squared,
            u1,
            u2,
        ).z@ <= SCALE,
{
    let cosine = Sphere::cos_theta_max(radius, distance_squared);
    lemma_cos_theta_max_range(radius, distance_squared);
    let below = cosine.sub(Scalar::one());
    let above = below.neg();
    assert(above.neg() == below);
    lemma_mul_neg(u2, above);
    lemma_mul_bound(u2, above);
}

/// The density of a sphere is never negative.
pub proof fn lemma_sphere_density_not_negative(sphere: Sphere, origin: Point3, direction: Vec3)
    ensures
        sphere.spec_pdf_value(origin, direction)@ >= 0,
{
    let toward = sphere.center.at(Scalar::zero()).sub(origin);
    lemma_length_squared_not_negative(toward);
    lemma_cos_theta_max_range(sphere.radius, toward.length_squared());
    let rest = Scalar::one().sub(Sphere::cos_theta_max(sphere.radius, toward.length_squared()));
    let angle = Scalar { micros: TWO_PI_MICROS }.mul(rest);
    lemma_mul_sign(Scalar { micros: TWO_PI_MICROS }, rest);
    if angle@ > 0 {
        lemma_div_sign(Scalar::one(), angle);
    } else {
        reveal(Scalar::spec_div);
    }
}

/// A hit of a sphere lies strictly between the bounds, at one of the two
/// roots, and at the smaller one where that lies between the bounds.
pub proof fn lemma_hit_is_at_a_root(sphere: Sphere, ray: Ray, t_min: Scalar, t_max: Scalar)
    ensures
        sphere.spec_hit(ray, t_min, t_max) matches Some(rec) ==> rec.within(t_min, t_max) && (rec.t
            == sphere.near_root(ray) || rec.t == sphere.far_root(ray)),
        t_min@ < sphere.near_root(ray)@ < t_max@ && sphere.discriminant(ray)@ >= 0 ==> (
        sphere.spec_hit(ray, t_min, t_max) matches Some(rec) && rec.t == sphere.near_root(ray)),
{
}

} // verus!
