//! Media of constant density, such as smoke: a ray that passes through one
//! is scattered at a random depth.
use crate::color::Color;
use crate::common::{infinity, is_unit_draw, lemma_ln_sign, ln, random_double};
use crate::hittable::{hit_within, medium_pass, share, HitRecord, Hittable};
use crate::material::{Isotropic, Material};
use crate::ray::Ray;
use crate::scalar::{lemma_div_undoes_mul, lemma_mul_sign, Scalar};
use crate::vec3::Vec3;
use std::sync::Arc;
use vstd::prelude::*;

verus! {

/// How far beyond the hit where the ray enters the boundary the hit where it
/// leaves is sought, in millionths of the ray parameter.
pub const SKIN_MICROS: i64 = 100;

/// The inside of `boundary`, filled with a medium. `neg_inv_density` is
/// `-1 / density`, and `phase_function` the material that scatters there.
#[derive(Debug)]
pub struct ConstantMedium {
    pub boundary: Box<Hittable>,
    pub neg_inv_density: Scalar,
    pub phase_function: Arc<Material>,
}

impl ConstantMedium {
    /// The medium of the given density inside `boundary`.
    pub fn new(boundary: Hittable, density: Scalar, phase_function: Arc<Material>) -> (r:
        ConstantMedium)
        ensures
            *r.boundary == boundary,
            r.neg_inv_density == Scalar::one().neg().div(density),
            r.phase_function == phase_function,
    {
        ConstantMedium {
            boundary: Box::new(boundary),
            neg_inv_density: Scalar::one().neg().div(density),
            phase_function,
        }
    }

    /// The medium of the given density inside `boundary` that scatters
    /// evenly in all directions, with the colour `albedo`.
    pub fn from_color(boundary: Hittable, density: Scalar, albedo: Color) -> (r: ConstantMedium)
        ensures
            *r.boundary == boundary,
            r.neg_inv_density == Scalar::one().neg().div(density),
            *r.phase_function == Material::Isotropic(Isotropic::from_color(albedo)),
    {
        let phase_function = Arc::new(Material::Isotropic(Isotropic::from_color(albedo)));
        ConstantMedium {
            boundary: Box::new(boundary),
            neg_inv_density: Scalar::one().neg().div(density),
            phase_function,
        }
    }

    /// The distance that a ray flies through the medium before it is
    /// scattered, for the draw `draw` of `[0, 1)`: `-ln(draw) / density`.
    pub open spec fn flight(&self, draw: Scalar) -> Scalar {
        self.neg_inv_density.mul(ln(draw))
    }

    /// Where the ray is inside the medium within the bounds: from the later
    /// of entry and `t_min` to the earlier of exit and `t_max`. `None` where
    /// that is empty. A start before the ray's origin is moved to it.
    pub open spec fn span(t_min: Scalar, t_max: Scalar, entry: Scalar, exit: Scalar) -> Option<
        (Scalar, Scalar),
    > {
        if entry.max(t_min)@ >= exit.min(t_max)@ {
            None
        } else {
            Some((entry.max(t_min).max(Scalar::zero()), exit.min(t_max)))
        }
    }

    /// The parameter at which the ray is scattered, if it is: the start of
    /// the span plus the flight distance in units of the ray's length. There
    /// is none where the span is empty, where the flight is longer than the
    /// span, or where the parameter is not strictly between the bounds.
    pub open spec fn scatter_time(
        &self,
        ray: Ray,
        t_min: Scalar,
        t_max: Scalar,
        entry: Scalar,
        exit: Scalar,
        draw: Scalar,
    ) -> Option<Scalar> {
        match ConstantMedium::span(t_min, t_max, entry, exit) {
            None => None,
            Some((start, end)) => {
                let t = start.add(self.flight(draw).div(ray.dir.length()));
                if self.flight(draw)@ > end.sub(start).mul(ray.dir.length())@ {
                    None
                } else if t_min@ < t@ < t_max@ {
                    Some(t)
                } else {
                    None
                }
            },
        }
    }

    /// The record of a scattering at the parameter `t`. A medium has no
    /// surface: the normal is the x axis and the face is the front.
    pub open spec fn record(&self, ray: Ray, t: Scalar) -> HitRecord {
        HitRecord {
            p: ray.at(t),
            normal: Vec3::from_ints(1, 0, 0),
            mat: self.phase_function,
            t,
            u: Scalar::zero(),
            v: Scalar::zero(),
            front_face: true,
        }
    }

    pub open spec fn spec_pass(
        &self,
        ray: &Ray,
        t_min: Scalar,
        t_max: Scalar,
        first: Option<HitRecord>,
        second: Option<HitRecord>,
        draw: Scalar,
    ) -> Option<HitRecord> {
        match (first, second) {
            (Some(entry), Some(exit)) => match self.scatter_time(
                *ray,
                t_min,
                t_max,
                entry.t,
                exit.t,
                draw,
            ) {
                Some(t) => Some(self.record(*ray, t)),
                None => None,
            },
            _ => None,
        }
    }

    /// What becomes of a ray whose first two hits of the boundary are
    /// `first` and `second`, for the draw `draw` of `[0, 1)`: it passes
    /// unless it hits the boundary twice and is scattered in between, at
    /// [`ConstantMedium::scatter_time`].
    #[verifier::when_used_as_spec(spec_pass)]
    pub fn pass(
        &self,
        ray: &Ray,
        t_min: Scalar,
        t_max: Scalar,
        first: Option<HitRecord>,
        second: Option<HitRecord>,
        draw: Scalar,
    ) -> (r: Option<HitRecord>)
        ensures
            r == self.spec_pass(ray, t_min, t_max, first, second, draw),
            r matches Some(rec) ==> rec.within(t_min, t_max),
    {
        let entry = match first {
            Some(rec) => rec.t,
            None => {
                return None;
            },
        };
        let exit = match second {
            Some(rec) => rec.t,
            None => {
                return None;
            },
        };
        let clipped_entry = entry.max(t_min);
        let end = exit.min(t_max);
        if clipped_entry.micros >= end.micros {
            return None;
        }
        let start = clipped_entry.max(Scalar::zero());
        let ray_length = ray.direction().length();
        let distance_inside_boundary = end.sub(start).mul(ray_length);
        let hit_distance = self.neg_inv_density.mul(ln(draw));
        if hit_distance.micros > distance_inside_boundary.micros {
            return None;
        }
        let t = start.add(hit_distance.div(ray_length));
        if t.micros <= t_min.micros || t.micros >= t_max.micros {
            return None;
        }
        Some(
            HitRecord {
                p: ray.at(t),
                normal: Vec3::from_ints(1, 0, 0),
                mat: share(&self.phase_function),
                t,
                u: Scalar::zero(),
                v: Scalar::zero(),
                front_face: true,
            },
        )
    }

    /// `out` is a result that [`ConstantMedium::hit`] can give: what
    /// [`ConstantMedium::pass`] makes of two hits that the boundary can
    /// give, the first anywhere along the line of the ray and the second
    /// beyond the first, and of a draw of `[0, 1)`.
    pub open spec fn admits(
        &self,
        ray: Ray,
        t_min: Scalar,
        t_max: Scalar,
        out: Option<HitRecord>,
    ) -> bool
        decreases self, 0nat,
    {
        exists|first: Option<HitRecord>, second: Option<HitRecord>, draw: Scalar| #[trigger]
            medium_pass(first, second, draw) && is_unit_draw(draw) && self.boundary.admits(
                ray,
                infinity().neg(),
                infinity(),
                first,
            ) && (first matches Some(entry) ==> self.boundary.admits(
                ray,
                entry.t.add(Scalar { micros: SKIN_MICROS }),
                infinity(),
                second,
            )) && out == self.pass(&ray, t_min, t_max, first, second, draw)
    }

    /// Where the ray is scattered in the medium strictly between `t_min`
    /// and `t_max`, if it is. The ray enters and leaves at its first two
    /// hits of the boundary, sought along the whole line of the ray; it
    /// flies a random distance through the medium, `-ln(u) / density` for a
    /// draw `u` of `[0, 1)`, and is scattered where that ends inside.
    pub fn hit(&self, ray: &Ray, t_min: Scalar, t_max: Scalar) -> (r: Option<HitRecord>)
        ensures
            self.admits(*ray, t_min, t_max, r),
            hit_within(r, t_min, t_max),
        decreases self, 0nat,
    {
        let first = self.boundary.hit(ray, infinity().neg(), infinity());
        let second = match &first {
            Some(entry) => self.boundary.hit(
                ray,
                entry.t.add(Scalar { micros: SKIN_MICROS }),
                infinity(),
            ),
            None => None,
        };
        let draw = random_double();
        assert(medium_pass(first, second, draw));
        self.pass(ray, t_min, t_max, first, second, draw)
    }
}

/// A ray is scattered inside the medium only: the parameter of the
/// scattering lies between the later of entry and `t_min` and the earlier
/// of exit and `t_max`. This holds for a medium of positive density, a ray
/// that has a direction, and bounds that do not reach behind the ray's
/// origin.
pub proof fn lemma_scattering_lies_in_the_span(
    medium: ConstantMedium,
    ray: Ray,
    t_min: Scalar,
    t_max: Scalar,
    entry: Scalar,
    exit: Scalar,
    draw: Scalar,
)
    requires
        medium.neg_inv_density@ <= 0,
        is_unit_draw(draw),
        0 <= t_min@,
        ray.dir.length()@ > 0,
    ensures
        medium.scatter_time(ray, t_min, t_max, entry, exit, draw) matches Some(t) ==> entry.max(
            t_min,
        )@ <= t@ <= exit.min(t_max)@,
{
    if let Some((start, end)) = ConstantMedium::span(t_min, t_max, entry, exit) {
        let flight = medium.flight(draw);
        let length = ray.dir.length();
        lemma_ln_sign(draw);
        lemma_mul_sign(medium.neg_inv_density, ln(draw));
        if flight@ <= end.sub(start).mul(length)@ {
            lemma_div_undoes_mul(flight, end.sub(start), length);
        }
    }
}

} // verus!
