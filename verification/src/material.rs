//! Materials: what becomes of a ray at a surface.
//!
//! `scatter` gives the ray that leaves the surface, how much of each colour
//! it keeps, and, for a diffuse material, the density it was drawn from; it
//! gives nothing where the ray is absorbed. `emitted` is the light the
//! surface gives off, and `scatter_pdf` the material's own density of the
//! direction of an outgoing ray.
use crate::color::Color;
use crate::common::{is_unit_draw, pi, random_double};
use crate::hittable::HitRecord;
use crate::onb::about;
use crate::pdf::{sphere_density, CosinePdf, Pdf, SpherePdf};
use crate::ray::Ray;
use crate::scalar::{
    lemma_div_sign, lemma_mul_bound, lemma_mul_sign, lemma_quotient_keeps_order,
    lemma_sqrt_value, Scalar, SCALE,
};
use crate::texture::{lemma_colour_not_negative, SolidColor, Texture};
use crate::vec3::{
    dot, in_unit_sphere, incidence_cosine, is_cosine_draw, is_unit_vector_draw, not_negative,
    random_in_unit_sphere, random_unit_vector, reflect, refract, unit_vector, Point3, Vec3,
};
use vstd::prelude::*;

verus! {

/// How a surface answers a ray.
#[derive(Debug)]
pub struct ScatterRecord {
    /// The share of each colour that the scattered ray keeps.
    pub attenuation: Color,
    /// The density the direction was drawn from; none for a mirror-like
    /// material, whose ray is followed as it is.
    pub pdf: Option<Pdf>,
    /// The ray that leaves the surface.
    pub scattered: Ray,
}

/// A material that absorbs every ray and gives off no light. A light that
/// is sampled toward but must not be seen is made of it.
#[derive(Clone, Copy, Debug, PartialEq, Eq, Structural)]
pub struct Empty {}

impl ScatterRecord {
    /// A direction can be drawn from the density, where there is one.
    pub open spec fn can_generate(&self) -> bool {
        self.pdf matches Some(density) ==> density.can_generate()
    }
}

impl Empty {
    /// The material.
    pub fn new() -> (r: Empty)
        ensures
            r == (Empty {  }),
    {
        Empty {  }
    }

    /// Absorbs the ray.
    pub fn scatter(&self, _r_in: &Ray, _rec: &HitRecord) -> (r: Option<ScatterRecord>)
        ensures
            r is None,
    {
        None
    }
}

/// A matt surface.
#[derive(Debug)]
pub struct Lambertian {
    pub albedo: Box<Texture>,
}

impl Lambertian {
    /// The matt material with the texture `albedo`.
    pub fn new(albedo: Box<Texture>) -> (r: Lambertian)
        ensures
            r.albedo == albedo,
    {
        Lambertian { albedo }
    }

    pub open spec fn spec_from_color(albedo_color: Color) -> Lambertian {
        Lambertian { albedo: Box::new(Texture::Solid(SolidColor { albedo: albedo_color })) }
    }

    /// The matt material of one colour.
    #[verifier::when_used_as_spec(spec_from_color)]
    pub fn from_color(albedo_color: Color) -> (r: Lambertian)
        ensures
            r == Lambertian::spec_from_color(albedo_color),
    {
        let albedo = SolidColor::new(albedo_color);
        Lambertian { albedo: Box::new(Texture::Solid(albedo)) }
    }

    /// The answer to a ray for the direction `local` drawn about the z
    /// axis: the ray leaves the hit point along `local` carried into the
    /// basis about the normal, keeps the texture's colour, and comes with
    /// the cosine distribution about the normal.
    pub open spec fn spec_scatter_along(
        &self,
        r_in: &Ray,
        rec: &HitRecord,
        local: Vec3,
    ) -> ScatterRecord {
        ScatterRecord {
            attenuation: self.albedo.color_at(rec.u, rec.v, rec.p),
            scattered: Ray::new(rec.p, about(rec.normal, local), r_in.time),
            pdf: Some(Pdf::Cosine(CosinePdf::new(rec.normal))),
        }
    }

    /// See [`Lambertian::spec_scatter_along`].
    #[verifier::when_used_as_spec(spec_scatter_along)]
    pub fn scatter_along(&self, r_in: &Ray, rec: &HitRecord, local: Vec3) -> (r: ScatterRecord)
        ensures
            r == self.spec_scatter_along(r_in, rec, local),
    {
        ScatterRecord {
            attenuation: self.albedo.get_color(rec.u, rec.v, &rec.p),
            scattered: Ray::new(rec.p, about(rec.normal, local), r_in.time()),
            pdf: Some(Pdf::Cosine(CosinePdf::new(rec.normal))),
        }
    }

    /// `out` is an answer that [`Lambertian::scatter`] can give.
    pub open spec fn scatter_admits(
        &self,
        r_in: &Ray,
        rec: &HitRecord,
        out: Option<ScatterRecord>,
    ) -> bool {
        exists|local: Vec3| #[trigger]
            is_cosine_draw(local) && out == Some(self.scatter_along(r_in, rec, local))
    }

    /// Scatters the ray into a random direction about the normal, cosine
    /// weighted.
    pub fn scatter(&self, r_in: &Ray, rec: &HitRecord) -> (r: Option<ScatterRecord>)
        ensures
            self.scatter_admits(r_in, rec, r),
    {
        let local = Vec3::random_cosine_direction();
        Some(self.scatter_along(r_in, rec, local))
    }

    /// The density of the direction of `scattered`: the cosine of its angle
    /// to the normal over pi, and 0 below the horizon.
    pub open spec fn spec_scatter_pdf(rec: &HitRecord, scattered: &Ray) -> Scalar {
        if dot(rec.normal, unit_vector(scattered.dir))@ > 0 {
            dot(rec.normal, unit_vector(scattered.dir)).div(pi())
        } else {
            Scalar::zero()
        }
    }

    /// See [`Lambertian::spec_scatter_pdf`]. The density does not depend
    /// on the incoming ray, and it is at most `1 / pi` where the cosine is
    /// at most 1, as it is between vectors of unit length.
    pub fn scatter_pdf(&self, _r_in: &Ray, rec: &HitRecord, scattered: &Ray) -> (r: Scalar)
        ensures
            r == Lambertian::spec_scatter_pdf(rec, scattered),
            r@ >= 0,
            dot(rec.normal, unit_vector(scattered.dir))@ <= SCALE ==> r@ <= Scalar::one().div(
                pi(),
            )@,
    {
        let cos_theta = dot(rec.normal, unit_vector(scattered.direction()));
        proof {
            lemma_matt_density_range(rec, scattered);
        }
        if cos_theta.micros > 0 {
            cos_theta.div(pi())
        } else {
            Scalar::zero()
        }
    }
}

/// A polished or brushed metal. `fuzz` is the radius of the sphere that
/// the reflected ray is blurred by, at most 1.
#[derive(Debug)]
pub struct Metal {
    pub albedo: Box<Texture>,
    pub fuzz: Scalar,
}

impl Metal {
    /// The fuzz radius for the request `f`: `f`, but at most 1.
    pub open spec fn spec_capped(f: Scalar) -> Scalar {
        if f@ < Scalar::one()@ {
            f
        } else {
            Scalar::one()
        }
    }

    /// See [`Metal::spec_capped`].
    #[verifier::when_used_as_spec(spec_capped)]
    pub fn capped(f: Scalar) -> (r: Scalar)
        ensures
            r == Metal::spec_capped(f),
            r@ <= Scalar::one()@,
    {
        if f.micros < Scalar::one().micros {
            f
        } else {
            Scalar::one()
        }
    }

    /// The metal with the texture `albedo` and the fuzz radius `f`, capped
    /// at 1.
    pub fn new(albedo: Box<Texture>, f: Scalar) -> (r: Metal)
        ensures
            r.albedo == albedo,
            r.fuzz == Metal::capped(f),
    {
        Metal { albedo, fuzz: Metal::capped(f) }
    }

    /// The metal of one colour with the fuzz radius `f`, capped at 1.
    pub fn from_color(albedo_color: Color, f: Scalar) -> (r: Metal)
        ensures
            *r.albedo == Texture::Solid(SolidColor { albedo: albedo_color }),
            r.fuzz == Metal::capped(f),
    {
        let albedo = SolidColor::new(albedo_color);
        Metal { albedo: Box::new(Texture::Solid(albedo)), fuzz: Metal::capped(f) }
    }

    /// The direction in which the ray leaves for the point `blur` of the
    /// unit sphere: the mirror image of the incoming direction, at unit
    /// length, plus `fuzz` times `blur`.
    pub open spec fn outgoing(&self, r_in: &Ray, rec: &HitRecord, blur: Vec3) -> Vec3 {
        reflect(unit_vector(r_in.dir), rec.normal).add(blur.scale(self.fuzz))
    }

    /// The answer to a ray for the point `blur` of the unit sphere: the
    /// ray leaves along [`Metal::outgoing`] and keeps the texture's colour;
    /// it is absorbed where that direction does not point away from the
    /// surface.
    pub open spec fn spec_scatter_blurred(&self, r_in: &Ray, rec: &HitRecord, blur: Vec3) -> Option<
        ScatterRecord,
    > {
        if dot(self.outgoing(r_in, rec, blur), rec.normal)@ > 0 {
            Some(
                ScatterRecord {
                    attenuation: self.albedo.color_at(rec.u, rec.v, rec.p),
                    scattered: Ray::new(rec.p, self.outgoing(r_in, rec, blur), r_in.time),
                    pdf: None,
                },
            )
        } else {
            None
        }
    }

    /// See [`Metal::spec_scatter_blurred`].
    #[verifier::when_used_as_spec(spec_scatter_blurred)]
    pub fn scatter_blurred(&self, r_in: &Ray, rec: &HitRecord, blur: Vec3) -> (r: Option<
        ScatterRecord,
    >)
        ensures
            r == self.spec_scatter_blurred(r_in, rec, blur),
            r matches Some(answer) ==> dot(answer.scattered.dir, rec.normal)@ > 0,
    {
        let reflected = reflect(unit_vector(r_in.direction()), rec.normal);
        let scattered = Ray::new(rec.p, reflected.add(blur.scale(self.fuzz)), r_in.time());
        if dot(scattered.direction(), rec.normal).micros > 0 {
            Some(
                ScatterRecord {
                    attenuation: self.albedo.get_color(rec.u, rec.v, &rec.p),
                    scattered,
                    pdf: None,
                },
            )
        } else {
            None
        }
    }

    /// `out` is an answer that [`Metal::scatter`] can give.
    pub open spec fn scatter_admits(
        &self,
        r_in: &Ray,
        rec: &HitRecord,
        out: Option<ScatterRecord>,
    ) -> bool {
        exists|blur: Vec3| #[trigger]
            in_unit_sphere(blur) && out == self.scatter_blurred(r_in, rec, blur)
    }

    /// Reflects the ray, blurred by a random point of the sphere of radius
    /// `fuzz`.
    pub fn scatter(&self, r_in: &Ray, rec: &HitRecord) -> (r: Option<ScatterRecord>)
        ensures
            self.scatter_admits(r_in, rec, r),
    {
        let blur = random_in_unit_sphere();
        self.scatter_blurred(r_in, rec, blur)
    }
}

/// A clear material such as glass, with the index of refraction `ior`.
#[derive(Clone, Copy, Debug, PartialEq, Eq, Structural)]
pub struct Dielectric {
    pub ior: Scalar,
}

impl Dielectric {
    /// The clear material with the index of refraction `ior`.
    pub fn new(ior: Scalar) -> (r: Dielectric)
        ensures
            r.ior == ior,
    {
        Dielectric { ior }
    }

    /// `x` to the fifth power.
    pub open spec fn spec_fifth_power(x: Scalar) -> Scalar {
        x.mul(x).mul(x.mul(x)).mul(x)
    }

    /// See [`Dielectric::spec_fifth_power`].
    #[verifier::when_used_as_spec(spec_fifth_power)]
    pub fn fifth_power(x: Scalar) -> (r: Scalar)
        ensures
            r == Dielectric::spec_fifth_power(x),
    {
        x.mul(x).mul(x.mul(x)).mul(x)
    }

    /// The share of the light that is reflected at the angle with the
    /// cosine `cosine`, for the ratio `ref_idx` of the indices, by Schlick's
    /// approximation: `r0 + (1 - r0) (1 - cosine)^5` with
    /// `r0 = ((1 - ref_idx) / (1 + ref_idx))^2`.
    pub open spec fn spec_reflectance(cosine: Scalar, ref_idx: Scalar) -> Scalar {
        let r = Scalar::one().sub(ref_idx).div(Scalar::one().add(ref_idx));
        let r0 = r.mul(r);
        r0.add(Scalar::one().sub(r0).mul(Dielectric::fifth_power(Scalar::one().sub(cosine))))
    }

    /// See [`Dielectric::spec_reflectance`].
    #[verifier::when_used_as_spec(spec_reflectance)]
    pub fn reflectance(cosine: Scalar, ref_idx: Scalar) -> (r: Scalar)
        ensures
            r == Dielectric::spec_reflectance(cosine, ref_idx),
    {
        let r = Scalar::one().sub(ref_idx).div(Scalar::one().add(ref_idx));
        let r0 = r.mul(r);
        r0.add(Scalar::one().sub(r0).mul(Dielectric::fifth_power(Scalar::one().sub(cosine))))
    }

    /// The ratio of the index on the side the ray comes from to the index
    /// on the other side: `1 / ior` for a ray from outside, `ior` for one
    /// from inside.
    pub open spec fn spec_refraction_ratio(&self, front_face: bool) -> Scalar {
        if front_face {
            Scalar::one().div(self.ior)
        } else {
            self.ior
        }
    }

    /// See [`Dielectric::spec_refraction_ratio`].
    #[verifier::when_used_as_spec(spec_refraction_ratio)]
    pub fn refraction_ratio(&self, front_face: bool) -> (r: Scalar)
        ensures
            r == self.spec_refraction_ratio(front_face),
    {
        if front_face {
            Scalar::one().div(self.ior)
        } else {
            self.ior
        }
    }

    /// The sine that goes with the cosine `cos_theta`:
    /// `sqrt(1 - cos_theta^2)`.
    pub open spec fn spec_sine_of(cos_theta: Scalar) -> Scalar {
        Scalar::one().sub(cos_theta.mul(cos_theta)).sqrt()
    }

    /// See [`Dielectric::spec_sine_of`].
    #[verifier::when_used_as_spec(spec_sine_of)]
    pub fn sine_of(cos_theta: Scalar) -> (r: Scalar)
        ensures
            r == Dielectric::spec_sine_of(cos_theta),
            r@ >= 0,
    {
        Scalar::one().sub(cos_theta.mul(cos_theta)).sqrt()
    }

    /// Snell's law has no solution: the ratio of the indices times the
    /// sine of the angle of incidence is above 1, and all light is
    /// reflected.
    pub open spec fn spec_cannot_refract(refraction_ratio: Scalar, cos_theta: Scalar) -> bool {
        refraction_ratio.mul(Dielectric::sine_of(cos_theta))@ > Scalar::one()@
    }

    /// See [`Dielectric::spec_cannot_refract`].
    #[verifier::when_used_as_spec(spec_cannot_refract)]
    pub fn cannot_refract(refraction_ratio: Scalar, cos_theta: Scalar) -> (r: bool)
        ensures
            r == Dielectric::spec_cannot_refract(refraction_ratio, cos_theta),
    {
        refraction_ratio.mul(Dielectric::sine_of(cos_theta)).micros > Scalar::one().micros
    }

    /// The ray is reflected, for the draw `coin` of `[0, 1)`: where it
    /// cannot be refracted, and else where the reflectance is above the
    /// draw.
    pub open spec fn reflects(&self, r_in: &Ray, rec: &HitRecord, coin: Scalar) -> bool {
        let ratio = self.refraction_ratio(rec.front_face);
        let cos_theta = incidence_cosine(unit_vector(r_in.dir), rec.normal);
        Dielectric::cannot_refract(ratio, cos_theta) || Dielectric::reflectance(cos_theta, ratio)@
            > coin@
    }

    /// The answer to a ray for the draw `coin` of `[0, 1)`: the ray is
    /// reflected or refracted, and keeps all of its light.
    pub open spec fn spec_scatter_decided(
        &self,
        r_in: &Ray,
        rec: &HitRecord,
        coin: Scalar,
    ) -> ScatterRecord {
        ScatterRecord {
            attenuation: Color::from_ints(1, 1, 1),
            scattered: Ray::new(
                rec.p,
                if self.reflects(r_in, rec, coin) {
                    reflect(unit_vector(r_in.dir), rec.normal)
                } else {
                    refract(
                        unit_vector(r_in.dir),
                        rec.normal,
                        self.refraction_ratio(rec.front_face),
                    )
                },
                r_in.time,
            ),
            pdf: None,
        }
    }

    /// See [`Dielectric::spec_scatter_decided`].
    #[verifier::when_used_as_spec(spec_scatter_decided)]
    pub fn scatter_decided(&self, r_in: &Ray, rec: &HitRecord, coin: Scalar) -> (r: ScatterRecord)
        ensures
            r == self.spec_scatter_decided(r_in, rec, coin),
    {
        let refraction_ratio = self.refraction_ratio(rec.front_face);
        let unit_direction = unit_vector(r_in.direction());
        let cos_theta = incidence_cosine(unit_direction, rec.normal);
        let direction = if Dielectric::cannot_refract(refraction_ratio, cos_theta)
            || Dielectric::reflectance(cos_theta, refraction_ratio).micros > coin.micros {
            reflect(unit_direction, rec.normal)
        } else {
            refract(unit_direction, rec.normal, refraction_ratio)
        };
        ScatterRecord {
            attenuation: Color::from_ints(1, 1, 1),
            scattered: Ray::new(rec.p, direction, r_in.time()),
            pdf: None,
        }
    }

    /// `out` is an answer that [`Dielectric::scatter`] can give.
    pub open spec fn scatter_admits(
        &self,
        r_in: &Ray,
        rec: &HitRecord,
        out: Option<ScatterRecord>,
    ) -> bool {
        exists|coin: Scalar| #[trigger]
            is_unit_draw(coin) && out == Some(self.scatter_decided(r_in, rec, coin))
    }

    /// Refracts the ray by Snell's law, or reflects it: always where it
    /// cannot be refracted, and else with the chance that Schlick's
    /// approximation gives.
    pub fn scatter(&self, r_in: &Ray, rec: &HitRecord) -> (r: Option<ScatterRecord>)
        ensures
            self.scatter_admits(r_in, rec, r),
    {
        let coin = random_double();
        Some(self.scatter_decided(r_in, rec, coin))
    }
}

/// A surface that gives off light from its front and scatters nothing.
#[derive(Debug)]
pub struct DiffuseLight {
    pub albedo: Box<Texture>,
}

impl DiffuseLight {
    /// The light with the texture `albedo`.
    pub fn new(albedo: Box<Texture>) -> (r: DiffuseLight)
        ensures
            r.albedo == albedo,
    {
        DiffuseLight { albedo }
    }

    pub open spec fn spec_from_color(albedo_color: Color) -> DiffuseLight {
        DiffuseLight { albedo: Box::new(Texture::Solid(SolidColor { albedo: albedo_color })) }
    }

    /// The light of one colour.
    #[verifier::when_used_as_spec(spec_from_color)]
    pub fn from_color(albedo_color: Color) -> (r: DiffuseLight)
        ensures
            r == DiffuseLight::spec_from_color(albedo_color),
    {
        let albedo = SolidColor::new(albedo_color);
        DiffuseLight { albedo: Box::new(Texture::Solid(albedo)) }
    }

    /// Absorbs the ray.
    pub fn scatter(&self, _r_in: &Ray, _rec: &HitRecord) -> (r: Option<ScatterRecord>)
        ensures
            r is None,
    {
        None
    }

    /// The light given off at a hit: the texture's colour on the front,
    /// nothing on the back.
    pub open spec fn spec_emitted(
        &self,
        hit_rec: &HitRecord,
        u: Scalar,
        v: Scalar,
        p: &Point3,
    ) -> Color {
        if hit_rec.front_face {
            self.albedo.color_at(u, v, *p)
        } else {
            Color::zero()
        }
    }

    /// See [`DiffuseLight::spec_emitted`].
    pub fn emitted(&self, hit_rec: &HitRecord, u: Scalar, v: Scalar, p: &Point3) -> (r: Color)
        ensures
            r == self.spec_emitted(hit_rec, u, v, p),
    {
        if hit_rec.front_face {
            self.albedo.get_color(u, v, p)
        } else {
            Color::zero()
        }
    }
}

/// The phase function of a medium that scatters evenly in all directions.
#[derive(Debug)]
pub struct Isotropic {
    pub albedo: Box<Texture>,
}

impl Isotropic {
    /// The phase function with the texture `albedo`.
    pub fn new(albedo: Box<Texture>) -> (r: Isotropic)
        ensures
            r.albedo == albedo,
    {
        Isotropic { albedo }
    }

    pub open spec fn spec_from_color(albedo_color: Color) -> Isotropic {
        Isotropic { albedo: Box::new(Texture::Solid(SolidColor { albedo: albedo_color })) }
    }

    /// The phase function of one colour.
    #[verifier::when_used_as_spec(spec_from_color)]
    pub fn from_color(albedo_color: Color) -> (r: Isotropic)
        ensures
            r == Isotropic::spec_from_color(albedo_color),
    {
        let albedo = SolidColor::new(albedo_color);
        Isotropic { albedo: Box::new(Texture::Solid(albedo)) }
    }

    /// The answer to a ray for the direction `direction`: the ray leaves
    /// the hit point along it, keeps the texture's colour, and comes with
    /// the even distribution over all directions.
    pub open spec fn spec_scatter_along(
        &self,
        r_in: &Ray,
        rec: &HitRecord,
        direction: Vec3,
    ) -> ScatterRecord {
        ScatterRecord {
            attenuation: self.albedo.color_at(rec.u, rec.v, rec.p),
            scattered: Ray::new(rec.p, direction, r_in.time),
            pdf: Some(Pdf::Sphere(SpherePdf {  })),
        }
    }

    /// See [`Isotropic::spec_scatter_along`].
    #[verifier::when_used_as_spec(spec_scatter_along)]
    pub fn scatter_along(&self, r_in: &Ray, rec: &HitRecord, direction: Vec3) -> (r: ScatterRecord)
        ensures
            r == self.spec_scatter_along(r_in, rec, direction),
    {
        let scattered = Ray::new(rec.p, direction, r_in.time());
        let attenuation = self.albedo.get_color(rec.u, rec.v, &rec.p);
        ScatterRecord { attenuation, scattered, pdf: Some(Pdf::Sphere(SpherePdf::new())) }
    }

    /// `out` is an answer that [`Isotropic::scatter`] can give.
    pub open spec fn scatter_admits(
        &self,
        r_in: &Ray,
        rec: &HitRecord,
        out: Option<ScatterRecord>,
    ) -> bool {
        exists|direction: Vec3| #[trigger]
            is_unit_vector_draw(direction) && out == Some(self.scatter_along(r_in, rec, direction))
    }

    /// Scatters the ray into a random direction.
    pub fn scatter(&self, r_in: &Ray, rec: &HitRecord) -> (r: Option<ScatterRecord>)
        ensures
            self.scatter_admits(r_in, rec, r),
    {
        let direction = random_unit_vector();
        Some(self.scatter_along(r_in, rec, direction))
    }

    /// The density of any direction: `1 / (4 pi)`.
    pub fn scatter_pdf(&self, _r_in: &Ray, _rec: &HitRecord, _scattered: &Ray) -> (r: Scalar)
        ensures
            r == sphere_density(),
    {
        sphere_density()
    }
}

/// The density with which a matt surface scatters is not negative, and it
/// is at most `1 / pi` where the cosine of the angle between the normal and
/// the direction is at most 1, as it is between vectors of unit length.
pub proof fn lemma_matt_density_range(rec: &HitRecord, scattered: &Ray)
    ensures
        0 <= Lambertian::spec_scatter_pdf(rec, scattered)@,
        dot(rec.normal, unit_vector(scattered.dir))@ <= SCALE ==> Lambertian::spec_scatter_pdf(
            rec,
            scattered,
        )@ <= Scalar::one().div(pi())@,
{
    reveal(Scalar::spec_div);
    let cosine = dot(rec.normal, unit_vector(scattered.dir));
    if cosine@ > 0 {
        lemma_div_sign(cosine, pi());
        if cosine@ <= SCALE {
            assert(cosine@ * SCALE <= SCALE * SCALE) by (nonlinear_arith)
                requires
                    0 <= cosine@ <= SCALE,
                    SCALE == 1_000_000,
            ;
            lemma_quotient_keeps_order(cosine@ * SCALE, SCALE * SCALE, pi()@);
        }
    }
}

/// The kinds of material.
#[derive(Debug)]
pub enum Material {
    Empty(Empty),
    Lambertian(Lambertian),
    Metal(Metal),
    Dielectric(Dielectric),
    DiffuseLight(DiffuseLight),
    Isotropic(Isotropic),
}

impl Material {
    /// The material has no negative colour in it: its texture has none.
    pub open spec fn colours_not_negative(&self) -> bool {
        match self {
            Material::Lambertian(matt) => matt.albedo.colours_not_negative(),
            Material::Metal(metal) => metal.albedo.colours_not_negative(),
            Material::DiffuseLight(light) => light.albedo.colours_not_negative(),
            Material::Isotropic(phase) => phase.albedo.colours_not_negative(),
            _ => true,
        }
    }

    /// `out` is an answer that `scatter` can give to the ray `r_in` at the
    /// hit `rec`. A light and the empty material absorb every ray.
    pub open spec fn scatter_admits(
        &self,
        r_in: &Ray,
        rec: &HitRecord,
        out: Option<ScatterRecord>,
    ) -> bool {
        match self {
            Material::Empty(_) => out is None,
            Material::Lambertian(matt) => matt.scatter_admits(r_in, rec, out),
            Material::Metal(metal) => metal.scatter_admits(r_in, rec, out),
            Material::Dielectric(clear) => clear.scatter_admits(r_in, rec, out),
            Material::DiffuseLight(_) => out is None,
            Material::Isotropic(phase) => phase.scatter_admits(r_in, rec, out),
        }
    }

    /// What becomes of the ray `r_in` at the hit `rec`; `None` where it is
    /// absorbed.
    pub fn scatter(&self, r_in: &Ray, rec: &HitRecord) -> (r: Option<ScatterRecord>)
        ensures
            self.scatter_admits(r_in, rec, r),
            r matches Some(answer) ==> answer.can_generate(),
    {
        match self {
            Material::Empty(empty) => empty.scatter(r_in, rec),
            Material::Lambertian(matt) => matt.scatter(r_in, rec),
            Material::Metal(metal) => metal.scatter(r_in, rec),
            Material::Dielectric(clear) => clear.scatter(r_in, rec),
            Material::DiffuseLight(light) => light.scatter(r_in, rec),
            Material::Isotropic(phase) => phase.scatter(r_in, rec),
        }
    }

    /// The light given off at a hit: that of a light, and nothing for
    /// every other material.
    pub open spec fn spec_emitted(
        &self,
        hit_rec: &HitRecord,
        u: Scalar,
        v: Scalar,
        p: &Point3,
    ) -> Color {
        match self {
            Material::DiffuseLight(light) => light.spec_emitted(hit_rec, u, v, p),
            _ => Color::zero(),
        }
    }

    /// See [`Material::spec_emitted`].
    pub fn emitted(&self, hit_rec: &HitRecord, u: Scalar, v: Scalar, p: &Point3) -> (r: Color)
        ensures
            r == self.spec_emitted(hit_rec, u, v, p),
    {
        match self {
            Material::DiffuseLight(light) => light.emitted(hit_rec, u, v, p),
            _ => Color::zero(),
        }
    }

    /// The material's own density of the direction of `scattered`: the
    /// cosine density for a matt surface, `1 / (4 pi)` for a phase function,
    /// and 0 for every other material.
    pub open spec fn spec_scatter_pdf(
        &self,
        r_in: &Ray,
        rec: &HitRecord,
        scattered: &Ray,
    ) -> Scalar {
        match self {
            Material::Lambertian(_) => Lambertian::spec_scatter_pdf(rec, scattered),
            Material::Isotropic(_) => sphere_density(),
            _ => Scalar::zero(),
        }
    }

    /// See [`Material::spec_scatter_pdf`].
    pub fn scatter_pdf(&self, r_in: &Ray, rec: &HitRecord, scattered: &Ray) -> (r: Scalar)
        ensures
            r == self.spec_scatter_pdf(r_in, rec, scattered),
    {
        match self {
            Material::Lambertian(matt) => matt.scatter_pdf(r_in, rec, scattered),
            Material::Isotropic(phase) => phase.scatter_pdf(r_in, rec, scattered),
            _ => Scalar::zero(),
        }
    }
}

/// The sine that goes with a cosine is at most 1.
pub proof fn lemma_sine_at_most_one(cos_theta: Scalar)
    ensures
        0 <= Dielectric::sine_of(cos_theta)@ <= Scalar::one()@,
{
    let square = cos_theta.mul(cos_theta);
    lemma_mul_sign(cos_theta, cos_theta);
    let rest = Scalar::one().sub(square);
    lemma_sqrt_value(rest);
    let root = rest.sqrt();
    if rest@ >= 0 {
        assert(root@ <= SCALE) by (nonlinear_arith)
            requires
                0 <= root@,
                root@ * root@ <= rest@ * SCALE,
                rest@ <= SCALE,
                SCALE == 1_000_000,
        ;
    }
}

/// A ray that enters the denser of two media is never reflected for want
/// of a refracted ray: where the ratio of the indices is at most 1,
/// Snell's law has a solution at every angle. A ray that meets glass from
/// outside, at a right angle or at any other, is such a ray.
pub proof fn lemma_into_denser_medium_refracts(refraction_ratio: Scalar, cos_theta: Scalar)
    requires
        0 <= refraction_ratio@ <= Scalar::one()@,
    ensures
        !Dielectric::cannot_refract(refraction_ratio, cos_theta),
{
    lemma_sine_at_most_one(cos_theta);
    let sine = Dielectric::sine_of(cos_theta);
    lemma_mul_bound(refraction_ratio, sine);
}

/// The ratio of the indices for a ray that meets a material with an index
/// of at least 1 from outside is at most 1.
pub proof fn lemma_ratio_from_outside(clear: Dielectric)
    requires
        clear.ior@ >= Scalar::one()@,
    ensures
        0 <= clear.refraction_ratio(true)@ <= Scalar::one()@,
{
    reveal(Scalar::spec_div);
    let ior = clear.ior@;
    assert(0 <= (SCALE * SCALE) / ior <= SCALE) by (nonlinear_arith)
        requires
            ior >= SCALE,
            SCALE == 1_000_000,
    ;
}

/// A ray that meets a clear material from outside is never reflected for
/// want of a refracted ray, at a right angle or at any other, where the
/// material's index of refraction is at least 1: it is reflected only by
/// the chance that the reflectance gives.
pub proof fn lemma_no_total_reflection_from_outside(clear: Dielectric, cos_theta: Scalar)
    requires
        clear.ior@ >= Scalar::one()@,
    ensures
        !Dielectric::cannot_refract(clear.refraction_ratio(true), cos_theta),
{
    lemma_ratio_from_outside(clear);
    lemma_into_denser_medium_refracts(clear.refraction_ratio(true), cos_theta);
}

/// A material without a negative colour in it gives off no negative
/// light.
pub proof fn lemma_emission_not_negative(
    material: &Material,
    rec: &HitRecord,
    u: Scalar,
    v: Scalar,
    p: &Point3,
)
    requires
        material.colours_not_negative(),
    ensures
        not_negative(material.spec_emitted(rec, u, v, p)),
{
    match material {
        Material::DiffuseLight(light) => {
            lemma_colour_not_negative(&*light.albedo, u, v, *p);
        },
        _ => {},
    }
}

/// A material without a negative colour in it lets a scattered ray keep no
/// negative share of its light, whatever it answers.
pub proof fn lemma_attenuation_not_negative(
    material: &Material,
    r_in: &Ray,
    rec: &HitRecord,
    out: Option<ScatterRecord>,
)
    requires
        material.colours_not_negative(),
        material.scatter_admits(r_in, rec, out),
    ensures
        out matches Some(answer) ==> not_negative(answer.attenuation),
{
    match material {
        Material::Lambertian(matt) => {
            lemma_colour_not_negative(&*matt.albedo, rec.u, rec.v, rec.p);
        },
        Material::Metal(metal) => {
            lemma_colour_not_negative(&*metal.albedo, rec.u, rec.v, rec.p);
        },
        Material::Isotropic(phase) => {
            lemma_colour_not_negative(&*phase.albedo, rec.u, rec.v, rec.p);
        },
        _ => {},
    }
}

/// No material has a negative density of its own.
pub proof fn lemma_scatter_pdf_not_negative(
    material: &Material,
    r_in: &Ray,
    rec: &HitRecord,
    scattered: &Ray,
)
    ensures
        material.spec_scatter_pdf(r_in, rec, scattered)@ >= 0,
{
    lemma_matt_density_range(rec, scattered);
    lemma_mul_sign(Scalar::from_int(4), pi());
    reveal(Scalar::spec_mul);
    lemma_div_sign(Scalar::one(), Scalar::from_int(4).mul(pi()));
}

} // verus!
