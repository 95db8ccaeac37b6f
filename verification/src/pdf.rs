//! Densities over directions: each can say how dense it is along a
//! direction, and draw a direction.
use crate::common::{is_unit_draw, pi, random_double};
use crate::hittable::{lemma_densities_not_negative, Hittable};
use crate::onb::Onb;
use crate::scalar::{lemma_div_sign, lemma_mul_sign, Scalar};
use crate::vec3::{
    dot, is_cosine_draw, is_unit_vector_draw, random_unit_vector, unit_vector, Point3, Vec3,
};
use std::sync::Arc;
use vstd::prelude::*;

verus! {

/// The density of the even distribution over all directions: `1 / (4 pi)`.
pub open spec fn spec_sphere_density() -> Scalar {
    Scalar::one().div(Scalar::from_int(4).mul(pi()))
}

/// See [`spec_sphere_density`].
#[verifier::when_used_as_spec(spec_sphere_density)]
pub fn sphere_density() -> (r: Scalar)
    ensures
        r == spec_sphere_density(),
{
    Scalar::one().div(Scalar::from_int(4).mul(pi()))
}

/// The density, along `direction`, of the distribution about the unit
/// vector `normal` that is proportional to the cosine of the angle to it:
/// the cosine over pi, and 0 below the horizon.
pub open spec fn spec_cosine_density(normal: Vec3, direction: Vec3) -> Scalar {
    Scalar::zero().max(dot(unit_vector(direction), normal).div(pi()))
}

/// See [`spec_cosine_density`].
#[verifier::when_used_as_spec(spec_cosine_density)]
pub fn cosine_density(normal: Vec3, direction: Vec3) -> (r: Scalar)
    ensures
        r == spec_cosine_density(normal, direction),
        r@ >= 0,
{
    Scalar::zero().max(dot(unit_vector(direction), normal).div(pi()))
}

/// The even distribution over all directions.
#[derive(Clone, Copy, Debug, PartialEq, Eq, Structural)]
pub struct SpherePdf {}

impl SpherePdf {
    /// The even distribution over all directions.
    pub fn new() -> (r: SpherePdf)
        ensures
            r == (SpherePdf {  }),
    {
        SpherePdf {  }
    }

    /// `1 / (4 pi)`, whatever the direction.
    pub fn value(&self, _direction: Vec3) -> (r: Scalar)
        ensures
            r == sphere_density(),
    {
        sphere_density()
    }

    /// A random direction.
    pub fn generate(&self) -> (r: Vec3)
        ensures
            is_unit_vector_draw(r),
    {
        random_unit_vector()
    }
}

/// The distribution about a normal that is proportional to the cosine of
/// the angle to it.
#[derive(Clone, Copy, Debug, PartialEq, Eq, Structural)]
pub struct CosinePdf {
    pub uvw: Onb,
}

impl CosinePdf {
    pub open spec fn spec_new(w: Vec3) -> CosinePdf {
        CosinePdf { uvw: Onb::new(&w) }
    }

    /// The cosine distribution about `w`.
    #[verifier::when_used_as_spec(spec_new)]
    pub fn new(w: Vec3) -> (r: CosinePdf)
        ensures
            r == CosinePdf::spec_new(w),
    {
        CosinePdf { uvw: Onb::new(&w) }
    }

    /// The cosine of the angle between `direction` and the normal, over
    /// pi; 0 below the horizon.
    pub fn value(&self, direction: Vec3) -> (r: Scalar)
        ensures
            r == cosine_density(self.uvw.w(), direction),
    {
        cosine_density(self.uvw.w(), direction)
    }

    /// `out` is a direction that [`CosinePdf::generate`] can give: a
    /// cosine-weighted direction about the z axis, carried into the basis.
    pub open spec fn generate_admits(&self, out: Vec3) -> bool {
        exists|local: Vec3| #[trigger] is_cosine_draw(local) && out == self.uvw.transform(local)
    }

    /// A random direction about the normal, cosine weighted.
    pub fn generate(&self) -> (r: Vec3)
        ensures
            self.generate_admits(r),
    {
        let local = Vec3::random_cosine_direction();
        self.uvw.transform(local)
    }
}

/// The distribution of the directions from `origin` toward `objects`.
#[derive(Clone, Debug)]
pub struct HittablePdf {
    pub origin: Point3,
    pub objects: Arc<Hittable>,
}

impl HittablePdf {
    /// The distribution of the directions from `origin` toward `objects`.
    pub fn new(origin: Point3, objects: Arc<Hittable>) -> (r: HittablePdf)
        ensures
            r.origin == origin,
            r.objects == objects,
    {
        HittablePdf { origin, objects }
    }

    /// The density with which the objects are sampled along `direction`.
    pub fn value(&self, direction: Vec3) -> (r: Scalar)
        ensures
            r == self.objects.spec_pdf_value(self.origin, direction),
    {
        self.objects.pdf_value(self.origin, direction)
    }

    /// A random direction toward the objects.
    pub fn generate(&self) -> (r: Vec3)
        requires
            self.objects.samplable(),
        ensures
            self.objects.sample_admits(self.origin, r),
    {
        self.objects.random(self.origin)
    }
}

/// The even mixture of two distributions.
#[derive(Debug)]
pub struct MixturePdf {
    pub p: Box<Pdf>,
    pub q: Box<Pdf>,
}

/// The even mixture of the densities `p` and `q`: `0.5 p + 0.5 q`.
pub open spec fn spec_mix(p: Scalar, q: Scalar) -> Scalar {
    Scalar::half().mul(p).add(Scalar::half().mul(q))
}

/// See [`spec_mix`].
#[verifier::when_used_as_spec(spec_mix)]
pub fn mix(p: Scalar, q: Scalar) -> (r: Scalar)
    ensures
        r == spec_mix(p, q),
{
    Scalar::half().mul(p).add(Scalar::half().mul(q))
}

impl MixturePdf {
    /// The even mixture of `p` and `q`.
    pub fn new(p: Pdf, q: Pdf) -> (r: MixturePdf)
        ensures
            *r.p == p,
            *r.q == q,
    {
        MixturePdf { p: Box::new(p), q: Box::new(q) }
    }

    /// The density along `direction`:
    /// `0.5 p.value(direction) + 0.5 q.value(direction)`.
    pub fn value(&self, direction: Vec3) -> (r: Scalar)
        ensures
            r == Scalar::half().mul(self.p.spec_value(direction)).add(
                Scalar::half().mul(self.q.spec_value(direction)),
            ),
        decreases self, 0nat,
    {
        mix(self.p.value(direction), self.q.value(direction))
    }

    /// A random direction: one of the first distribution where a coin of
    /// `[0, 1)` falls below one half, and one of the second otherwise.
    pub fn generate(&self) -> (r: Vec3)
        requires
            self.p.can_generate(),
            self.q.can_generate(),
        ensures
            exists|coin: Scalar| #[trigger]
                tossed(coin) && is_unit_draw(coin) && (if MixturePdf::picks_first(coin) {
                    self.p.generate_admits(r)
                } else {
                    self.q.generate_admits(r)
                }),
        decreases self, 0nat,
    {
        let coin = random_double();
        assert(tossed(coin));
        if MixturePdf::picks_first(coin) {
            self.p.generate()
        } else {
            self.q.generate()
        }
    }

    /// Whether the draw `coin` of `[0, 1)` picks the first distribution:
    /// it does where it is below one half.
    pub open spec fn spec_picks_first(coin: Scalar) -> bool {
        coin@ < Scalar::half()@
    }

    /// See [`MixturePdf::spec_picks_first`].
    #[verifier::when_used_as_spec(spec_picks_first)]
    pub fn picks_first(coin: Scalar) -> (r: bool)
        ensures
            r == MixturePdf::spec_picks_first(coin),
    {
        coin.micros < Scalar::half().micros
    }
}

/// Names the coin in [`Pdf::generate_admits`].
pub open spec fn tossed(coin: Scalar) -> bool {
    true
}

/// The kinds of distribution.
#[derive(Debug)]
pub enum Pdf {
    Sphere(SpherePdf),
    Cosine(CosinePdf),
    Hittable(HittablePdf),
    Mixture(MixturePdf),
}

impl Pdf {
    /// The density along `direction`. That of a mixture is
    /// `0.5 p.value(direction) + 0.5 q.value(direction)`.
    pub open spec fn spec_value(&self, direction: Vec3) -> Scalar
        decreases self,
    {
        match self {
            Pdf::Sphere(_) => sphere_density(),
            Pdf::Cosine(cosine) => cosine_density(cosine.uvw.w(), direction),
            Pdf::Hittable(toward) => toward.objects.spec_pdf_value(toward.origin, direction),
            Pdf::Mixture(mixture) => mix(
                mixture.p.spec_value(direction),
                mixture.q.spec_value(direction),
            ),
        }
    }

    /// The density along `direction`.
    pub fn value(&self, direction: Vec3) -> (r: Scalar)
        ensures
            r == self.spec_value(direction),
            r@ >= 0,
        decreases self, 1nat,
    {
        proof {
            lemma_values_not_negative(direction);
        }
        match self {
            Pdf::Sphere(sphere) => sphere.value(direction),
            Pdf::Cosine(cosine) => cosine.value(direction),
            Pdf::Hittable(toward) => toward.value(direction),
            Pdf::Mixture(mixture) => mixture.value(direction),
        }
    }

    /// A direction can be drawn: every set of objects in the distribution
    /// can be sampled toward.
    pub open spec fn can_generate(&self) -> bool
        decreases self,
    {
        match self {
            Pdf::Hittable(toward) => toward.objects.samplable(),
            Pdf::Mixture(mixture) => mixture.p.can_generate() && mixture.q.can_generate(),
            _ => true,
        }
    }

    /// `out` is a direction that `generate` can give. A mixture gives a
    /// direction of its first distribution where a coin of `[0, 1)` falls
    /// below one half, and one of its second otherwise.
    pub open spec fn generate_admits(&self, out: Vec3) -> bool
        decreases self,
    {
        match self {
            Pdf::Sphere(_) => is_unit_vector_draw(out),
            Pdf::Cosine(cosine) => cosine.generate_admits(out),
            Pdf::Hittable(toward) => toward.objects.sample_admits(toward.origin, out),
            Pdf::Mixture(mixture) => exists|coin: Scalar| #[trigger]
                tossed(coin) && is_unit_draw(coin) && (if MixturePdf::picks_first(coin) {
                    mixture.p.generate_admits(out)
                } else {
                    mixture.q.generate_admits(out)
                }),
        }
    }

    /// A random direction, drawn from the distribution.
    pub fn generate(&self) -> (r: Vec3)
        requires
            self.can_generate(),
        ensures
            self.generate_admits(r),
        decreases self, 1nat,
    {
        match self {
            Pdf::Sphere(sphere) => sphere.generate(),
            Pdf::Cosine(cosine) => cosine.generate(),
            Pdf::Hittable(toward) => toward.generate(),
            Pdf::Mixture(mixture) => mixture.generate(),
        }
    }
}

/// The density of an even mixture is half the density of the one part plus
/// half the density of the other, along every direction and whatever the
/// parts are.
pub proof fn lemma_mixture_value(p: Pdf, q: Pdf, direction: Vec3)
    ensures
        Pdf::Mixture(MixturePdf { p: Box::new(p), q: Box::new(q) }).spec_value(direction)
            == Scalar::half().mul(p.spec_value(direction)).add(
            Scalar::half().mul(q.spec_value(direction)),
        ),
{
}

/// The density of a distribution is never negative.
pub proof fn lemma_value_not_negative(density: Pdf, direction: Vec3)
    ensures
        density.spec_value(direction)@ >= 0,
    decreases density,
{
    match density {
        Pdf::Sphere(_) => {
            lemma_mul_sign(Scalar::from_int(4), pi());
            reveal(Scalar::spec_mul);
            lemma_div_sign(Scalar::one(), Scalar::from_int(4).mul(pi()));
        },
        Pdf::Cosine(_) => {},
        Pdf::Hittable(toward) => {
            lemma_densities_not_negative(toward.origin, direction);
        },
        Pdf::Mixture(mixture) => {
            lemma_value_not_negative(*mixture.p, direction);
            lemma_value_not_negative(*mixture.q, direction);
            lemma_mul_sign(Scalar::half(), mixture.p.spec_value(direction));
            lemma_mul_sign(Scalar::half(), mixture.q.spec_value(direction));
        },
    }
}

/// No distribution has a negative density along `direction`.
pub proof fn lemma_values_not_negative(direction: Vec3)
    ensures
        forall|density: Pdf| (#[trigger] density.spec_value(direction))@ >= 0,
{
    assert forall|density: Pdf| (#[trigger] density.spec_value(direction))@ >= 0 by {
        lemma_value_not_negative(density, direction);
    }
}

} // verus!
