//! Three-component vectors over [`Scalar`], used for points, directions and
//! colours alike.
use crate::common::{cos, is_unit_draw, random_double, sin, spread, TWO_PI_MICROS};
use crate::scalar::{
    lemma_div_sign, lemma_mul_neg, lemma_mul_range, lemma_mul_sign, lemma_mul_zero, Scalar,
    LIMIT, SCALE,
};
use vstd::prelude::*;

verus! {

/// A vector of three scalars.
#[derive(Clone, Copy, Debug, PartialEq, Eq, Structural)]
pub struct Vec3 {
    pub x: Scalar,
    pub y: Scalar,
    pub z: Scalar,
}

/// A position in space.
pub type Point3 = Vec3;

impl Vec3 {
    pub open spec fn spec_new(x: Scalar, y: Scalar, z: Scalar) -> Vec3 {
        Vec3 { x, y, z }
    }

    /// The vector with the given components.
    #[verifier::when_used_as_spec(spec_new)]
    pub fn new(x: Scalar, y: Scalar, z: Scalar) -> (r: Vec3)
        ensures
            r == Vec3::spec_new(x, y, z),
    {
        Vec3 { x, y, z }
    }

    pub open spec fn spec_from_ints(x: i32, y: i32, z: i32) -> Vec3 {
        Vec3 { x: Scalar::from_int(x), y: Scalar::from_int(y), z: Scalar::from_int(z) }
    }

    /// The vector with the given whole components.
    #[verifier::when_used_as_spec(spec_from_ints)]
    pub fn from_ints(x: i32, y: i32, z: i32) -> (r: Vec3)
        ensures
            r == Vec3::spec_from_ints(x, y, z),
    {
        Vec3 { x: Scalar::from_int(x), y: Scalar::from_int(y), z: Scalar::from_int(z) }
    }

    pub open spec fn spec_zero() -> Vec3 {
        Vec3 { x: Scalar::zero(), y: Scalar::zero(), z: Scalar::zero() }
    }

    /// The zero vector.
    #[verifier::when_used_as_spec(spec_zero)]
    pub fn zero() -> (r: Vec3)
        ensures
            r == Vec3::spec_zero(),
    {
        Vec3 { x: Scalar::zero(), y: Scalar::zero(), z: Scalar::zero() }
    }

    pub open spec fn spec_x(&self) -> Scalar {
        self.x
    }

    /// The first component.
    #[verifier::when_used_as_spec(spec_x)]
    pub fn x(&self) -> (r: Scalar)
        ensures
            r == self.x,
    {
        self.x
    }

    pub open spec fn spec_y(&self) -> Scalar {
        self.y
    }

    /// The second component.
    #[verifier::when_used_as_spec(spec_y)]
    pub fn y(&self) -> (r: Scalar)
        ensures
            r == self.y,
    {
        self.y
    }

    pub open spec fn spec_z(&self) -> Scalar {
        self.z
    }

    /// The third component.
    #[verifier::when_used_as_spec(spec_z)]
    pub fn z(&self) -> (r: Scalar)
        ensures
            r == self.z,
    {
        self.z
    }

    pub open spec fn spec_component(&self, axis: i32) -> Scalar {
        if axis == 0 {
            self.x
        } else if axis == 1 {
            self.y
        } else {
            self.z
        }
    }

    /// The component along the axis 0, 1 or 2.
    #[verifier::when_used_as_spec(spec_component)]
    pub fn component(&self, axis: i32) -> (r: Scalar)
        requires
            0 <= axis <= 2,
        ensures
            r == self.spec_component(axis),
    {
        if axis == 0 {
            self.x
        } else if axis == 1 {
            self.y
        } else {
            self.z
        }
    }

    pub open spec fn spec_add(self, rhs: Vec3) -> Vec3 {
        Vec3 { x: self.x.add(rhs.x), y: self.y.add(rhs.y), z: self.z.add(rhs.z) }
    }

    /// The component-wise sum.
    #[verifier::when_used_as_spec(spec_add)]
    pub fn add(self, rhs: Vec3) -> (r: Vec3)
        ensures
            r == self.spec_add(rhs),
    {
        Vec3 { x: self.x.add(rhs.x), y: self.y.add(rhs.y), z: self.z.add(rhs.z) }
    }

    pub open spec fn spec_sub(self, rhs: Vec3) -> Vec3 {
        Vec3 { x: self.x.sub(rhs.x), y: self.y.sub(rhs.y), z: self.z.sub(rhs.z) }
    }

    /// The component-wise difference.
    #[verifier::when_used_as_spec(spec_sub)]
    pub fn sub(self, rhs: Vec3) -> (r: Vec3)
        ensures
            r == self.spec_sub(rhs),
    {
        Vec3 { x: self.x.sub(rhs.x), y: self.y.sub(rhs.y), z: self.z.sub(rhs.z) }
    }

    pub open spec fn spec_neg(self) -> Vec3 {
        Vec3 { x: self.x.neg(), y: self.y.neg(), z: self.z.neg() }
    }

    /// The opposite vector.
    #[verifier::when_used_as_spec(spec_neg)]
    pub fn neg(self) -> (r: Vec3)
        ensures
            r == self.spec_neg(),
    {
        Vec3 { x: self.x.neg(), y: self.y.neg(), z: self.z.neg() }
    }

    pub open spec fn spec_scale(self, factor: Scalar) -> Vec3 {
        Vec3 { x: self.x.mul(factor), y: self.y.mul(factor), z: self.z.mul(factor) }
    }

    /// Every component multiplied by `factor`.
    #[verifier::when_used_as_spec(spec_scale)]
    pub fn scale(self, factor: Scalar) -> (r: Vec3)
        ensures
            r == self.spec_scale(factor),
    {
        Vec3 { x: self.x.mul(factor), y: self.y.mul(factor), z: self.z.mul(factor) }
    }

    pub open spec fn spec_shrink(self, divisor: Scalar) -> Vec3 {
        Vec3 { x: self.x.div(divisor), y: self.y.div(divisor), z: self.z.div(divisor) }
    }

    /// Every component divided by `divisor`.
    #[verifier::when_used_as_spec(spec_shrink)]
    pub fn shrink(self, divisor: Scalar) -> (r: Vec3)
        ensures
            r == self.spec_shrink(divisor),
    {
        Vec3 { x: self.x.div(divisor), y: self.y.div(divisor), z: self.z.div(divisor) }
    }

    pub open spec fn spec_times(self, rhs: Vec3) -> Vec3 {
        Vec3 { x: self.x.mul(rhs.x), y: self.y.mul(rhs.y), z: self.z.mul(rhs.z) }
    }

    /// The component-wise product, as used to attenuate one colour by
    /// another.
    #[verifier::when_used_as_spec(spec_times)]
    pub fn times(self, rhs: Vec3) -> (r: Vec3)
        ensures
            r == self.spec_times(rhs),
    {
        Vec3 { x: self.x.mul(rhs.x), y: self.y.mul(rhs.y), z: self.z.mul(rhs.z) }
    }

    pub open spec fn spec_length_squared(self) -> Scalar {
        dot(self, self)
    }

    /// The squared length.
    #[verifier::when_used_as_spec(spec_length_squared)]
    pub fn length_squared(self) -> (r: Scalar)
        ensures
            r == self.spec_length_squared(),
    {
        dot(self, self)
    }

    pub open spec fn spec_length(self) -> Scalar {
        self.length_squared().sqrt()
    }

    /// The length.
    #[verifier::when_used_as_spec(spec_length)]
    pub fn length(self) -> (r: Scalar)
        ensures
            r == self.spec_length(),
            r@ >= 0,
    {
        self.length_squared().sqrt()
    }
}

pub open spec fn spec_dot(a: Vec3, b: Vec3) -> Scalar {
    a.x.mul(b.x).add(a.y.mul(b.y)).add(a.z.mul(b.z))
}

/// The dot product.
#[verifier::when_used_as_spec(spec_dot)]
pub fn dot(a: Vec3, b: Vec3) -> (r: Scalar)
    ensures
        r == spec_dot(a, b),
{
    a.x.mul(b.x).add(a.y.mul(b.y)).add(a.z.mul(b.z))
}

pub open spec fn spec_cross(a: Vec3, b: Vec3) -> Vec3 {
    Vec3 {
        x: a.y.mul(b.z).sub(a.z.mul(b.y)),
        y: a.z.mul(b.x).sub(a.x.mul(b.z)),
        z: a.x.mul(b.y).sub(a.y.mul(b.x)),
    }
}

/// The cross product.
#[verifier::when_used_as_spec(spec_cross)]
pub fn cross(a: Vec3, b: Vec3) -> (r: Vec3)
    ensures
        r == spec_cross(a, b),
{
    Vec3 {
        x: a.y.mul(b.z).sub(a.z.mul(b.y)),
        y: a.z.mul(b.x).sub(a.x.mul(b.z)),
        z: a.x.mul(b.y).sub(a.y.mul(b.x)),
    }
}

pub open spec fn spec_unit_vector(v: Vec3) -> Vec3 {
    v.shrink(v.length())
}

/// `v` divided by its length; the zero vector stays the zero vector.
#[verifier::when_used_as_spec(spec_unit_vector)]
pub fn unit_vector(v: Vec3) -> (r: Vec3)
    ensures
        r == spec_unit_vector(v),
{
    v.shrink(v.length())
}

pub open spec fn spec_reflect(v: Vec3, n: Vec3) -> Vec3 {
    v.sub(n.scale(Scalar::from_int(2).mul(dot(v, n))))
}

/// `v` mirrored at the plane with normal `n`: `v - 2 (v . n) n`.
#[verifier::when_used_as_spec(spec_reflect)]
pub fn reflect(v: Vec3, n: Vec3) -> (r: Vec3)
    ensures
        r == spec_reflect(v, n),
{
    v.sub(n.scale(Scalar::from_int(2).mul(dot(v, n))))
}

/// The cosine of the angle between the unit vector `uv`, reversed, and the
/// unit normal `n`, capped at 1.
pub open spec fn spec_incidence_cosine(uv: Vec3, n: Vec3) -> Scalar {
    dot(uv.neg(), n).min(Scalar::one())
}

/// See [`spec_incidence_cosine`].
#[verifier::when_used_as_spec(spec_incidence_cosine)]
pub fn incidence_cosine(uv: Vec3, n: Vec3) -> (r: Scalar)
    ensures
        r == spec_incidence_cosine(uv, n),
        r@ <= Scalar::one()@,
{
    dot(uv.neg(), n).min(Scalar::one())
}

pub open spec fn spec_refract(uv: Vec3, n: Vec3, etai_over_etat: Scalar) -> Vec3 {
    let cos_theta = incidence_cosine(uv, n);
    let perpendicular = uv.add(n.scale(cos_theta)).scale(etai_over_etat);
    let parallel = n.scale(
        Scalar::one().sub(perpendicular.length_squared()).abs().sqrt().neg(),
    );
    perpendicular.add(parallel)
}

/// The unit vector `uv` bent by Snell's law at a surface with unit normal
/// `n`, for the ratio `etai_over_etat` of the refractive indices: the part
/// across the normal is `ratio (uv + cos n)`, the part along it
/// `-sqrt|1 - |across|^2| n`.
#[verifier::when_used_as_spec(spec_refract)]
pub fn refract(uv: Vec3, n: Vec3, etai_over_etat: Scalar) -> (r: Vec3)
    ensures
        r == spec_refract(uv, n, etai_over_etat),
{
    let cos_theta = incidence_cosine(uv, n);
    let perpendicular = uv.add(n.scale(cos_theta)).scale(etai_over_etat);
    let parallel = n.scale(Scalar::one().sub(perpendicular.length_squared()).abs().sqrt().neg());
    perpendicular.add(parallel)
}

/// Every component of `u` lies in `[0, 1)`.
pub open spec fn is_cube_draw(u: Vec3) -> bool {
    is_unit_draw(u.x) && is_unit_draw(u.y) && is_unit_draw(u.z)
}

/// The point of the box `[min, max]^3` that the draw `u` selects.
pub open spec fn spec_spread3(min: Scalar, max: Scalar, u: Vec3) -> Vec3 {
    Vec3 { x: spread(min, max, u.x), y: spread(min, max, u.y), z: spread(min, max, u.z) }
}

/// See [`spec_spread3`].
#[verifier::when_used_as_spec(spec_spread3)]
pub fn spread3(min: Scalar, max: Scalar, u: Vec3) -> (r: Vec3)
    ensures
        r == spec_spread3(min, max, u),
{
    Vec3 { x: spread(min, max, u.x), y: spread(min, max, u.y), z: spread(min, max, u.z) }
}

impl Vec3 {
    /// A random vector with every component in `[0, 1)`.
    pub fn random() -> (r: Vec3)
        ensures
            is_cube_draw(r),
    {
        let x = random_double();
        let y = random_double();
        let z = random_double();
        Vec3 { x, y, z }
    }

    /// A random vector of the box `[min, max]^3`: the point that a draw of
    /// `[0, 1)^3` selects.
    pub fn random_range(min: Scalar, max: Scalar) -> (r: Vec3)
        ensures
            exists|u: Vec3| is_cube_draw(u) && r == spread3(min, max, u),
    {
        let u = Vec3::random();
        spread3(min, max, u)
    }

    /// The direction that the draws `u1`, `u2` select on the hemisphere
    /// about the z axis, with density proportional to the cosine of the
    /// angle to the axis: at the angle `2 pi u1` about the axis, at the
    /// distance `sqrt(u2)` from it, at the height `sqrt(1 - u2)`.
    pub open spec fn spec_cosine_direction(u1: Scalar, u2: Scalar) -> Vec3 {
        let phi = Scalar { micros: TWO_PI_MICROS }.mul(u1);
        Vec3 {
            x: cos(phi).mul(u2.sqrt()),
            y: sin(phi).mul(u2.sqrt()),
            z: Scalar::one().sub(u2).sqrt(),
        }
    }

    /// See [`Vec3::spec_cosine_direction`].
    #[verifier::when_used_as_spec(spec_cosine_direction)]
    pub fn cosine_direction(u1: Scalar, u2: Scalar) -> (r: Vec3)
        ensures
            r == Vec3::spec_cosine_direction(u1, u2),
            r.z@ >= 0,
    {
        let phi = Scalar { micros: TWO_PI_MICROS }.mul(u1);
        Vec3 {
            x: cos(phi).mul(u2.sqrt()),
            y: sin(phi).mul(u2.sqrt()),
            z: Scalar::one().sub(u2).sqrt(),
        }
    }

    /// A random direction of the hemisphere about the z axis, cosine
    /// weighted: the one that two draws of `[0, 1)` select.
    pub fn random_cosine_direction() -> (r: Vec3)
        ensures
            is_cosine_draw(r),
    {
        let u1 = random_double();
        let u2 = random_double();
        Vec3::cosine_direction(u1, u2)
    }
}

/// `v` can come out of [`Vec3::random_cosine_direction`].
pub open spec fn is_cosine_draw(v: Vec3) -> bool {
    exists|u1: Scalar, u2: Scalar|
        is_unit_draw(u1) && is_unit_draw(u2) && v == #[trigger] Vec3::cosine_direction(u1, u2)
}

/// `v` lies strictly inside the unit sphere.
pub open spec fn in_unit_sphere(v: Vec3) -> bool {
    v.length_squared()@ < SCALE
}

/// `v` lies in the plane `z = 0`, strictly inside the unit circle.
pub open spec fn in_unit_disk(v: Vec3) -> bool {
    v.z@ == 0 && v.length_squared()@ < SCALE
}

/// Every component of `v` has an opposite: none is the one raw value below
/// `-LIMIT`. Every vector that the arithmetic gives is so.
pub open spec fn has_opposite(v: Vec3) -> bool {
    v.x@ >= -LIMIT && v.y@ >= -LIMIT && v.z@ >= -LIMIT
}

/// What a division gives has an opposite.
pub proof fn lemma_shrink_has_opposite(v: Vec3, divisor: Scalar)
    ensures
        has_opposite(v.shrink(divisor)),
{
    reveal(Scalar::spec_div);
}

/// The dot product with the opposite vector is the opposite dot product.
pub proof fn lemma_dot_neg(a: Vec3, b: Vec3)
    requires
        has_opposite(b),
    ensures
        dot(a, b.neg()) == dot(a, b).neg(),
{
    lemma_mul_neg(a.x, b.x);
    lemma_mul_neg(a.y, b.y);
    lemma_mul_neg(a.z, b.z);
    lemma_mul_range(a.x, b.x);
    lemma_mul_range(a.y, b.y);
    lemma_mul_range(a.z, b.z);
}

/// No component of `c` is negative: `c` can be a colour of light.
pub open spec fn not_negative(c: Vec3) -> bool {
    c.x@ >= 0 && c.y@ >= 0 && c.z@ >= 0
}

/// Sums and products of vectors without a negative component have none, and
/// neither has such a vector multiplied or divided by a scalar that is not
/// negative.
pub proof fn lemma_not_negative_is_kept(a: Vec3, b: Vec3, k: Scalar)
    requires
        not_negative(a),
        not_negative(b),
        k@ >= 0,
    ensures
        not_negative(a.add(b)),
        not_negative(a.times(b)),
        not_negative(a.scale(k)),
        not_negative(a.shrink(k)),
{
    lemma_mul_sign(a.x, b.x);
    lemma_mul_sign(a.y, b.y);
    lemma_mul_sign(a.z, b.z);
    lemma_mul_sign(a.x, k);
    lemma_mul_sign(a.y, k);
    lemma_mul_sign(a.z, k);
    if k@ > 0 {
        lemma_div_sign(a.x, k);
        lemma_div_sign(a.y, k);
        lemma_div_sign(a.z, k);
    } else {
        reveal(Scalar::spec_div);
    }
}

/// A squared length is not negative.
pub proof fn lemma_length_squared_not_negative(v: Vec3)
    ensures
        v.length_squared()@ >= 0,
{
    lemma_mul_sign(v.x, v.x);
    lemma_mul_sign(v.y, v.y);
    lemma_mul_sign(v.z, v.z);
}

/// No component of a point inside the unit sphere is longer than 1.
pub proof fn lemma_components_within_unit(v: Vec3)
    requires
        in_unit_sphere(v),
    ensures
        -SCALE <= v.x@ <= SCALE,
        -SCALE <= v.y@ <= SCALE,
        -SCALE <= v.z@ <= SCALE,
{
    lemma_mul_sign(v.x, v.x);
    lemma_mul_sign(v.y, v.y);
    lemma_mul_sign(v.z, v.z);
    lemma_square_below_one(v.x);
    lemma_square_below_one(v.y);
    lemma_square_below_one(v.z);
}

/// A scalar whose square is below 1 lies strictly between -1 and 1.
pub proof fn lemma_square_below_one(x: Scalar)
    requires
        x.mul(x)@ < SCALE,
    ensures
        -SCALE < x@ < SCALE,
{
    reveal(Scalar::spec_mul);
    let square = x@ * x@;
    assert(square >= 0) by (nonlinear_arith)
        requires
            square == x@ * x@,
    ;
    assert(-SCALE < x@ < SCALE) by (nonlinear_arith)
        requires
            square == x@ * x@,
            square / (SCALE as int) < SCALE,
            SCALE == 1_000_000,
    ;
}

/// The zero vector lies inside the unit sphere and the unit disk.
pub proof fn lemma_zero_inside()
    ensures
        Vec3::zero().length_squared()@ == 0,
        in_unit_sphere(Vec3::zero()),
        in_unit_disk(Vec3::zero()),
{
    lemma_mul_zero(Scalar::zero());
}

/// How often a point of the surrounding box is drawn before the search for
/// one inside the sphere or the disk is given up.
pub const MAX_TRIES: u32 = 64;

/// A random point strictly inside the unit sphere. Points of the box
/// `[-1, 1]^3` are drawn until one lies inside; after `MAX_TRIES` misses the
/// centre is returned.
pub fn random_in_unit_sphere() -> (r: Vec3)
    ensures
        in_unit_sphere(r),
{
    let mut tries: u32 = 0;
    while tries < MAX_TRIES
        invariant
            tries <= MAX_TRIES,
        decreases MAX_TRIES - tries,
    {
        let p = Vec3::random_range(Scalar::from_int(-1), Scalar::from_int(1));
        if p.length_squared().micros < SCALE {
            return p;
        }
        tries = tries + 1;
    }
    proof {
        lemma_zero_inside();
    }
    Vec3::zero()
}

/// A random point of the plane `z = 0` strictly inside the unit circle,
/// found like [`random_in_unit_sphere`].
pub fn random_in_unit_disk() -> (r: Vec3)
    ensures
        in_unit_disk(r),
{
    let mut tries: u32 = 0;
    while tries < MAX_TRIES
        invariant
            tries <= MAX_TRIES,
        decreases MAX_TRIES - tries,
    {
        let x = spread(Scalar::from_int(-1), Scalar::from_int(1), random_double());
        let y = spread(Scalar::from_int(-1), Scalar::from_int(1), random_double());
        let p = Vec3 { x, y, z: Scalar::zero() };
        if p.length_squared().micros < SCALE {
            return p;
        }
        tries = tries + 1;
    }
    proof {
        lemma_zero_inside();
    }
    Vec3::zero()
}

/// The least squared length, in millionths, of a point that a direction is
/// taken from: toward a shorter one the direction would be coarse.
pub const SHORTEST_MICROS: i64 = 10_000;

/// The unit vector toward `p`; the x axis where `p` is too short to give a
/// direction.
pub open spec fn spec_direction_of(p: Vec3) -> Vec3 {
    if p.length_squared()@ < SHORTEST_MICROS {
        Vec3::from_ints(1, 0, 0)
    } else {
        unit_vector(p)
    }
}

/// See [`spec_direction_of`].
#[verifier::when_used_as_spec(spec_direction_of)]
pub fn direction_of(p: Vec3) -> (r: Vec3)
    ensures
        r == spec_direction_of(p),
{
    if p.length_squared().micros < SHORTEST_MICROS {
        Vec3::from_ints(1, 0, 0)
    } else {
        unit_vector(p)
    }
}

/// `v` can come out of [`random_unit_vector`].
pub open spec fn is_unit_vector_draw(v: Vec3) -> bool {
    exists|p: Vec3| in_unit_sphere(p) && v == #[trigger] direction_of(p)
}

/// A random direction: the unit vector toward a random point inside the
/// unit sphere. Points are drawn until one is long enough to give a
/// direction; after `MAX_TRIES` short ones the x axis is returned.
pub fn random_unit_vector() -> (r: Vec3)
    ensures
        is_unit_vector_draw(r),
{
    let mut tries: u32 = 0;
    while tries < MAX_TRIES
        invariant
            tries <= MAX_TRIES,
        decreases MAX_TRIES - tries,
    {
        let p = random_in_unit_sphere();
        if p.length_squared().micros >= SHORTEST_MICROS {
            return direction_of(p);
        }
        tries = tries + 1;
    }
    proof {
        lemma_zero_inside();
    }
    direction_of(Vec3::zero())
}

} // verus!
