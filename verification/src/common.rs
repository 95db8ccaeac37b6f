//! Constants, the source of randomness, and the elementary functions the
//! renderer needs, all over [`Scalar`].
use crate::scalar::{lemma_mul_bound, lemma_mul_commutes, Scalar, LIMIT, SCALE};
use rand::Rng;
use vstd::prelude::*;

verus! {

/// Pi, in millionths.
pub const PI_MICROS: i64 = 3_141_593;

/// Two pi, in millionths.
pub const TWO_PI_MICROS: i64 = 6_283_185;

/// Half of pi, in millionths.
pub const HALF_PI_MICROS: i64 = 1_570_796;

/// The natural logarithm of 2, in millionths.
pub const LN_2_MICROS: i64 = 693_147;

pub open spec fn spec_pi() -> Scalar {
    Scalar { micros: PI_MICROS }
}

/// Pi.
#[verifier::when_used_as_spec(spec_pi)]
pub fn pi() -> (r: Scalar)
    ensures
        r == spec_pi(),
{
    Scalar { micros: PI_MICROS }
}

pub open spec fn spec_infinity() -> Scalar {
    Scalar::max_value()
}

/// The scalar that stands for an unbounded ray parameter.
#[verifier::when_used_as_spec(spec_infinity)]
pub fn infinity() -> (r: Scalar)
    ensures
        r == spec_infinity(),
{
    Scalar::max_value()
}

pub open spec fn spec_degrees_to_radians(degrees: Scalar) -> Scalar {
    degrees.mul(pi()).div(Scalar::from_int(180))
}

/// `degrees * pi / 180`.
#[verifier::when_used_as_spec(spec_degrees_to_radians)]
pub fn degrees_to_radians(degrees: Scalar) -> (r: Scalar)
    ensures
        r == spec_degrees_to_radians(degrees),
{
    degrees.mul(pi()).div(Scalar::from_int(180))
}

/// Draws a whole number from the generator of the thread,
/// `rand::thread_rng()`, by `rand::Rng::gen_range` on the inclusive range
/// `min..=max`.
///
/// The contract is taken on trust from the `rand` crate: the call panics
/// for an empty range and returns otherwise (unless the system gives the
/// generator of the thread no seed when it is first used), and what it
/// returns lies in the range. Nothing else is claimed of it; two calls may
/// differ.
#[verifier::external_body]
pub fn random_int_range(min: i32, max: i32) -> (r: i32)
    requires
        min <= max,
    ensures
        min <= r <= max,
{
    rand::thread_rng().gen_range(min..=max)
}

/// `u` can come out of [`random_double`]: it lies in `[0, 1)`.
pub open spec fn is_unit_draw(u: Scalar) -> bool {
    0 <= u@ < SCALE
}

/// A random scalar in `[0, 1)`, a whole number of millionths.
pub fn random_double() -> (r: Scalar)
    ensures
        is_unit_draw(r),
{
    let micros: i32 = random_int_range(0, 999_999);
    Scalar { micros: micros as i64 }
}

/// The point of `[min, max]` that the draw `u` of `[0, 1)` selects.
pub open spec fn spec_spread(min: Scalar, max: Scalar, u: Scalar) -> Scalar {
    min.add(max.sub(min).mul(u))
}

/// See [`spec_spread`].
#[verifier::when_used_as_spec(spec_spread)]
pub fn spread(min: Scalar, max: Scalar, u: Scalar) -> (r: Scalar)
    ensures
        r == spec_spread(min, max, u),
{
    min.add(max.sub(min).mul(u))
}

/// A random scalar between `min` and `max`: `min + (max - min) u` for a
/// draw `u` of `[0, 1)`.
pub fn random_double_range(min: Scalar, max: Scalar) -> (r: Scalar)
    ensures
        exists|u: Scalar| is_unit_draw(u) && r == spread(min, max, u),
        -LIMIT <= min@ && 0 <= max@ - min@ <= LIMIT ==> min@ <= r@ <= max@,
{
    let u = random_double();
    proof {
        if -LIMIT <= min@ && 0 <= max@ - min@ <= LIMIT {
            lemma_spread_range(min, max, u);
        }
    }
    spread(min, max, u)
}

/// The point that a draw of `[0, 1)` selects lies between `min` and `max`,
/// where `max` is not below `min` and their difference is in range.
pub proof fn lemma_spread_range(min: Scalar, max: Scalar, u: Scalar)
    requires
        is_unit_draw(u),
        -LIMIT <= min@,
        0 <= max@ - min@ <= LIMIT,
    ensures
        min@ <= spread(min, max, u)@ <= max@,
{
    lemma_mul_bound(u, max.sub(min));
    lemma_mul_commutes(u, max.sub(min));
}

/// The raw angle in `[0, 2 pi)` that differs from `x` by whole turns.
pub open spec fn spec_within_turn(x: Scalar) -> i64 {
    if x@ >= 0 {
        (x@ % (TWO_PI_MICROS as int)) as i64
    } else {
        (TWO_PI_MICROS - 1 - (-x@ - 1) % (TWO_PI_MICROS as int)) as i64
    }
}

/// See [`spec_within_turn`].
#[verifier::when_used_as_spec(spec_within_turn)]
pub fn within_turn(x: Scalar) -> (r: i64)
    ensures
        r == spec_within_turn(x),
        0 <= r < TWO_PI_MICROS,
{
    if x.micros >= 0 {
        x.micros % TWO_PI_MICROS
    } else {
        let mirrored: i64 = -(x.micros + 1);
        TWO_PI_MICROS - 1 - mirrored % TWO_PI_MICROS
    }
}

/// `x` brought into `[-pi/2, pi/2]` by the symmetries of the sine:
/// whole turns are dropped, and an angle of the second or third quadrant
/// is mirrored at the vertical axis.
pub open spec fn spec_fold_angle(x: Scalar) -> Scalar {
    let turn = spec_within_turn(x) as int;
    let signed = if turn > PI_MICROS {
        turn - TWO_PI_MICROS
    } else {
        turn
    };
    let folded = if signed > HALF_PI_MICROS {
        PI_MICROS - signed
    } else if signed < -HALF_PI_MICROS {
        -PI_MICROS - signed
    } else {
        signed
    };
    Scalar { micros: folded as i64 }
}

/// See [`spec_fold_angle`].
#[verifier::when_used_as_spec(spec_fold_angle)]
pub fn fold_angle(x: Scalar) -> (r: Scalar)
    ensures
        r == spec_fold_angle(x),
        -HALF_PI_MICROS - 1 <= r@ <= HALF_PI_MICROS + 1,
{
    let turn: i64 = within_turn(x);
    let signed: i64 = if turn > PI_MICROS {
        turn - TWO_PI_MICROS
    } else {
        turn
    };
    let folded: i64 = if signed > HALF_PI_MICROS {
        PI_MICROS - signed
    } else if signed < -HALF_PI_MICROS {
        -PI_MICROS - signed
    } else {
        signed
    };
    Scalar { micros: folded }
}

/// One step of the nested form of a power series:
/// `1 - x2 * inner / divisor`.
pub open spec fn spec_series_step(x2: Scalar, divisor: i32, inner: Scalar) -> Scalar {
    Scalar::one().sub(x2.mul(inner).div(Scalar::from_int(divisor)))
}

/// See [`spec_series_step`].
#[verifier::when_used_as_spec(spec_series_step)]
pub fn series_step(x2: Scalar, divisor: i32, inner: Scalar) -> (r: Scalar)
    ensures
        r == spec_series_step(x2, divisor, inner),
{
    Scalar::one().sub(x2.mul(inner).div(Scalar::from_int(divisor)))
}

/// The sine series through the term in `x^13`, in nested form, of the
/// folded angle, held to `[-1, 1]`.
pub open spec fn spec_sin(x: Scalar) -> Scalar {
    let a = fold_angle(x);
    let a2 = a.mul(a);
    let s6 = series_step(a2, 156, Scalar::one());
    let s5 = series_step(a2, 110, s6);
    let s4 = series_step(a2, 72, s5);
    let s3 = series_step(a2, 42, s4);
    let s2 = series_step(a2, 20, s3);
    let s1 = series_step(a2, 6, s2);
    a.mul(s1).clamp(Scalar::one().neg(), Scalar::one())
}

/// The sine of `x` radians, by the series `x - x^3/3! + x^5/5! - ...`
/// through `x^13` on the angle folded into `[-pi/2, pi/2]`.
#[verifier::when_used_as_spec(spec_sin)]
pub fn sin(x: Scalar) -> (r: Scalar)
    ensures
        r == spec_sin(x),
        -SCALE <= r@ <= SCALE,
{
    let a = fold_angle(x);
    let a2 = a.mul(a);
    let s6 = series_step(a2, 156, Scalar::one());
    let s5 = series_step(a2, 110, s6);
    let s4 = series_step(a2, 72, s5);
    let s3 = series_step(a2, 42, s4);
    let s2 = series_step(a2, 20, s3);
    let s1 = series_step(a2, 6, s2);
    a.mul(s1).clamp(Scalar::one().neg(), Scalar::one())
}

pub open spec fn spec_cos(x: Scalar) -> Scalar {
    sin(x.add(Scalar { micros: HALF_PI_MICROS }))
}

/// The cosine of `x` radians: the sine of `x + pi/2`.
#[verifier::when_used_as_spec(spec_cos)]
pub fn cos(x: Scalar) -> (r: Scalar)
    ensures
        r == spec_cos(x),
        -SCALE <= r@ <= SCALE,
{
    sin(x.add(Scalar { micros: HALF_PI_MICROS }))
}

pub open spec fn spec_tan(x: Scalar) -> Scalar {
    sin(x).div(cos(x))
}

/// The tangent of `x` radians: sine over cosine.
#[verifier::when_used_as_spec(spec_tan)]
pub fn tan(x: Scalar) -> (r: Scalar)
    ensures
        r == spec_tan(x),
{
    sin(x).div(cos(x))
}

/// The tangent of half the angle whose tangent is `z`:
/// `z / (1 + sqrt(1 + z^2))`.
pub open spec fn spec_half_angle_tangent(z: Scalar) -> Scalar {
    z.div(Scalar::one().add(Scalar::one().add(z.mul(z)).sqrt()))
}

/// See [`spec_half_angle_tangent`].
#[verifier::when_used_as_spec(spec_half_angle_tangent)]
pub fn half_angle_tangent(z: Scalar) -> (r: Scalar)
    ensures
        r == spec_half_angle_tangent(z),
{
    z.div(Scalar::one().add(Scalar::one().add(z.mul(z)).sqrt()))
}

/// The arc tangent series `z - z^3/3 + z^5/5 - z^7/7 + z^9/9`.
pub open spec fn spec_atan_series(z: Scalar) -> Scalar {
    let z2 = z.mul(z);
    let z3 = z.mul(z2);
    let z5 = z3.mul(z2);
    let z7 = z5.mul(z2);
    let z9 = z7.mul(z2);
    z.sub(z3.div(Scalar::from_int(3))).add(z5.div(Scalar::from_int(5))).sub(
        z7.div(Scalar::from_int(7)),
    ).add(z9.div(Scalar::from_int(9)))
}

/// See [`spec_atan_series`].
#[verifier::when_used_as_spec(spec_atan_series)]
pub fn atan_series(z: Scalar) -> (r: Scalar)
    ensures
        r == spec_atan_series(z),
{
    let z2 = z.mul(z);
    let z3 = z.mul(z2);
    let z5 = z3.mul(z2);
    let z7 = z5.mul(z2);
    let z9 = z7.mul(z2);
    z.sub(z3.div(Scalar::from_int(3))).add(z5.div(Scalar::from_int(5))).sub(
        z7.div(Scalar::from_int(7)),
    ).add(z9.div(Scalar::from_int(9)))
}

/// A quarter of pi, in millionths.
pub const QUARTER_PI_MICROS: i64 = 785_398;

/// The arc tangent of a `z` in `[0, 1]`: the angle is halved twice, which
/// brings the tangent under 0.2, the series is summed there, and the sum is
/// taken four times and held to `[0, pi/4]`.
pub open spec fn spec_atan_unit(z: Scalar) -> Scalar {
    atan_series(half_angle_tangent(half_angle_tangent(z))).mul(Scalar::from_int(4)).clamp(
        Scalar::zero(),
        Scalar { micros: QUARTER_PI_MICROS },
    )
}

/// See [`spec_atan_unit`].
#[verifier::when_used_as_spec(spec_atan_unit)]
pub fn atan_unit(z: Scalar) -> (r: Scalar)
    ensures
        r == spec_atan_unit(z),
        0 <= r@ <= QUARTER_PI_MICROS,
{
    atan_series(half_angle_tangent(half_angle_tangent(z))).mul(Scalar::from_int(4)).clamp(
        Scalar::zero(),
        Scalar { micros: QUARTER_PI_MICROS },
    )
}

/// The angle of the point `(x, y)` against the positive x axis, in
/// `[-pi, pi]`; 0 for the origin. The angle of the first octant comes from
/// [`spec_atan_unit`], the others by reflection.
pub open spec fn spec_atan2(y: Scalar, x: Scalar) -> Scalar {
    let ax = x.abs();
    let ay = y.abs();
    let first = if ax@ == 0 && ay@ == 0 {
        Scalar::zero()
    } else if ay@ <= ax@ {
        atan_unit(ay.div(ax))
    } else {
        Scalar { micros: HALF_PI_MICROS }.sub(atan_unit(ax.div(ay)))
    };
    let upper = if x@ < 0 {
        pi().sub(first)
    } else {
        first
    };
    if y@ < 0 {
        upper.neg()
    } else {
        upper
    }
}

/// See [`spec_atan2`].
#[verifier::when_used_as_spec(spec_atan2)]
pub fn atan2(y: Scalar, x: Scalar) -> (r: Scalar)
    ensures
        r == spec_atan2(y, x),
        -PI_MICROS <= r@ <= PI_MICROS,
        y@ >= 0 ==> r@ >= 0,
{
    let ax = x.abs();
    let ay = y.abs();
    let first = if ax.micros == 0 && ay.micros == 0 {
        Scalar::zero()
    } else if ay.micros <= ax.micros {
        atan_unit(ay.div(ax))
    } else {
        Scalar { micros: HALF_PI_MICROS }.sub(atan_unit(ax.div(ay)))
    };
    let upper = if x.micros < 0 {
        pi().sub(first)
    } else {
        first
    };
    if y.micros < 0 {
        upper.neg()
    } else {
        upper
    }
}

/// The arc cosine of `x` held to `[-1, 1]`: the angle of the point
/// `(x, sqrt(1 - x^2))`, in `[0, pi]`.
pub open spec fn spec_acos(x: Scalar) -> Scalar {
    let c = x.clamp(Scalar::one().neg(), Scalar::one());
    atan2(Scalar::one().sub(c.mul(c)).sqrt(), c)
}

/// See [`spec_acos`].
#[verifier::when_used_as_spec(spec_acos)]
pub fn acos(x: Scalar) -> (r: Scalar)
    ensures
        r == spec_acos(x),
        0 <= r@ <= PI_MICROS,
{
    let c = x.clamp(Scalar::one().neg(), Scalar::one());
    atan2(Scalar::one().sub(c.mul(c)).sqrt(), c)
}

/// The angle of a point lies in `[-pi, pi]`, and in `[0, pi]` for a point
/// that is not below the x axis.
pub proof fn lemma_atan2_range(y: Scalar, x: Scalar)
    ensures
        -PI_MICROS <= atan2(y, x)@ <= PI_MICROS,
        y@ >= 0 ==> atan2(y, x)@ >= 0,
{
}

/// The arc cosine lies in `[0, pi]`.
pub proof fn lemma_acos_range(x: Scalar)
    ensures
        0 <= acos(x)@ <= PI_MICROS,
{
    let c = x.clamp(Scalar::one().neg(), Scalar::one());
    crate::scalar::lemma_sqrt_value(Scalar::one().sub(c.mul(c)));
    lemma_atan2_range(Scalar::one().sub(c.mul(c)).sqrt(), c);
}

/// How often a raw value of 2 or more is halved until it is below 2.
pub open spec fn halvings(raw: int) -> nat
    decreases raw,
{
    if raw >= 2 * SCALE {
        1 + halvings(raw / 2)
    } else {
        0
    }
}

/// The raw value that the halvings leave.
pub open spec fn halved(raw: int) -> int
    decreases raw,
{
    if raw >= 2 * SCALE {
        halved(raw / 2)
    } else {
        raw
    }
}

/// How often a positive raw value below 1 is doubled until it is 1 or more.
pub open spec fn doublings(raw: int) -> nat
    decreases 2 * SCALE - raw,
{
    if 0 < raw < SCALE {
        1 + doublings(2 * raw)
    } else {
        0
    }
}

/// The raw value that the doublings leave.
pub open spec fn doubled(raw: int) -> int
    decreases 2 * SCALE - raw,
{
    if 0 < raw < SCALE {
        doubled(2 * raw)
    } else {
        raw
    }
}

/// The logarithm series `2 (s + s^3/3 + s^5/5 + ... + s^11/11)` at
/// `s = (m - 1) / (m + 1)`, the logarithm of an `m` in `[1, 2)`.
pub open spec fn spec_ln_series(m: Scalar) -> Scalar {
    let s = m.sub(Scalar::one()).div(m.add(Scalar::one()));
    let s2 = s.mul(s);
    let s3 = s.mul(s2);
    let s5 = s3.mul(s2);
    let s7 = s5.mul(s2);
    let s9 = s7.mul(s2);
    let s11 = s9.mul(s2);
    s.add(s3.div(Scalar::from_int(3))).add(s5.div(Scalar::from_int(5))).add(
        s7.div(Scalar::from_int(7)),
    ).add(s9.div(Scalar::from_int(9))).add(s11.div(Scalar::from_int(11))).mul(Scalar::from_int(2))
}

/// See [`spec_ln_series`].
#[verifier::when_used_as_spec(spec_ln_series)]
pub fn ln_series(m: Scalar) -> (r: Scalar)
    ensures
        r == spec_ln_series(m),
{
    let s = m.sub(Scalar::one()).div(m.add(Scalar::one()));
    let s2 = s.mul(s);
    let s3 = s.mul(s2);
    let s5 = s3.mul(s2);
    let s7 = s5.mul(s2);
    let s9 = s7.mul(s2);
    let s11 = s9.mul(s2);
    s.add(s3.div(Scalar::from_int(3))).add(s5.div(Scalar::from_int(5))).add(
        s7.div(Scalar::from_int(7)),
    ).add(s9.div(Scalar::from_int(9))).add(s11.div(Scalar::from_int(11))).mul(Scalar::from_int(2))
}

/// The natural logarithm. A positive `x` is `m 2^k` with `m` in `[1, 2)`,
/// found by halving or doubling, and its logarithm is `k ln 2` plus the
/// series at `m`; the sum is held to the sign of the logarithm, which is
/// not negative from 1 on and not positive below 1. The logarithm of a
/// number that is not positive is the most negative scalar.
pub open spec fn spec_ln(x: Scalar) -> Scalar {
    if x@ <= 0 {
        Scalar::max_value().neg()
    } else if x@ >= SCALE {
        Scalar { micros: (halvings(x@) * LN_2_MICROS) as i64 }.add(
            ln_series(Scalar { micros: halved(x@) as i64 }),
        ).max(Scalar::zero())
    } else {
        Scalar { micros: (-(doublings(x@) * LN_2_MICROS)) as i64 }.add(
            ln_series(Scalar { micros: doubled(x@) as i64 }),
        ).min(Scalar::zero())
    }
}

/// The logarithm of a scalar below 1 is not positive, and the logarithm of
/// a scalar from 1 on is not negative.
pub proof fn lemma_ln_sign(x: Scalar)
    ensures
        x@ < SCALE ==> ln(x)@ <= 0,
        x@ >= SCALE ==> ln(x)@ >= 0,
{
}

/// See [`spec_ln`].
#[verifier::when_used_as_spec(spec_ln)]
pub fn ln(x: Scalar) -> (r: Scalar)
    ensures
        r == spec_ln(x),
        x@ < SCALE ==> r@ <= 0,
        x@ >= SCALE ==> r@ >= 0,
{
    if x.micros <= 0 {
        return Scalar::max_value().neg();
    }
    let mut raw: i64 = x.micros;
    let mut steps: i64 = 0;
    if raw >= SCALE {
        while raw >= 2 * SCALE
            invariant
                0 < raw,
                0 <= steps <= 64,
                steps + halvings(raw as int) == halvings(x@),
                halved(raw as int) == halved(x@),
                raw * pow2_int(steps as nat) <= x@,
            decreases raw,
        {
            proof {
                lemma_pow2_step(steps as nat);
                lemma_pow2_bound(raw as int, steps as nat, x@);
                assert((raw / 2) * pow2_int((steps + 1) as nat) <= raw * pow2_int(steps as nat))
                    by (nonlinear_arith)
                    requires
                        pow2_int((steps + 1) as nat) == 2 * pow2_int(steps as nat),
                        pow2_int(steps as nat) > 0,
                        raw > 0,
                ;
            }
            raw = raw / 2;
            steps = steps + 1;
        }
        Scalar { micros: steps * LN_2_MICROS }.add(ln_series(Scalar { micros: raw })).max(
            Scalar::zero(),
        )
    } else {
        while raw < SCALE
            invariant
                0 < raw < 2 * SCALE,
                0 <= steps <= 64,
                steps + doublings(raw as int) == doublings(x@),
                doubled(raw as int) == doubled(x@),
                raw >= pow2_int(steps as nat),
            decreases 2 * SCALE - raw,
        {
            proof {
                lemma_pow2_step(steps as nat);
                lemma_pow2_small(steps as nat, raw as int);
            }
            raw = raw * 2;
            steps = steps + 1;
        }
        Scalar { micros: -(steps * LN_2_MICROS) }.add(ln_series(Scalar { micros: raw })).min(
            Scalar::zero(),
        )
    }
}

/// Two to the power `n`.
pub open spec fn pow2_int(n: nat) -> int
    decreases n,
{
    if n == 0 {
        1
    } else {
        2 * pow2_int((n - 1) as nat)
    }
}

/// `2^(n+1) = 2 * 2^n`, and powers of two are positive.
pub proof fn lemma_pow2_step(n: nat)
    ensures
        pow2_int(n + 1) == 2 * pow2_int(n),
        pow2_int(n) > 0,
    decreases n,
{
    if n > 0 {
        lemma_pow2_step((n - 1) as nat);
    }
}

/// Powers of two grow with the exponent.
pub proof fn lemma_pow2_monotone(a: nat, b: nat)
    requires
        a <= b,
    ensures
        pow2_int(a) <= pow2_int(b),
    decreases b,
{
    if a < b {
        lemma_pow2_monotone(a, (b - 1) as nat);
        lemma_pow2_step((b - 1) as nat);
    }
}

/// If `raw 2^steps` is at most a 64-bit `x` and `raw` is at least 2 units,
/// fewer than 64 steps were taken.
pub proof fn lemma_pow2_bound(raw: int, steps: nat, x: int)
    requires
        raw >= 2 * SCALE,
        raw * pow2_int(steps) <= x,
        x <= 0x7fff_ffff_ffff_ffff,
    ensures
        steps < 64,
{
    if steps >= 64 {
        lemma_pow2_monotone(64, steps);
        lemma_pow2_64();
        assert(raw * pow2_int(steps) >= pow2_int(steps)) by (nonlinear_arith)
            requires
                raw >= 1,
                pow2_int(steps) > 0,
        ;
    }
}

/// `2^64`, written out.
pub proof fn lemma_pow2_64()
    ensures
        pow2_int(64) == 0x1_0000_0000_0000_0000,
{
    reveal_with_fuel(pow2_int, 65);
}

/// A power of two that is at most a raw value below 1 unit has an exponent
/// under 64.
pub proof fn lemma_pow2_small(steps: nat, raw: int)
    requires
        pow2_int(steps) <= raw,
        raw < SCALE,
    ensures
        steps < 64,
{
    if steps >= 64 {
        lemma_pow2_monotone(64, steps);
        lemma_pow2_64();
    }
}

} // verus!
