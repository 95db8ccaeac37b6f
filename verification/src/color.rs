//! Colours, and their encoding as one line of a plain-text pixel map.
use crate::scalar::{lemma_mul_value, quotient, Scalar, SCALE};
use crate::vec3::Vec3;
use vstd::prelude::*;

verus! {

/// Linear red, green and blue.
pub type Color = Vec3;

/// The brightest channel value that is written: 0.999.
pub const BRIGHTEST_MICROS: i64 = 999_000;

/// The sum of the samples of one channel as a level of 0 to 255: the mean
/// of the samples, gamma-corrected for gamma 2 by a square root, held to
/// `[0, 0.999]` and scaled by 256.
pub open spec fn spec_channel_level(sum: Scalar, samples_per_pixel: i32) -> u8 {
    Scalar::from_int(256).mul(
        Scalar::one().div(Scalar::from_int(samples_per_pixel)).mul(sum).sqrt().clamp(
            Scalar::zero(),
            Scalar { micros: BRIGHTEST_MICROS },
        ),
    ).whole_part() as u8
}

/// See [`spec_channel_level`].
#[verifier::when_used_as_spec(spec_channel_level)]
pub fn channel_level(sum: Scalar, samples_per_pixel: i32) -> (r: u8)
    ensures
        r == spec_channel_level(sum, samples_per_pixel),
{
    let scale = Scalar::one().div(Scalar::from_int(samples_per_pixel));
    let corrected = scale.mul(sum).sqrt();
    let held = corrected.clamp(Scalar::zero(), Scalar { micros: BRIGHTEST_MICROS });
    let scaled = Scalar::from_int(256).mul(held);
    proof {
        assert(0 <= 256_000_000 * held@ <= 256_000_000 * 999_000) by (nonlinear_arith)
            requires
                0 <= held@ <= 999_000,
        ;
        assert(quotient(256_000_000 * held@, SCALE as int) == (256_000_000 * held@) / 1_000_000);
        lemma_mul_value(Scalar::from_int(256), held);
    }
    let level: i64 = scaled.whole_part();
    level as u8
}

/// The decimal digits of `n`, as ASCII.
pub open spec fn decimal(n: nat) -> Seq<u8>
    decreases n,
{
    if n < 10 {
        seq![(48 + n) as u8]
    } else {
        decimal(n / 10).push((48 + n % 10) as u8)
    }
}

/// Appends the decimal digits of `n`.
pub fn push_decimal(out: &mut Vec<u8>, n: u8)
    ensures
        final(out)@ == old(out)@ + decimal(n as nat),
{
    reveal_with_fuel(decimal, 3);
    if n >= 100 {
        out.push(48 + n / 100);
        out.push(48 + (n / 10) % 10);
        out.push(48 + n % 10);
        assert(final(out)@ =~= old(out)@ + decimal(n as nat));
    } else if n >= 10 {
        out.push(48 + n / 10);
        out.push(48 + n % 10);
        assert(final(out)@ =~= old(out)@ + decimal(n as nat));
    } else {
        out.push(48 + n);
        assert(final(out)@ =~= old(out)@ + decimal(n as nat));
    }
}

/// The line of a pixel whose samples sum to `pixel_color`: the levels of
/// red, green and blue in decimal, with a space between them and a line
/// feed at the end.
pub open spec fn pixel_line(pixel_color: Color, samples_per_pixel: i32) -> Seq<u8> {
    decimal(channel_level(pixel_color.x, samples_per_pixel) as nat).push(32u8) + decimal(
        channel_level(pixel_color.y, samples_per_pixel) as nat,
    ).push(32u8) + decimal(channel_level(pixel_color.z, samples_per_pixel) as nat).push(10u8)
}

/// Appends the line of the pixel whose samples sum to `pixel_color` to
/// `out`.
pub fn write_color(out: &mut Vec<u8>, pixel_color: Color, samples_per_pixel: i32)
    ensures
        final(out)@ == old(out)@ + pixel_line(pixel_color, samples_per_pixel),
{
    let r = channel_level(pixel_color.x(), samples_per_pixel);
    let g = channel_level(pixel_color.y(), samples_per_pixel);
    let b = channel_level(pixel_color.z(), samples_per_pixel);
    push_decimal(out, r);
    out.push(32);
    push_decimal(out, g);
    out.push(32);
    push_decimal(out, b);
    out.push(10);
    assert(final(out)@ =~= old(out)@ + pixel_line(pixel_color, samples_per_pixel));
}

} // verus!
