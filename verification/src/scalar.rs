//! Fixed-point scalars.
//!
//! Every quantity of the renderer (coordinates, ray parameters, densities,
//! colour channels) is a [`Scalar`]: a signed count of millionths. The
//! arithmetic is total. A result that does not fit is clamped to the largest
//! representable magnitude, products and quotients are rounded toward zero,
//! and the square root is rounded down. The largest magnitude stands for an
//! unbounded quantity: it is what a quotient by zero gives. Where no number
//! is the answer (zero divided by zero, the square root of a negative
//! number), the result is 0, so that a degenerate sample adds nothing to a
//! pixel.
use vstd::prelude::*;

verus! {

/// Raw units per whole unit.
pub const SCALE: i64 = 1_000_000;

/// Largest magnitude a scalar holds, in raw units.
pub const LIMIT: i64 = 9_223_372_036_854_775_807;

/// `x` clamped to `[-LIMIT, LIMIT]`.
pub open spec fn saturate(x: int) -> int {
    if x > LIMIT {
        LIMIT as int
    } else if x < -LIMIT {
        -LIMIT
    } else {
        x
    }
}

/// The quotient of `x` by `d`, rounded toward zero.
pub open spec fn quotient(x: int, d: int) -> int
    recommends
        d != 0,
{
    if d > 0 {
        if x >= 0 {
            x / d
        } else {
            -((-x) / d)
        }
    } else {
        if x >= 0 {
            -(x / (-d))
        } else {
            (-x) / (-d)
        }
    }
}

/// `r` is the square root of `n`, rounded down.
pub open spec fn is_floor_root(n: int, r: int) -> bool {
    0 <= r && r * r <= n < (r + 1) * (r + 1)
}

/// The square root of `n`, rounded down; 0 for a negative `n`.
pub open spec fn floor_root(n: int) -> int {
    if n < 0 {
        0
    } else {
        choose|r: int| is_floor_root(n, r)
    }
}

/// A number has at most one rounded-down square root.
pub proof fn lemma_floor_root_unique(n: int, a: int, b: int)
    requires
        is_floor_root(n, a),
        is_floor_root(n, b),
    ensures
        a == b,
{
    if a < b {
        assert((a + 1) * (a + 1) <= b * b) by (nonlinear_arith)
            requires
                0 <= a,
                a + 1 <= b,
        ;
    } else if b < a {
        assert((b + 1) * (b + 1) <= a * a) by (nonlinear_arith)
            requires
                0 <= b,
                b + 1 <= a,
        ;
    }
}

/// Whoever exhibits a rounded-down square root has found `floor_root`.
pub proof fn lemma_floor_root_is(n: int, r: int)
    requires
        is_floor_root(n, r),
    ensures
        floor_root(n) == r,
{
    assert(n >= 0) by (nonlinear_arith)
        requires
            r * r <= n,
    ;
    let c = choose|c: int| is_floor_root(n, c);
    lemma_floor_root_unique(n, c, r);
}

/// The rounded-down square root of `n`.
pub fn integer_root(n: u128) -> (r: u64)
    requires
        n < 0x1000_0000_0000_0000_0000_0000,
    ensures
        r == floor_root(n as int),
        is_floor_root(n as int, r as int),
{
    let mut lo: u64 = 0;
    let mut hi: u64 = 0x4000_0000_0000;
    assert(0x4000_0000_0000u64 * 0x4000_0000_0000u64 == 0x1000_0000_0000_0000_0000_0000int);
    while hi - lo > 1
        invariant
            lo < hi <= 0x4000_0000_0000,
            lo * lo <= n < hi * hi,
        decreases hi - lo,
    {
        let mid: u64 = lo + (hi - lo) / 2;
        assert(mid * mid < 0x1000_0000_0000_0000_0000_0000) by (nonlinear_arith)
            requires
                0 <= mid < 0x4000_0000_0000,
        ;
        let square: u128 = (mid as u128) * (mid as u128);
        if square <= n {
            lo = mid;
        } else {
            hi = mid;
        }
    }
    proof {
        assert(hi == lo + 1);
        lemma_floor_root_is(n as int, lo as int);
    }
    lo
}

/// `x` clamped into the range of a scalar.
fn clamp_raw(x: i128) -> (r: i64)
    ensures
        r == saturate(x as int),
{
    if x > LIMIT as i128 {
        LIMIT
    } else if x < -(LIMIT as i128) {
        -LIMIT
    } else {
        x as i64
    }
}

/// `x / d` rounded toward zero, for a divisor that is not zero.
fn quotient_raw(x: i128, d: i128) -> (r: i128)
    requires
        d != 0,
        -0x4000_0000_0000_0000_0000_0000_0000_0000 <= x,
        x <= 0x4000_0000_0000_0000_0000_0000_0000_0000,
        -0x4000_0000_0000_0000_0000_0000_0000_0000 <= d,
        d <= 0x4000_0000_0000_0000_0000_0000_0000_0000,
    ensures
        r == quotient(x as int, d as int),
{
    if d > 0 {
        x / d
    } else {
        let nx: i128 = -x;
        let nd: i128 = -d;
        let q: i128 = nx / nd;
        q
    }
}

/// A fixed-point number: `micros` millionths.
#[derive(Clone, Copy, Debug, PartialEq, Eq, Structural)]
pub struct Scalar {
    pub micros: i64,
}

impl View for Scalar {
    type V = int;

    /// The scalar's raw count of millionths.
    open spec fn view(&self) -> int {
        self.micros as int
    }
}

impl Scalar {
    /// The scalar with raw value `saturate(x)`.
    pub open spec fn of(x: int) -> Scalar {
        Scalar { micros: saturate(x) as i64 }
    }

    pub open spec fn spec_from_micros(micros: i64) -> Scalar {
        Scalar { micros }
    }

    /// The scalar of `micros` millionths.
    #[verifier::when_used_as_spec(spec_from_micros)]
    pub fn from_micros(micros: i64) -> (r: Scalar)
        ensures
            r == Scalar::spec_from_micros(micros),
    {
        Scalar { micros }
    }

    pub open spec fn spec_from_int(n: i32) -> Scalar {
        Scalar { micros: (n * SCALE) as i64 }
    }

    /// The whole number `n`.
    #[verifier::when_used_as_spec(spec_from_int)]
    pub fn from_int(n: i32) -> (r: Scalar)
        ensures
            r == Scalar::spec_from_int(n),
            r@ == n * SCALE,
    {
        Scalar { micros: (n as i64) * SCALE }
    }

    pub open spec fn spec_from_count(n: usize) -> Scalar {
        Scalar::of(n * SCALE)
    }

    /// The whole number `n`, clamped.
    #[verifier::when_used_as_spec(spec_from_count)]
    pub fn from_count(n: usize) -> (r: Scalar)
        ensures
            r == Scalar::spec_from_count(n),
    {
        if n as u64 > 9_223_372_036_854 {
            Scalar { micros: LIMIT }
        } else {
            Scalar { micros: (n as i64) * SCALE }
        }
    }

    pub open spec fn spec_zero() -> Scalar {
        Scalar { micros: 0 }
    }

    /// The number 0.
    #[verifier::when_used_as_spec(spec_zero)]
    pub fn zero() -> (r: Scalar)
        ensures
            r == Scalar::spec_zero(),
    {
        Scalar { micros: 0 }
    }

    pub open spec fn spec_one() -> Scalar {
        Scalar { micros: SCALE }
    }

    /// The number 1.
    #[verifier::when_used_as_spec(spec_one)]
    pub fn one() -> (r: Scalar)
        ensures
            r == Scalar::spec_one(),
    {
        Scalar { micros: SCALE }
    }

    pub open spec fn spec_half() -> Scalar {
        Scalar { micros: 500_000 }
    }

    /// The number 1/2.
    #[verifier::when_used_as_spec(spec_half)]
    pub fn half() -> (r: Scalar)
        ensures
            r == Scalar::spec_half(),
    {
        Scalar { micros: 500_000 }
    }

    pub open spec fn spec_max_value() -> Scalar {
        Scalar { micros: LIMIT }
    }

    /// The largest scalar; it stands for an unbounded quantity.
    #[verifier::when_used_as_spec(spec_max_value)]
    pub fn max_value() -> (r: Scalar)
        ensures
            r == Scalar::spec_max_value(),
    {
        Scalar { micros: LIMIT }
    }

    pub open spec fn spec_add(self, rhs: Scalar) -> Scalar {
        Scalar::of(self@ + rhs@)
    }

    /// The sum, clamped.
    #[verifier::when_used_as_spec(spec_add)]
    pub fn add(self, rhs: Scalar) -> (r: Scalar)
        ensures
            r == self.spec_add(rhs),
    {
        let sum: i128 = (self.micros as i128) + (rhs.micros as i128);
        Scalar { micros: clamp_raw(sum) }
    }

    pub open spec fn spec_sub(self, rhs: Scalar) -> Scalar {
        Scalar::of(self@ - rhs@)
    }

    /// The difference, clamped.
    #[verifier::when_used_as_spec(spec_sub)]
    pub fn sub(self, rhs: Scalar) -> (r: Scalar)
        ensures
            r == self.spec_sub(rhs),
    {
        let difference: i128 = (self.micros as i128) - (rhs.micros as i128);
        Scalar { micros: clamp_raw(difference) }
    }

    pub open spec fn spec_neg(self) -> Scalar {
        Scalar::of(-self@)
    }

    /// The negation, clamped.
    #[verifier::when_used_as_spec(spec_neg)]
    pub fn neg(self) -> (r: Scalar)
        ensures
            r == self.spec_neg(),
    {
        let negated: i128 = -(self.micros as i128);
        Scalar { micros: clamp_raw(negated) }
    }

    pub open spec fn spec_abs(self) -> Scalar {
        if self@ < 0 {
            self.spec_neg()
        } else {
            self
        }
    }

    /// The magnitude, clamped.
    #[verifier::when_used_as_spec(spec_abs)]
    pub fn abs(self) -> (r: Scalar)
        ensures
            r == self.spec_abs(),
            r@ >= 0,
    {
        if self.micros < 0 {
            self.neg()
        } else {
            self
        }
    }

    #[verifier::opaque]
    pub open spec fn spec_mul(self, rhs: Scalar) -> Scalar {
        Scalar::of(quotient(self@ * rhs@, SCALE as int))
    }

    /// The product, rounded toward zero and clamped.
    #[verifier::when_used_as_spec(spec_mul)]
    pub fn mul(self, rhs: Scalar) -> (r: Scalar)
        ensures
            r == self.spec_mul(rhs),
    {
        reveal(Scalar::spec_mul);
        let a: i128 = self.micros as i128;
        let b: i128 = rhs.micros as i128;
        assert(-0x4000_0000_0000_0000_0000_0000_0000_0000 <= a * b
            <= 0x4000_0000_0000_0000_0000_0000_0000_0000) by (nonlinear_arith)
            requires
                -0x8000_0000_0000_0000 <= a <= 0x8000_0000_0000_0000,
                -0x8000_0000_0000_0000 <= b <= 0x8000_0000_0000_0000,
        ;
        let product: i128 = a * b;
        Scalar { micros: clamp_raw(quotient_raw(product, SCALE as i128)) }
    }

    #[verifier::opaque]
    pub open spec fn spec_div(self, rhs: Scalar) -> Scalar {
        if rhs@ == 0 {
            if self@ > 0 {
                Scalar::spec_max_value()
            } else if self@ < 0 {
                Scalar::spec_max_value().spec_neg()
            } else {
                Scalar::spec_zero()
            }
        } else {
            Scalar::of(quotient(self@ * SCALE, rhs@))
        }
    }

    /// The quotient, rounded toward zero and clamped. A quotient by zero is
    /// the largest magnitude with the sign of the dividend, and 0 for 0 / 0.
    #[verifier::when_used_as_spec(spec_div)]
    pub fn div(self, rhs: Scalar) -> (r: Scalar)
        ensures
            r == self.spec_div(rhs),
    {
        reveal(Scalar::spec_div);
        if rhs.micros == 0 {
            if self.micros > 0 {
                Scalar::max_value()
            } else if self.micros < 0 {
                Scalar::max_value().neg()
            } else {
                Scalar::zero()
            }
        } else {
            assert(-0x4000_0000_0000_0000_0000_0000_0000_0000 <= self.micros * SCALE
                <= 0x4000_0000_0000_0000_0000_0000_0000_0000) by (nonlinear_arith)
                requires
                    -0x8000_0000_0000_0000 <= self.micros <= 0x8000_0000_0000_0000,
                    SCALE == 1_000_000,
            ;
            let scaled: i128 = (self.micros as i128) * (SCALE as i128);
            Scalar { micros: clamp_raw(quotient_raw(scaled, rhs.micros as i128)) }
        }
    }

    #[verifier::opaque]
    pub open spec fn spec_sqrt(self) -> Scalar {
        Scalar { micros: floor_root(self@ * SCALE) as i64 }
    }

    /// The square root, rounded down; 0 for a negative number.
    #[verifier::when_used_as_spec(spec_sqrt)]
    pub fn sqrt(self) -> (r: Scalar)
        ensures
            r == self.spec_sqrt(),
            r@ >= 0,
            self@ >= 0 ==> is_floor_root(self@ * SCALE, r@),
    {
        reveal(Scalar::spec_sqrt);
        if self.micros < 0 {
            Scalar { micros: 0 }
        } else {
            let scaled: u128 = (self.micros as u128) * (SCALE as u128);
            let root: u64 = integer_root(scaled);
            assert(root < 0x4000_0000_0000) by (nonlinear_arith)
                requires
                    root * root <= scaled,
                    scaled < 0x1000_0000_0000_0000_0000_0000,
            ;
            Scalar { micros: root as i64 }
        }
    }

    pub open spec fn spec_min(self, rhs: Scalar) -> Scalar {
        if self@ <= rhs@ {
            self
        } else {
            rhs
        }
    }

    /// The smaller of two scalars.
    #[verifier::when_used_as_spec(spec_min)]
    pub fn min(self, rhs: Scalar) -> (r: Scalar)
        ensures
            r == self.spec_min(rhs),
    {
        if self.micros <= rhs.micros {
            self
        } else {
            rhs
        }
    }

    pub open spec fn spec_max(self, rhs: Scalar) -> Scalar {
        if self@ >= rhs@ {
            self
        } else {
            rhs
        }
    }

    /// The larger of two scalars.
    #[verifier::when_used_as_spec(spec_max)]
    pub fn max(self, rhs: Scalar) -> (r: Scalar)
        ensures
            r == self.spec_max(rhs),
    {
        if self.micros >= rhs.micros {
            self
        } else {
            rhs
        }
    }

    pub open spec fn spec_clamp(self, low: Scalar, high: Scalar) -> Scalar {
        if self@ < low@ {
            low
        } else if self@ > high@ {
            high
        } else {
            self
        }
    }

    /// `self` moved into `[low, high]`.
    #[verifier::when_used_as_spec(spec_clamp)]
    pub fn clamp(self, low: Scalar, high: Scalar) -> (r: Scalar)
        ensures
            r == self.spec_clamp(low, high),
    {
        if self.micros < low.micros {
            low
        } else if self.micros > high.micros {
            high
        } else {
            self
        }
    }

    pub open spec fn spec_floor(self) -> Scalar {
        Scalar::of((self@ / SCALE as int) * SCALE)
    }

    /// The largest whole number that is not above `self`, clamped.
    #[verifier::when_used_as_spec(spec_floor)]
    pub fn floor(self) -> (r: Scalar)
        ensures
            r == self.spec_floor(),
            self@ >= -9_223_372_036_854_000_000 ==> r@ <= self@ < r@ + SCALE && r@ % (SCALE as int)
                == 0,
    {
        let whole: i128 = self.whole_part() as i128;
        let scaled: i128 = whole * (SCALE as i128);
        Scalar { micros: clamp_raw(scaled) }
    }

    pub open spec fn spec_whole_part(self) -> i64 {
        (self@ / SCALE as int) as i64
    }

    /// The number of whole units in `self`, rounded down.
    #[verifier::when_used_as_spec(spec_whole_part)]
    pub fn whole_part(self) -> (r: i64)
        ensures
            r == self.spec_whole_part(),
            r == self@ / SCALE as int,
            -9_223_372_036_855 <= r <= 9_223_372_036_854,
    {
        let q: i64 = self.micros / SCALE;
        if self.micros < 0 && q * SCALE != self.micros {
            q - 1
        } else {
            q
        }
    }
}

/// A product with 0 is 0.
pub proof fn lemma_mul_zero(x: Scalar)
    ensures
        Scalar::zero().mul(x) == Scalar::zero(),
        x.mul(Scalar::zero()) == Scalar::zero(),
{
    reveal(Scalar::spec_mul);
    assert(0 * x@ == 0 && x@ * 0 == 0) by (nonlinear_arith);
}

/// The factors of a product can change places.
pub proof fn lemma_mul_commutes(a: Scalar, b: Scalar)
    ensures
        a.mul(b) == b.mul(a),
{
    reveal(Scalar::spec_mul);
    assert(a@ * b@ == b@ * a@) by (nonlinear_arith);
}

/// A product with 1 is the other factor, for a factor that has an opposite.
pub proof fn lemma_mul_one(x: Scalar)
    requires
        x@ >= -LIMIT,
    ensures
        Scalar::one().mul(x) == x,
        x.mul(Scalar::one()) == x,
{
    reveal(Scalar::spec_mul);
    assert(SCALE * x@ == x@ * SCALE) by (nonlinear_arith);
    assert((x@ * SCALE) / (SCALE as int) == x@ && ((-x@) * SCALE) / (SCALE as int) == -x@);
    assert(-(x@ * SCALE) == (-x@) * SCALE) by (nonlinear_arith);
}

/// The product of two scalars of one sign is not negative, and the product
/// of two scalars of opposite signs is not positive.
pub proof fn lemma_mul_sign(a: Scalar, b: Scalar)
    ensures
        (a@ >= 0 && b@ >= 0) || (a@ <= 0 && b@ <= 0) ==> a.mul(b)@ >= 0,
        (a@ >= 0 && b@ <= 0) || (a@ <= 0 && b@ >= 0) ==> a.mul(b)@ <= 0,
{
    reveal(Scalar::spec_mul);
    let p = a@ * b@;
    assert((a@ >= 0 && b@ >= 0) || (a@ <= 0 && b@ <= 0) ==> p >= 0) by (nonlinear_arith)
        requires
            p == a@ * b@,
    ;
    assert((a@ >= 0 && b@ <= 0) || (a@ <= 0 && b@ >= 0) ==> p <= 0) by (nonlinear_arith)
        requires
            p == a@ * b@,
    ;
    lemma_quotient_sign(p, SCALE as int);
}

/// A product lies between `-LIMIT` and `LIMIT`.
pub proof fn lemma_mul_range(a: Scalar, b: Scalar)
    ensures
        -LIMIT <= a.mul(b)@ <= LIMIT,
{
    reveal(Scalar::spec_mul);
}

/// The product with the opposite of a factor is the opposite product, for
/// a factor that has an opposite.
pub proof fn lemma_mul_neg(a: Scalar, b: Scalar)
    requires
        b@ >= -LIMIT,
    ensures
        a.mul(b.neg()) == a.mul(b).neg(),
{
    reveal(Scalar::spec_mul);
    assert(a@ * (-b@) == -(a@ * b@)) by (nonlinear_arith);
}

/// A product with a factor of `[0, 1]` lies between 0 and the other factor.
pub proof fn lemma_mul_bound(a: Scalar, b: Scalar)
    requires
        0 <= a@ <= SCALE,
        b@ >= 0,
    ensures
        0 <= a.mul(b)@ <= b@,
        a.mul(b)@ == (a@ * b@) / (SCALE as int),
{
    reveal(Scalar::spec_mul);
    assert(0 <= a@ * b@ <= SCALE * b@) by (nonlinear_arith)
        requires
            0 <= a@ <= SCALE,
            b@ >= 0,
    ;
}

/// A quotient by a positive number keeps the order of the dividends.
pub proof fn lemma_quotient_keeps_order(x: int, y: int, d: int)
    requires
        x <= y,
        d > 0,
    ensures
        quotient(x, d) <= quotient(y, d),
        saturate(quotient(x, d)) <= saturate(quotient(y, d)),
{
    lemma_quotient_sign(x, d);
    lemma_quotient_sign(y, d);
    if x >= 0 {
        assert(x / d <= y / d) by (nonlinear_arith)
            requires
                0 <= x <= y,
                d > 0,
        ;
    } else if y < 0 {
        assert((-y) / d <= (-x) / d) by (nonlinear_arith)
            requires
                0 <= -y <= -x,
                d > 0,
        ;
    }
}

/// A product with a factor of `[-1, 1]` lies within the other factor, where
/// that one is not negative.
pub proof fn lemma_mul_within(a: Scalar, r: Scalar)
    requires
        -SCALE <= a@ <= SCALE,
        r@ >= 0,
    ensures
        -r@ <= a.mul(r)@ <= r@,
{
    if a@ >= 0 {
        lemma_mul_bound(a, r);
    } else {
        lemma_mul_bound(a.neg(), r);
        lemma_mul_commutes(a, r);
        lemma_mul_commutes(a.neg(), r);
        lemma_mul_neg(r, a);
        lemma_mul_range(r, a);
    }
}

/// A quotient by a positive number has the sign of the dividend.
pub proof fn lemma_quotient_sign(x: int, d: int)
    requires
        d > 0,
    ensures
        x >= 0 ==> quotient(x, d) >= 0,
        x <= 0 ==> quotient(x, d) <= 0,
        x >= 0 ==> quotient(x, d) <= x,
{
    if x >= 0 {
        assert(0 <= x / d <= x) by (nonlinear_arith)
            requires
                x >= 0,
                d > 0,
        ;
    } else {
        assert(0 <= (-x) / d) by (nonlinear_arith)
            requires
                -x >= 0,
                d > 0,
        ;
    }
}

/// The quotient of a scalar that is not negative by a positive one is not
/// negative.
pub proof fn lemma_div_sign(a: Scalar, b: Scalar)
    requires
        b@ > 0,
    ensures
        a@ >= 0 ==> a.div(b)@ >= 0,
        a@ <= 0 ==> a.div(b)@ <= 0,
{
    reveal(Scalar::spec_div);
    lemma_quotient_sign(a@ * SCALE, b@);
}

/// The quotient of a scalar that is not negative by a positive one is at
/// most 1 where the dividend is not above the divisor, and also where it is
/// above it by less than the divisor's millionth part.
pub proof fn lemma_div_at_most_one(a: Scalar, b: Scalar)
    requires
        0 <= a@,
        0 < b@,
        a@ * SCALE < (SCALE + 1) * b@,
    ensures
        0 <= a.div(b)@ <= SCALE,
{
    reveal(Scalar::spec_div);
    let n = a@ * SCALE;
    let q = n / b@;
    assert(0 <= q <= SCALE) by (nonlinear_arith)
        requires
            q == n / b@,
            0 <= n,
            0 < b@,
            n < (SCALE + 1) * b@,
            SCALE == 1_000_000,
    ;
}

/// Division undoes multiplication, as far as rounding lets it: a scalar
/// that is at most the product of `w` and a positive `d` is, divided by
/// `d`, at most `w`.
pub proof fn lemma_div_undoes_mul(a: Scalar, w: Scalar, d: Scalar)
    requires
        0 <= a@,
        0 <= w@,
        0 < d@,
        a@ <= w.mul(d)@,
    ensures
        0 <= a.div(d)@ <= w@,
{
    reveal(Scalar::spec_mul);
    reveal(Scalar::spec_div);
    let p = w@ * d@;
    let m = p / (SCALE as int);
    assert(0 <= p) by (nonlinear_arith)
        requires
            p == w@ * d@,
            0 <= w@,
            0 < d@,
    ;
    assert(a@ * SCALE <= p) by (nonlinear_arith)
        requires
            a@ <= m,
            m == p / (SCALE as int),
            0 <= p,
            SCALE == 1_000_000,
    ;
    let n = a@ * SCALE;
    assert(0 <= n / d@ <= w@) by (nonlinear_arith)
        requires
            0 <= n <= p,
            p == w@ * d@,
            0 < d@,
            0 <= w@,
    ;
}

/// The raw value of a product that does not overflow.
pub proof fn lemma_mul_value(a: Scalar, b: Scalar)
    requires
        -LIMIT <= quotient(a@ * b@, SCALE as int) <= LIMIT,
    ensures
        a.mul(b)@ == quotient(a@ * b@, SCALE as int),
{
    reveal(Scalar::spec_mul);
}

/// The square root is not negative, and it is the rounded-down root of a
/// scalar that is not negative.
pub proof fn lemma_sqrt_value(a: Scalar)
    ensures
        a.sqrt()@ >= 0,
        a@ < 0 ==> a.sqrt()@ == 0,
        a@ >= 0 ==> is_floor_root(a@ * SCALE, a.sqrt()@),
{
    reveal(Scalar::spec_sqrt);
    if a@ >= 0 {
        lemma_floor_root_exists(a@ * SCALE);
        assert(floor_root(a@ * SCALE) < 0x4000_0000_0000) by (nonlinear_arith)
            requires
                is_floor_root(a@ * SCALE, floor_root(a@ * SCALE)),
                a@ * SCALE < 0x1000_0000_0000_0000_0000_0000,
        ;
    }
}

/// Every number that is not negative has a rounded-down square root.
pub proof fn lemma_floor_root_exists(n: int)
    requires
        n >= 0,
    ensures
        is_floor_root(n, floor_root(n)),
    decreases n,
{
    if n == 0 {
        assert(is_floor_root(0, 0));
    } else {
        lemma_floor_root_exists(n - 1);
        let r = floor_root(n - 1);
        assert((r + 1) * (r + 1) == r * r + 2 * r + 1) by (nonlinear_arith);
        assert((r + 2) * (r + 2) == r * r + 4 * r + 4) by (nonlinear_arith);
        if (r + 1) * (r + 1) <= n {
            assert(is_floor_root(n, r + 1));
        } else {
            assert(is_floor_root(n, r));
        }
    }
}

} // verus!
