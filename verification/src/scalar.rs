//! Saturating fixed-point numbers with 32 fractional bits.
//!
//! A [`Scalar`] with raw value `raw` stands for the rational `raw / 2^32`.
//! Products and quotients are rounded toward zero; results that leave the
//! representable range are clamped to [`MIN_RAW`] or [`MAX_RAW`], which play
//! the part of minus and plus infinity.

use vstd::prelude::*;

verus! {

/// Raw value of the number one.
pub const ONE_RAW: i64 = 0x1_0000_0000;

/// Largest raw value; the result of every overflowing operation.
pub const MAX_RAW: i64 = 0x7fff_ffff_ffff_ffff;

/// Smallest raw value that the operations produce. The range is symmetric, so
/// negation never overflows.
pub const MIN_RAW: i64 = -0x7fff_ffff_ffff_ffff;

/// Clamps an integer to the range of raw values.
pub open spec fn saturate(x: int) -> int {
    if x > MAX_RAW {
        MAX_RAW as int
    } else if x < MIN_RAW {
        MIN_RAW as int
    } else {
        x
    }
}

/// Absolute value.
pub open spec fn magnitude(x: int) -> int {
    if x < 0 {
        -x
    } else {
        x
    }
}

/// The quotient `n / d` rounded toward zero, for `d != 0`.
pub open spec fn trunc_div(n: int, d: int) -> int {
    if (n < 0) == (d < 0) {
        magnitude(n) / magnitude(d)
    } else {
        -(magnitude(n) / magnitude(d))
    }
}

/// `r` is the integer square root of `n`, rounded down.
pub open spec fn is_floor_sqrt(n: int, r: int) -> bool {
    0 <= r && r * r <= n < (r + 1) * (r + 1)
}

/// The integer square root of `n`, rounded down; zero for negative `n`.
pub open spec fn floor_sqrt(n: int) -> int {
    if n < 0 {
        0
    } else {
        choose|r: int| is_floor_sqrt(n, r)
    }
}

/// Every natural number has an integer square root.
pub proof fn lemma_floor_sqrt_exists(n: int)
    requires
        0 <= n,
    ensures
        exists|r: int| is_floor_sqrt(n, r),
    decreases n,
{
    if n == 0 {
        assert(is_floor_sqrt(0, 0));
    } else {
        let m = n - 1;
        lemma_floor_sqrt_exists(m);
        let r = choose|r: int| is_floor_sqrt(m, r);
        if (r + 1) * (r + 1) <= n {
            assert((r + 2) * (r + 2) > (r + 1) * (r + 1)) by (nonlinear_arith)
                requires
                    0 <= r,
            ;
            assert(is_floor_sqrt(n, r + 1));
        } else {
            assert(is_floor_sqrt(n, r));
        }
    }
}

/// The integer square root is unique.
pub proof fn lemma_floor_sqrt_unique(n: int, r: int, s: int)
    requires
        is_floor_sqrt(n, r),
        is_floor_sqrt(n, s),
    ensures
        r == s,
{
    if r < s {
        assert((r + 1) * (r + 1) <= s * s) by (nonlinear_arith)
            requires
                0 <= r,
                r + 1 <= s,
        ;
    } else if s < r {
        assert((s + 1) * (s + 1) <= r * r) by (nonlinear_arith)
            requires
                0 <= s,
                s + 1 <= r,
        ;
    }
}

/// `floor_sqrt` is characterised by `is_floor_sqrt`.
pub proof fn lemma_floor_sqrt(n: int, r: int)
    requires
        is_floor_sqrt(n, r),
    ensures
        floor_sqrt(n) == r,
{
    assert(0 <= n) by (nonlinear_arith)
        requires
            r * r <= n,
    ;
    let s = choose|s: int| is_floor_sqrt(n, s);
    lemma_floor_sqrt_unique(n, r, s);
}

/// The integer square root of a natural number satisfies its definition.
pub proof fn lemma_floor_sqrt_holds(n: int)
    requires
        0 <= n,
    ensures
        is_floor_sqrt(n, floor_sqrt(n)),
{
    lemma_floor_sqrt_exists(n);
}

/// The integer square root does not decrease when its argument grows.
pub proof fn lemma_floor_sqrt_monotonic(a: int, b: int)
    requires
        a <= b,
    ensures
        floor_sqrt(a) <= floor_sqrt(b),
{
    if a < 0 {
        if b >= 0 {
            lemma_floor_sqrt_holds(b);
        }
    } else {
        lemma_floor_sqrt_holds(a);
        lemma_floor_sqrt_holds(b);
        let r = floor_sqrt(a);
        let s = floor_sqrt(b);
        if s < r {
            assert((s + 1) * (s + 1) <= r * r) by (nonlinear_arith)
                requires
                    0 <= s,
                    s + 1 <= r,
            ;
        }
    }
}

/// The magnitude of a product is the product of the magnitudes, and a product
/// is negative exactly when its factors are nonzero and of opposite sign.
pub proof fn lemma_product_sign(a: int, b: int)
    ensures
        magnitude(a * b) == magnitude(a) * magnitude(b),
        a * b < 0 <==> (a < 0) != (b < 0) && a != 0 && b != 0,
        a * b == 0 <==> a == 0 || b == 0,
{
    assert(magnitude(a * b) == magnitude(a) * magnitude(b)) by (nonlinear_arith);
    assert(a * b < 0 <==> (a < 0) != (b < 0) && a != 0 && b != 0) by (nonlinear_arith);
    assert(a * b == 0 <==> a == 0 || b == 0) by (nonlinear_arith);
}

/// A multiple of `d` divided by `d` gives the multiplier back.
pub proof fn lemma_div_cancel(k: int, d: int)
    by (nonlinear_arith)
    requires
        0 < d,
    ensures
        (k * d) / d == k,
{
}

/// Division that rounds toward zero keeps the order of its dividends.
pub proof fn lemma_trunc_div_monotonic(m: int, n: int, d: int)
    requires
        m <= n,
        0 < d,
    ensures
        trunc_div(m, d) <= trunc_div(n, d),
{
    if m >= 0 {
        assert(m / d <= n / d) by (nonlinear_arith)
            requires
                0 <= m <= n,
                0 < d,
        ;
    } else if n < 0 {
        assert((-n) / d <= (-m) / d) by (nonlinear_arith)
            requires
                0 <= -n <= -m,
                0 < d,
        ;
    } else {
        assert(0 <= n / d) by (nonlinear_arith)
            requires
                0 <= n,
                0 < d,
        ;
        assert(0 <= (-m) / d) by (nonlinear_arith)
            requires
                0 <= -m,
                0 < d,
        ;
    }
}

/// Division that rounds toward zero commutes with negation.
pub proof fn lemma_trunc_div_neg(n: int, d: int)
    requires
        d != 0,
    ensures
        trunc_div(-n, d) == -trunc_div(n, d),
{
    if n == 0 {
        assert(0int / magnitude(d) == 0) by (nonlinear_arith)
            requires
                magnitude(d) > 0,
        ;
    }
}

/// A fixed-point number: `raw / 2^32`.
#[derive(Clone, Copy, PartialEq, Eq, Structural, Debug)]
pub struct Scalar {
    pub raw: i64,
}

impl View for Scalar {
    type V = int;

    open spec fn view(&self) -> int {
        self.raw as int
    }
}

fn magnitude_of(x: i64) -> (m: u128)
    ensures
        m == magnitude(x as int),
{
    if x < 0 {
        let wide: i128 = -(x as i128);
        wide as u128
    } else {
        x as u128
    }
}

fn saturated(negative: bool, m: u128) -> (raw: i64)
    ensures
        raw == saturate(
            if negative {
                -(m as int)
            } else {
                m as int
            },
        ),
{
    if m > MAX_RAW as u128 {
        if negative {
            MIN_RAW
        } else {
            MAX_RAW
        }
    } else {
        let v: i64 = m as i64;
        if negative {
            -v
        } else {
            v
        }
    }
}

fn floor_sqrt_of(n: u128) -> (r: u128)
    requires
        n < 0x1_0000_0000_0000_0000_0000_0000,
    ensures
        r == floor_sqrt(n as int),
        r < 0x1_0000_0000_0000,
{
    let mut lo: u128 = 0;
    let mut hi: u128 = 0x1_0000_0000_0000;
    assert(0x1_0000_0000_0000 * 0x1_0000_0000_0000 == 0x1_0000_0000_0000_0000_0000_0000int)
        by (nonlinear_arith);
    while hi - lo > 1
        invariant
            lo < hi <= 0x1_0000_0000_0000,
            lo * lo <= n < hi * hi,
        decreases hi - lo,
    {
        let mid: u128 = lo + (hi - lo) / 2;
        assert(mid * mid < 0x1_0000_0000_0000 * 0x1_0000_0000_0000) by (nonlinear_arith)
            requires
                mid < 0x1_0000_0000_0000,
        ;
        if mid * mid <= n {
            lo = mid;
        } else {
            hi = mid;
        }
    }
    proof {
        assert(is_floor_sqrt(n as int, lo as int));
        lemma_floor_sqrt(n as int, lo as int);
    }
    lo
}

impl Scalar {
    /// The raw value lies in the symmetric range that the operations keep to.
    pub open spec fn wf(self) -> bool {
        MIN_RAW <= self.raw
    }

    pub open spec fn spec_from_raw(raw: i64) -> Scalar {
        Scalar { raw: saturate(raw as int) as i64 }
    }

    /// The scalar with the given raw value, `raw / 2^32`.
    #[verifier::when_used_as_spec(spec_from_raw)]
    pub fn from_raw(raw: i64) -> (out: Scalar)
        ensures
            out == Self::spec_from_raw(raw),
            out.wf(),
    {
        if raw < MIN_RAW {
            Scalar { raw: MIN_RAW }
        } else {
            Scalar { raw }
        }
    }

    pub open spec fn spec_zero() -> Scalar {
        Scalar { raw: 0 }
    }

    #[verifier::when_used_as_spec(spec_zero)]
    pub fn zero() -> (out: Scalar)
        ensures
            out == Self::spec_zero(),
    {
        Scalar { raw: 0 }
    }

    pub open spec fn spec_one() -> Scalar {
        Scalar { raw: ONE_RAW }
    }

    #[verifier::when_used_as_spec(spec_one)]
    pub fn one() -> (out: Scalar)
        ensures
            out == Self::spec_one(),
    {
        Scalar { raw: ONE_RAW }
    }

    pub open spec fn spec_half() -> Scalar {
        Scalar { raw: 0x8000_0000 }
    }

    /// One half.
    #[verifier::when_used_as_spec(spec_half)]
    pub fn half() -> (out: Scalar)
        ensures
            out == Self::spec_half(),
    {
        Scalar { raw: 0x8000_0000 }
    }

    pub open spec fn spec_infinity() -> Scalar {
        Scalar { raw: MAX_RAW }
    }

    /// The largest scalar, which every overflowing operation returns.
    #[verifier::when_used_as_spec(spec_infinity)]
    pub fn infinity() -> (out: Scalar)
        ensures
            out == Self::spec_infinity(),
    {
        Scalar { raw: MAX_RAW }
    }

    pub open spec fn spec_from_int(n: i64) -> Scalar {
        Scalar { raw: saturate(n * ONE_RAW) as i64 }
    }

    /// The whole number `n`, clamped to the representable range.
    #[verifier::when_used_as_spec(spec_from_int)]
    pub fn from_int(n: i64) -> (out: Scalar)
        ensures
            out == Self::spec_from_int(n),
            out.wf(),
    {
        if n > 0x7fff_ffff {
            Scalar { raw: MAX_RAW }
        } else if n < -0x7fff_ffff {
            Scalar { raw: MIN_RAW }
        } else {
            Scalar { raw: n * ONE_RAW }
        }
    }

    pub open spec fn spec_from_usize(n: usize) -> Scalar {
        Scalar { raw: saturate(n * ONE_RAW) as i64 }
    }

    /// The whole number `n`, clamped to the representable range.
    #[verifier::when_used_as_spec(spec_from_usize)]
    pub fn from_usize(n: usize) -> (out: Scalar)
        ensures
            out == Self::spec_from_usize(n),
            out.wf(),
            out.raw >= 0,
    {
        if n > 0x7fff_ffff {
            Scalar { raw: MAX_RAW }
        } else {
            Scalar { raw: (n as i64) * ONE_RAW }
        }
    }

    pub open spec fn spec_from_ratio(num: i64, den: i64) -> Scalar {
        Self::spec_from_int(num).spec_div(Self::spec_from_int(den))
    }

    /// The quotient `num / den` of two whole numbers, rounded toward zero.
    #[verifier::when_used_as_spec(spec_from_ratio)]
    pub fn from_ratio(num: i64, den: i64) -> (out: Scalar)
        ensures
            out == Self::spec_from_ratio(num, den),
            out.wf(),
    {
        Self::from_int(num).div(Self::from_int(den))
    }

    pub open spec fn spec_floor_to_usize(self) -> usize {
        if self.raw <= 0 {
            0
        } else {
            (self.raw / ONE_RAW) as usize
        }
    }

    /// The whole part of a scalar; zero for a negative one.
    #[verifier::when_used_as_spec(spec_floor_to_usize)]
    pub fn floor_to_usize(self) -> (out: usize)
        ensures
            out == self.spec_floor_to_usize(),
            out <= 0x7fff_ffff,
    {
        if self.raw <= 0 {
            0
        } else {
            let whole: i64 = self.raw / ONE_RAW;
            whole as usize
        }
    }

    pub open spec fn spec_neg(self) -> Scalar {
        Scalar { raw: saturate(-self.raw) as i64 }
    }

    #[verifier::when_used_as_spec(spec_neg)]
    pub fn neg(self) -> (out: Scalar)
        ensures
            out == self.spec_neg(),
            out.wf(),
    {
        if self.raw < MIN_RAW {
            Scalar { raw: MAX_RAW }
        } else {
            Scalar { raw: -self.raw }
        }
    }

    pub open spec fn spec_abs(self) -> Scalar {
        Scalar { raw: saturate(magnitude(self.raw as int)) as i64 }
    }

    #[verifier::when_used_as_spec(spec_abs)]
    pub fn abs(self) -> (out: Scalar)
        ensures
            out == self.spec_abs(),
            out.raw >= 0,
    {
        if self.raw < 0 {
            self.neg()
        } else {
            self
        }
    }

    pub open spec fn spec_add(self, rhs: Scalar) -> Scalar {
        Scalar { raw: saturate(self.raw + rhs.raw) as i64 }
    }

    #[verifier::when_used_as_spec(spec_add)]
    pub fn add(self, rhs: Scalar) -> (out: Scalar)
        ensures
            out == self.spec_add(rhs),
            out.wf(),
    {
        let wide: i128 = self.raw as i128 + rhs.raw as i128;
        if wide > MAX_RAW as i128 {
            Scalar { raw: MAX_RAW }
        } else if wide < MIN_RAW as i128 {
            Scalar { raw: MIN_RAW }
        } else {
            Scalar { raw: wide as i64 }
        }
    }

    pub open spec fn spec_sub(self, rhs: Scalar) -> Scalar {
        Scalar { raw: saturate(self.raw - rhs.raw) as i64 }
    }

    #[verifier::when_used_as_spec(spec_sub)]
    pub fn sub(self, rhs: Scalar) -> (out: Scalar)
        ensures
            out == self.spec_sub(rhs),
            out.wf(),
    {
        let wide: i128 = self.raw as i128 - rhs.raw as i128;
        if wide > MAX_RAW as i128 {
            Scalar { raw: MAX_RAW }
        } else if wide < MIN_RAW as i128 {
            Scalar { raw: MIN_RAW }
        } else {
            Scalar { raw: wide as i64 }
        }
    }

    pub open spec fn spec_mul(self, rhs: Scalar) -> Scalar {
        Scalar { raw: saturate(trunc_div(self.raw * rhs.raw, ONE_RAW as int)) as i64 }
    }

    /// The product, rounded toward zero.
    #[verifier::when_used_as_spec(spec_mul)]
    pub fn mul(self, rhs: Scalar) -> (out: Scalar)
        ensures
            out == self.spec_mul(rhs),
            out.wf(),
    {
        let a: u128 = magnitude_of(self.raw);
        let b: u128 = magnitude_of(rhs.raw);
        proof {
            lemma_product_sign(self.raw as int, rhs.raw as int);
            assert(a * b <= 0x8000_0000_0000_0000 * 0x8000_0000_0000_0000) by (nonlinear_arith)
                requires
                    a <= 0x8000_0000_0000_0000,
                    b <= 0x8000_0000_0000_0000,
            ;
        }
        let q: u128 = (a * b) / (ONE_RAW as u128);
        let negative: bool = (self.raw < 0) != (rhs.raw < 0);
        Scalar { raw: saturated(negative, q) }
    }

    pub open spec fn spec_div(self, rhs: Scalar) -> Scalar {
        if rhs.raw == 0 {
            Scalar {
                raw: if self.raw > 0 {
                    MAX_RAW
                } else if self.raw < 0 {
                    MIN_RAW
                } else {
                    0
                },
            }
        } else {
            Scalar { raw: saturate(trunc_div(self.raw * ONE_RAW, rhs.raw as int)) as i64 }
        }
    }

    /// The quotient, rounded toward zero. Division by zero gives the largest
    /// scalar of the dividend's sign, and zero for `0 / 0`.
    #[verifier::when_used_as_spec(spec_div)]
    pub fn div(self, rhs: Scalar) -> (out: Scalar)
        ensures
            out == self.spec_div(rhs),
            out.wf(),
    {
        if rhs.raw == 0 {
            if self.raw > 0 {
                Scalar { raw: MAX_RAW }
            } else if self.raw < 0 {
                Scalar { raw: MIN_RAW }
            } else {
                Scalar { raw: 0 }
            }
        } else {
            let m: u128 = magnitude_of(self.raw);
            assert(m * 0x1_0000_0000 <= 0x8000_0000_0000_0000 * 0x1_0000_0000) by (nonlinear_arith)
                requires
                    m <= 0x8000_0000_0000_0000,
            ;
            let a: u128 = m * (ONE_RAW as u128);
            let b: u128 = magnitude_of(rhs.raw);
            let q: u128 = a / b;
            let negative: bool = (self.raw < 0) != (rhs.raw < 0);
            Scalar { raw: saturated(negative, q) }
        }
    }

    pub open spec fn spec_sqrt(self) -> Scalar {
        Scalar { raw: floor_sqrt(self.raw * ONE_RAW) as i64 }
    }

    /// The square root, rounded down; zero for a negative scalar.
    #[verifier::when_used_as_spec(spec_sqrt)]
    pub fn sqrt(self) -> (out: Scalar)
        ensures
            out == self.spec_sqrt(),
            0 <= out.raw < 0x1_0000_0000_0000,
            self.raw >= 0 ==> is_floor_sqrt(self.raw * ONE_RAW, out.raw as int),
    {
        if self.raw < 0 {
            Scalar { raw: 0 }
        } else {
            let n: u128 = (self.raw as u128) * (ONE_RAW as u128);
            let r: u128 = floor_sqrt_of(n);
            proof {
                lemma_floor_sqrt_holds(n as int);
            }
            Scalar { raw: r as i64 }
        }
    }

    /// The product of `n` factors `self`, multiplied from the left; one for
    /// `n == 0`.
    pub open spec fn spec_powi(self, n: u32) -> Scalar
        decreases n,
    {
        if n == 0 {
            Scalar::one()
        } else {
            self.spec_powi((n - 1) as u32).mul(self)
        }
    }

    /// The `n`-th power.
    #[verifier::when_used_as_spec(spec_powi)]
    pub fn powi(self, n: u32) -> (out: Scalar)
        ensures
            out == self.spec_powi(n),
    {
        let mut acc: Scalar = Scalar::one();
        let mut i: u32 = 0;
        while i < n
            invariant
                i <= n,
                acc == self.spec_powi(i),
            decreases n - i,
        {
            acc = acc.mul(self);
            i = i + 1;
        }
        acc
    }

    pub open spec fn spec_min(self, rhs: Scalar) -> Scalar {
        if self.raw <= rhs.raw {
            self
        } else {
            rhs
        }
    }

    #[verifier::when_used_as_spec(spec_min)]
    pub fn min(self, rhs: Scalar) -> (out: Scalar)
        ensures
            out == self.spec_min(rhs),
    {
        if self.raw <= rhs.raw {
            self
        } else {
            rhs
        }
    }
}

/// Multiplying by one changes nothing.
pub proof fn lemma_mul_one(a: Scalar)
    requires
        a.wf(),
    ensures
        a.mul(Scalar::one()) == a,
        Scalar::one().mul(a) == a,
{
    lemma_div_cancel(a.raw as int, ONE_RAW as int);
    lemma_div_cancel(-(a.raw as int), ONE_RAW as int);
    assert(a.raw * ONE_RAW == ONE_RAW * a.raw) by (nonlinear_arith);
    assert(-(a.raw * ONE_RAW) == (-(a.raw as int)) * ONE_RAW) by (nonlinear_arith);
}

/// Multiplying by zero gives zero.
pub proof fn lemma_mul_zero(a: Scalar)
    ensures
        a.mul(Scalar::zero()) == Scalar::zero(),
        Scalar::zero().mul(a) == Scalar::zero(),
{
    assert(a.raw * 0 == 0) by (nonlinear_arith);
    assert(0 * a.raw == 0) by (nonlinear_arith);
}

/// Dividing by one changes nothing.
pub proof fn lemma_div_one(a: Scalar)
    requires
        a.wf(),
    ensures
        a.div(Scalar::one()) == a,
{
    lemma_div_cancel(a.raw as int, ONE_RAW as int);
    lemma_div_cancel(-(a.raw as int), ONE_RAW as int);
    assert(-(a.raw * ONE_RAW) == (-(a.raw as int)) * ONE_RAW) by (nonlinear_arith);
}

/// Multiplication does not depend on the order of its factors.
pub proof fn lemma_mul_commutes(a: Scalar, b: Scalar)
    ensures
        a.mul(b) == b.mul(a),
{
    assert(a.raw * b.raw == b.raw * a.raw) by (nonlinear_arith);
}

/// The product with a scalar that is not negative grows with the other
/// factor.
pub proof fn lemma_mul_monotonic(a: Scalar, b: Scalar, c: Scalar)
    requires
        0 <= a.raw,
        b.raw <= c.raw,
    ensures
        a.mul(b).raw <= a.mul(c).raw,
{
    assert(a.raw * b.raw <= a.raw * c.raw) by (nonlinear_arith)
        requires
            0 <= a.raw,
            b.raw <= c.raw,
    ;
    lemma_trunc_div_monotonic(a.raw * b.raw, a.raw * c.raw, ONE_RAW as int);
}

/// For a positive divisor the quotient grows with the dividend.
pub proof fn lemma_div_monotonic(a: Scalar, b: Scalar, d: Scalar)
    requires
        a.raw <= b.raw,
        0 < d.raw,
    ensures
        a.div(d).raw <= b.div(d).raw,
{
    lemma_trunc_div_monotonic(a.raw * ONE_RAW, b.raw * ONE_RAW, d.raw as int);
}

/// The square root grows with its argument.
pub proof fn lemma_sqrt_monotonic(a: Scalar, b: Scalar)
    requires
        a.raw <= b.raw,
    ensures
        a.sqrt().raw <= b.sqrt().raw,
{
    lemma_floor_sqrt_monotonic(a.raw * ONE_RAW, b.raw * ONE_RAW);
    lemma_sqrt_range(a);
    lemma_sqrt_range(b);
}

/// A square root is not negative and fits a raw value.
pub proof fn lemma_sqrt_range(a: Scalar)
    ensures
        0 <= floor_sqrt(a.raw * ONE_RAW) < 0x1_0000_0000_0000,
        a.sqrt().raw == floor_sqrt(a.raw * ONE_RAW),
{
    let n = a.raw * ONE_RAW;
    if n >= 0 {
        lemma_floor_sqrt_holds(n);
        let r = floor_sqrt(n);
        if r >= 0x1_0000_0000_0000 {
            assert(r * r >= 0x1_0000_0000_0000 * 0x1_0000_0000_0000) by (nonlinear_arith)
                requires
                    r >= 0x1_0000_0000_0000,
            ;
        }
    }
}

/// The powers of a scalar that is not negative are not negative, and they
/// grow with the scalar.
pub proof fn lemma_powi_monotonic(a: Scalar, b: Scalar, n: u32)
    requires
        0 <= a.raw <= b.raw,
    ensures
        0 <= a.powi(n).raw <= b.powi(n).raw,
    decreases n,
{
    if n > 0 {
        let m = (n - 1) as u32;
        lemma_powi_monotonic(a, b, m);
        lemma_mul_zero(a.powi(m));
        lemma_mul_monotonic(a.powi(m), Scalar::zero(), a);
        lemma_mul_commutes(a.powi(m), a);
        lemma_mul_commutes(b.powi(m), a);
        lemma_mul_monotonic(a, a.powi(m), b.powi(m));
        lemma_mul_monotonic(b.powi(m), a, b);
    }
}

/// Every power of one is one.
pub proof fn lemma_powi_one(n: u32)
    ensures
        Scalar::one().powi(n) == Scalar::one(),
    decreases n,
{
    if n > 0 {
        lemma_powi_one((n - 1) as u32);
        lemma_mul_one(Scalar::one());
    }
}

/// Every power of zero but the zeroth is zero.
pub proof fn lemma_powi_zero(n: u32)
    requires
        n > 0,
    ensures
        Scalar::zero().powi(n) == Scalar::zero(),
{
    lemma_mul_zero(Scalar::zero().powi((n - 1) as u32));
}

/// The square root of the square of a scalar that is a multiple of `2^-16`
/// is that scalar.
pub proof fn lemma_sqrt_of_square(a: Scalar)
    requires
        0 <= a.raw < 0x8000_0000_0000,
        a.raw % 0x1_0000 == 0,
    ensures
        a.mul(a).sqrt() == a,
{
    let k = a.raw / 0x1_0000;
    assert(a.raw == k * 0x1_0000);
    assert(a.raw * a.raw == (k * k) * 0x1_0000_0000) by (nonlinear_arith)
        requires
            a.raw == k * 0x1_0000,
    ;
    assert(0 <= k * k < 0x8000_0000 * 0x8000_0000) by (nonlinear_arith)
        requires
            0 <= k < 0x8000_0000,
    ;
    lemma_div_cancel(k * k, ONE_RAW as int);
    assert(a.mul(a).raw == k * k);
    let n = (k * k) * ONE_RAW;
    assert(is_floor_sqrt(n, a.raw as int)) by (nonlinear_arith)
        requires
            n == a.raw * a.raw,
            0 <= a.raw,
    ;
    lemma_floor_sqrt(n, a.raw as int);
}

/// The square root of a square falls short of the magnitude by less than
/// `2^-16`: what the square loses to rounding.
pub proof fn lemma_sqrt_of_square_lower(a: Scalar)
    requires
        -0x8000_0000_0000 < a.raw < 0x8000_0000_0000,
    ensures
        magnitude(a.raw as int) - 0x1_0000 <= a.mul(a).sqrt().raw,
{
    let h = magnitude(a.raw as int);
    lemma_product_sign(a.raw as int, a.raw as int);
    assert(0 <= h * h < 0x8000_0000_0000 * 0x8000_0000_0000) by (nonlinear_arith)
        requires
            0 <= h < 0x8000_0000_0000,
    ;
    let m = (h * h) / (ONE_RAW as int);
    assert(a.mul(a).raw == m);
    let n = m * ONE_RAW;
    assert(h * h - ONE_RAW < n <= h * h) by (nonlinear_arith)
        requires
            m == (h * h) / (ONE_RAW as int),
            n == m * ONE_RAW,
            ONE_RAW == 0x1_0000_0000,
    ;
    lemma_sqrt_range(a.mul(a));
    let r = floor_sqrt(n);
    assert(0 <= n) by (nonlinear_arith)
        requires
            0 <= m,
            n == m * ONE_RAW,
            ONE_RAW == 0x1_0000_0000,
    ;
    lemma_floor_sqrt_holds(n);
    if r + 1 <= h - 0x1_0000 {
        assert((r + 1) * (r + 1) <= (h - 0x1_0000) * (h - 0x1_0000)) by (nonlinear_arith)
            requires
                0 <= r + 1 <= h - 0x1_0000,
        ;
        assert((h - 0x1_0000) * (h - 0x1_0000) <= h * h - 0x1_0000_0000) by (nonlinear_arith)
            requires
                0x1_0000 <= h,
        ;
    }
}

/// The product of two scalars of one sign is not negative, and that of two
/// scalars of opposite sign is not positive.
pub proof fn lemma_mul_sign(a: Scalar, b: Scalar)
    ensures
        (0 <= a.raw && 0 <= b.raw) || (a.raw <= 0 && b.raw <= 0) ==> 0 <= a.mul(b).raw,
        (0 <= a.raw && b.raw <= 0) || (a.raw <= 0 && 0 <= b.raw) ==> a.mul(b).raw <= 0,
{
    lemma_product_sign(a.raw as int, b.raw as int);
    let m = magnitude(a.raw * b.raw);
    assert(0 <= m / (ONE_RAW as int)) by (nonlinear_arith)
        requires
            0 <= m,
            ONE_RAW == 0x1_0000_0000,
    ;
}

/// A quotient by a positive scalar has the sign of the dividend, or is zero.
pub proof fn lemma_div_sign(a: Scalar, d: Scalar)
    requires
        0 < d.raw,
    ensures
        0 <= a.raw ==> 0 <= a.div(d).raw,
        a.raw <= 0 ==> a.div(d).raw <= 0,
{
    let m = magnitude(a.raw * ONE_RAW);
    assert(0 <= m / (d.raw as int)) by (nonlinear_arith)
        requires
            0 <= m,
            0 < d.raw,
    ;
}

} // verus!
