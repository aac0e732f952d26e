//! Angles: degrees, radians and the tangent.
//!
//! Sine and cosine are the Taylor polynomials of degree 13 and 14 around
//! zero, evaluated in fixed point. They are meant for angles of magnitude up
//! to a right angle, where they agree with the functions to about seven
//! decimal places; the contracts state the polynomials.

use crate::scalar::lemma_mul_zero;
use crate::scalar::Scalar;
use vstd::prelude::*;

verus! {

/// Raw value of pi.
pub const PI_RAW: i64 = 13493037704;

/// Number of factors of the sine polynomial beside `x`.
pub const SIN_STEPS: u32 = 6;

/// Number of factors of the cosine polynomial.
pub const COS_STEPS: u32 = 7;

pub open spec fn spec_to_radians(degrees: Scalar) -> Scalar {
    degrees.mul(Scalar { raw: PI_RAW }).div(Scalar::from_int(180))
}

/// The angle in radians: `degrees * pi / 180`.
#[verifier::when_used_as_spec(spec_to_radians)]
pub fn to_radians(degrees: Scalar) -> (out: Scalar)
    ensures
        out == spec_to_radians(degrees),
{
    degrees.mul(Scalar { raw: PI_RAW }).div(Scalar::from_int(180))
}

/// The nested product
/// `1 - x2 / (n (n + 1)) * (1 - x2 / ((n + 2) (n + 3)) * (...))` with
/// `steps` factors, where `n` is `first`.
pub open spec fn spec_series(x2: Scalar, first: u32, steps: u32) -> Scalar
    decreases steps,
{
    if steps == 0 {
        Scalar::one()
    } else {
        Scalar::one().sub(
            x2.mul(spec_series(x2, (first + 2) as u32, (steps - 1) as u32)).div(
                Scalar::from_int((first * (first + 1)) as i64),
            ),
        )
    }
}

/// Evaluates the nested product from the innermost factor outward.
fn series(x2: Scalar, first: u32, steps: u32) -> (out: Scalar)
    requires
        first + 2 * steps <= 1000,
    ensures
        out == spec_series(x2, first, steps),
{
    let mut acc: Scalar = Scalar::one();
    let mut done: u32 = 0;
    while done < steps
        invariant
            done <= steps,
            first + 2 * steps <= 1000,
            acc == spec_series(x2, (first + 2 * (steps - done)) as u32, done),
        decreases steps - done,
    {
        let n: u32 = first + 2 * (steps - done - 1);
        assert(n * (n + 1) <= 1000 * 1001) by (nonlinear_arith)
            requires
                n <= 1000,
        ;
        let divisor: i64 = (n as i64) * (n as i64 + 1);
        acc = Scalar::one().sub(x2.mul(acc).div(Scalar::from_int(divisor)));
        done = done + 1;
    }
    acc
}

pub open spec fn spec_sin(x: Scalar) -> Scalar {
    x.mul(spec_series(x.mul(x), 2, SIN_STEPS))
}

/// The sine polynomial `x - x^3/3! + x^5/5! - ... + x^13/13!` of an angle
/// in radians.
#[verifier::when_used_as_spec(spec_sin)]
pub fn sin(x: Scalar) -> (out: Scalar)
    ensures
        out == spec_sin(x),
{
    x.mul(series(x.mul(x), 2, SIN_STEPS))
}

pub open spec fn spec_cos(x: Scalar) -> Scalar {
    spec_series(x.mul(x), 1, COS_STEPS)
}

/// The cosine polynomial `1 - x^2/2! + x^4/4! - ... - x^14/14!` of an angle
/// in radians.
#[verifier::when_used_as_spec(spec_cos)]
pub fn cos(x: Scalar) -> (out: Scalar)
    ensures
        out == spec_cos(x),
{
    series(x.mul(x), 1, COS_STEPS)
}

pub open spec fn spec_tan(x: Scalar) -> Scalar {
    spec_sin(x).div(spec_cos(x))
}

/// The tangent of an angle in radians: the quotient of the sine and cosine
/// polynomials.
#[verifier::when_used_as_spec(spec_tan)]
pub fn tan(x: Scalar) -> (out: Scalar)
    ensures
        out == spec_tan(x),
{
    sin(x).div(cos(x))
}

/// The tangent of the zero angle is zero.
pub proof fn lemma_tan_zero()
    ensures
        spec_tan(Scalar::zero()) == Scalar::zero(),
{
    let zero = Scalar::zero();
    lemma_mul_zero(zero);
    lemma_mul_zero(spec_series(zero, 2, SIN_STEPS));
    lemma_series_at_zero(1, COS_STEPS);
}

/// At zero every nested product is one.
pub proof fn lemma_series_at_zero(first: u32, steps: u32)
    requires
        first >= 1,
        first + 2 * steps <= 1000,
    ensures
        spec_series(Scalar::zero(), first, steps) == Scalar::one(),
    decreases steps,
{
    if steps > 0 {
        lemma_series_at_zero((first + 2) as u32, (steps - 1) as u32);
        lemma_mul_zero(Scalar::one());
        let d = Scalar::from_int((first * (first + 1)) as i64);
        assert(first * (first + 1) >= 1) by (nonlinear_arith)
            requires
                first >= 1,
        ;
        assert(first * (first + 1) <= 1001 * 1001) by (nonlinear_arith)
            requires
                1 <= first <= 1000,
        ;
        assert(d.raw > 0);
        assert(0int / (d.raw as int) == 0) by (nonlinear_arith)
            requires
                d.raw > 0,
        ;
    }
}

} // verus!
