//! A deterministic source of uniform scalars.

use crate::scalar::lemma_product_sign;
use crate::scalar::Scalar;
use crate::scalar::ONE_RAW;
use vstd::prelude::*;

verus! {

/// Multiplier of the linear congruential generator.
pub const MULTIPLIER: u64 = 6364136223846793005;

/// Increment of the linear congruential generator.
pub const INCREMENT: u64 = 1442695040888963407;

/// The state that follows `state`: `state * MULTIPLIER + INCREMENT` modulo `2^64`.
pub open spec fn next_state(state: u64) -> u64 {
    ((state * MULTIPLIER + INCREMENT) % 0x1_0000_0000_0000_0000) as u64
}

/// A linear congruential generator with 64 bits of state. Each draw advances
/// the state once and yields its upper 32 bits as a scalar in `[0, 1)`.
#[derive(Clone, Copy, PartialEq, Eq, Structural, Debug)]
pub struct RandomSource {
    pub state: u64,
}

impl RandomSource {
    /// A source that starts from `seed`.
    pub fn new(seed: u64) -> (out: RandomSource)
        ensures
            out.state == seed,
    {
        RandomSource { state: seed }
    }

    /// The source after one draw.
    pub open spec fn step(self) -> RandomSource {
        RandomSource { state: next_state(self.state) }
    }

    /// The scalar that the next draw yields.
    pub open spec fn unit(self) -> Scalar {
        Scalar { raw: (next_state(self.state) / 0x1_0000_0000) as i64 }
    }

    /// The scalar that the next draw from `[min, max)` yields.
    pub open spec fn in_range(self, min: Scalar, max: Scalar) -> Scalar {
        min.add(max.sub(min).mul(self.unit()))
    }

    /// Draws a scalar in `[0, 1)`.
    pub fn next_unit(&mut self) -> (out: Scalar)
        ensures
            *final(self) == old(self).step(),
            out == old(self).unit(),
            0 <= out.raw < ONE_RAW,
    {
        let s: u128 = self.state as u128;
        assert(s * 6364136223846793005 <= 0xffff_ffff_ffff_ffff * 6364136223846793005)
            by (nonlinear_arith)
            requires
                s <= 0xffff_ffff_ffff_ffff,
        ;
        let wide: u128 = s * (MULTIPLIER as u128) + (INCREMENT as u128);
        let next: u64 = (wide % 0x1_0000_0000_0000_0000) as u64;
        self.state = next;
        Scalar { raw: (next / 0x1_0000_0000) as i64 }
    }

    /// Draws a scalar in `[min, max)`: `min + (max - min) * u` for a draw `u`
    /// from `[0, 1)`.
    pub fn next_in_range(&mut self, min: Scalar, max: Scalar) -> (out: Scalar)
        ensures
            *final(self) == old(self).step(),
            out == old(self).in_range(min, max),
            min.wf() && min.raw <= max.raw ==> min.raw <= out.raw <= max.raw,
            min.wf() && min.raw < max.raw ==> out.raw < max.raw,
    {
        let u: Scalar = self.next_unit();
        proof {
            if min.raw <= max.raw {
                lemma_part_of_span(max.sub(min), u);
            }
        }
        min.add(max.sub(min).mul(u))
    }
}

/// A span that is not negative, times a scalar of the unit interval, is a
/// part of the span: not negative, and less than a positive span.
pub proof fn lemma_part_of_span(span: Scalar, u: Scalar)
    requires
        0 <= span.raw,
        0 <= u.raw < ONE_RAW,
    ensures
        0 <= span.mul(u).raw <= span.raw,
        0 < span.raw ==> span.mul(u).raw < span.raw,
{
    lemma_product_sign(span.raw as int, u.raw as int);
    let p = span.raw * u.raw;
    assert(0 <= p <= span.raw * (ONE_RAW - 1)) by (nonlinear_arith)
        requires
            p == span.raw * u.raw,
            0 <= span.raw,
            0 <= u.raw <= ONE_RAW - 1,
    ;
    assert(0 <= p / (ONE_RAW as int) <= span.raw) by (nonlinear_arith)
        requires
            0 <= p <= span.raw * (ONE_RAW - 1),
            0 <= span.raw,
            ONE_RAW == 0x1_0000_0000,
    ;
    if 0 < span.raw {
        assert(p / (ONE_RAW as int) < span.raw) by (nonlinear_arith)
            requires
                0 <= p <= span.raw * (ONE_RAW - 1),
                0 < span.raw,
                ONE_RAW == 0x1_0000_0000,
        ;
    }
}

} // verus!
