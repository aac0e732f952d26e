//! Three-component vectors and the geometry built on them.

use crate::random::RandomSource;
use crate::scalar::lemma_mul_zero;
use crate::scalar::lemma_trunc_div_neg;
use crate::scalar::Scalar;
use crate::scalar::ONE_RAW;
use vstd::prelude::*;

verus! {

/// Raw value below which the magnitude of a component counts as zero: about
/// `1e-8`.
pub const NEAR_ZERO_RAW: i64 = 43;

/// How often a rejection sampler draws before it gives up and returns its
/// fallback.
pub const MAX_DRAWS: usize = 64;

/// A vector of three scalars.
#[derive(Clone, Copy, PartialEq, Eq, Structural, Debug)]
pub struct Vec3 {
    pub x: Scalar,
    pub y: Scalar,
    pub z: Scalar,
}

/// A position in space.
pub type Point3 = Vec3;

impl Default for Vec3 {
    fn default() -> (out: Vec3)
        ensures
            out == Vec3::spec_zero(),
    {
        Vec3::zero()
    }
}

impl Vec3 {
    pub fn new(x: Scalar, y: Scalar, z: Scalar) -> (out: Vec3)
        ensures
            out == (Vec3 { x, y, z }),
    {
        Vec3 { x, y, z }
    }

    /// Every component lies in the range that the operations keep to.
    pub open spec fn wf(self) -> bool {
        self.x.wf() && self.y.wf() && self.z.wf()
    }

    pub open spec fn spec_zero() -> Vec3 {
        Vec3 { x: Scalar::zero(), y: Scalar::zero(), z: Scalar::zero() }
    }

    #[verifier::when_used_as_spec(spec_zero)]
    pub fn zero() -> (out: Vec3)
        ensures
            out == Self::spec_zero(),
    {
        Vec3 { x: Scalar::zero(), y: Scalar::zero(), z: Scalar::zero() }
    }

    pub open spec fn spec_neg(self) -> Vec3 {
        Vec3 { x: self.x.neg(), y: self.y.neg(), z: self.z.neg() }
    }

    #[verifier::when_used_as_spec(spec_neg)]
    pub fn neg(self) -> (out: Vec3)
        ensures
            out == self.spec_neg(),
    {
        Vec3 { x: self.x.neg(), y: self.y.neg(), z: self.z.neg() }
    }

    pub open spec fn spec_add(self, rhs: Vec3) -> Vec3 {
        Vec3 { x: self.x.add(rhs.x), y: self.y.add(rhs.y), z: self.z.add(rhs.z) }
    }

    #[verifier::when_used_as_spec(spec_add)]
    pub fn add(self, rhs: Vec3) -> (out: Vec3)
        ensures
            out == self.spec_add(rhs),
    {
        Vec3 { x: self.x.add(rhs.x), y: self.y.add(rhs.y), z: self.z.add(rhs.z) }
    }

    pub open spec fn spec_sub(self, rhs: Vec3) -> Vec3 {
        Vec3 { x: self.x.sub(rhs.x), y: self.y.sub(rhs.y), z: self.z.sub(rhs.z) }
    }

    #[verifier::when_used_as_spec(spec_sub)]
    pub fn sub(self, rhs: Vec3) -> (out: Vec3)
        ensures
            out == self.spec_sub(rhs),
    {
        Vec3 { x: self.x.sub(rhs.x), y: self.y.sub(rhs.y), z: self.z.sub(rhs.z) }
    }

    pub open spec fn spec_scale(self, t: Scalar) -> Vec3 {
        Vec3 { x: self.x.mul(t), y: self.y.mul(t), z: self.z.mul(t) }
    }

    /// The vector with every component multiplied by `t`.
    #[verifier::when_used_as_spec(spec_scale)]
    pub fn scale(self, t: Scalar) -> (out: Vec3)
        ensures
            out == self.spec_scale(t),
    {
        Vec3 { x: self.x.mul(t), y: self.y.mul(t), z: self.z.mul(t) }
    }

    pub open spec fn spec_div(self, t: Scalar) -> Vec3 {
        Vec3 { x: self.x.div(t), y: self.y.div(t), z: self.z.div(t) }
    }

    /// The vector with every component divided by `t`.
    #[verifier::when_used_as_spec(spec_div)]
    pub fn div(self, t: Scalar) -> (out: Vec3)
        ensures
            out == self.spec_div(t),
    {
        Vec3 { x: self.x.div(t), y: self.y.div(t), z: self.z.div(t) }
    }

    pub open spec fn spec_dot(u: Vec3, v: Vec3) -> Scalar {
        u.x.mul(v.x).add(u.y.mul(v.y)).add(u.z.mul(v.z))
    }

    #[verifier::when_used_as_spec(spec_dot)]
    pub fn dot(u: Vec3, v: Vec3) -> (out: Scalar)
        ensures
            out == Self::spec_dot(u, v),
    {
        u.x.mul(v.x).add(u.y.mul(v.y)).add(u.z.mul(v.z))
    }

    pub open spec fn spec_cross(u: Vec3, v: Vec3) -> Vec3 {
        Vec3 {
            x: u.y.mul(v.z).sub(u.z.mul(v.y)),
            y: u.z.mul(v.x).sub(u.x.mul(v.z)),
            z: u.x.mul(v.y).sub(u.y.mul(v.x)),
        }
    }

    #[verifier::when_used_as_spec(spec_cross)]
    pub fn cross(u: Vec3, v: Vec3) -> (out: Vec3)
        ensures
            out == Self::spec_cross(u, v),
    {
        Vec3 {
            x: u.y.mul(v.z).sub(u.z.mul(v.y)),
            y: u.z.mul(v.x).sub(u.x.mul(v.z)),
            z: u.x.mul(v.y).sub(u.y.mul(v.x)),
        }
    }

    pub open spec fn spec_length_squared(self) -> Scalar {
        Self::spec_dot(self, self)
    }

    #[verifier::when_used_as_spec(spec_length_squared)]
    pub fn length_squared(self) -> (out: Scalar)
        ensures
            out == self.spec_length_squared(),
    {
        Self::dot(self, self)
    }

    pub open spec fn spec_length(self) -> Scalar {
        self.spec_length_squared().sqrt()
    }

    #[verifier::when_used_as_spec(spec_length)]
    pub fn length(self) -> (out: Scalar)
        ensures
            out == self.spec_length(),
    {
        self.length_squared().sqrt()
    }

    pub open spec fn spec_unit_vector(self) -> Vec3 {
        self.spec_div(self.spec_length())
    }

    /// The vector divided by its length. A vector whose length rounds to
    /// zero is divided by zero: each nonzero component becomes the largest
    /// scalar of its sign.
    #[verifier::when_used_as_spec(spec_unit_vector)]
    pub fn unit_vector(self) -> (out: Vec3)
        ensures
            out == self.spec_unit_vector(),
    {
        self.div(self.length())
    }

    pub open spec fn spec_near_zero(self) -> bool {
        self.x.abs().raw < NEAR_ZERO_RAW && self.y.abs().raw < NEAR_ZERO_RAW && self.z.abs().raw
            < NEAR_ZERO_RAW
    }

    /// Every component is within about `1e-8` of zero.
    #[verifier::when_used_as_spec(spec_near_zero)]
    pub fn near_zero(self) -> (out: bool)
        ensures
            out == self.spec_near_zero(),
    {
        self.x.abs().raw < NEAR_ZERO_RAW && self.y.abs().raw < NEAR_ZERO_RAW && self.z.abs().raw
            < NEAR_ZERO_RAW
    }

    pub open spec fn spec_reflect(v: Vec3, n: Vec3) -> Vec3 {
        v.sub(n.scale(Scalar::from_int(2).mul(Self::spec_dot(v, n))))
    }

    /// The mirror image of `v` at a surface with normal `n`: `v - 2 (v . n) n`.
    #[verifier::when_used_as_spec(spec_reflect)]
    pub fn reflect(v: Vec3, n: Vec3) -> (out: Vec3)
        ensures
            out == Self::spec_reflect(v, n),
    {
        v.sub(n.scale(Scalar::from_int(2).mul(Self::dot(v, n))))
    }

    /// The cosine of the angle between `-uv` and `n`, at most one.
    pub open spec fn spec_cos_incidence(uv: Vec3, n: Vec3) -> Scalar {
        Self::spec_dot(uv.neg(), n).min(Scalar::one())
    }

    #[verifier::when_used_as_spec(spec_cos_incidence)]
    pub fn cos_incidence(uv: Vec3, n: Vec3) -> (out: Scalar)
        ensures
            out == Self::spec_cos_incidence(uv, n),
            out.raw <= ONE_RAW,
    {
        Self::dot(uv.neg(), n).min(Scalar::one())
    }

    /// Snell's law admits no refracted ray: `ratio * sin(theta) > 1`, where
    /// `theta` is the angle of incidence.
    pub open spec fn spec_cannot_refract(uv: Vec3, n: Vec3, ratio: Scalar) -> bool {
        let cos_theta = Self::spec_cos_incidence(uv, n);
        let sin_theta = Scalar::one().sub(cos_theta.mul(cos_theta)).sqrt();
        ratio.mul(sin_theta).raw > ONE_RAW
    }

    #[verifier::when_used_as_spec(spec_cannot_refract)]
    pub fn cannot_refract(uv: Vec3, n: Vec3, ratio: Scalar) -> (out: bool)
        ensures
            out == Self::spec_cannot_refract(uv, n, ratio),
    {
        let cos_theta: Scalar = Self::cos_incidence(uv, n);
        let sin_theta: Scalar = Scalar::one().sub(cos_theta.mul(cos_theta)).sqrt();
        ratio.mul(sin_theta).raw > ONE_RAW
    }

    pub open spec fn spec_refract(uv: Vec3, n: Vec3, ratio: Scalar) -> Vec3 {
        let cos_theta = Self::spec_cos_incidence(uv, n);
        let perpendicular = uv.add(n.scale(cos_theta)).scale(ratio);
        let parallel = n.scale(
            Scalar::one().sub(perpendicular.spec_length_squared()).abs().sqrt().neg(),
        );
        perpendicular.add(parallel)
    }

    /// The direction of the unit vector `uv` after it passes a surface with
    /// unit normal `n` between media whose refractive indices have the given
    /// ratio, by Snell's law: the sum of the part perpendicular to the normal,
    /// `ratio * (uv + cos(theta) n)`, and the part along it.
    #[verifier::when_used_as_spec(spec_refract)]
    pub fn refract(uv: Vec3, n: Vec3, ratio: Scalar) -> (out: Vec3)
        requires
            !Self::spec_cannot_refract(uv, n, ratio),
        ensures
            out == Self::spec_refract(uv, n, ratio),
    {
        let cos_theta: Scalar = Self::cos_incidence(uv, n);
        let perpendicular: Vec3 = uv.add(n.scale(cos_theta)).scale(ratio);
        let parallel: Vec3 = n.scale(
            Scalar::one().sub(perpendicular.length_squared()).abs().sqrt().neg(),
        );
        perpendicular.add(parallel)
    }

    /// The vector whose components are the next three draws from `[min, max)`.
    pub open spec fn spec_random_range(rng: RandomSource, min: Scalar, max: Scalar) -> Vec3 {
        Vec3 {
            x: rng.in_range(min, max),
            y: rng.step().in_range(min, max),
            z: rng.step().step().in_range(min, max),
        }
    }

    /// Draws each component from `[min, max)`.
    pub fn random_range(rng: &mut RandomSource, min: Scalar, max: Scalar) -> (out: Vec3)
        ensures
            out == Self::spec_random_range(*old(rng), min, max),
            *final(rng) == old(rng).step().step().step(),
            min.wf() && min.raw < max.raw ==> min.raw <= out.x.raw < max.raw && min.raw
                <= out.y.raw < max.raw && min.raw <= out.z.raw < max.raw,
    {
        let x: Scalar = rng.next_in_range(min, max);
        let y: Scalar = rng.next_in_range(min, max);
        let z: Scalar = rng.next_in_range(min, max);
        Vec3 { x, y, z }
    }

    /// A candidate is kept when it lies in the unit ball and is not the zero
    /// vector.
    pub open spec fn in_unit_ball(p: Vec3) -> bool {
        0 < p.spec_length_squared().raw <= ONE_RAW
    }

    /// The unit vector and the source that rejection sampling arrives at
    /// within `draws` candidates: the first candidate from the cube
    /// `[-1, 1)^3` that lies in the unit ball, divided by its length; the unit
    /// vector along `x` when every candidate is rejected.
    pub open spec fn spec_random_unit_vector(rng: RandomSource, draws: nat) -> (Vec3, RandomSource)
        decreases draws,
    {
        if draws == 0 {
            (Vec3 { x: Scalar::one(), y: Scalar::zero(), z: Scalar::zero() }, rng)
        } else {
            let p = Self::spec_random_range(rng, Scalar::one().neg(), Scalar::one());
            let next = rng.step().step().step();
            if Self::in_unit_ball(p) {
                (p.spec_div(p.spec_length_squared().sqrt()), next)
            } else {
                Self::spec_random_unit_vector(next, (draws - 1) as nat)
            }
        }
    }

    /// Draws a direction uniformly from the unit sphere by rejection
    /// sampling, with at most [`MAX_DRAWS`] candidates.
    pub fn random_unit_vector(rng: &mut RandomSource) -> (out: Vec3)
        ensures
            (out, *final(rng)) == Self::spec_random_unit_vector(*old(rng), MAX_DRAWS as nat),
    {
        let mut left: usize = MAX_DRAWS;
        while left > 0
            invariant
                Self::spec_random_unit_vector(*rng, left as nat) == Self::spec_random_unit_vector(
                    *old(rng),
                    MAX_DRAWS as nat,
                ),
            decreases left,
        {
            let p: Vec3 = Self::random_range(rng, Scalar::one().neg(), Scalar::one());
            let lensq: Scalar = p.length_squared();
            if 0 < lensq.raw && lensq.raw <= ONE_RAW {
                return p.div(lensq.sqrt());
            }
            left = left - 1;
        }
        Vec3 { x: Scalar::one(), y: Scalar::zero(), z: Scalar::zero() }
    }

    /// The point and the source that rejection sampling arrives at within
    /// `draws` candidates: the first candidate from the square `[-1, 1)^2`
    /// that lies strictly inside the unit disk; the centre when every
    /// candidate is rejected.
    pub open spec fn spec_random_in_unit_disk(rng: RandomSource, draws: nat) -> (Vec3, RandomSource)
        decreases draws,
    {
        if draws == 0 {
            (Self::spec_zero(), rng)
        } else {
            let p = Vec3 {
                x: rng.in_range(Scalar::one().neg(), Scalar::one()),
                y: rng.step().in_range(Scalar::one().neg(), Scalar::one()),
                z: Scalar::zero(),
            };
            let next = rng.step().step();
            if p.spec_length_squared().raw < ONE_RAW {
                (p, next)
            } else {
                Self::spec_random_in_unit_disk(next, (draws - 1) as nat)
            }
        }
    }

    /// Draws a point uniformly from the unit disk in the `xy` plane by
    /// rejection sampling, with at most [`MAX_DRAWS`] candidates.
    pub fn random_in_unit_disk(rng: &mut RandomSource) -> (out: Vec3)
        ensures
            (out, *final(rng)) == Self::spec_random_in_unit_disk(*old(rng), MAX_DRAWS as nat),
            out.spec_length_squared().raw < ONE_RAW,
            out.z == Scalar::spec_zero(),
    {
        let mut left: usize = MAX_DRAWS;
        while left > 0
            invariant
                Self::spec_random_in_unit_disk(*rng, left as nat)
                    == Self::spec_random_in_unit_disk(*old(rng), MAX_DRAWS as nat),
            decreases left,
        {
            let x: Scalar = rng.next_in_range(Scalar::one().neg(), Scalar::one());
            let y: Scalar = rng.next_in_range(Scalar::one().neg(), Scalar::one());
            let p: Vec3 = Vec3 { x, y, z: Scalar::zero() };
            if p.length_squared().raw < ONE_RAW {
                return p;
            }
            left = left - 1;
        }
        proof {
            lemma_mul_zero(Scalar::zero());
        }
        Self::zero()
    }
}

/// The dot product with a negated vector is the negated dot product.
pub proof fn lemma_dot_neg(u: Vec3, v: Vec3)
    requires
        v.wf(),
    ensures
        Vec3::dot(u, v.neg()) == Vec3::dot(u, v).neg(),
{
    lemma_trunc_div_neg(u.x.raw * v.x.raw, ONE_RAW as int);
    lemma_trunc_div_neg(u.y.raw * v.y.raw, ONE_RAW as int);
    lemma_trunc_div_neg(u.z.raw * v.z.raw, ONE_RAW as int);
    assert(u.x.raw * (-v.x.raw) == -(u.x.raw * v.x.raw)) by (nonlinear_arith);
    assert(u.y.raw * (-v.y.raw) == -(u.y.raw * v.y.raw)) by (nonlinear_arith);
    assert(u.z.raw * (-v.z.raw) == -(u.z.raw * v.z.raw)) by (nonlinear_arith);
}

} // verus!
