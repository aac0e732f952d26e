//! Linear-light colours and their encoding as pixels.

use crate::interval::Interval;
use crate::ppm::pixel_line;
use crate::ppm::push_pixel_line;
use crate::random::RandomSource;
use crate::scalar::is_floor_sqrt;
use crate::scalar::lemma_div_cancel;
use crate::scalar::lemma_floor_sqrt;
use crate::scalar::lemma_mul_zero;
use crate::scalar::Scalar;
use crate::scalar::ONE_RAW;
use crate::vec3::Vec3;
use vstd::prelude::*;

verus! {

/// Raw value of the largest intensity that is encoded: `0.999`.
pub const INTENSITY_MAX_RAW: i64 = 4290672328;

/// A colour in linear light, one scalar per channel.
#[derive(Clone, Copy, PartialEq, Eq, Structural, Debug)]
pub struct Color {
    pub r: Scalar,
    pub g: Scalar,
    pub b: Scalar,
}

impl From<Vec3> for Color {
    fn from(value: Vec3) -> (out: Color) {
        Color { r: value.x, g: value.y, b: value.z }
    }
}

impl vstd::std_specs::convert::FromSpecImpl<Vec3> for Color {
    open spec fn obeys_from_spec() -> bool {
        true
    }

    open spec fn from_spec(value: Vec3) -> Color {
        Color { r: value.x, g: value.y, b: value.z }
    }
}

impl Color {
    pub fn new(r: Scalar, g: Scalar, b: Scalar) -> (out: Color)
        ensures
            out == (Color { r, g, b }),
    {
        Color { r, g, b }
    }

    pub open spec fn spec_black() -> Color {
        Color { r: Scalar::zero(), g: Scalar::zero(), b: Scalar::zero() }
    }

    #[verifier::when_used_as_spec(spec_black)]
    pub fn black() -> (out: Color)
        ensures
            out == Self::spec_black(),
    {
        Color { r: Scalar::zero(), g: Scalar::zero(), b: Scalar::zero() }
    }

    pub open spec fn spec_white() -> Color {
        Color { r: Scalar::one(), g: Scalar::one(), b: Scalar::one() }
    }

    #[verifier::when_used_as_spec(spec_white)]
    pub fn white() -> (out: Color)
        ensures
            out == Self::spec_white(),
    {
        Color { r: Scalar::one(), g: Scalar::one(), b: Scalar::one() }
    }

    /// The colour whose channels are the next three draws from `[min, max)`.
    pub open spec fn spec_random_range(rng: RandomSource, min: Scalar, max: Scalar) -> Color {
        Color {
            r: rng.in_range(min, max),
            g: rng.step().in_range(min, max),
            b: rng.step().step().in_range(min, max),
        }
    }

    /// The colour whose channels are the next three draws from `[0, 1)`.
    pub open spec fn spec_random(rng: RandomSource) -> Color {
        Color { r: rng.unit(), g: rng.step().unit(), b: rng.step().step().unit() }
    }

    /// Draws each channel from `[0, 1)`.
    pub fn random(rng: &mut RandomSource) -> (out: Color)
        ensures
            out == Self::spec_random(*old(rng)),
            *final(rng) == old(rng).step().step().step(),
            0 <= out.r.raw < ONE_RAW && 0 <= out.g.raw < ONE_RAW && 0 <= out.b.raw < ONE_RAW,
    {
        let r: Scalar = rng.next_unit();
        let g: Scalar = rng.next_unit();
        let b: Scalar = rng.next_unit();
        Color { r, g, b }
    }

    /// Draws each channel from `[min, max)`.
    pub fn random_range(rng: &mut RandomSource, min: Scalar, max: Scalar) -> (out: Color)
        ensures
            out == Self::spec_random_range(*old(rng), min, max),
            *final(rng) == old(rng).step().step().step(),
            min.wf() && min.raw < max.raw ==> min.raw <= out.r.raw < max.raw && min.raw
                <= out.g.raw < max.raw && min.raw <= out.b.raw < max.raw,
    {
        let r: Scalar = rng.next_in_range(min, max);
        let g: Scalar = rng.next_in_range(min, max);
        let b: Scalar = rng.next_in_range(min, max);
        Color { r, g, b }
    }

    pub open spec fn spec_scale(self, t: Scalar) -> Color {
        Color { r: t.mul(self.r), g: t.mul(self.g), b: t.mul(self.b) }
    }

    /// The colour with every channel multiplied by `t`.
    #[verifier::when_used_as_spec(spec_scale)]
    pub fn scale(self, t: Scalar) -> (out: Color)
        ensures
            out == self.spec_scale(t),
    {
        Color { r: t.mul(self.r), g: t.mul(self.g), b: t.mul(self.b) }
    }

    pub open spec fn spec_add(self, rhs: Color) -> Color {
        Color { r: self.r.add(rhs.r), g: self.g.add(rhs.g), b: self.b.add(rhs.b) }
    }

    #[verifier::when_used_as_spec(spec_add)]
    pub fn add(self, rhs: Color) -> (out: Color)
        ensures
            out == self.spec_add(rhs),
    {
        Color { r: self.r.add(rhs.r), g: self.g.add(rhs.g), b: self.b.add(rhs.b) }
    }

    /// Adds `rhs` to this colour, channel by channel.
    pub fn add_assign(&mut self, rhs: Color)
        ensures
            *final(self) == old(self).spec_add(rhs),
    {
        self.r = self.r.add(rhs.r);
        self.g = self.g.add(rhs.g);
        self.b = self.b.add(rhs.b);
    }

    pub open spec fn spec_mul(self, rhs: Color) -> Color {
        Color { r: self.r.mul(rhs.r), g: self.g.mul(rhs.g), b: self.b.mul(rhs.b) }
    }

    /// The product channel by channel: what is left of `rhs` after a surface
    /// of this colour has attenuated it.
    #[verifier::when_used_as_spec(spec_mul)]
    pub fn mul(self, rhs: Color) -> (out: Color)
        ensures
            out == self.spec_mul(rhs),
    {
        Color { r: self.r.mul(rhs.r), g: self.g.mul(rhs.g), b: self.b.mul(rhs.b) }
    }
}

pub open spec fn spec_intensity() -> Interval {
    Interval { min: Scalar::zero(), max: Scalar { raw: INTENSITY_MAX_RAW } }
}

/// The range of intensities that are encoded: `[0, 0.999]`.
#[verifier::when_used_as_spec(spec_intensity)]
pub fn intensity() -> (out: Interval)
    ensures
        out == spec_intensity(),
{
    Interval::new(Scalar::zero(), Scalar { raw: INTENSITY_MAX_RAW })
}

pub open spec fn spec_linear_to_gamma(linear_component: Scalar) -> Scalar {
    if linear_component.raw > 0 {
        linear_component.sqrt()
    } else {
        Scalar::zero()
    }
}

/// Gamma correction with gamma 2: the square root of a positive component,
/// zero otherwise.
#[verifier::when_used_as_spec(spec_linear_to_gamma)]
pub fn linear_to_gamma(linear_component: Scalar) -> (out: Scalar)
    ensures
        out == spec_linear_to_gamma(linear_component),
        out.raw >= 0,
{
    if linear_component.raw > 0 {
        linear_component.sqrt()
    } else {
        Scalar::zero()
    }
}

pub open spec fn spec_channel_byte(linear_component: Scalar) -> u8 {
    Scalar::from_int(256).mul(
        spec_intensity().clamp(spec_linear_to_gamma(linear_component)),
    ).floor_to_usize() as u8
}

/// The encoded value of one channel: the gamma-corrected component, clamped
/// to `[0, 0.999]`, times 256, rounded down.
#[verifier::when_used_as_spec(spec_channel_byte)]
pub fn channel_byte(linear_component: Scalar) -> (out: u8)
    ensures
        out == spec_channel_byte(linear_component),
        out as int == (256 * spec_intensity().clamp(spec_linear_to_gamma(linear_component)).raw)
            / ONE_RAW as int,
{
    let clamped: Scalar = intensity().clamp(linear_to_gamma(linear_component));
    let scaled: Scalar = Scalar::from_int(256).mul(clamped);
    proof {
        let x = clamped.raw as int;
        assert(0 <= x <= INTENSITY_MAX_RAW);
        lemma_div_cancel(256 * x, 0x1_0000_0000);
        assert((256 * 0x1_0000_0000) * x == (256 * x) * 0x1_0000_0000) by (nonlinear_arith);
    }
    let whole: usize = scaled.floor_to_usize();
    whole as u8
}

/// The line of the image body that encodes `pixel_color`.
pub open spec fn spec_color_line(pixel_color: Color) -> Seq<u8> {
    pixel_line(
        spec_channel_byte(pixel_color.r),
        spec_channel_byte(pixel_color.g),
        spec_channel_byte(pixel_color.b),
    )
}

/// Appends the line that encodes `pixel_color`: its three channel values in
/// decimal, separated by spaces and ended by a line feed.
pub fn write_color(out: &mut Vec<u8>, pixel_color: Color)
    ensures
        final(out)@ == old(out)@ + spec_color_line(pixel_color),
{
    let rbyte: u8 = channel_byte(pixel_color.r);
    let gbyte: u8 = channel_byte(pixel_color.g);
    let bbyte: u8 = channel_byte(pixel_color.b);
    push_pixel_line(out, rbyte, gbyte, bbyte);
}

/// Black is encoded as the line `0 0 0`.
pub proof fn lemma_black_line()
    ensures
        spec_color_line(Color::black()) == pixel_line(0, 0, 0),
{
    lemma_mul_zero(Scalar::from_int(256));
}

/// White is encoded as the line `255 255 255`.
pub proof fn lemma_white_line()
    ensures
        spec_color_line(Color::white()) == pixel_line(255, 255, 255),
{
    let one = Scalar::one();
    assert(is_floor_sqrt(ONE_RAW * ONE_RAW, ONE_RAW as int)) by (nonlinear_arith)
        requires
            ONE_RAW == 0x1_0000_0000,
    ;
    lemma_floor_sqrt(ONE_RAW * ONE_RAW, ONE_RAW as int);
    assert(one.sqrt() == one);
    let top = Scalar { raw: INTENSITY_MAX_RAW };
    lemma_div_cancel(256 * INTENSITY_MAX_RAW, ONE_RAW as int);
    assert((256 * ONE_RAW) * INTENSITY_MAX_RAW == (256 * INTENSITY_MAX_RAW) * ONE_RAW)
        by (nonlinear_arith);
    assert(Scalar::from_int(256).mul(top).raw == 256 * INTENSITY_MAX_RAW);
}

} // verus!
