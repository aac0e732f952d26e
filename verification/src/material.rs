//! Surface materials: how a ray that hits a surface is scattered.

use crate::color::Color;
use crate::hittable::HitRecord;
use crate::interval::Interval;
use crate::random::RandomSource;
use crate::ray::Ray;
use crate::scalar::lemma_mul_monotonic;
use crate::scalar::lemma_mul_one;
use crate::scalar::lemma_mul_zero;
use crate::scalar::lemma_powi_monotonic;
use crate::scalar::lemma_powi_one;
use crate::scalar::lemma_powi_zero;
use crate::scalar::lemma_product_sign;
use crate::scalar::magnitude;
use crate::scalar::Scalar;
use crate::scalar::ONE_RAW;
use crate::vec3::Vec3;
use crate::vec3::MAX_DRAWS;
use vstd::prelude::*;

verus! {

/// A scattering behaviour.
pub trait Material {
    /// What `scatter` returns, and the random source as it leaves it.
    spec fn spec_scatter(&self, r_in: Ray, rec: HitRecord, rng: RandomSource) -> (
        Option<(Color, Ray)>,
        RandomSource,
    );

    /// The attenuation and the scattered ray for a ray `r_in` that hit the
    /// surface as `rec` records; `None` when the ray is absorbed.
    fn scatter(&self, r_in: &Ray, rec: &HitRecord, rng: &mut RandomSource) -> (out: Option<
        (Color, Ray),
    >)
        ensures
            (out, *final(rng)) == self.spec_scatter(*r_in, *rec, *old(rng)),
    ;
}

/// A diffuse surface.
#[derive(Clone, Copy, PartialEq, Eq, Structural, Debug)]
pub struct Lambertian {
    pub albedo: Color,
}

impl Lambertian {
    pub fn new(albedo: Color) -> (out: Lambertian)
        ensures
            out.albedo == albedo,
    {
        Lambertian { albedo }
    }
}

impl Material for Lambertian {
    /// The ray leaves the hit point along the normal plus a random unit
    /// vector, or along the normal where that sum is nearly zero. It is never
    /// absorbed.
    open spec fn spec_scatter(&self, r_in: Ray, rec: HitRecord, rng: RandomSource) -> (
        Option<(Color, Ray)>,
        RandomSource,
    ) {
        let (unit, next) = Vec3::spec_random_unit_vector(rng, MAX_DRAWS as nat);
        let candidate = rec.normal.add(unit);
        let direction = if candidate.near_zero() {
            rec.normal
        } else {
            candidate
        };
        (Some((self.albedo, Ray { origin: rec.p, direction })), next)
    }

    fn scatter(&self, r_in: &Ray, rec: &HitRecord, rng: &mut RandomSource) -> (out: Option<
        (Color, Ray),
    >)
        ensures
            out matches Some(scattered) && scattered.0 == self.albedo && scattered.1.origin
                == rec.p,
    {
        let mut scatter_direction: Vec3 = rec.normal.add(Vec3::random_unit_vector(rng));
        if scatter_direction.near_zero() {
            scatter_direction = rec.normal;
        }
        let scattered: Ray = Ray::new(rec.p, scatter_direction);
        Some((self.albedo, scattered))
    }
}

/// A reflecting surface. `fuzz` lies in `[0, 1]`.
#[derive(Clone, Copy, PartialEq, Eq, Structural, Debug)]
pub struct Metal {
    pub albedo: Color,
    pub fuzz: Scalar,
}

impl Metal {
    /// `fuzz` lies in `[0, 1]`.
    pub open spec fn wf(self) -> bool {
        0 <= self.fuzz.raw <= ONE_RAW
    }

    /// A metal of the given colour. `fuzz` is clamped to `[0, 1]`.
    pub fn new(albedo: Color, fuzz: Scalar) -> (out: Metal)
        ensures
            out.albedo == albedo,
            out.fuzz == (Interval { min: Scalar::zero(), max: Scalar::one() }).clamp(fuzz),
            out.wf(),
    {
        let fuzz: Scalar = if fuzz.raw < 0 {
            Scalar::zero()
        } else if fuzz.raw < ONE_RAW {
            fuzz
        } else {
            Scalar::one()
        };
        Metal { albedo, fuzz }
    }
}

impl Material for Metal {
    /// The ray is mirrored at the surface, normalised, and perturbed by
    /// `fuzz` times a random unit vector. It is absorbed where the result
    /// does not point away from the surface.
    open spec fn spec_scatter(&self, r_in: Ray, rec: HitRecord, rng: RandomSource) -> (
        Option<(Color, Ray)>,
        RandomSource,
    ) {
        let (unit, next) = Vec3::spec_random_unit_vector(rng, MAX_DRAWS as nat);
        let reflected = Vec3::reflect(r_in.direction, rec.normal).unit_vector().add(
            unit.scale(self.fuzz),
        );
        if Vec3::dot(reflected, rec.normal).raw > 0 {
            (Some((self.albedo, Ray { origin: rec.p, direction: reflected })), next)
        } else {
            (None, next)
        }
    }

    fn scatter(&self, r_in: &Ray, rec: &HitRecord, rng: &mut RandomSource) -> (out: Option<
        (Color, Ray),
    >)
        ensures
            out matches Some(scattered) ==> scattered.0 == self.albedo && scattered.1.origin
                == rec.p && Vec3::dot(scattered.1.direction, rec.normal).raw > 0,
    {
        let mirrored: Vec3 = Vec3::reflect(r_in.direction, rec.normal).unit_vector();
        let reflected: Vec3 = mirrored.add(Vec3::random_unit_vector(rng).scale(self.fuzz));
        let scattered: Ray = Ray::new(rec.p, reflected);
        if Vec3::dot(scattered.direction, rec.normal).raw > 0 {
            Some((self.albedo, scattered))
        } else {
            None
        }
    }
}

/// A transparent surface that reflects or refracts.
#[derive(Clone, Copy, PartialEq, Eq, Structural, Debug)]
pub struct Dialectric {
    /// Refractive index of the material over that of the medium around it.
    pub refraction_index: Scalar,
}

impl Dialectric {
    pub fn new(refraction_index: Scalar) -> (out: Dialectric)
        ensures
            out.refraction_index == refraction_index,
    {
        Dialectric { refraction_index }
    }

    pub open spec fn spec_base_reflectance(&self) -> Scalar {
        let q = Scalar::one().sub(self.refraction_index).div(
            Scalar::one().add(self.refraction_index),
        );
        q.mul(q)
    }

    /// The reflectance at normal incidence: `((1 - n) / (1 + n))^2` for the
    /// refractive index `n`.
    #[verifier::when_used_as_spec(spec_base_reflectance)]
    pub fn base_reflectance(&self) -> (out: Scalar)
        ensures
            out == self.spec_base_reflectance(),
    {
        let q: Scalar = Scalar::one().sub(self.refraction_index).div(
            Scalar::one().add(self.refraction_index),
        );
        q.mul(q)
    }

    pub open spec fn spec_reflectance(&self, cosine: Scalar) -> Scalar {
        let r0 = self.spec_base_reflectance();
        r0.add(Scalar::one().sub(r0).mul(Scalar::one().sub(cosine).powi(5)))
    }

    /// Schlick's approximation of the reflectance at an angle of incidence
    /// with the given cosine: `r0 + (1 - r0) (1 - cosine)^5`.
    #[verifier::when_used_as_spec(spec_reflectance)]
    pub fn reflectance(&self, cosine: Scalar) -> (out: Scalar)
        ensures
            out == self.spec_reflectance(cosine),
    {
        let r0: Scalar = self.base_reflectance();
        r0.add(Scalar::one().sub(r0).mul(Scalar::one().sub(cosine).powi(5)))
    }

    /// The ratio of refractive indices that a ray meets: the inverse of the
    /// index where it enters through the front face, the index where it
    /// leaves.
    pub open spec fn spec_ratio(&self, front_face: bool) -> Scalar {
        if front_face {
            Scalar::one().div(self.refraction_index)
        } else {
            self.refraction_index
        }
    }
}

impl Material for Dialectric {
    /// The ray is never absorbed and keeps its colour. It is reflected
    /// where Snell's law admits no refraction, and otherwise where the
    /// reflectance exceeds a draw from `[0, 1)`, which is made in that case
    /// only; else it is refracted.
    open spec fn spec_scatter(&self, r_in: Ray, rec: HitRecord, rng: RandomSource) -> (
        Option<(Color, Ray)>,
        RandomSource,
    ) {
        let ri = self.spec_ratio(rec.front_face);
        let unit_direction = r_in.direction.unit_vector();
        let cos_theta = Vec3::cos_incidence(unit_direction, rec.normal);
        if Vec3::cannot_refract(unit_direction, rec.normal, ri) {
            (
                Some(
                    (
                        Color::white(),
                        Ray { origin: rec.p, direction: Vec3::reflect(unit_direction, rec.normal) },
                    ),
                ),
                rng,
            )
        } else if self.spec_reflectance(cos_theta).raw > rng.unit().raw {
            (
                Some(
                    (
                        Color::white(),
                        Ray { origin: rec.p, direction: Vec3::reflect(unit_direction, rec.normal) },
                    ),
                ),
                rng.step(),
            )
        } else {
            (
                Some(
                    (
                        Color::white(),
                        Ray {
                            origin: rec.p,
                            direction: Vec3::spec_refract(unit_direction, rec.normal, ri),
                        },
                    ),
                ),
                rng.step(),
            )
        }
    }

    fn scatter(&self, r_in: &Ray, rec: &HitRecord, rng: &mut RandomSource) -> (out: Option<
        (Color, Ray),
    >)
        ensures
            out matches Some(scattered) && scattered.0 == Color::spec_white()
                && scattered.1.origin == rec.p,
    {
        let attenuation: Color = Color::white();
        let ri: Scalar = if rec.front_face {
            Scalar::one().div(self.refraction_index)
        } else {
            self.refraction_index
        };
        let unit_direction: Vec3 = r_in.direction.unit_vector();
        let cos_theta: Scalar = Vec3::cos_incidence(unit_direction, rec.normal);
        let cannot_refract: bool = Vec3::cannot_refract(unit_direction, rec.normal, ri);
        let direction: Vec3 = if cannot_refract || self.reflectance(cos_theta).raw
            > rng.next_unit().raw {
            Vec3::reflect(unit_direction, rec.normal)
        } else {
            Vec3::refract(unit_direction, rec.normal, ri)
        };
        Some((attenuation, Ray::new(rec.p, direction)))
    }
}

/// The material of an object: one of the scattering behaviours.
#[derive(Clone, Copy, PartialEq, Eq, Structural, Debug)]
pub enum Surface {
    Lambertian(Lambertian),
    Metal(Metal),
    Dialectric(Dialectric),
}

impl Material for Surface {
    open spec fn spec_scatter(&self, r_in: Ray, rec: HitRecord, rng: RandomSource) -> (
        Option<(Color, Ray)>,
        RandomSource,
    ) {
        match *self {
            Surface::Lambertian(m) => m.spec_scatter(r_in, rec, rng),
            Surface::Metal(m) => m.spec_scatter(r_in, rec, rng),
            Surface::Dialectric(m) => m.spec_scatter(r_in, rec, rng),
        }
    }

    fn scatter(&self, r_in: &Ray, rec: &HitRecord, rng: &mut RandomSource) -> (out: Option<
        (Color, Ray),
    >) {
        match self {
            Surface::Lambertian(m) => m.scatter(r_in, rec, rng),
            Surface::Metal(m) => m.scatter(r_in, rec, rng),
            Surface::Dialectric(m) => m.scatter(r_in, rec, rng),
        }
    }
}

/// For a refractive index that is not negative, the reflectance at normal
/// incidence lies between zero and one.
pub proof fn lemma_base_reflectance_range(m: Dialectric)
    requires
        0 <= m.refraction_index.raw,
    ensures
        0 <= m.base_reflectance().raw <= ONE_RAW,
{
    let n = Scalar::one().sub(m.refraction_index);
    let d = Scalar::one().add(m.refraction_index);
    let q = n.div(d);
    assert(magnitude(n.raw as int) <= d.raw);
    assert(magnitude(n.raw * ONE_RAW) / (d.raw as int) <= ONE_RAW) by (nonlinear_arith)
        requires
            0 <= magnitude(n.raw * ONE_RAW) <= d.raw * ONE_RAW,
            0 < d.raw,
    ;
    assert(0 <= magnitude(n.raw * ONE_RAW) / (d.raw as int)) by (nonlinear_arith)
        requires
            0 <= magnitude(n.raw * ONE_RAW),
            0 < d.raw,
    ;
    assert(magnitude(q.raw as int) <= ONE_RAW);
    lemma_product_sign(q.raw as int, q.raw as int);
    assert(magnitude(q.raw as int) * magnitude(q.raw as int) <= ONE_RAW * ONE_RAW)
        by (nonlinear_arith)
        requires
            0 <= magnitude(q.raw as int) <= ONE_RAW,
    ;
    assert(0 <= (q.raw * q.raw) / (ONE_RAW as int) <= ONE_RAW) by (nonlinear_arith)
        requires
            0 <= q.raw * q.raw <= ONE_RAW * ONE_RAW,
    ;
}

/// Seen head on, where the cosine of the angle of incidence is one, a
/// surface reflects as much as at normal incidence.
pub proof fn lemma_reflectance_head_on(m: Dialectric)
    ensures
        m.reflectance(Scalar::one()) == m.base_reflectance(),
{
    lemma_powi_zero(5);
    lemma_mul_zero(Scalar::one().sub(m.base_reflectance()));
}

/// Seen at a grazing angle, where the cosine of the angle of incidence is
/// zero, a surface with a refractive index that is not negative reflects
/// everything.
pub proof fn lemma_reflectance_grazing(m: Dialectric)
    requires
        0 <= m.refraction_index.raw,
    ensures
        m.reflectance(Scalar::zero()) == Scalar::one(),
{
    lemma_base_reflectance_range(m);
    lemma_powi_one(5);
    lemma_mul_one(Scalar::one().sub(m.base_reflectance()));
}

/// The reflectance does not grow with the cosine of the angle of
/// incidence: from one at a grazing angle it falls to the reflectance at
/// normal incidence.
pub proof fn lemma_reflectance_monotonic(m: Dialectric, steep: Scalar, shallow: Scalar)
    requires
        0 <= m.refraction_index.raw,
        shallow.raw <= steep.raw <= ONE_RAW,
    ensures
        m.reflectance(steep).raw <= m.reflectance(shallow).raw,
        m.base_reflectance().raw <= m.reflectance(steep).raw,
        0 <= shallow.raw ==> m.reflectance(shallow).raw <= ONE_RAW,
{
    lemma_base_reflectance_range(m);
    let rest = Scalar::one().sub(m.base_reflectance());
    let low = Scalar::one().sub(steep);
    let high = Scalar::one().sub(shallow);
    lemma_powi_monotonic(low, high, 5);
    lemma_mul_monotonic(rest, low.powi(5), high.powi(5));
    lemma_mul_zero(rest);
    lemma_mul_monotonic(rest, Scalar::zero(), low.powi(5));
    if 0 <= shallow.raw {
        lemma_powi_monotonic(high, Scalar::one(), 5);
        lemma_powi_one(5);
        lemma_mul_monotonic(rest, high.powi(5), Scalar::one());
        lemma_mul_one(rest);
    }
}

} // verus!
