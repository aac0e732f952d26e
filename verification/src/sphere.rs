//! Spheres, the one shape of the scene.

use crate::hittable::HitRecord;
use crate::hittable::Hittable;
use crate::interval::Interval;
use crate::material::Surface;
use crate::ray::Ray;
use crate::scalar::lemma_div_cancel;
use crate::scalar::lemma_div_monotonic;
use crate::scalar::lemma_div_one;
use crate::scalar::lemma_div_sign;
use crate::scalar::lemma_mul_monotonic;
use crate::scalar::lemma_mul_one;
use crate::scalar::lemma_mul_sign;
use crate::scalar::lemma_mul_zero;
use crate::scalar::lemma_product_sign;
use crate::scalar::lemma_sqrt_monotonic;
use crate::scalar::lemma_sqrt_of_square_lower;
use crate::scalar::lemma_sqrt_range;
use crate::scalar::Scalar;
use crate::scalar::ONE_RAW;
use crate::vec3::lemma_dot_neg;
use crate::vec3::Point3;
use crate::vec3::Vec3;
use vstd::prelude::*;

verus! {

/// A sphere of one material.
#[derive(Clone, Copy, PartialEq, Eq, Structural, Debug)]
pub struct Sphere {
    pub center: Point3,
    pub radius: Scalar,
    pub mat: Surface,
}

impl Sphere {
    pub fn new(center: Point3, radius: Scalar, mat: Surface) -> (out: Sphere)
        ensures
            out == (Sphere { center, radius, mat }),
    {
        Sphere { center, radius, mat }
    }

    /// The squared length `a` of the direction of `r`: the leading
    /// coefficient of the equation `a t^2 + 2 h t + c = 0` for the distances
    /// at which `r` meets the sphere.
    pub open spec fn leading(r: Ray) -> Scalar {
        r.direction.length_squared()
    }

    /// The coefficient `h`: the direction of `r` times the vector from the
    /// centre to the origin of `r`.
    pub open spec fn half_linear(&self, r: Ray) -> Scalar {
        Vec3::dot(r.direction, r.origin.sub(self.center))
    }

    /// The coefficient `c`: the squared distance of the origin of `r` from
    /// the centre, less the squared radius.
    pub open spec fn constant(&self, r: Ray) -> Scalar {
        r.origin.sub(self.center).length_squared().sub(self.radius.mul(self.radius))
    }

    /// The quarter discriminant `h^2 - a c`.
    pub open spec fn discriminant(&self, r: Ray) -> Scalar {
        let h = self.half_linear(r);
        h.mul(h).sub(Self::leading(r).mul(self.constant(r)))
    }

    /// The smaller solution, `(-h - sqrt(h^2 - a c)) / a`.
    #[verifier::opaque]
    pub open spec fn near_root(&self, r: Ray) -> Scalar {
        self.half_linear(r).neg().sub(self.discriminant(r).sqrt()).div(Self::leading(r))
    }

    /// The larger solution, `(-h + sqrt(h^2 - a c)) / a`.
    #[verifier::opaque]
    pub open spec fn far_root(&self, r: Ray) -> Scalar {
        self.half_linear(r).neg().add(self.discriminant(r).sqrt()).div(Self::leading(r))
    }

    /// The line of `r` meets the sphere: the direction has a positive squared
    /// length and the discriminant is not negative.
    #[verifier::opaque]
    pub open spec fn meets(&self, r: Ray) -> bool {
        Self::leading(r).raw > 0 && self.discriminant(r).raw >= 0
    }

    /// The record of a hit at distance `t` along `r`: the point there, and
    /// the outward normal `(p - center) / radius` turned against the ray.
    #[verifier::opaque]
    pub open spec fn record_at(&self, r: Ray, t: Scalar) -> HitRecord {
        let p = r.at(t);
        (HitRecord {
            t,
            p,
            normal: p.sub(self.center).div(self.radius),
            front_face: true,
            mat: self.mat,
        }).spec_face_normal(r)
    }
}

impl Hittable for Sphere {
    /// The hit at the smaller solution if that lies strictly inside `ray_t`,
    /// else at the larger one if that does; no hit otherwise, and none for a
    /// ray whose line does not meet the sphere.
    open spec fn spec_hit(&self, r: Ray, ray_t: Interval) -> Option<HitRecord> {
        if !self.meets(r) {
            None
        } else if ray_t.surrounds(self.near_root(r)) {
            Some(self.record_at(r, self.near_root(r)))
        } else if ray_t.surrounds(self.far_root(r)) {
            Some(self.record_at(r, self.far_root(r)))
        } else {
            None
        }
    }

    fn hit(&self, r: &Ray, ray_t: Interval) -> (out: Option<HitRecord>)
        ensures
            out matches Some(rec) ==> {
                &&& rec.t == self.near_root(*r) || rec.t == self.far_root(*r)
                &&& rec.p == r.at(rec.t)
                &&& rec.mat == self.mat
            },
            out is None <==> !self.meets(*r) || (!ray_t.surrounds(self.near_root(*r))
                && !ray_t.surrounds(self.far_root(*r))),
    {
        proof {
            reveal(Sphere::near_root);
            reveal(Sphere::far_root);
            reveal(Sphere::meets);
            reveal(Sphere::record_at);
        }
        let oc: Vec3 = r.origin.sub(self.center);
        let a: Scalar = r.direction.length_squared();
        let h: Scalar = Vec3::dot(r.direction, oc);
        let c: Scalar = oc.length_squared().sub(self.radius.mul(self.radius));
        let discriminant: Scalar = h.mul(h).sub(a.mul(c));
        if a.raw <= 0 || discriminant.raw < 0 {
            return None;
        }
        let sqrtd: Scalar = discriminant.sqrt();
        let mut root: Scalar = h.neg().sub(sqrtd).div(a);
        if !ray_t.surrounds(root) {
            root = h.neg().add(sqrtd).div(a);
            if !ray_t.surrounds(root) {
                return None;
            }
        }
        let t: Scalar = root;
        let p: Point3 = r.at(t);
        let normal: Vec3 = p.sub(self.center).div(self.radius);
        let mut rec: HitRecord = HitRecord::new(t, p, normal, self.mat);
        rec.set_face_normal(r);
        Some(rec)
    }
}

/// The smaller solution does not exceed the larger one.
pub proof fn lemma_roots_ordered(sphere: Sphere, r: Ray)
    requires
        Sphere::leading(r).raw > 0,
    ensures
        sphere.near_root(r).raw <= sphere.far_root(r).raw,
{
    reveal(Sphere::near_root);
    reveal(Sphere::far_root);
    let h = sphere.half_linear(r);
    let s = sphere.discriminant(r).sqrt();
    lemma_sqrt_range(sphere.discriminant(r));
    lemma_div_monotonic(h.neg().sub(s), h.neg().add(s), Sphere::leading(r));
}

/// The hit is the nearest intersection inside the interval: neither
/// solution lies strictly inside the interval and below the distance of the
/// hit.
pub proof fn lemma_hit_is_nearest(sphere: Sphere, r: Ray, ray_t: Interval)
    requires
        sphere.spec_hit(r, ray_t) is Some,
    ensures
        ray_t.surrounds(sphere.near_root(r)) ==> sphere.spec_hit(r, ray_t)->0.t.raw
            <= sphere.near_root(r).raw,
        ray_t.surrounds(sphere.far_root(r)) ==> sphere.spec_hit(r, ray_t)->0.t.raw
            <= sphere.far_root(r).raw,
{
    reveal(Sphere::meets);
    reveal(Sphere::record_at);
    lemma_roots_ordered(sphere, r);
}

/// The distance of a hit is one of the two solutions, and it lies strictly
/// inside the interval.
pub proof fn lemma_hit_distance(sphere: Sphere, r: Ray, ray_t: Interval)
    requires
        sphere.spec_hit(r, ray_t) is Some,
    ensures
        ray_t.surrounds(sphere.spec_hit(r, ray_t)->0.t),
        sphere.spec_hit(r, ray_t)->0.t == sphere.near_root(r) || sphere.spec_hit(r, ray_t)->0.t
            == sphere.far_root(r),
{
    reveal(Sphere::record_at);
}

/// A ray whose line does not meet the sphere hits it in no interval.
pub proof fn lemma_miss_in_every_interval(sphere: Sphere, r: Ray, ray_t: Interval)
    requires
        sphere.discriminant(r).raw < 0,
    ensures
        sphere.spec_hit(r, ray_t) is None,
{
    reveal(Sphere::meets);
}

/// A hit depends on the upper end of the interval only through the question
/// whether its distance lies below it: an upper end at or below the distance
/// of a hit suppresses the hit, and every upper end above it gives the same
/// hit again.
pub proof fn lemma_hit_window(sphere: Sphere, r: Ray, min: Scalar, max: Scalar, other: Scalar)
    requires
        sphere.spec_hit(r, Interval { min, max }) is Some,
    ensures
        ({
            let rec = sphere.spec_hit(r, Interval { min, max })->0;
            &&& other.raw <= rec.t.raw ==> sphere.spec_hit(r, Interval { min, max: other }) is None
            &&& rec.t.raw < other.raw ==> sphere.spec_hit(r, Interval { min, max: other })
                == Some(rec)
        }),
{
    reveal(Sphere::meets);
    reveal(Sphere::record_at);
    lemma_roots_ordered(sphere, r);
}

/// A ray that hits nothing in an interval hits nothing in a part of it that
/// has the same lower end.
pub proof fn lemma_miss_window(sphere: Sphere, r: Ray, min: Scalar, max: Scalar, other: Scalar)
    requires
        sphere.spec_hit(r, Interval { min, max }) is None,
        other.raw <= max.raw,
    ensures
        sphere.spec_hit(r, Interval { min, max: other }) is None,
{
}

/// Raw value of the largest coordinate for which the laws of axial rays are
/// stated: `32768`. The square of a larger one may exceed the range.
pub const AXIAL_BOUND_RAW: i64 = 0x8000_0000_0000;

/// The sphere of the given radius around the origin.
pub open spec fn centered(radius: Scalar, mat: Surface) -> Sphere {
    Sphere { center: Vec3::zero(), radius, mat }
}

/// The ray that starts at `(offset, 0, start)` and runs along the `z` axis
/// with unit speed.
pub open spec fn axial_ray(offset: Scalar, start: Scalar) -> Ray {
    Ray {
        origin: Vec3 { x: offset, y: Scalar::zero(), z: start },
        direction: Vec3 { x: Scalar::zero(), y: Scalar::zero(), z: Scalar::one() },
    }
}

/// The coefficients of the equation for an axial ray and a sphere around the
/// origin: `a = 1`, `h = start`, and the discriminant is the squared radius
/// less the squared offset.
pub proof fn lemma_axial_coefficients(radius: Scalar, offset: Scalar, start: Scalar, mat: Surface)
    requires
        -AXIAL_BOUND_RAW < radius.raw < AXIAL_BOUND_RAW,
        -AXIAL_BOUND_RAW < offset.raw < AXIAL_BOUND_RAW,
        -AXIAL_BOUND_RAW < start.raw < AXIAL_BOUND_RAW,
    ensures
        Sphere::leading(axial_ray(offset, start)) == Scalar::one(),
        centered(radius, mat).half_linear(axial_ray(offset, start)) == start,
        centered(radius, mat).discriminant(axial_ray(offset, start)).raw == radius.mul(radius).raw
            - offset.mul(offset).raw,
        0 <= radius.mul(radius).raw < 0x4000_0000_0000_0000,
        0 <= offset.mul(offset).raw < 0x4000_0000_0000_0000,
{
    let zero = Scalar::zero();
    let one = Scalar::one();
    lemma_mul_zero(zero);
    lemma_mul_zero(offset);
    lemma_mul_one(one);
    lemma_mul_one(start);
    lemma_square_bound(radius);
    lemma_square_bound(offset);
    lemma_square_bound(start);
    let sphere = centered(radius, mat);
    let r = axial_ray(offset, start);
    assert(r.origin.sub(sphere.center) == r.origin);
    assert(Sphere::leading(r) == one);
    assert(sphere.half_linear(r) == start);
    let c = sphere.constant(r);
    assert(c.raw == offset.mul(offset).raw + start.mul(start).raw - radius.mul(radius).raw);
    lemma_mul_one(c);
}

/// The square of a coordinate within the bound stays well inside the range.
pub proof fn lemma_square_bound(a: Scalar)
    requires
        -AXIAL_BOUND_RAW < a.raw < AXIAL_BOUND_RAW,
    ensures
        0 <= a.mul(a).raw < 0x4000_0000_0000_0000,
        a.mul(a).raw == (a.raw * a.raw) / (ONE_RAW as int),
{
    lemma_product_sign(a.raw as int, a.raw as int);
    assert(0 <= a.raw * a.raw < 0x8000_0000_0000 * 0x8000_0000_0000) by (nonlinear_arith)
        requires
            -0x8000_0000_0000 < a.raw < 0x8000_0000_0000,
    ;
}

/// A ray fired along an axis at a sphere around the origin, from outside
/// and at its centre, hits it at the distance of its origin from the centre
/// less the radius, at the point of the sphere nearest to its origin, from
/// outside. This holds of every radius that is the square root of its
/// square; a multiple of `2^-16` is.
pub proof fn lemma_axial_hit(radius: Scalar, distance: Scalar, mat: Surface, ray_t: Interval)
    requires
        0 < radius.raw < distance.raw < AXIAL_BOUND_RAW,
        radius.mul(radius).sqrt() == radius,
        ray_t.surrounds(distance.sub(radius)),
    ensures
        centered(radius, mat).spec_hit(axial_ray(Scalar::zero(), distance.neg()), ray_t) == Some(
            HitRecord {
                t: distance.sub(radius),
                p: Vec3 { x: Scalar::zero(), y: Scalar::zero(), z: radius.neg() },
                normal: Vec3 { x: Scalar::zero(), y: Scalar::zero(), z: Scalar::one().neg() },
                front_face: true,
                mat,
            },
        ),
{
    reveal(Sphere::near_root);
    reveal(Sphere::meets);
    reveal(Sphere::record_at);
    let zero = Scalar::zero();
    let one = Scalar::one();
    let sphere = centered(radius, mat);
    let r = axial_ray(zero, distance.neg());
    lemma_axial_coefficients(radius, zero, distance.neg(), mat);
    lemma_mul_zero(zero);
    let t = distance.sub(radius);
    assert(sphere.discriminant(r) == radius.mul(radius));
    lemma_div_one(t);
    assert(sphere.near_root(r) == t);
    lemma_mul_zero(t);
    lemma_mul_one(t);
    let p = r.at(t);
    assert(p == Vec3 { x: zero, y: zero, z: radius.neg() });
    assert(p.sub(sphere.center) == p);
    lemma_div_cancel(1, radius.raw as int);
    assert(0int / (radius.raw as int) == 0) by (nonlinear_arith)
        requires
            0 < radius.raw,
    ;
    assert(radius.raw * ONE_RAW == ONE_RAW * radius.raw) by (nonlinear_arith);
    lemma_div_cancel(ONE_RAW as int, radius.raw as int);
    let outward = p.div(radius);
    assert(outward == Vec3 { x: zero, y: zero, z: one.neg() });
    lemma_mul_one(one.neg());
    assert(Vec3::dot(r.direction, outward) == one.neg());
}

/// A ray along an axis whose offset from the centre of a sphere exceeds the
/// radius, in that the square of the offset exceeds the square of the
/// radius, hits the sphere in no interval.
pub proof fn lemma_offset_ray_misses(
    radius: Scalar,
    offset: Scalar,
    start: Scalar,
    mat: Surface,
    ray_t: Interval,
)
    requires
        -AXIAL_BOUND_RAW < radius.raw < AXIAL_BOUND_RAW,
        -AXIAL_BOUND_RAW < offset.raw < AXIAL_BOUND_RAW,
        -AXIAL_BOUND_RAW < start.raw < AXIAL_BOUND_RAW,
        radius.mul(radius).raw < offset.mul(offset).raw,
    ensures
        centered(radius, mat).spec_hit(axial_ray(offset, start), ray_t) is None,
{
    lemma_axial_coefficients(radius, offset, start, mat);
    lemma_miss_in_every_interval(centered(radius, mat), axial_ray(offset, start), ray_t);
}

/// For a ray that starts inside the sphere the smaller solution is not
/// positive, but for what rounding adds: at most `2^-16` over the squared
/// length of the direction.
pub proof fn lemma_near_root_from_inside(sphere: Sphere, r: Ray)
    requires
        sphere.constant(r).raw < 0,
        Sphere::leading(r).raw > 0,
        -AXIAL_BOUND_RAW < sphere.half_linear(r).raw < AXIAL_BOUND_RAW,
    ensures
        sphere.meets(r),
        sphere.near_root(r).raw <= (Scalar { raw: 0x1_0000 }).div(Sphere::leading(r)).raw,
{
    reveal(Sphere::near_root);
    reveal(Sphere::meets);
    let a = Sphere::leading(r);
    let h = sphere.half_linear(r);
    let c = sphere.constant(r);
    lemma_mul_zero(a);
    lemma_mul_monotonic(a, c, Scalar::zero());
    lemma_square_bound(h);
    lemma_sqrt_monotonic(h.mul(h), sphere.discriminant(r));
    lemma_sqrt_of_square_lower(h);
    lemma_sqrt_range(sphere.discriminant(r));
    let numerator = h.neg().sub(sphere.discriminant(r).sqrt());
    assert(numerator.raw <= 0x1_0000);
    lemma_div_monotonic(numerator, Scalar { raw: 0x1_0000 }, a);
}

/// A ray that starts inside a sphere hits it, if at all, at the larger
/// solution: where it leaves the sphere. This holds of every interval whose
/// lower end is at least `2^-16` over the squared length of the direction,
/// which for a direction of unit length is less than the `0.001` from which
/// hits count.
pub proof fn lemma_hit_from_inside(sphere: Sphere, r: Ray, ray_t: Interval)
    requires
        sphere.constant(r).raw < 0,
        Sphere::leading(r).raw > 0,
        -AXIAL_BOUND_RAW < sphere.half_linear(r).raw < AXIAL_BOUND_RAW,
        (Scalar { raw: 0x1_0000 }).div(Sphere::leading(r)).raw <= ray_t.min.raw,
    ensures
        sphere.spec_hit(r, ray_t) == if ray_t.surrounds(sphere.far_root(r)) {
            Some(sphere.record_at(r, sphere.far_root(r)))
        } else {
            None
        },
{
    lemma_near_root_from_inside(sphere, r);
}

/// A ray fired along an axis from inside a sphere around the origin, on
/// the axis, hits the far boundary, at the distance of its origin from the
/// centre plus the radius when it points at the centre, and from inside:
/// the normal is turned back toward the origin of the ray. This holds of
/// every radius that is the square root of its square.
pub proof fn lemma_axial_hit_from_inside(
    radius: Scalar,
    start: Scalar,
    mat: Surface,
    ray_t: Interval,
)
    requires
        0 < radius.raw < AXIAL_BOUND_RAW,
        -radius.raw < start.raw < radius.raw,
        radius.mul(radius).sqrt() == radius,
        0 <= ray_t.min.raw,
        ray_t.surrounds(radius.sub(start)),
    ensures
        centered(radius, mat).spec_hit(axial_ray(Scalar::zero(), start), ray_t) == Some(
            HitRecord {
                t: radius.sub(start),
                p: Vec3 { x: Scalar::zero(), y: Scalar::zero(), z: radius },
                normal: Vec3 { x: Scalar::zero(), y: Scalar::zero(), z: Scalar::one().neg() },
                front_face: false,
                mat,
            },
        ),
{
    reveal(Sphere::near_root);
    reveal(Sphere::far_root);
    reveal(Sphere::meets);
    reveal(Sphere::record_at);
    let zero = Scalar::zero();
    let one = Scalar::one();
    let sphere = centered(radius, mat);
    let r = axial_ray(zero, start);
    lemma_axial_coefficients(radius, zero, start, mat);
    lemma_mul_zero(zero);
    assert(sphere.discriminant(r) == radius.mul(radius));
    let near = start.neg().sub(radius);
    let t = radius.sub(start);
    lemma_div_one(near);
    lemma_div_one(t);
    assert(sphere.near_root(r) == near);
    assert(sphere.far_root(r) == t);
    lemma_mul_zero(t);
    lemma_mul_one(t);
    let p = r.at(t);
    assert(p == Vec3 { x: zero, y: zero, z: radius });
    assert(p.sub(sphere.center) == p);
    assert(0int / (radius.raw as int) == 0) by (nonlinear_arith)
        requires
            0 < radius.raw,
    ;
    assert(radius.raw * ONE_RAW == ONE_RAW * radius.raw) by (nonlinear_arith);
    lemma_div_cancel(ONE_RAW as int, radius.raw as int);
    let outward = p.div(radius);
    assert(outward == Vec3 { x: zero, y: zero, z: one });
    lemma_mul_one(one);
    assert(Vec3::dot(r.direction, outward) == one);
}

/// One term of the product of a direction with the outward normal at the
/// point reached from the centre along that direction: it is not negative.
pub proof fn lemma_term_along(d: Scalar, c: Scalar, t: Scalar, radius: Scalar)
    requires
        c.wf(),
        0 <= t.raw,
        0 < radius.raw,
    ensures
        0 <= d.mul(c.add(d.mul(t)).sub(c).div(radius)).raw,
{
    let step = d.mul(t);
    lemma_mul_sign(d, t);
    let offset = c.add(step).sub(c);
    lemma_div_sign(offset, radius);
    lemma_mul_sign(d, offset.div(radius));
}

/// A ray from the centre of a sphere hits it from inside, whatever its
/// direction: the hit, if the interval admits one, is at the larger
/// solution, the ray is taken to arrive from inside, and the normal does
/// not point along it.
pub proof fn lemma_hit_from_centre(sphere: Sphere, direction: Vec3, ray_t: Interval)
    requires
        sphere.center.wf(),
        0 < sphere.radius.raw,
        0 <= ray_t.min.raw,
        direction.spec_length_squared().raw > 0,
    ensures
        ({
            let r = Ray { origin: sphere.center, direction };
            let found = sphere.spec_hit(r, ray_t);
            &&& found is Some <==> ray_t.surrounds(sphere.far_root(r))
            &&& found matches Some(rec) ==> rec.t == sphere.far_root(r) && !rec.front_face
                && Vec3::dot(direction, rec.normal).raw <= 0
        }),
{
    reveal(Sphere::near_root);
    reveal(Sphere::far_root);
    reveal(Sphere::meets);
    reveal(Sphere::record_at);
    let r = Ray { origin: sphere.center, direction };
    let zero = Scalar::zero();
    let a = Sphere::leading(r);
    assert(r.origin.sub(sphere.center) == Vec3::zero());
    lemma_mul_zero(direction.x);
    lemma_mul_zero(direction.y);
    lemma_mul_zero(direction.z);
    lemma_mul_zero(zero);
    assert(sphere.half_linear(r) == zero);
    lemma_mul_sign(sphere.radius, sphere.radius);
    let c = sphere.constant(r);
    assert(c.raw <= 0);
    lemma_mul_sign(a, c);
    let root = sphere.discriminant(r).sqrt();
    lemma_sqrt_range(sphere.discriminant(r));
    lemma_div_sign(zero.sub(root), a);
    lemma_div_sign(zero.add(root), a);
    let t = sphere.far_root(r);
    assert(0 <= t.raw);
    assert(sphere.near_root(r).raw <= 0);
    lemma_term_along(direction.x, sphere.center.x, t, sphere.radius);
    lemma_term_along(direction.y, sphere.center.y, t, sphere.radius);
    lemma_term_along(direction.z, sphere.center.z, t, sphere.radius);
    let outward = r.at(t).sub(sphere.center).div(sphere.radius);
    assert(0 <= Vec3::dot(direction, outward).raw);
    if outward.wf() {
        lemma_dot_neg(direction, outward);
    }
}

} // verus!
