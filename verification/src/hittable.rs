//! What a ray can hit, and what is recorded of a hit.

use crate::interval::Interval;
use crate::material::Surface;
use crate::ray::Ray;
use crate::scalar::Scalar;
use crate::vec3::lemma_dot_neg;
use crate::vec3::Point3;
use crate::vec3::Vec3;
use vstd::prelude::*;

verus! {

/// One intersection of a ray with an object.
#[derive(Clone, Copy, PartialEq, Eq, Structural, Debug)]
pub struct HitRecord {
    /// Distance along the ray.
    pub t: Scalar,
    /// The point that was hit.
    pub p: Point3,
    /// The surface normal at `p`, turned against the ray once
    /// `set_face_normal` has run.
    pub normal: Vec3,
    /// The ray arrived from outside the object.
    pub front_face: bool,
    /// The material of the object.
    pub mat: Surface,
}

impl HitRecord {
    /// A record with the given outward normal, taken to be hit from outside.
    pub fn new(t: Scalar, p: Point3, normal: Vec3, mat: Surface) -> (out: HitRecord)
        ensures
            out == (HitRecord { t, p, normal, front_face: true, mat }),
    {
        HitRecord { t, p, normal, front_face: true, mat }
    }

    /// The record after its outward normal has been oriented against `r`.
    pub open spec fn spec_face_normal(self, r: Ray) -> HitRecord {
        let front_face = Vec3::dot(r.direction, self.normal).raw < 0;
        HitRecord {
            front_face,
            normal: if front_face {
                self.normal
            } else {
                self.normal.neg()
            },
            ..self
        }
    }

    /// Takes the normal held so far as the outward normal: records whether
    /// `r` runs against it, and flips it if not, so that the stored normal
    /// never points along the ray.
    pub fn set_face_normal(&mut self, r: &Ray)
        ensures
            *final(self) == old(self).spec_face_normal(*r),
            old(self).normal.wf() ==> Vec3::dot(r.direction, final(self).normal).raw <= 0,
    {
        self.front_face = Vec3::dot(r.direction, self.normal).raw < 0;
        if !self.front_face {
            proof {
                if self.normal.wf() {
                    lemma_dot_neg(r.direction, self.normal);
                }
            }
            self.normal = self.normal.neg();
        }
    }
}

/// An object that rays can hit.
pub trait Hittable {
    /// The hit that `hit` reports.
    spec fn spec_hit(&self, r: Ray, ray_t: Interval) -> Option<HitRecord>;

    /// The nearest intersection of `r` with the object whose distance lies
    /// strictly inside `ray_t`, if there is one.
    fn hit(&self, r: &Ray, ray_t: Interval) -> (out: Option<HitRecord>)
        requires
            ray_t.wf(),
        ensures
            out == self.spec_hit(*r, ray_t),
            out matches Some(rec) ==> ray_t.surrounds(rec.t),
    ;
}

} // verus!
