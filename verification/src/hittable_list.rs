//! The scene: a list of spheres that is hit where its nearest sphere is.

use crate::hittable::HitRecord;
use crate::hittable::Hittable;
use crate::interval::Interval;
use crate::ray::Ray;
use crate::scalar::Scalar;
use crate::sphere::lemma_hit_distance;
use crate::sphere::lemma_hit_window;
use crate::sphere::lemma_miss_window;
use crate::sphere::Sphere;
use vstd::prelude::*;

verus! {

/// The objects of a scene, in the order in which they were added.
pub struct HittableList {
    pub objects: Vec<Sphere>,
}

impl View for HittableList {
    type V = Seq<Sphere>;

    open spec fn view(&self) -> Seq<Sphere> {
        self.objects@
    }
}

/// What `r` hits of the object at index `j` alone.
pub open spec fn hit_of(objects: Seq<Sphere>, r: Ray, ray_t: Interval, j: int) -> Option<
    HitRecord,
> {
    objects[j].spec_hit(r, ray_t)
}

/// Among the first `k` objects, the one at index `i` is hit, no other is hit
/// nearer, and none before it is hit as near.
pub open spec fn is_nearest_among(
    objects: Seq<Sphere>,
    r: Ray,
    ray_t: Interval,
    k: int,
    i: int,
) -> bool {
    &&& 0 <= i < k
    &&& hit_of(objects, r, ray_t, i) is Some
    &&& forall|j: int|
        0 <= j < k && (#[trigger] hit_of(objects, r, ray_t, j)) is Some ==> {
            let ti = hit_of(objects, r, ray_t, i)->0.t.raw;
            let tj = hit_of(objects, r, ray_t, j)->0.t.raw;
            ti <= tj && (j < i ==> ti < tj)
        }
}

/// The object at index `i` is the first of those that are hit nearest.
pub open spec fn is_nearest(objects: Seq<Sphere>, r: Ray, ray_t: Interval, i: int) -> bool {
    is_nearest_among(objects, r, ray_t, objects.len() as int, i)
}

/// The hit of the first object among those that `r` hits nearest inside
/// `ray_t`; `None` where it hits no object there.
pub open spec fn nearest_hit(objects: Seq<Sphere>, r: Ray, ray_t: Interval) -> Option<HitRecord> {
    if exists|i: int| is_nearest(objects, r, ray_t, i) {
        hit_of(objects, r, ray_t, choose|i: int| is_nearest(objects, r, ray_t, i))
    } else {
        None
    }
}

/// At most one object is the first of those hit nearest.
pub proof fn lemma_nearest_unique(objects: Seq<Sphere>, r: Ray, ray_t: Interval, i: int, j: int)
    requires
        is_nearest(objects, r, ray_t, i),
        is_nearest(objects, r, ray_t, j),
    ensures
        i == j,
{
}

/// Where one object is the first of those hit nearest, its hit is the hit of
/// the list.
pub proof fn lemma_nearest_is_hit(objects: Seq<Sphere>, r: Ray, ray_t: Interval, i: int)
    requires
        is_nearest(objects, r, ray_t, i),
    ensures
        nearest_hit(objects, r, ray_t) == hit_of(objects, r, ray_t, i),
{
    let j = choose|j: int| is_nearest(objects, r, ray_t, j);
    lemma_nearest_unique(objects, r, ray_t, i, j);
}

/// Where no object is hit, the list is not hit.
pub proof fn lemma_nothing_hit(objects: Seq<Sphere>, r: Ray, ray_t: Interval)
    requires
        forall|j: int| 0 <= j < objects.len() ==> (#[trigger] hit_of(objects, r, ray_t, j)) is None,
    ensures
        nearest_hit(objects, r, ray_t) is None,
{
}

/// An empty scene is hit by no ray.
pub proof fn lemma_empty_hits_nothing(r: Ray, ray_t: Interval)
    ensures
        nearest_hit(Seq::<Sphere>::empty(), r, ray_t) is None,
{
}

/// The interval law of a single sphere carries over to the scene: an upper
/// end at or below the distance of the hit suppresses the hit, and every
/// upper end above it gives the same hit again.
pub proof fn lemma_list_hit_window(
    objects: Seq<Sphere>,
    r: Ray,
    min: Scalar,
    max: Scalar,
    other: Scalar,
)
    requires
        nearest_hit(objects, r, Interval { min, max }) is Some,
    ensures
        ({
            let rec = nearest_hit(objects, r, Interval { min, max })->0;
            &&& other.raw <= rec.t.raw ==> nearest_hit(objects, r, Interval { min, max: other })
                is None
            &&& rec.t.raw < other.raw ==> nearest_hit(objects, r, Interval { min, max: other })
                == Some(rec)
        }),
{
    let wide = Interval { min, max };
    let narrow = Interval { min, max: other };
    let i = choose|i: int| is_nearest(objects, r, wide, i);
    let rec = hit_of(objects, r, wide, i)->0;
    lemma_hit_distance(objects[i], r, wide);
    lemma_hit_window(objects[i], r, min, max, other);
    if other.raw <= rec.t.raw {
        assert forall|j: int| 0 <= j < objects.len() implies (#[trigger] hit_of(
            objects,
            r,
            narrow,
            j,
        )) is None by {
            if hit_of(objects, r, wide, j) is Some {
                lemma_hit_window(objects[j], r, min, max, other);
            } else {
                lemma_miss_window(objects[j], r, min, max, other);
            }
        }
        lemma_nothing_hit(objects, r, narrow);
    } else {
        assert forall|j: int|
            0 <= j < objects.len() && (#[trigger] hit_of(objects, r, narrow, j)) is Some implies {
            let tj = hit_of(objects, r, narrow, j)->0.t.raw;
            rec.t.raw <= tj && (j < i ==> rec.t.raw < tj)
        } by {
            if hit_of(objects, r, wide, j) is Some {
                lemma_hit_window(objects[j], r, min, max, other);
            } else {
                if other.raw <= max.raw {
                    lemma_miss_window(objects[j], r, min, max, other);
                } else {
                    lemma_hit_window(objects[j], r, min, other, max);
                }
            }
        }
        assert(is_nearest(objects, r, narrow, i));
        lemma_nearest_is_hit(objects, r, narrow, i);
    }
}

impl HittableList {
    /// An empty scene.
    pub fn new() -> (out: HittableList)
        ensures
            out@.len() == 0,
    {
        HittableList { objects: Vec::new() }
    }

    /// Appends `object` to the scene.
    pub fn add(&mut self, object: Sphere)
        ensures
            final(self)@ == old(self)@.push(object),
    {
        self.objects.push(object);
    }
}

impl Hittable for HittableList {
    open spec fn spec_hit(&self, r: Ray, ray_t: Interval) -> Option<HitRecord> {
        nearest_hit(self@, r, ray_t)
    }

    /// Asks every object in turn, each time only for a hit nearer than the
    /// nearest so far.
    fn hit(&self, r: &Ray, ray_t: Interval) -> (out: Option<HitRecord>)
        ensures
            out is None <==> forall|j: int|
                0 <= j < self@.len() ==> (#[trigger] hit_of(self@, *r, ray_t, j)) is None,
            out is Some ==> exists|i: int|
                is_nearest(self@, *r, ray_t, i) && out == #[trigger] hit_of(self@, *r, ray_t, i),
    {
        let mut rec: Option<HitRecord> = None;
        let mut closest_so_far: Scalar = ray_t.max;
        let ghost mut best: int = 0;
        let mut k: usize = 0;
        while k < self.objects.len()
            invariant
                k <= self.objects.len(),
                ray_t.wf(),
                ray_t.min.raw <= closest_so_far.raw <= ray_t.max.raw,
                rec is None ==> closest_so_far == ray_t.max && forall|j: int|
                    0 <= j < k ==> (#[trigger] hit_of(self@, *r, ray_t, j)) is None,
                rec is Some ==> is_nearest_among(self@, *r, ray_t, k as int, best) && rec
                    == hit_of(self@, *r, ray_t, best) && closest_so_far == rec->0.t
                    && ray_t.surrounds(rec->0.t),
            decreases self.objects.len() - k,
        {
            let window: Interval = Interval::new(ray_t.min, closest_so_far);
            let found: Option<HitRecord> = self.objects[k].hit(r, window);
            proof {
                let whole = hit_of(self@, *r, ray_t, k as int);
                assert(ray_t == Interval { min: ray_t.min, max: ray_t.max });
                if found is Some {
                    lemma_hit_window(self@[k as int], *r, ray_t.min, closest_so_far, ray_t.max);
                    assert(whole == found);
                } else if whole is Some {
                    lemma_hit_window(self@[k as int], *r, ray_t.min, ray_t.max, closest_so_far);
                    assert(closest_so_far.raw <= whole->0.t.raw);
                }
            }
            if let Some(hrec) = found {
                closest_so_far = hrec.t;
                rec = Some(hrec);
                proof {
                    best = k as int;
                }
            }
            k = k + 1;
        }
        proof {
            if rec is Some {
                lemma_nearest_is_hit(self@, *r, ray_t, best);
            } else {
                lemma_nothing_hit(self@, *r, ray_t);
            }
        }
        rec
    }
}

} // verus!
