use raytracer::random::RandomSource;
use raytracer::ray::Ray;
use raytracer::interval::Interval;
use raytracer::scalar::Scalar;
use raytracer::scalar::MAX_RAW;
use raytracer::scalar::ONE_RAW;
use raytracer::vec3::Point3;
use raytracer::vec3::Vec3;
use raytracer::vec3::MAX_DRAWS;
use raytracer::vec3::NEAR_ZERO_RAW;

fn v(x: i64, y: i64, z: i64) -> Vec3 {
    Vec3::new(Scalar::from_int(x), Scalar::from_int(y), Scalar::from_int(z))
}

fn close(a: Scalar, b: Scalar, raw_tolerance: i64) -> bool {
    (a.raw - b.raw).abs() <= raw_tolerance
}

#[test]
fn componentwise_operations() {
    assert_eq!(v(1, 2, 3).add(v(10, 20, 30)), v(11, 22, 33));
    assert_eq!(v(1, 2, 3).sub(v(10, 20, 30)), v(-9, -18, -27));
    assert_eq!(v(1, -2, 3).neg(), v(-1, 2, -3));
    assert_eq!(v(1, -2, 3).scale(Scalar::from_int(4)), v(4, -8, 12));
    assert_eq!(v(4, -8, 12).div(Scalar::from_int(4)), v(1, -2, 3));
    assert_eq!(Vec3::zero(), v(0, 0, 0));
    assert_eq!(Vec3::default(), v(0, 0, 0));
    let p: Point3 = Vec3::new(Scalar::one(), Scalar::zero(), Scalar::zero());
    assert_eq!(p.x, Scalar::one());
}

#[test]
fn dot_and_cross_products() {
    assert_eq!(Vec3::dot(v(1, 2, 3), v(4, -5, 6)), Scalar::from_int(12));
    assert_eq!(Vec3::cross(v(1, 0, 0), v(0, 1, 0)), v(0, 0, 1));
    assert_eq!(Vec3::cross(v(0, 1, 0), v(1, 0, 0)), v(0, 0, -1));
    assert_eq!(Vec3::cross(v(1, 2, 3), v(4, 5, 6)), v(-3, 6, -3));
}

#[test]
fn dot_with_a_negated_vector_is_the_negated_dot() {
    let mut rng = RandomSource::new(3);
    for _ in 0..200 {
        let a = Vec3::random_range(&mut rng, Scalar::from_int(-50), Scalar::from_int(50));
        let b = Vec3::random_range(&mut rng, Scalar::from_int(-50), Scalar::from_int(50));
        assert_eq!(Vec3::dot(a, b.neg()), Vec3::dot(a, b).neg());
    }
}

#[test]
fn lengths() {
    assert_eq!(v(3, 4, 0).length_squared(), Scalar::from_int(25));
    assert_eq!(v(3, 4, 0).length(), Scalar::from_int(5));
    assert_eq!(v(0, 0, 0).length(), Scalar::zero());
    assert_eq!(v(100_000, 0, 0).length_squared().raw, MAX_RAW);
}

#[test]
fn unit_vector_divides_by_the_length() {
    let u = v(3, 4, 0).unit_vector();
    assert_eq!(u.x, Scalar::from_ratio(3, 5));
    assert_eq!(u.y, Scalar::from_ratio(4, 5));
    assert_eq!(u.z, Scalar::zero());
    assert_eq!(v(0, 0, -7).unit_vector(), v(0, 0, -1));
}

#[test]
fn unit_vector_of_the_zero_vector_is_zero() {
    assert_eq!(v(0, 0, 0).unit_vector(), v(0, 0, 0));
}

#[test]
fn unit_vector_of_a_vector_too_short_to_measure_saturates() {
    // its squared length rounds to zero, so every component is divided by zero
    let tiny = Vec3::new(Scalar { raw: 5 }, Scalar { raw: -5 }, Scalar::zero());
    let u = tiny.unit_vector();
    assert_eq!(u.x.raw, MAX_RAW);
    assert_eq!(u.y.raw, -MAX_RAW);
    assert_eq!(u.z.raw, 0);
}

#[test]
fn near_zero_has_a_threshold_on_every_component() {
    assert!(v(0, 0, 0).near_zero());
    let below = Scalar { raw: NEAR_ZERO_RAW - 1 };
    let at = Scalar { raw: NEAR_ZERO_RAW };
    assert!(Vec3::new(below, below.neg(), below).near_zero());
    assert!(!Vec3::new(at, Scalar::zero(), Scalar::zero()).near_zero());
    assert!(!Vec3::new(Scalar::zero(), at.neg(), Scalar::zero()).near_zero());
    assert!(!Vec3::new(Scalar::zero(), Scalar::zero(), at).near_zero());
}

#[test]
fn reflect_mirrors_at_the_normal() {
    assert_eq!(Vec3::reflect(v(1, -1, 0), v(0, 1, 0)), v(1, 1, 0));
    assert_eq!(Vec3::reflect(v(0, 0, -1), v(0, 0, 1)), v(0, 0, 1));
    // a vector along the surface is left alone
    assert_eq!(Vec3::reflect(v(1, 0, 0), v(0, 1, 0)), v(1, 0, 0));
}

#[test]
fn refract_passes_straight_through_at_normal_incidence() {
    let down = v(0, -1, 0);
    let up = v(0, 1, 0);
    assert_eq!(Vec3::cos_incidence(down, up), Scalar::one());
    for ratio in [Scalar::one(), Scalar::from_ratio(2, 3), Scalar::from_ratio(3, 2)] {
        assert!(!Vec3::cannot_refract(down, up, ratio));
        assert_eq!(Vec3::refract(down, up, ratio), down);
    }
}

#[test]
fn refract_bends_toward_the_normal_in_a_denser_medium() {
    // 45 degrees of incidence, index ratio 1 / 1.5: sin(out) = sin(45) / 1.5
    let s = Scalar::from_ratio(1, 2).sqrt();
    let incoming = Vec3::new(s, s.neg(), Scalar::zero());
    let n = v(0, 1, 0);
    let ratio = Scalar::from_ratio(2, 3);
    assert!(!Vec3::cannot_refract(incoming, n, ratio));
    let out = Vec3::refract(incoming, n, ratio);
    let expected_x = (0.5f64.sqrt() / 1.5 * ONE_RAW as f64) as i64;
    let expected_y = -((1.0 - 0.5 / 2.25f64).sqrt() * ONE_RAW as f64) as i64;
    assert!(close(out.x, Scalar { raw: expected_x }, 16));
    assert!(close(out.y, Scalar { raw: expected_y }, 16));
    assert_eq!(out.z, Scalar::zero());
}

#[test]
fn total_internal_reflection_is_detected() {
    let grazing = v(1, 0, 0);
    let n = v(0, 1, 0);
    assert!(Vec3::cannot_refract(grazing, n, Scalar::from_ratio(3, 2)));
    assert!(!Vec3::cannot_refract(grazing, n, Scalar::from_ratio(1, 2)));
    assert!(!Vec3::cannot_refract(grazing, n, Scalar::one()));
}

#[test]
fn cosine_of_incidence_is_capped_at_one() {
    assert_eq!(Vec3::cos_incidence(v(0, -3, 0), v(0, 1, 0)), Scalar::one());
    assert_eq!(Vec3::cos_incidence(v(0, 1, 0), v(0, 1, 0)), Scalar::from_int(-1));
}

#[test]
fn random_range_takes_three_draws() {
    let mut a = RandomSource::new(11);
    let mut b = RandomSource::new(11);
    let min = Scalar::from_int(-1);
    let max = Scalar::one();
    let p = Vec3::random_range(&mut a, min, max);
    let x = b.next_in_range(min, max);
    let y = b.next_in_range(min, max);
    let z = b.next_in_range(min, max);
    assert_eq!(p, Vec3::new(x, y, z));
    assert_eq!(a, b);
}

#[test]
fn random_unit_vectors_have_unit_length() {
    let mut rng = RandomSource::new(1);
    for _ in 0..2000 {
        let u = Vec3::random_unit_vector(&mut rng);
        // within 1e-4 of one
        assert!(close(u.length_squared(), Scalar::one(), 429_496));
    }
}

#[test]
fn random_unit_vector_is_the_first_candidate_in_the_ball() {
    let mut rng = RandomSource::new(77);
    let mut probe = RandomSource::new(77);
    for _ in 0..200 {
        let u = Vec3::random_unit_vector(&mut rng);
        let mut expected = v(1, 0, 0);
        for _ in 0..MAX_DRAWS {
            let p = Vec3::random_range(&mut probe, Scalar::from_int(-1), Scalar::one());
            let lensq = p.length_squared();
            if 0 < lensq.raw && lensq.raw <= ONE_RAW {
                expected = p.div(lensq.sqrt());
                break;
            }
        }
        assert_eq!(u, expected);
        assert_eq!(rng, probe);
    }
}

#[test]
fn random_points_lie_in_the_unit_disk() {
    let mut rng = RandomSource::new(2);
    let mut probe = RandomSource::new(2);
    for _ in 0..2000 {
        let p = Vec3::random_in_unit_disk(&mut rng);
        assert_eq!(p.z, Scalar::zero());
        assert!(p.length_squared().raw < ONE_RAW);
        let mut expected = v(0, 0, 0);
        for _ in 0..MAX_DRAWS {
            let x = probe.next_in_range(Scalar::from_int(-1), Scalar::one());
            let y = probe.next_in_range(Scalar::from_int(-1), Scalar::one());
            let q = Vec3::new(x, y, Scalar::zero());
            if q.length_squared().raw < ONE_RAW {
                expected = q;
                break;
            }
        }
        assert_eq!(p, expected);
        assert_eq!(rng, probe);
    }
}

#[test]
fn ray_at_walks_along_the_direction() {
    let r = Ray::new(v(1, 2, 3), v(0, 0, -2));
    assert_eq!(r.origin, v(1, 2, 3));
    assert_eq!(r.direction, v(0, 0, -2));
    assert_eq!(r.at(Scalar::zero()), v(1, 2, 3));
    assert_eq!(r.at(Scalar::from_int(3)), v(1, 2, -3));
    assert_eq!(r.at(Scalar::from_ratio(-1, 2)), v(1, 2, 4));
}

#[test]
fn interval_surrounds_is_strict_and_contains_is_not() {
    let i = Interval::new(Scalar::from_int(1), Scalar::from_int(3));
    assert!(i.surrounds(Scalar::from_int(2)));
    assert!(!i.surrounds(Scalar::from_int(1)));
    assert!(!i.surrounds(Scalar::from_int(3)));
    assert!(!i.surrounds(Scalar::from_int(0)));
    assert!(!i.surrounds(Scalar::from_int(4)));
    assert!(i.contains(Scalar::from_int(1)));
    assert!(i.contains(Scalar::from_int(3)));
    assert!(!i.contains(Scalar::from_int(4)));
    assert_eq!(i.min, Scalar::from_int(1));
    assert_eq!(i.max, Scalar::from_int(3));
}

#[test]
fn interval_clamp_gives_the_nearest_point() {
    let i = Interval::new(Scalar::zero(), Scalar::from_ratio(999, 1000));
    assert_eq!(i.clamp(Scalar::from_int(-2)), Scalar::zero());
    assert_eq!(i.clamp(Scalar::from_int(2)), Scalar::from_ratio(999, 1000));
    assert_eq!(i.clamp(Scalar::from_ratio(1, 2)), Scalar::from_ratio(1, 2));
    assert_eq!(i.clamp(Scalar::zero()), Scalar::zero());
}

#[test]
fn empty_interval_surrounds_nothing() {
    let i = Interval::new(Scalar::from_int(2), Scalar::from_int(2));
    assert!(!i.surrounds(Scalar::from_int(2)));
    assert!(i.contains(Scalar::from_int(2)));
}
