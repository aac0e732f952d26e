use raytracer::scalar::Scalar;
use raytracer::scalar::MAX_RAW;
use raytracer::scalar::MIN_RAW;
use raytracer::scalar::ONE_RAW;
use raytracer::trig::cos;
use raytracer::trig::sin;
use raytracer::trig::tan;
use raytracer::trig::to_radians;

fn approx(x: Scalar, expected: f64, tolerance: f64) -> bool {
    let value = x.raw as f64 / ONE_RAW as f64;
    (value - expected).abs() <= tolerance
}

#[test]
fn one_has_thirty_two_fraction_bits() {
    assert_eq!(Scalar::one().raw, 1i64 << 32);
    assert_eq!(Scalar::zero().raw, 0);
    assert_eq!(Scalar::infinity().raw, i64::MAX);
    assert_eq!(Scalar::half(), Scalar::from_ratio(1, 2));
    assert_eq!(Scalar::half().add(Scalar::half()), Scalar::one());
}

#[test]
fn from_int_is_exact_and_saturates() {
    assert_eq!(Scalar::from_int(3).raw, 3 * ONE_RAW);
    assert_eq!(Scalar::from_int(-7).raw, -7 * ONE_RAW);
    assert_eq!(Scalar::from_int(0x7fff_ffff).raw, 0x7fff_ffff * ONE_RAW);
    assert_eq!(Scalar::from_int(0x8000_0000).raw, MAX_RAW);
    assert_eq!(Scalar::from_int(-0x8000_0000).raw, MIN_RAW);
    assert_eq!(Scalar::from_int(i64::MAX).raw, MAX_RAW);
    assert_eq!(Scalar::from_int(i64::MIN).raw, MIN_RAW);
}

#[test]
fn from_usize_is_exact_and_saturates() {
    assert_eq!(Scalar::from_usize(0).raw, 0);
    assert_eq!(Scalar::from_usize(400).raw, 400 * ONE_RAW);
    assert_eq!(Scalar::from_usize(0x8000_0000).raw, MAX_RAW);
}

#[test]
fn from_raw_keeps_the_symmetric_range() {
    assert_eq!(Scalar::from_raw(12345).raw, 12345);
    assert_eq!(Scalar::from_raw(i64::MIN).raw, MIN_RAW);
    assert_eq!(Scalar::from_raw(i64::MAX).raw, MAX_RAW);
}

#[test]
fn from_ratio_rounds_toward_zero() {
    assert_eq!(Scalar::from_ratio(1, 2).raw, ONE_RAW / 2);
    assert_eq!(Scalar::from_ratio(1, 4).raw, ONE_RAW / 4);
    // 2^32 / 3 = 1431655765.33...
    assert_eq!(Scalar::from_ratio(1, 3).raw, 1431655765);
    assert_eq!(Scalar::from_ratio(-1, 3).raw, -1431655765);
    assert_eq!(Scalar::from_ratio(1, -3).raw, -1431655765);
    assert_eq!(Scalar::from_ratio(-1, -3).raw, 1431655765);
    // 999 * 2^32 / 1000 = 4290672328.704
    assert_eq!(Scalar::from_ratio(999, 1000).raw, 4290672328);
    // 2^32 / 1000 = 4294967.296
    assert_eq!(Scalar::from_ratio(1, 1000).raw, 4294967);
}

#[test]
fn addition_and_subtraction_saturate() {
    let a = Scalar::from_int(5);
    let b = Scalar::from_int(-8);
    assert_eq!(a.add(b), Scalar::from_int(-3));
    assert_eq!(a.sub(b), Scalar::from_int(13));
    assert_eq!(Scalar::infinity().add(Scalar::one()).raw, MAX_RAW);
    assert_eq!(Scalar::infinity().neg().sub(Scalar::one()).raw, MIN_RAW);
    assert_eq!(Scalar::infinity().sub(Scalar::infinity()).raw, 0);
}

#[test]
fn negation_is_exact_on_the_symmetric_range() {
    assert_eq!(Scalar::from_int(4).neg(), Scalar::from_int(-4));
    assert_eq!(Scalar::infinity().neg().raw, MIN_RAW);
    assert_eq!(Scalar::infinity().neg().neg().raw, MAX_RAW);
    assert_eq!(Scalar { raw: i64::MIN }.neg().raw, MAX_RAW);
    assert_eq!(Scalar::from_int(-4).abs(), Scalar::from_int(4));
    assert_eq!(Scalar::from_int(4).abs(), Scalar::from_int(4));
}

#[test]
fn multiplication_rounds_toward_zero() {
    assert_eq!(Scalar::from_int(6).mul(Scalar::from_int(7)), Scalar::from_int(42));
    assert_eq!(Scalar::from_int(-6).mul(Scalar::from_int(7)), Scalar::from_int(-42));
    assert_eq!(Scalar::from_ratio(1, 2).mul(Scalar::from_ratio(1, 2)), Scalar::from_ratio(1, 4));
    // the smallest positive scalar squared is below the resolution
    assert_eq!(Scalar { raw: 1 }.mul(Scalar { raw: 1 }).raw, 0);
    assert_eq!(Scalar { raw: -1 }.mul(Scalar { raw: 1 }).raw, 0);
    // 3 raw units times one half: 1.5 rounds toward zero
    assert_eq!(Scalar { raw: 3 }.mul(Scalar::from_ratio(1, 2)).raw, 1);
    assert_eq!(Scalar { raw: -3 }.mul(Scalar::from_ratio(1, 2)).raw, -1);
}

#[test]
fn multiplication_saturates() {
    let big = Scalar::from_int(100_000);
    assert_eq!(big.mul(big).raw, MAX_RAW);
    assert_eq!(big.neg().mul(big).raw, MIN_RAW);
    assert_eq!(Scalar::infinity().mul(Scalar::zero()).raw, 0);
}

#[test]
fn division_rounds_toward_zero() {
    assert_eq!(Scalar::from_int(42).div(Scalar::from_int(7)), Scalar::from_int(6));
    assert_eq!(Scalar::from_int(1).div(Scalar::from_int(3)).raw, 1431655765);
    assert_eq!(Scalar::from_int(-1).div(Scalar::from_int(3)).raw, -1431655765);
    assert_eq!(Scalar::from_int(7).div(Scalar::one()), Scalar::from_int(7));
}

#[test]
fn division_by_zero_saturates_by_sign() {
    assert_eq!(Scalar::one().div(Scalar::zero()).raw, MAX_RAW);
    assert_eq!(Scalar::one().neg().div(Scalar::zero()).raw, MIN_RAW);
    assert_eq!(Scalar::zero().div(Scalar::zero()).raw, 0);
    // a quotient beyond the range saturates too
    assert_eq!(Scalar::from_int(100_000).div(Scalar { raw: 1 }).raw, MAX_RAW);
}

#[test]
fn square_root_is_rounded_down() {
    assert_eq!(Scalar::from_int(4).sqrt(), Scalar::from_int(2));
    assert_eq!(Scalar::one().sqrt(), Scalar::one());
    assert_eq!(Scalar::from_ratio(1, 4).sqrt(), Scalar::from_ratio(1, 2));
    assert_eq!(Scalar::zero().sqrt(), Scalar::zero());
    assert_eq!(Scalar::from_int(-4).sqrt(), Scalar::zero());
    // sqrt(2) * 2^32 = 6074000999.95...
    assert_eq!(Scalar::from_int(2).sqrt().raw, 6074000999);
    let r = Scalar::infinity().sqrt().raw as i128;
    let n = (MAX_RAW as i128) << 32;
    assert!(r * r <= n && n < (r + 1) * (r + 1));
}

#[test]
fn square_root_satisfies_its_definition_on_many_values() {
    let mut raw: i64 = 1;
    while raw < MAX_RAW / 3 {
        let r = Scalar { raw }.sqrt().raw as i128;
        let n = (raw as i128) << 32;
        assert!(r * r <= n && n < (r + 1) * (r + 1));
        raw = raw * 3 + 1;
    }
}

#[test]
fn powers_multiply_from_the_left() {
    assert_eq!(Scalar::from_int(2).powi(0), Scalar::one());
    assert_eq!(Scalar::from_int(2).powi(5), Scalar::from_int(32));
    assert_eq!(Scalar::from_ratio(1, 2).powi(5), Scalar::from_ratio(1, 32));
    assert_eq!(Scalar::zero().powi(5), Scalar::zero());
}

#[test]
fn floor_drops_the_fraction() {
    assert_eq!(Scalar::from_ratio(7, 2).floor_to_usize(), 3);
    assert_eq!(Scalar::from_int(9).floor_to_usize(), 9);
    assert_eq!(Scalar::from_ratio(-7, 2).floor_to_usize(), 0);
    assert_eq!(Scalar::infinity().floor_to_usize(), 0x7fff_ffff);
}

#[test]
fn minimum_picks_the_smaller() {
    assert_eq!(Scalar::from_int(2).min(Scalar::from_int(3)), Scalar::from_int(2));
    assert_eq!(Scalar::from_int(3).min(Scalar::from_int(2)), Scalar::from_int(2));
}

#[test]
fn radians_of_half_a_turn_is_pi() {
    assert!(approx(to_radians(Scalar::from_int(180)), std::f64::consts::PI, 1e-8));
    assert!(approx(to_radians(Scalar::from_int(90)), std::f64::consts::FRAC_PI_2, 1e-8));
    assert_eq!(to_radians(Scalar::zero()), Scalar::zero());
}

#[test]
fn tangent_of_zero_is_zero() {
    assert_eq!(tan(Scalar::zero()), Scalar::zero());
    assert_eq!(sin(Scalar::zero()), Scalar::zero());
    assert_eq!(cos(Scalar::zero()), Scalar::one());
}

#[test]
fn tangent_follows_the_function_up_to_a_right_angle() {
    for degrees in [-80i64, -45, -10, 5, 10, 20, 30, 45, 60, 80] {
        let x = to_radians(Scalar::from_int(degrees));
        let expected = (degrees as f64).to_radians();
        assert!(approx(sin(x), expected.sin(), 1e-7));
        assert!(approx(cos(x), expected.cos(), 1e-7));
        assert!(approx(tan(x), expected.tan(), 1e-5));
    }
}
