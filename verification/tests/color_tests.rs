use raytracer::color::channel_byte;
use raytracer::color::intensity;
use raytracer::color::linear_to_gamma;
use raytracer::color::write_color;
use raytracer::color::Color;
use raytracer::color::INTENSITY_MAX_RAW;
use raytracer::ppm::push_decimal;
use raytracer::ppm::push_header;
use raytracer::ppm::push_pixel_line;
use raytracer::random::RandomSource;
use raytracer::scalar::Scalar;
use raytracer::vec3::Vec3;

fn grey(num: i64, den: i64) -> Color {
    let c = Scalar::from_ratio(num, den);
    Color::new(c, c, c)
}

fn line(color: Color) -> String {
    let mut out = Vec::new();
    write_color(&mut out, color);
    String::from_utf8(out).expect("the line is ASCII")
}

fn decimal(n: usize) -> String {
    let mut out = Vec::new();
    push_decimal(&mut out, n);
    String::from_utf8(out).expect("digits are ASCII")
}

#[test]
fn white_is_encoded_as_255_and_black_as_0() {
    assert_eq!(line(Color::white()), "255 255 255\n");
    assert_eq!(line(Color::black()), "0 0 0\n");
    assert_eq!(line(Color::new(Scalar::one(), Scalar::one(), Scalar::one())), "255 255 255\n");
    assert_eq!(line(Color::new(Scalar::zero(), Scalar::zero(), Scalar::zero())), "0 0 0\n");
}

#[test]
fn channels_are_gamma_corrected() {
    // sqrt(0.25) = 0.5, times 256
    assert_eq!(line(grey(1, 4)), "128 128 128\n");
    // sqrt(1/16) = 0.25
    assert_eq!(line(grey(1, 16)), "64 64 64\n");
    // sqrt(0.5) * 256 = 181.02
    assert_eq!(line(grey(1, 2)), "181 181 181\n");
}

#[test]
fn channels_are_clamped() {
    assert_eq!(line(grey(5, 1)), "255 255 255\n");
    assert_eq!(line(grey(-5, 1)), "0 0 0\n");
    assert_eq!(line(Color::new(Scalar::infinity(), Scalar::infinity().neg(), Scalar::one())), "255 0 255\n");
}

#[test]
fn channels_are_encoded_one_by_one() {
    let c = Color::new(Scalar::one(), Scalar::from_ratio(1, 4), Scalar::zero());
    assert_eq!(line(c), "255 128 0\n");
}

#[test]
fn write_color_appends() {
    let mut out = b"P3\n".to_vec();
    write_color(&mut out, Color::white());
    write_color(&mut out, Color::black());
    assert_eq!(out, b"P3\n255 255 255\n0 0 0\n".to_vec());
}

#[test]
fn channel_byte_is_256_times_the_clamped_root_rounded_down() {
    assert_eq!(channel_byte(Scalar::one()), 255);
    assert_eq!(channel_byte(Scalar::zero()), 0);
    assert_eq!(channel_byte(Scalar::from_ratio(1, 4)), 128);
    // the smallest positive scalar: its root is 2^-16, times 256 is below one
    assert_eq!(channel_byte(Scalar { raw: 1 }), 0);
    // (1/256)^2 is the least component that is encoded as 1
    assert_eq!(channel_byte(Scalar { raw: 1 << 16 }), 1);
    assert_eq!(channel_byte(Scalar { raw: (1 << 16) - 1 }), 0);
    let mut raw: i64 = 0;
    while raw < 3 * (1i64 << 32) {
        let root = ((raw as f64) / 4294967296.0).sqrt().min(INTENSITY_MAX_RAW as f64 / 4294967296.0);
        let expected = (256.0 * root) as i64;
        let got = channel_byte(Scalar { raw }) as i64;
        assert!((got - expected).abs() <= 1);
        raw += 7_654_321;
    }
}

#[test]
fn gamma_is_the_root_of_a_positive_component() {
    assert_eq!(linear_to_gamma(Scalar::from_int(4)), Scalar::from_int(2));
    assert_eq!(linear_to_gamma(Scalar::zero()), Scalar::zero());
    assert_eq!(linear_to_gamma(Scalar::from_int(-4)), Scalar::zero());
}

#[test]
fn intensity_runs_from_zero_to_just_below_one() {
    assert_eq!(intensity().min, Scalar::zero());
    assert_eq!(intensity().max, Scalar::from_ratio(999, 1000));
    assert_eq!(intensity().max.raw, INTENSITY_MAX_RAW);
}

#[test]
fn color_arithmetic_is_channel_by_channel() {
    let a = Color::new(Scalar::from_int(1), Scalar::from_int(2), Scalar::from_int(3));
    let b = Color::new(Scalar::from_int(4), Scalar::from_int(5), Scalar::from_int(6));
    assert_eq!(a.add(b), Color::new(Scalar::from_int(5), Scalar::from_int(7), Scalar::from_int(9)));
    assert_eq!(a.mul(b), Color::new(Scalar::from_int(4), Scalar::from_int(10), Scalar::from_int(18)));
    assert_eq!(
        a.scale(Scalar::from_ratio(1, 2)),
        Color::new(Scalar::from_ratio(1, 2), Scalar::one(), Scalar::from_ratio(3, 2))
    );
    let mut c = a;
    c.add_assign(b);
    assert_eq!(c, a.add(b));
    assert_eq!(a.r, Scalar::one());
}

#[test]
fn color_from_vector_takes_the_components_in_order() {
    let v = Vec3::new(Scalar::from_int(1), Scalar::from_int(2), Scalar::from_int(3));
    assert_eq!(
        Color::from(v),
        Color::new(Scalar::from_int(1), Scalar::from_int(2), Scalar::from_int(3))
    );
}

#[test]
fn random_colors_take_three_draws() {
    let mut a = RandomSource::new(21);
    let mut b = RandomSource::new(21);
    let c = Color::random(&mut a);
    assert_eq!(c, Color::new(b.next_unit(), b.next_unit(), b.next_unit()));
    assert_eq!(a, b);
    let min = Scalar::from_ratio(1, 2);
    let max = Scalar::one();
    let c = Color::random_range(&mut a, min, max);
    let r = b.next_in_range(min, max);
    let g = b.next_in_range(min, max);
    let bl = b.next_in_range(min, max);
    assert_eq!(c, Color::new(r, g, bl));
    assert_eq!(a, b);
    assert!(min.raw <= c.r.raw && c.r.raw < max.raw);
}

#[test]
fn decimal_has_no_leading_zeros() {
    assert_eq!(decimal(0), "0");
    assert_eq!(decimal(7), "7");
    assert_eq!(decimal(10), "10");
    assert_eq!(decimal(255), "255");
    assert_eq!(decimal(1000), "1000");
    assert_eq!(decimal(4_294_967_295), "4294967295");
    assert_eq!(decimal(usize::MAX), usize::MAX.to_string());
}

#[test]
fn header_names_the_format_the_size_and_the_largest_value() {
    let mut out = Vec::new();
    push_header(&mut out, 16, 9);
    assert_eq!(out, b"P3\n16 9\n255\n".to_vec());
    let mut out = Vec::new();
    push_header(&mut out, 400, 225);
    assert_eq!(out, b"P3\n400 225\n255\n".to_vec());
}

#[test]
fn pixel_line_separates_by_spaces() {
    let mut out = Vec::new();
    push_pixel_line(&mut out, 0, 17, 255);
    assert_eq!(out, b"0 17 255\n".to_vec());
}
