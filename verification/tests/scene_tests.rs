use raytracer::color::Color;
use raytracer::material::Dialectric;
use raytracer::material::Lambertian;
use raytracer::material::Metal;
use raytracer::material::Surface;
use raytracer::random::RandomSource;
use raytracer::scalar::Scalar;
use raytracer::scene::cell;
use raytracer::scene::demo_camera;
use raytracer::scene::demo_world;
use raytracer::scene::final_camera;
use raytracer::scene::final_scene;
use raytracer::scene::small_material;
use raytracer::scene::triple;
use raytracer::scene::FIELD_CELLS;
use raytracer::scene::FIELD_SIDE;
use raytracer::sphere::Sphere;
use raytracer::vec3::Vec3;

fn tint(v: Vec3) -> Color {
    Color::new(v.x, v.y, v.z)
}

#[test]
fn triple_is_three_ratios() {
    let v = triple(1, 2, -3, 4, 5, 1);
    assert_eq!(v.x, Scalar::from_ratio(1, 2));
    assert_eq!(v.y, Scalar::from_ratio(-3, 4));
    assert_eq!(v.z, Scalar::from_int(5));
}

#[test]
fn demo_world_holds_its_five_spheres_in_order() {
    let world = demo_world();
    let half = Scalar::from_ratio(1, 2);
    let expected = vec![
        Sphere::new(
            triple(0, 1, -201, 2, -1, 1),
            Scalar::from_int(100),
            Surface::Lambertian(Lambertian::new(tint(triple(8, 10, 8, 10, 0, 1)))),
        ),
        Sphere::new(
            triple(0, 1, 0, 1, -12, 10),
            half,
            Surface::Lambertian(Lambertian::new(tint(triple(1, 10, 2, 10, 5, 10)))),
        ),
        Sphere::new(
            triple(-1, 1, 0, 1, -1, 1),
            half,
            Surface::Dialectric(Dialectric::new(Scalar::from_ratio(15, 10))),
        ),
        Sphere::new(
            triple(-1, 1, 0, 1, -1, 1),
            Scalar::from_ratio(4, 10),
            Surface::Dialectric(Dialectric::new(Scalar::one().div(Scalar::from_ratio(15, 10)))),
        ),
        Sphere::new(
            triple(1, 1, 0, 1, -1, 1),
            half,
            Surface::Metal(Metal::new(tint(triple(8, 10, 6, 10, 2, 10)), Scalar::one())),
        ),
    ];
    assert_eq!(world.objects, expected);
    assert_eq!(world.objects[0].center.y, Scalar::from_ratio(-201, 2));
}

#[test]
fn demo_camera_is_configured() {
    let cam = demo_camera();
    assert_eq!(cam.aspect_ratio, Scalar::from_ratio(16, 9));
    assert_eq!(cam.image_width, 400);
    assert_eq!(cam.samples_per_pixel, 100);
    assert_eq!(cam.max_depth, 50);
    assert_eq!(cam.vfov, Scalar::from_int(20));
    assert_eq!(cam.lookfrom, triple(-2, 1, 2, 1, 1, 1));
    assert_eq!(cam.lookat, triple(0, 1, 0, 1, -1, 1));
    assert_eq!(cam.vup, triple(0, 1, 1, 1, 0, 1));
    assert_eq!(cam.defocus_angle, Scalar::from_int(10));
    assert_eq!(cam.focus_dist, Scalar::from_ratio(34, 10));
    let mut cam = cam;
    cam.initialize();
    assert_eq!(cam.frame.image_height, 225);
}

#[test]
fn demo_scene_renders_at_a_small_size() {
    let world = demo_world();
    let mut cam = demo_camera();
    cam.image_width = 32;
    cam.samples_per_pixel = 2;
    cam.max_depth = 8;
    let mut rng = RandomSource::new(1);
    let image = cam.render(&world, &mut rng);
    let text = String::from_utf8(image).expect("the image is ASCII");
    assert!(text.starts_with("P3\n32 18\n255\n"));
    assert_eq!(text.lines().count(), 3 + 32 * 18);
    let mut lit = 0;
    for line in text.lines().skip(3) {
        let values: Vec<u32> = line.split(' ').map(|w| w.parse().expect("a number")).collect();
        assert_eq!(values.len(), 3);
        assert!(values.iter().all(|c| *c <= 255));
        if values.iter().any(|c| *c > 0) {
            lit += 1;
        }
    }
    assert!(lit > 32 * 18 / 2);
}

#[test]
fn final_camera_is_configured() {
    let cam = final_camera();
    assert_eq!(cam.aspect_ratio, Scalar::from_ratio(16, 9));
    assert_eq!(cam.image_width, 400);
    assert_eq!(cam.samples_per_pixel, 100);
    assert_eq!(cam.max_depth, 20);
    assert_eq!(cam.vfov, Scalar::from_int(20));
    assert_eq!(cam.lookfrom, triple(13, 1, 2, 1, 3, 1));
    assert_eq!(cam.lookat, triple(0, 1, 0, 1, 0, 1));
    assert_eq!(cam.vup, triple(0, 1, 1, 1, 0, 1));
    assert_eq!(cam.defocus_angle, Scalar::from_ratio(6, 10));
    assert_eq!(cam.focus_dist, Scalar::from_int(10));
}

#[test]
fn small_material_is_chosen_by_thresholds() {
    let mut rng = RandomSource::new(50);
    let mut probe = RandomSource::new(50);
    let diffuse = small_material(Scalar::from_ratio(79, 100), &mut rng);
    let first = Color::random(&mut probe);
    let second = Color::random(&mut probe);
    assert_eq!(diffuse, Surface::Lambertian(Lambertian::new(first.mul(second))));
    assert_eq!(rng, probe);

    let metal = small_material(Scalar::from_ratio(8, 10), &mut rng);
    let albedo = Color::random_range(&mut probe, Scalar::from_ratio(1, 2), Scalar::one());
    let fuzz = probe.next_in_range(Scalar::zero(), Scalar::from_ratio(1, 2));
    assert_eq!(metal, Surface::Metal(Metal::new(albedo, fuzz)));
    assert_eq!(rng, probe);
    assert!(matches!(
        small_material(Scalar::from_ratio(94, 100), &mut rng),
        Surface::Metal(_)
    ));

    let before = rng;
    let glass = small_material(Scalar::from_ratio(95, 100), &mut rng);
    assert_eq!(glass, Surface::Dialectric(Dialectric::new(Scalar::from_ratio(15, 10))));
    assert_eq!(rng, before);
    assert!(matches!(small_material(Scalar::zero(), &mut rng), Surface::Lambertian(_)));
}

#[test]
fn cell_places_a_small_sphere_within_its_square() {
    let mut rng = RandomSource::new(60);
    for a in -11..11i64 {
        for b in -11..11i64 {
            let mut probe = rng;
            let choice = probe.next_unit();
            let x = Scalar::from_int(a).add(Scalar::from_ratio(9, 10).mul(probe.next_unit()));
            let z = Scalar::from_int(b).add(Scalar::from_ratio(9, 10).mul(probe.next_unit()));
            let center = Vec3::new(x, Scalar::from_ratio(2, 10), z);
            let keep = center.sub(triple(4, 1, 2, 10, 0, 1)).length().raw
                > Scalar::from_ratio(9, 10).raw;
            match cell(a, b, &mut rng) {
                Some(sphere) => {
                    assert!(keep);
                    assert_eq!(sphere.center, center);
                    assert_eq!(sphere.radius, Scalar::from_ratio(2, 10));
                    assert_eq!(sphere.mat, small_material(choice, &mut probe));
                    assert!(Scalar::from_int(a).raw <= x.raw && x.raw < Scalar::from_int(a + 1).raw);
                }
                None => assert!(!keep),
            }
            assert_eq!(rng, probe);
        }
    }
}

#[test]
fn cell_next_to_the_large_metal_sphere_may_stay_empty() {
    let mut empty = 0;
    for seed in 0..200u64 {
        let mut rng = RandomSource::new(seed);
        let before = rng;
        if cell(4, 0, &mut rng).is_none() {
            empty += 1;
            let mut after = before;
            after.next_unit();
            after.next_unit();
            after.next_unit();
            assert_eq!(rng, after);
        }
    }
    assert!(empty > 0);
}

#[test]
fn final_scene_is_the_ground_the_field_and_three_landmarks() {
    let mut rng = RandomSource::new(2);
    let mut probe = RandomSource::new(2);
    let world = final_scene(&mut rng);
    assert_eq!(FIELD_CELLS, FIELD_SIDE * FIELD_SIDE);

    let mut expected = vec![Sphere::new(
        triple(0, 1, -1000, 1, 0, 1),
        Scalar::from_int(1000),
        Surface::Lambertian(Lambertian::new(tint(triple(1, 2, 1, 2, 1, 2)))),
    )];
    for a in -11..11i64 {
        for b in -11..11i64 {
            if let Some(sphere) = cell(a, b, &mut probe) {
                expected.push(sphere);
            }
        }
    }
    expected.push(Sphere::new(
        triple(0, 1, 1, 1, 0, 1),
        Scalar::one(),
        Surface::Dialectric(Dialectric::new(Scalar::from_ratio(15, 10))),
    ));
    expected.push(Sphere::new(
        triple(-4, 1, 1, 1, 0, 1),
        Scalar::one(),
        Surface::Lambertian(Lambertian::new(tint(triple(4, 10, 2, 10, 1, 10)))),
    ));
    expected.push(Sphere::new(
        triple(4, 1, 1, 1, 0, 1),
        Scalar::one(),
        Surface::Metal(Metal::new(tint(triple(7, 10, 6, 10, 5, 10)), Scalar::zero())),
    ));
    assert_eq!(world.objects, expected);
    assert_eq!(rng, probe);
    assert!(world.objects.len() > 400 && world.objects.len() <= 4 + FIELD_CELLS);
}

#[test]
fn final_scene_depends_on_the_seed_alone() {
    let a = final_scene(&mut RandomSource::new(11));
    let b = final_scene(&mut RandomSource::new(11));
    let c = final_scene(&mut RandomSource::new(12));
    assert_eq!(a.objects, b.objects);
    assert_ne!(a.objects, c.objects);
}
