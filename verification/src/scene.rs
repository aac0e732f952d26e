//! Ready-made scenes and their cameras: five spheres of the three
//! materials, and a field of small random spheres around three large ones.

use crate::camera::lemma_same_hits_image;
use crate::camera::Camera;
use crate::camera::Frame;
use crate::color::Color;
use crate::hittable_list::HittableList;
use crate::interval::Interval;
use crate::material::Dialectric;
use crate::material::Lambertian;
use crate::material::Metal;
use crate::material::Surface;
use crate::random::RandomSource;
use crate::scalar::Scalar;
use crate::sphere::Sphere;
use crate::vec3::Vec3;
use vstd::prelude::*;

verus! {

/// The point or vector `(xn / xd, yn / yd, zn / zd)`.
pub open spec fn spec_triple(xn: i64, xd: i64, yn: i64, yd: i64, zn: i64, zd: i64) -> Vec3 {
    Vec3 {
        x: Scalar::from_ratio(xn, xd),
        y: Scalar::from_ratio(yn, yd),
        z: Scalar::from_ratio(zn, zd),
    }
}

#[verifier::when_used_as_spec(spec_triple)]
pub fn triple(xn: i64, xd: i64, yn: i64, yd: i64, zn: i64, zd: i64) -> (out: Vec3)
    ensures
        out == spec_triple(xn, xd, yn, yd, zn, zd),
{
    Vec3::new(Scalar::from_ratio(xn, xd), Scalar::from_ratio(yn, yd), Scalar::from_ratio(zn, zd))
}

/// The colour with the channels of `v`.
pub open spec fn tint(v: Vec3) -> Color {
    Color { r: v.x, g: v.y, b: v.z }
}

/// The spheres of the scene: the ground, a diffuse blue ball in the middle,
/// a glass ball with a bubble of air inside it to the left, and a rough
/// golden ball to the right.
pub open spec fn spec_demo_world() -> Seq<Sphere> {
    seq![
        Sphere {
            center: spec_triple(0, 1, -201i64, 2, -1i64, 1),
            radius: Scalar::from_int(100),
            mat: Surface::Lambertian(Lambertian { albedo: tint(spec_triple(8, 10, 8, 10, 0, 1)) }),
        },
        Sphere {
            center: spec_triple(0, 1, 0, 1, -12i64, 10),
            radius: Scalar::from_ratio(1, 2),
            mat: Surface::Lambertian(Lambertian { albedo: tint(spec_triple(1, 10, 2, 10, 5, 10)) }),
        },
        Sphere {
            center: spec_triple(-1i64, 1, 0, 1, -1i64, 1),
            radius: Scalar::from_ratio(1, 2),
            mat: Surface::Dialectric(Dialectric { refraction_index: Scalar::from_ratio(15, 10) }),
        },
        Sphere {
            center: spec_triple(-1i64, 1, 0, 1, -1i64, 1),
            radius: Scalar::from_ratio(4, 10),
            mat: Surface::Dialectric(
                Dialectric { refraction_index: Scalar::one().div(Scalar::from_ratio(15, 10)) },
            ),
        },
        Sphere {
            center: spec_triple(1, 1, 0, 1, -1i64, 1),
            radius: Scalar::from_ratio(1, 2),
            mat: Surface::Metal(
                Metal { albedo: tint(spec_triple(8, 10, 6, 10, 2, 10)), fuzz: Scalar::one() },
            ),
        },
    ]
}

/// Builds the spheres of the scene.
pub fn demo_world() -> (out: HittableList)
    ensures
        out@ == spec_demo_world(),
{
    let mut world: HittableList = HittableList::new();
    let material_ground: Lambertian = Lambertian::new(Color::from(triple(8, 10, 8, 10, 0, 1)));
    let material_center: Lambertian = Lambertian::new(Color::from(triple(1, 10, 2, 10, 5, 10)));
    let material_left: Dialectric = Dialectric::new(Scalar::from_ratio(15, 10));
    let material_bubble: Dialectric = Dialectric::new(
        Scalar::one().div(Scalar::from_ratio(15, 10)),
    );
    let material_right: Metal = Metal::new(
        Color::from(triple(8, 10, 6, 10, 2, 10)),
        Scalar::one(),
    );
    world.add(
        Sphere::new(
            triple(0, 1, -201, 2, -1, 1),
            Scalar::from_int(100),
            Surface::Lambertian(material_ground),
        ),
    );
    world.add(
        Sphere::new(
            triple(0, 1, 0, 1, -12, 10),
            Scalar::from_ratio(1, 2),
            Surface::Lambertian(material_center),
        ),
    );
    world.add(
        Sphere::new(
            triple(-1, 1, 0, 1, -1, 1),
            Scalar::from_ratio(1, 2),
            Surface::Dialectric(material_left),
        ),
    );
    world.add(
        Sphere::new(
            triple(-1, 1, 0, 1, -1, 1),
            Scalar::from_ratio(4, 10),
            Surface::Dialectric(material_bubble),
        ),
    );
    world.add(
        Sphere::new(
            triple(1, 1, 0, 1, -1, 1),
            Scalar::from_ratio(1, 2),
            Surface::Metal(material_right),
        ),
    );
    assert(world@ =~= spec_demo_world());
    world
}

/// The camera of the scene: an image of 400 columns at 16 to 9, 100
/// samples per pixel and rays followed 50 times; a field of view of 20
/// degrees from `(-2, 2, 1)` toward `(0, 0, -1)`; a defocus angle of 10
/// degrees, in focus at a distance of 3.4.
pub open spec fn spec_demo_camera() -> Camera {
    Camera {
        aspect_ratio: Scalar::from_ratio(16, 9),
        image_width: 400,
        samples_per_pixel: 100,
        max_depth: 50,
        vfov: Scalar::from_int(20),
        lookfrom: spec_triple(-2i64, 1, 2, 1, 1, 1),
        lookat: spec_triple(0, 1, 0, 1, -1i64, 1),
        vup: spec_triple(0, 1, 1, 1, 0, 1),
        defocus_angle: Scalar::from_int(10),
        focus_dist: Scalar::from_ratio(34, 10),
        frame: Frame::spec_blank(),
    }
}

/// Configures the camera of the scene.
#[verifier::when_used_as_spec(spec_demo_camera)]
pub fn demo_camera() -> (out: Camera)
    ensures
        out == spec_demo_camera(),
{
    let mut cam: Camera = Camera::new();
    cam.aspect_ratio = Scalar::from_ratio(16, 9);
    cam.image_width = 400;
    cam.samples_per_pixel = 100;
    cam.max_depth = 50;
    cam.vfov = Scalar::from_int(20);
    cam.lookfrom = triple(-2, 1, 2, 1, 1, 1);
    cam.lookat = triple(0, 1, 0, 1, -1, 1);
    cam.vup = triple(0, 1, 1, 1, 0, 1);
    cam.defocus_angle = Scalar::from_int(10);
    cam.focus_dist = Scalar::from_ratio(34, 10);
    cam
}

/// Renders the scene with its camera, drawing from `rng`, and returns the
/// image as a plain-text pixel map: the image of every list that holds the
/// spheres of the scene.
pub fn oldmain(rng: &mut RandomSource) -> (out: Vec<u8>)
    ensures
        forall|world: HittableList|
            world@ == spec_demo_world() ==> #[trigger] spec_demo_camera().spec_initialized().spec_image(
                &world,
                *old(rng),
            ) == (out@, *final(rng)),
{
    let ghost start = *rng;
    let world: HittableList = demo_world();
    let mut cam: Camera = demo_camera();
    let out: Vec<u8> = cam.render(&world, rng);
    proof {
        assert forall|other: HittableList| other@ == spec_demo_world() implies #[trigger] cam.spec_image(
            &other,
            start,
        ) == (out@, *rng) by {
            lemma_same_hits_image(cam, &world, &other, start);
        }
    }
    out
}

/// Number of cells along each side of the field of small spheres.
pub const FIELD_SIDE: usize = 22;

/// Number of cells of the field.
pub const FIELD_CELLS: usize = 484;

/// The first coordinate of a cell: the cells are numbered row by row, from
/// `-11` to `10` in each direction.
pub open spec fn cell_a(n: usize) -> i64 {
    ((n / FIELD_SIDE) as int - 11) as i64
}

/// The second coordinate of a cell.
pub open spec fn cell_b(n: usize) -> i64 {
    ((n % FIELD_SIDE) as int - 11) as i64
}

/// The material of a small sphere, chosen by `choice`: below `0.8` a
/// diffuse one whose colour is the product of two random colours, below
/// `0.95` a metal with a colour from `[0.5, 1)` and a fuzz from
/// `[0, 0.5)`, else glass.
pub open spec fn spec_small_material(choice: Scalar, rng: RandomSource) -> (Surface, RandomSource) {
    if choice.raw < Scalar::from_ratio(8, 10).raw {
        let albedo = Color::spec_random(rng).mul(Color::spec_random(rng.step().step().step()));
        (
            Surface::Lambertian(Lambertian { albedo }),
            rng.step().step().step().step().step().step(),
        )
    } else if choice.raw < Scalar::from_ratio(95, 100).raw {
        let albedo = Color::spec_random_range(rng, Scalar::from_ratio(1, 2), Scalar::one());
        let fuzz = rng.step().step().step().in_range(Scalar::zero(), Scalar::from_ratio(1, 2));
        (
            Surface::Metal(
                Metal {
                    albedo,
                    fuzz: (Interval { min: Scalar::zero(), max: Scalar::one() }).clamp(fuzz),
                },
            ),
            rng.step().step().step().step(),
        )
    } else {
        (Surface::Dialectric(Dialectric { refraction_index: Scalar::from_ratio(15, 10) }), rng)
    }
}

/// Draws the material of a small sphere.
pub fn small_material(choice: Scalar, rng: &mut RandomSource) -> (out: Surface)
    ensures
        (out, *final(rng)) == spec_small_material(choice, *old(rng)),
{
    if choice.raw < Scalar::from_ratio(8, 10).raw {
        let first: Color = Color::random(rng);
        let second: Color = Color::random(rng);
        Surface::Lambertian(Lambertian::new(first.mul(second)))
    } else if choice.raw < Scalar::from_ratio(95, 100).raw {
        let albedo: Color = Color::random_range(rng, Scalar::from_ratio(1, 2), Scalar::one());
        let fuzz: Scalar = rng.next_in_range(Scalar::zero(), Scalar::from_ratio(1, 2));
        Surface::Metal(Metal::new(albedo, fuzz))
    } else {
        Surface::Dialectric(Dialectric::new(Scalar::from_ratio(15, 10)))
    }
}

/// The small sphere of cell `(a, b)`, if it has one, and the source after
/// the draws for it. Three draws choose the material and place the centre at
/// `(a + 0.9 u, 0.2, b + 0.9 v)`. The cell stays empty where the centre is
/// within `0.9` of `(4, 0.2, 0)`, where a large sphere will stand.
pub open spec fn spec_cell(a: i64, b: i64, rng: RandomSource) -> (Option<Sphere>, RandomSource) {
    let choice = rng.unit();
    let center = Vec3 {
        x: Scalar::from_int(a).add(Scalar::from_ratio(9, 10).mul(rng.step().unit())),
        y: Scalar::from_ratio(2, 10),
        z: Scalar::from_int(b).add(Scalar::from_ratio(9, 10).mul(rng.step().step().unit())),
    };
    let next = rng.step().step().step();
    if center.sub(spec_triple(4, 1, 2, 10, 0, 1)).length().raw > Scalar::from_ratio(9, 10).raw {
        let (mat, last) = spec_small_material(choice, next);
        (Some(Sphere { center, radius: Scalar::from_ratio(2, 10), mat }), last)
    } else {
        (None, next)
    }
}

/// Draws the small sphere of a cell.
pub fn cell(a: i64, b: i64, rng: &mut RandomSource) -> (out: Option<Sphere>)
    ensures
        (out, *final(rng)) == spec_cell(a, b, *old(rng)),
{
    let choice: Scalar = rng.next_unit();
    let x: Scalar = Scalar::from_int(a).add(Scalar::from_ratio(9, 10).mul(rng.next_unit()));
    let z: Scalar = Scalar::from_int(b).add(Scalar::from_ratio(9, 10).mul(rng.next_unit()));
    let center: Vec3 = Vec3::new(x, Scalar::from_ratio(2, 10), z);
    if center.sub(triple(4, 1, 2, 10, 0, 1)).length().raw > Scalar::from_ratio(9, 10).raw {
        let mat: Surface = small_material(choice, rng);
        Some(Sphere::new(center, Scalar::from_ratio(2, 10), mat))
    } else {
        None
    }
}

/// The small spheres of the first `n` cells, and the source after them.
pub open spec fn spec_field(n: nat, rng: RandomSource) -> (Seq<Sphere>, RandomSource)
    decreases n,
{
    if n == 0 {
        (Seq::empty(), rng)
    } else {
        let (spheres, before) = spec_field((n - 1) as nat, rng);
        let (found, after) = spec_cell(cell_a((n - 1) as usize), cell_b((n - 1) as usize), before);
        (
            match found {
                Some(sphere) => spheres.push(sphere),
                None => spheres,
            },
            after,
        )
    }
}

/// The field holds at most one sphere for each cell.
pub proof fn lemma_field_size(n: nat, rng: RandomSource)
    ensures
        spec_field(n, rng).0.len() <= n,
    decreases n,
{
    if n > 0 {
        lemma_field_size((n - 1) as nat, rng);
    }
}

/// The ground of the field: a grey sphere of radius 1000 below it.
pub open spec fn spec_ground() -> Sphere {
    Sphere {
        center: spec_triple(0, 1, -1000i64, 1, 0, 1),
        radius: Scalar::from_int(1000),
        mat: Surface::Lambertian(Lambertian { albedo: tint(spec_triple(1, 2, 1, 2, 1, 2)) }),
    }
}

/// The three large spheres in the middle of the field: glass, diffuse brown
/// and polished metal.
pub open spec fn spec_landmarks() -> Seq<Sphere> {
    seq![
        Sphere {
            center: spec_triple(0, 1, 1, 1, 0, 1),
            radius: Scalar::one(),
            mat: Surface::Dialectric(Dialectric { refraction_index: Scalar::from_ratio(15, 10) }),
        },
        Sphere {
            center: spec_triple(-4i64, 1, 1, 1, 0, 1),
            radius: Scalar::one(),
            mat: Surface::Lambertian(Lambertian { albedo: tint(spec_triple(4, 10, 2, 10, 1, 10)) }),
        },
        Sphere {
            center: spec_triple(4, 1, 1, 1, 0, 1),
            radius: Scalar::one(),
            mat: Surface::Metal(
                Metal { albedo: tint(spec_triple(7, 10, 6, 10, 5, 10)), fuzz: Scalar::zero() },
            ),
        },
    ]
}

/// The scene that `rng` gives: the ground, the small spheres of the field
/// cell by cell, and the three large spheres; and the source after the
/// draws.
pub open spec fn spec_final_scene(rng: RandomSource) -> (Seq<Sphere>, RandomSource) {
    let (field, after) = spec_field(FIELD_CELLS as nat, rng);
    (seq![spec_ground()] + field + spec_landmarks(), after)
}

/// Builds the field of random spheres.
pub fn final_scene(rng: &mut RandomSource) -> (out: HittableList)
    ensures
        (out@, *final(rng)) == spec_final_scene(*old(rng)),
        4 <= out@.len() <= 4 + FIELD_CELLS,
{
    proof {
        lemma_field_size(FIELD_CELLS as nat, *rng);
    }
    let mut world: HittableList = HittableList::new();
    let ground_material: Lambertian = Lambertian::new(Color::from(triple(1, 2, 1, 2, 1, 2)));
    world.add(
        Sphere::new(
            triple(0, 1, -1000, 1, 0, 1),
            Scalar::from_int(1000),
            Surface::Lambertian(ground_material),
        ),
    );
    let mut n: usize = 0;
    while n < FIELD_CELLS
        invariant
            n <= FIELD_CELLS,
            world@ == seq![spec_ground()] + spec_field(n as nat, *old(rng)).0,
            *rng == spec_field(n as nat, *old(rng)).1,
        decreases FIELD_CELLS - n,
    {
        let a: i64 = (n / FIELD_SIDE) as i64 - 11;
        let b: i64 = (n % FIELD_SIDE) as i64 - 11;
        let ghost before = spec_field(n as nat, *old(rng)).0;
        if let Some(sphere) = cell(a, b, rng) {
            world.add(sphere);
            assert(seq![spec_ground()] + before.push(sphere) == (seq![spec_ground()]
                + before).push(sphere));
        }
        n = n + 1;
    }
    let ghost field = spec_field(FIELD_CELLS as nat, *old(rng)).0;
    let material1: Dialectric = Dialectric::new(Scalar::from_ratio(15, 10));
    world.add(Sphere::new(triple(0, 1, 1, 1, 0, 1), Scalar::one(), Surface::Dialectric(material1)));
    let material2: Lambertian = Lambertian::new(Color::from(triple(4, 10, 2, 10, 1, 10)));
    world.add(
        Sphere::new(triple(-4, 1, 1, 1, 0, 1), Scalar::one(), Surface::Lambertian(material2)),
    );
    let material3: Metal = Metal::new(Color::from(triple(7, 10, 6, 10, 5, 10)), Scalar::zero());
    world.add(Sphere::new(triple(4, 1, 1, 1, 0, 1), Scalar::one(), Surface::Metal(material3)));
    assert(world@ =~= seq![spec_ground()] + field + spec_landmarks());
    world
}

/// The camera of the field: an image of 400 columns at 16 to 9, 100
/// samples per pixel and rays followed 20 times; a field of view of 20
/// degrees from `(13, 2, 3)` toward the origin; a defocus angle of 0.6
/// degrees, in focus at a distance of 10.
pub open spec fn spec_final_camera() -> Camera {
    Camera {
        aspect_ratio: Scalar::from_ratio(16, 9),
        image_width: 400,
        samples_per_pixel: 100,
        max_depth: 20,
        vfov: Scalar::from_int(20),
        lookfrom: spec_triple(13, 1, 2, 1, 3, 1),
        lookat: spec_triple(0, 1, 0, 1, 0, 1),
        vup: spec_triple(0, 1, 1, 1, 0, 1),
        defocus_angle: Scalar::from_ratio(6, 10),
        focus_dist: Scalar::from_int(10),
        frame: Frame::spec_blank(),
    }
}

/// Configures the camera of the field.
#[verifier::when_used_as_spec(spec_final_camera)]
pub fn final_camera() -> (out: Camera)
    ensures
        out == spec_final_camera(),
{
    let mut cam: Camera = Camera::new();
    cam.aspect_ratio = Scalar::from_ratio(16, 9);
    cam.image_width = 400;
    cam.samples_per_pixel = 100;
    cam.max_depth = 20;
    cam.vfov = Scalar::from_int(20);
    cam.lookfrom = triple(13, 1, 2, 1, 3, 1);
    cam.lookat = triple(0, 1, 0, 1, 0, 1);
    cam.vup = triple(0, 1, 1, 1, 0, 1);
    cam.defocus_angle = Scalar::from_ratio(6, 10);
    cam.focus_dist = Scalar::from_int(10);
    cam
}

} // verus!
