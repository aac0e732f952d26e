//! The camera: from a configuration to the rays of each pixel, to the
//! colour that each ray gathers, to the image.

use crate::color::lemma_black_line;
use crate::color::spec_color_line;
use crate::color::write_color;
use crate::color::Color;
use crate::hittable::Hittable;
use crate::interval::Interval;
use crate::material::Material;
use crate::ppm::header;
use crate::ppm::pixel_line;
use crate::ppm::push_header;
use crate::ppm::repeated;
use crate::random::RandomSource;
use crate::ray::Ray;
use crate::scalar::lemma_mul_zero;
use crate::scalar::Scalar;
use crate::trig::tan;
use crate::trig::to_radians;
use crate::vec3::Point3;
use crate::vec3::Vec3;
use crate::vec3::MAX_DRAWS;
use vstd::prelude::*;

verus! {

/// What a camera derives from its configuration when a render begins.
#[derive(Clone, Copy, PartialEq, Eq, Structural, Debug)]
pub struct Frame {
    /// Number of rows of the image.
    pub image_height: usize,
    /// Where the rays start when there is no defocus.
    pub center: Point3,
    /// Centre of the pixel in the upper left corner.
    pub pixel00_loc: Point3,
    /// Step from one pixel to the next in a row.
    pub pixel_delta_u: Vec3,
    /// Step from one row to the next.
    pub pixel_delta_v: Vec3,
    /// One over the number of samples of a pixel.
    pub pixel_samples_scale: Scalar,
    /// The camera's unit vector to the right.
    pub u: Vec3,
    /// The camera's unit vector upward.
    pub v: Vec3,
    /// The camera's unit vector against the viewing direction.
    pub w: Vec3,
    /// Horizontal radius of the defocus disk.
    pub defocus_disk_u: Vec3,
    /// Vertical radius of the defocus disk.
    pub defocus_disk_v: Vec3,
}

impl Frame {
    /// The frame of a camera that has not rendered yet: all zero.
    pub open spec fn spec_blank() -> Frame {
        Frame {
            image_height: 0,
            center: Vec3::zero(),
            pixel00_loc: Vec3::zero(),
            pixel_delta_u: Vec3::zero(),
            pixel_delta_v: Vec3::zero(),
            pixel_samples_scale: Scalar::zero(),
            u: Vec3::zero(),
            v: Vec3::zero(),
            w: Vec3::zero(),
            defocus_disk_u: Vec3::zero(),
            defocus_disk_v: Vec3::zero(),
        }
    }

    #[verifier::when_used_as_spec(spec_blank)]
    pub fn blank() -> (out: Frame)
        ensures
            out == Self::spec_blank(),
    {
        Frame {
            image_height: 0,
            center: Vec3::zero(),
            pixel00_loc: Vec3::zero(),
            pixel_delta_u: Vec3::zero(),
            pixel_delta_v: Vec3::zero(),
            pixel_samples_scale: Scalar::zero(),
            u: Vec3::zero(),
            v: Vec3::zero(),
            w: Vec3::zero(),
            defocus_disk_u: Vec3::zero(),
            defocus_disk_v: Vec3::zero(),
        }
    }
}

/// A camera: its configuration, and the frame derived from it by the last
/// render.
#[derive(Clone, Copy, PartialEq, Eq, Structural, Debug)]
pub struct Camera {
    /// Image width over image height.
    pub aspect_ratio: Scalar,
    /// Number of columns of the image.
    pub image_width: usize,
    /// Number of rays traced for each pixel.
    pub samples_per_pixel: usize,
    /// Largest number of times a ray is followed from surface to surface.
    pub max_depth: usize,
    /// Vertical field of view, in degrees.
    pub vfov: Scalar,
    /// Where the camera stands.
    pub lookfrom: Point3,
    /// What the camera looks at.
    pub lookat: Point3,
    /// The direction that the camera takes as upward.
    pub vup: Vec3,
    /// Angle of the cone of rays through each pixel, in degrees.
    pub defocus_angle: Scalar,
    /// Distance from `lookfrom` to the plane in perfect focus.
    pub focus_dist: Scalar,
    /// Derived by the last render; blank before the first.
    pub frame: Frame,
}

impl Default for Camera {
    fn default() -> (out: Camera)
        ensures
            out == (Camera {
                aspect_ratio: Scalar::zero(),
                image_width: 0,
                samples_per_pixel: 0,
                max_depth: 0,
                vfov: Scalar::zero(),
                lookfrom: Vec3::zero(),
                lookat: Vec3::zero(),
                vup: Vec3::zero(),
                defocus_angle: Scalar::zero(),
                focus_dist: Scalar::zero(),
                frame: Frame::spec_blank(),
            }),
    {
        Camera {
            aspect_ratio: Scalar::zero(),
            image_width: 0,
            samples_per_pixel: 0,
            max_depth: 0,
            vfov: Scalar::zero(),
            lookfrom: Vec3::zero(),
            lookat: Vec3::zero(),
            vup: Vec3::zero(),
            defocus_angle: Scalar::zero(),
            focus_dist: Scalar::zero(),
            frame: Frame::blank(),
        }
    }
}

/// Raw value of the least distance at which a hit counts: `0.001`.
pub const VISIBLE_MIN_RAW: i64 = 4294967;

/// The distances at which a hit counts: from `0.001`, which keeps a
/// scattered ray from hitting the surface it leaves, to infinity.
pub open spec fn spec_visible() -> Interval {
    Interval { min: Scalar { raw: VISIBLE_MIN_RAW }, max: Scalar::infinity() }
}

#[verifier::when_used_as_spec(spec_visible)]
pub fn visible() -> (out: Interval)
    ensures
        out == spec_visible(),
        out.wf(),
{
    Interval::new(Scalar { raw: VISIBLE_MIN_RAW }, Scalar::infinity())
}

pub open spec fn spec_sky(r: Ray) -> Color {
    let a = Scalar::half().mul(r.direction.unit_vector().y.add(Scalar::one()));
    Color::white().scale(Scalar::one().sub(a)).add(
        (Color {
            r: Scalar::half(),
            g: Scalar::from_ratio(7, 10),
            b: Scalar::one(),
        }).scale(a),
    )
}

/// The colour of the background along `r`: a blend of white and sky blue
/// `(0.5, 0.7, 1)`, `(1 - a) white + a blue` with `a = (y + 1) / 2` for
/// the height `y` of the unit direction of `r`.
#[verifier::when_used_as_spec(spec_sky)]
pub fn sky(r: Ray) -> (out: Color)
    ensures
        out == spec_sky(r),
{
    let unit_direction: Vec3 = r.direction.unit_vector();
    let a: Scalar = Scalar::half().mul(unit_direction.y.add(Scalar::one()));
    let blue: Color = Color::new(Scalar::half(), Scalar::from_ratio(7, 10), Scalar::one());
    Color::white().scale(Scalar::one().sub(a)).add(blue.scale(a))
}

impl Camera {
    /// A camera at the origin that looks along the negative `z` axis with a
    /// field of view of 90 degrees and takes 10 samples of each pixel of a
    /// square image 100 pixels wide, following each ray 10 times. The
    /// defocus angle and the focus distance are zero.
    pub fn new() -> (out: Camera)
        ensures
            out == (Camera {
                aspect_ratio: Scalar::one(),
                image_width: 100,
                samples_per_pixel: 10,
                max_depth: 10,
                vfov: Scalar::from_int(90),
                lookfrom: Vec3::zero(),
                lookat: Vec3 { x: Scalar::zero(), y: Scalar::zero(), z: Scalar::from_int(-1i64) },
                vup: Vec3 { x: Scalar::zero(), y: Scalar::one(), z: Scalar::zero() },
                defocus_angle: Scalar::zero(),
                focus_dist: Scalar::zero(),
                frame: Frame::spec_blank(),
            }),
    {
        Camera {
            aspect_ratio: Scalar::one(),
            image_width: 100,
            samples_per_pixel: 10,
            max_depth: 10,
            vfov: Scalar::from_int(90),
            lookfrom: Vec3::zero(),
            lookat: Vec3::new(Scalar::zero(), Scalar::zero(), Scalar::from_int(-1)),
            vup: Vec3::new(Scalar::zero(), Scalar::one(), Scalar::zero()),
            defocus_angle: Scalar::zero(),
            focus_dist: Scalar::zero(),
            frame: Frame::blank(),
        }
    }

    /// The number of rows: the width over the aspect ratio, rounded down,
    /// and at least one.
    pub open spec fn spec_image_height(&self) -> usize {
        let rows = Scalar::from_usize(self.image_width).div(self.aspect_ratio).floor_to_usize();
        if rows < 1 {
            1
        } else {
            rows
        }
    }

    /// The frame that the configuration determines.
    #[verifier::opaque]
    pub open spec fn spec_frame(&self) -> Frame {
        let image_height = self.spec_image_height();
        let pixel_samples_scale = Scalar::one().div(Scalar::from_usize(self.samples_per_pixel));
        let center = self.lookfrom;
        let theta = to_radians(self.vfov);
        let h = tan(theta.div(Scalar::from_int(2)));
        let viewport_height = Scalar::from_int(2).mul(h).mul(self.focus_dist);
        let viewport_width = viewport_height.mul(
            Scalar::from_usize(self.image_width).div(Scalar::from_usize(image_height)),
        );
        let w = self.lookfrom.sub(self.lookat).unit_vector();
        let u = Vec3::cross(self.vup, w).unit_vector();
        let v = Vec3::cross(w, u);
        let viewport_u = u.scale(viewport_width);
        let viewport_v = v.neg().scale(viewport_height);
        let pixel_delta_u = viewport_u.div(Scalar::from_usize(self.image_width));
        let pixel_delta_v = viewport_v.div(Scalar::from_usize(image_height));
        let viewport_upper_left = center.sub(w.scale(self.focus_dist)).sub(
            viewport_u.div(Scalar::from_int(2)),
        ).sub(viewport_v.div(Scalar::from_int(2)));
        let pixel00_loc = viewport_upper_left.add(
            pixel_delta_u.add(pixel_delta_v).scale(Scalar::half()),
        );
        let defocus_radius = self.focus_dist.mul(
            tan(to_radians(self.defocus_angle.div(Scalar::from_int(2)))),
        );
        Frame {
            image_height,
            center,
            pixel00_loc,
            pixel_delta_u,
            pixel_delta_v,
            pixel_samples_scale,
            u,
            v,
            w,
            defocus_disk_u: u.scale(defocus_radius),
            defocus_disk_v: v.scale(defocus_radius),
        }
    }

    /// The camera with the frame that its configuration determines.
    pub open spec fn spec_initialized(&self) -> Camera {
        Camera { frame: self.spec_frame(), ..*self }
    }

    /// Derives the frame from the configuration: the number of rows; the
    /// orthonormal basis `w` (against the view), `u` (to the right) and `v`
    /// (upward); the viewport in the plane of focus, whose height is
    /// `2 tan(vfov / 2) focus_dist`; the steps between pixels and the centre
    /// of the first pixel; and the radii of the defocus disk,
    /// `focus_dist tan(defocus_angle / 2)` along `u` and `v`.
    pub fn initialize(&mut self)
        ensures
            *final(self) == old(self).spec_initialized(),
            final(self).frame.image_height >= 1,
    {
        proof {
            reveal(Camera::spec_frame);
        }
        let rows: usize = Scalar::from_usize(self.image_width).div(
            self.aspect_ratio,
        ).floor_to_usize();
        let image_height: usize = if rows < 1 {
            1
        } else {
            rows
        };
        let pixel_samples_scale: Scalar = Scalar::one().div(
            Scalar::from_usize(self.samples_per_pixel),
        );
        let center: Point3 = self.lookfrom;
        let theta: Scalar = to_radians(self.vfov);
        let h: Scalar = tan(theta.div(Scalar::from_int(2)));
        let viewport_height: Scalar = Scalar::from_int(2).mul(h).mul(self.focus_dist);
        let viewport_width: Scalar = viewport_height.mul(
            Scalar::from_usize(self.image_width).div(Scalar::from_usize(image_height)),
        );
        let w: Vec3 = self.lookfrom.sub(self.lookat).unit_vector();
        let u: Vec3 = Vec3::cross(self.vup, w).unit_vector();
        let v: Vec3 = Vec3::cross(w, u);
        let viewport_u: Vec3 = u.scale(viewport_width);
        let viewport_v: Vec3 = v.neg().scale(viewport_height);
        let pixel_delta_u: Vec3 = viewport_u.div(Scalar::from_usize(self.image_width));
        let pixel_delta_v: Vec3 = viewport_v.div(Scalar::from_usize(image_height));
        let viewport_upper_left: Point3 = center.sub(w.scale(self.focus_dist)).sub(
            viewport_u.div(Scalar::from_int(2)),
        ).sub(viewport_v.div(Scalar::from_int(2)));
        let pixel00_loc: Point3 = viewport_upper_left.add(
            pixel_delta_u.add(pixel_delta_v).scale(Scalar::half()),
        );
        let defocus_radius: Scalar = self.focus_dist.mul(
            tan(to_radians(self.defocus_angle.div(Scalar::from_int(2)))),
        );
        self.frame = Frame {
            image_height,
            center,
            pixel00_loc,
            pixel_delta_u,
            pixel_delta_v,
            pixel_samples_scale,
            u,
            v,
            w,
            defocus_disk_u: u.scale(defocus_radius),
            defocus_disk_v: v.scale(defocus_radius),
        };
    }

    /// The offset from the centre of a pixel that the next two draws give:
    /// a point of the square `[-0.5, 0.5)^2`.
    pub open spec fn spec_sample_square(rng: RandomSource) -> Vec3 {
        Vec3 {
            x: rng.unit().sub(Scalar::half()),
            y: rng.step().unit().sub(Scalar::half()),
            z: Scalar::zero(),
        }
    }

    /// Draws an offset from the centre of a pixel within its footprint.
    pub fn sample_square(rng: &mut RandomSource) -> (out: Vec3)
        ensures
            out == Self::spec_sample_square(*old(rng)),
            *final(rng) == old(rng).step().step(),
            -0x8000_0000 <= out.x.raw < 0x8000_0000,
            -0x8000_0000 <= out.y.raw < 0x8000_0000,
    {
        let x: Scalar = rng.next_unit().sub(Scalar::half());
        let y: Scalar = rng.next_unit().sub(Scalar::half());
        Vec3::new(x, y, Scalar::zero())
    }

    /// The point of the defocus disk that the next draws give, and the
    /// source after them.
    pub open spec fn spec_defocus_disk_sample(&self, rng: RandomSource) -> (Point3, RandomSource) {
        let (p, next) = Vec3::spec_random_in_unit_disk(rng, MAX_DRAWS as nat);
        (
            self.frame.center.add(self.frame.defocus_disk_u.scale(p.x)).add(
                self.frame.defocus_disk_v.scale(p.y),
            ),
            next,
        )
    }

    /// Draws a point of the defocus disk around the camera's centre.
    pub fn defocus_disk_sample(&self, rng: &mut RandomSource) -> (out: Point3)
        ensures
            (out, *final(rng)) == self.spec_defocus_disk_sample(*old(rng)),
    {
        let p: Vec3 = Vec3::random_in_unit_disk(rng);
        self.frame.center.add(self.frame.defocus_disk_u.scale(p.x)).add(
            self.frame.defocus_disk_v.scale(p.y),
        )
    }

    /// The ray through pixel `(i, j)` that the next draws give, and the source
    /// after them.
    #[verifier::opaque]
    pub open spec fn spec_get_ray(&self, i: usize, j: usize, rng: RandomSource) -> (
        Ray,
        RandomSource,
    ) {
        let offset = Self::spec_sample_square(rng);
        let pixel_sample = self.frame.pixel00_loc.add(
            self.frame.pixel_delta_u.scale(Scalar::from_usize(i).add(offset.x)),
        ).add(self.frame.pixel_delta_v.scale(Scalar::from_usize(j).add(offset.y)));
        let (origin, next) = if self.defocus_angle.raw <= 0 {
            (self.frame.center, rng.step().step())
        } else {
            self.spec_defocus_disk_sample(rng.step().step())
        };
        (Ray { origin, direction: pixel_sample.sub(origin) }, next)
    }

    /// A ray for the pixel in column `i` of row `j`: from the camera's
    /// centre, or from a random point of the defocus disk where the defocus
    /// angle is positive, toward a random point of the pixel's footprint.
    pub fn get_ray(&self, i: usize, j: usize, rng: &mut RandomSource) -> (out: Ray)
        ensures
            (out, *final(rng)) == self.spec_get_ray(i, j, *old(rng)),
    {
        proof {
            reveal(Camera::spec_get_ray);
        }
        let offset: Vec3 = Self::sample_square(rng);
        let pixel_sample: Point3 = self.frame.pixel00_loc.add(
            self.frame.pixel_delta_u.scale(Scalar::from_usize(i).add(offset.x)),
        ).add(self.frame.pixel_delta_v.scale(Scalar::from_usize(j).add(offset.y)));
        let ray_origin: Point3 = if self.defocus_angle.raw <= 0 {
            self.frame.center
        } else {
            self.defocus_disk_sample(rng)
        };
        Ray::new(ray_origin, pixel_sample.sub(ray_origin))
    }

    /// The colour that `r` gathers when it is followed at most `depth`
    /// times, and the source after that.
    pub open spec fn spec_ray_color<H: Hittable>(
        r: Ray,
        depth: nat,
        world: &H,
        rng: RandomSource,
    ) -> (Color, RandomSource)
        decreases depth,
    {
        if depth == 0 {
            (Color::black(), rng)
        } else {
            match world.spec_hit(r, spec_visible()) {
                Some(rec) => match rec.mat.spec_scatter(r, rec, rng) {
                    (Some((attenuation, scattered)), next) => {
                        let (gathered, last) = Self::spec_ray_color(
                            scattered,
                            (depth - 1) as nat,
                            world,
                            next,
                        );
                        (attenuation.mul(gathered), last)
                    },
                    (None, next) => (Color::black(), next),
                },
                None => (spec_sky(r), rng),
            }
        }
    }

    /// Follows `r` through the scene. With no depth left the colour is
    /// black. A ray that hits nothing takes the colour of the sky. A ray
    /// that hits a surface is scattered by its material: the colour is the
    /// attenuation times the colour that the scattered ray gathers with one
    /// less depth, or black where the material absorbs the ray.
    pub fn ray_color<H: Hittable>(
        &self,
        r: &Ray,
        depth: usize,
        world: &H,
        rng: &mut RandomSource,
    ) -> (out: Color)
        ensures
            (out, *final(rng)) == Self::spec_ray_color(*r, depth as nat, world, *old(rng)),
            depth == 0 ==> out == Color::spec_black() && *final(rng) == *old(rng),
        decreases depth,
    {
        if depth == 0 {
            return Color::black();
        }
        if let Some(rec) = world.hit(r, visible()) {
            if let Some((attenuation, scattered)) = rec.mat.scatter(r, &rec, rng) {
                let gathered: Color = self.ray_color(&scattered, depth - 1, world, rng);
                return attenuation.mul(gathered);
            } else {
                return Color::black();
            }
        }
        sky(*r)
    }

    /// The sum of the colours of the first `n` samples of pixel `(i, j)`,
    /// and the source after them.
    pub open spec fn spec_samples<H: Hittable>(
        &self,
        world: &H,
        i: usize,
        j: usize,
        n: nat,
        rng: RandomSource,
    ) -> (Color, RandomSource)
        decreases n,
    {
        if n == 0 {
            (Color::black(), rng)
        } else {
            let (sum, before) = self.spec_samples(world, i, j, (n - 1) as nat, rng);
            let (r, aimed) = self.spec_get_ray(i, j, before);
            let (gathered, after) = Self::spec_ray_color(r, self.max_depth as nat, world, aimed);
            (sum.add(gathered), after)
        }
    }

    /// The colour of pixel `(i, j)`: the mean of its samples.
    #[verifier::opaque]
    pub open spec fn spec_pixel<H: Hittable>(
        &self,
        world: &H,
        i: usize,
        j: usize,
        rng: RandomSource,
    ) -> (Color, RandomSource) {
        let (sum, after) = self.spec_samples(world, i, j, self.samples_per_pixel as nat, rng);
        (sum.scale(self.frame.pixel_samples_scale), after)
    }

    /// The lines of the first `n` pixels of row `j`, and the source after
    /// them.
    pub open spec fn spec_row<H: Hittable>(&self, world: &H, j: usize, n: nat, rng: RandomSource) -> (
        Seq<u8>,
        RandomSource,
    )
        decreases n,
    {
        if n == 0 {
            (Seq::empty(), rng)
        } else {
            let (lines, before) = self.spec_row(world, j, (n - 1) as nat, rng);
            let (pixel, after) = self.spec_pixel(world, (n - 1) as usize, j, before);
            (lines + spec_color_line(pixel), after)
        }
    }

    /// The lines of the first `n` rows, and the source after them.
    pub open spec fn spec_rows<H: Hittable>(&self, world: &H, n: nat, rng: RandomSource) -> (
        Seq<u8>,
        RandomSource,
    )
        decreases n,
    {
        if n == 0 {
            (Seq::empty(), rng)
        } else {
            let (lines, before) = self.spec_rows(world, (n - 1) as nat, rng);
            let (row, after) = self.spec_row(
                world,
                (n - 1) as usize,
                self.image_width as nat,
                before,
            );
            (lines + row, after)
        }
    }

    /// The image that a camera with its frame in place renders: the header,
    /// then one line for each pixel, row by row from the top and from left
    /// to right within a row; and the source after the last sample.
    pub open spec fn spec_image<H: Hittable>(&self, world: &H, rng: RandomSource) -> (
        Seq<u8>,
        RandomSource,
    ) {
        let (lines, after) = self.spec_rows(world, self.frame.image_height as nat, rng);
        (header(self.image_width as nat, self.frame.image_height as nat) + lines, after)
    }

    /// Traces the samples of pixel `(i, j)` and averages them.
    pub fn pixel_color<H: Hittable>(
        &self,
        world: &H,
        i: usize,
        j: usize,
        rng: &mut RandomSource,
    ) -> (out: Color)
        ensures
            (out, *final(rng)) == self.spec_pixel(world, i, j, *old(rng)),
    {
        proof {
            reveal(Camera::spec_pixel);
        }
        let mut sum: Color = Color::black();
        let mut sample: usize = 0;
        while sample < self.samples_per_pixel
            invariant
                sample <= self.samples_per_pixel,
                (sum, *rng) == self.spec_samples(world, i, j, sample as nat, *old(rng)),
            decreases self.samples_per_pixel - sample,
        {
            let r: Ray = self.get_ray(i, j, rng);
            let gathered: Color = self.ray_color(&r, self.max_depth, world, rng);
            sum.add_assign(gathered);
            sample = sample + 1;
        }
        sum.scale(self.frame.pixel_samples_scale)
    }

    /// Appends the lines of row `j`, from left to right.
    pub fn render_row<H: Hittable>(
        &self,
        world: &H,
        j: usize,
        out: &mut Vec<u8>,
        rng: &mut RandomSource,
    )
        ensures
            (final(out)@, *final(rng)) == ({
                let (row, after) = self.spec_row(world, j, self.image_width as nat, *old(rng));
                (old(out)@ + row, after)
            }),
    {
        let mut i: usize = 0;
        while i < self.image_width
            invariant
                i <= self.image_width,
                out@ == old(out)@ + self.spec_row(world, j, i as nat, *old(rng)).0,
                *rng == self.spec_row(world, j, i as nat, *old(rng)).1,
            decreases self.image_width - i,
        {
            let ghost before = out@;
            let ghost lines = self.spec_row(world, j, i as nat, *old(rng)).0;
            let pixel: Color = self.pixel_color(world, i, j, rng);
            write_color(out, pixel);
            proof {
                let line = spec_color_line(pixel);
                assert(out@ == before + line);
                assert(old(out)@ + (lines + line) == (old(out)@ + lines) + line);
                assert(self.spec_row(world, j, (i + 1) as nat, *old(rng)).0 == lines + line);
            }
            i = i + 1;
        }
    }

    /// Renders `world` as a plain-text pixel map. The frame is derived
    /// anew from the configuration first.
    pub fn render<H: Hittable>(&mut self, world: &H, rng: &mut RandomSource) -> (out: Vec<u8>)
        ensures
            *final(self) == old(self).spec_initialized(),
            (out@, *final(rng)) == final(self).spec_image(world, *old(rng)),
            old(self).max_depth == 0 ==> out@ == header(
                final(self).image_width as nat,
                final(self).frame.image_height as nat,
            ) + repeated(
                repeated(pixel_line(0, 0, 0), final(self).image_width as nat),
                final(self).frame.image_height as nat,
            ),
    {
        self.initialize();
        let cam: Camera = *self;
        proof {
            if cam.max_depth == 0 {
                lemma_no_depth_image(cam, world, *rng);
            }
        }
        let mut out: Vec<u8> = Vec::new();
        push_header(&mut out, cam.image_width, cam.frame.image_height);
        let ghost head = header(cam.image_width as nat, cam.frame.image_height as nat);
        assert(out@ == head);
        let mut j: usize = 0;
        while j < cam.frame.image_height
            invariant
                j <= cam.frame.image_height,
                out@ == head + cam.spec_rows(world, j as nat, *old(rng)).0,
                *rng == cam.spec_rows(world, j as nat, *old(rng)).1,
            decreases cam.frame.image_height - j,
        {
            let ghost lines = cam.spec_rows(world, j as nat, *old(rng)).0;
            let ghost row = cam.spec_row(world, j, cam.image_width as nat, *rng).0;
            cam.render_row(world, j, &mut out, rng);
            proof {
                assert(head + (lines + row) == (head + lines) + row);
                assert(cam.spec_rows(world, (j + 1) as nat, *old(rng)).0 == lines + row);
            }
            j = j + 1;
        }
        out
    }
}

/// Deriving the frame a second time changes nothing.
pub proof fn lemma_initialize_idempotent(cam: Camera)
    ensures
        cam.spec_initialized().spec_initialized() == cam.spec_initialized(),
        cam.spec_initialized().frame.image_height >= 1,
{
    reveal(Camera::spec_frame);
}

/// With no depth every sample is black, and so is their sum.
pub proof fn lemma_no_depth_samples<H: Hittable>(
    cam: Camera,
    world: &H,
    i: usize,
    j: usize,
    n: nat,
    rng: RandomSource,
)
    requires
        cam.max_depth == 0,
    ensures
        cam.spec_samples(world, i, j, n, rng).0 == Color::black(),
    decreases n,
{
    if n > 0 {
        lemma_no_depth_samples(cam, world, i, j, (n - 1) as nat, rng);
        let (sum, before) = cam.spec_samples(world, i, j, (n - 1) as nat, rng);
        let (r, aimed) = cam.spec_get_ray(i, j, before);
        assert(Camera::spec_ray_color(r, 0, world, aimed) == (Color::black(), aimed));
        assert(sum.add(Color::black()) == Color::black());
    }
}

/// With no depth every row is a row of black pixels.
pub proof fn lemma_no_depth_row<H: Hittable>(
    cam: Camera,
    world: &H,
    j: usize,
    n: nat,
    rng: RandomSource,
)
    requires
        cam.max_depth == 0,
    ensures
        cam.spec_row(world, j, n, rng).0 == repeated(pixel_line(0, 0, 0), n),
    decreases n,
{
    if n > 0 {
        lemma_no_depth_row(cam, world, j, (n - 1) as nat, rng);
        let before = cam.spec_row(world, j, (n - 1) as nat, rng).1;
        reveal(Camera::spec_pixel);
        lemma_no_depth_samples(
            cam,
            world,
            (n - 1) as usize,
            j,
            cam.samples_per_pixel as nat,
            before,
        );
        lemma_mul_zero(cam.frame.pixel_samples_scale);
        lemma_black_line();
    }
}

/// With a depth of zero every pixel of the image is black, whatever the
/// scene holds: after the header the image consists of as many rows of as
/// many lines `0 0 0` as it has rows and columns.
pub proof fn lemma_no_depth_image<H: Hittable>(cam: Camera, world: &H, rng: RandomSource)
    requires
        cam.max_depth == 0,
    ensures
        cam.spec_image(world, rng).0 == header(
            cam.image_width as nat,
            cam.frame.image_height as nat,
        ) + repeated(
            repeated(pixel_line(0, 0, 0), cam.image_width as nat),
            cam.frame.image_height as nat,
        ),
{
    lemma_no_depth_rows(cam, world, cam.frame.image_height as nat, rng);
}

/// With no depth the first rows are rows of black pixels.
pub proof fn lemma_no_depth_rows<H: Hittable>(cam: Camera, world: &H, n: nat, rng: RandomSource)
    requires
        cam.max_depth == 0,
    ensures
        cam.spec_rows(world, n, rng).0 == repeated(
            repeated(pixel_line(0, 0, 0), cam.image_width as nat),
            n,
        ),
    decreases n,
{
    if n > 0 {
        lemma_no_depth_rows(cam, world, (n - 1) as nat, rng);
        let before = cam.spec_rows(world, (n - 1) as nat, rng).1;
        lemma_no_depth_row(cam, world, (n - 1) as usize, cam.image_width as nat, before);
    }
}

/// Every ray hits the two scenes alike.
pub open spec fn same_hits<H: Hittable>(first: &H, second: &H) -> bool {
    forall|r: Ray, ray_t: Interval| #[trigger] first.spec_hit(r, ray_t) == second.spec_hit(r, ray_t)
}

/// A ray gathers the same colour in two scenes that every ray hits alike.
pub proof fn lemma_same_hits_ray_color<H: Hittable>(
    r: Ray,
    depth: nat,
    first: &H,
    second: &H,
    rng: RandomSource,
)
    requires
        same_hits(first, second),
    ensures
        Camera::spec_ray_color(r, depth, first, rng) == Camera::spec_ray_color(
            r,
            depth,
            second,
            rng,
        ),
    decreases depth,
{
    if depth > 0 {
        assert(first.spec_hit(r, spec_visible()) == second.spec_hit(r, spec_visible()));
        match first.spec_hit(r, spec_visible()) {
            Some(rec) => match rec.mat.spec_scatter(r, rec, rng) {
                (Some((attenuation, scattered)), next) => {
                    lemma_same_hits_ray_color(scattered, (depth - 1) as nat, first, second, next);
                },
                (None, next) => {},
            },
            None => {},
        }
    }
}

/// The samples of a pixel are the same in two scenes that every ray hits
/// alike.
pub proof fn lemma_same_hits_samples<H: Hittable>(
    cam: Camera,
    first: &H,
    second: &H,
    i: usize,
    j: usize,
    n: nat,
    rng: RandomSource,
)
    requires
        same_hits(first, second),
    ensures
        cam.spec_samples(first, i, j, n, rng) == cam.spec_samples(second, i, j, n, rng),
    decreases n,
{
    if n > 0 {
        lemma_same_hits_samples(cam, first, second, i, j, (n - 1) as nat, rng);
        let before = cam.spec_samples(first, i, j, (n - 1) as nat, rng).1;
        let (r, aimed) = cam.spec_get_ray(i, j, before);
        lemma_same_hits_ray_color(r, cam.max_depth as nat, first, second, aimed);
    }
}

/// A row is the same for two scenes that every ray hits alike.
pub proof fn lemma_same_hits_row<H: Hittable>(
    cam: Camera,
    first: &H,
    second: &H,
    j: usize,
    n: nat,
    rng: RandomSource,
)
    requires
        same_hits(first, second),
    ensures
        cam.spec_row(first, j, n, rng) == cam.spec_row(second, j, n, rng),
    decreases n,
{
    if n > 0 {
        lemma_same_hits_row(cam, first, second, j, (n - 1) as nat, rng);
        let before = cam.spec_row(first, j, (n - 1) as nat, rng).1;
        reveal(Camera::spec_pixel);
        lemma_same_hits_samples(
            cam,
            first,
            second,
            (n - 1) as usize,
            j,
            cam.samples_per_pixel as nat,
            before,
        );
    }
}

/// The first rows are the same for two scenes that every ray hits alike.
pub proof fn lemma_same_hits_rows<H: Hittable>(
    cam: Camera,
    first: &H,
    second: &H,
    n: nat,
    rng: RandomSource,
)
    requires
        same_hits(first, second),
    ensures
        cam.spec_rows(first, n, rng) == cam.spec_rows(second, n, rng),
    decreases n,
{
    if n > 0 {
        lemma_same_hits_rows(cam, first, second, (n - 1) as nat, rng);
        let before = cam.spec_rows(first, (n - 1) as nat, rng).1;
        lemma_same_hits_row(cam, first, second, (n - 1) as usize, cam.image_width as nat, before);
    }
}

/// The image depends on the scene only through what each ray hits: two
/// scenes that every ray hits alike give the same image.
pub proof fn lemma_same_hits_image<H: Hittable>(
    cam: Camera,
    first: &H,
    second: &H,
    rng: RandomSource,
)
    requires
        same_hits(first, second),
    ensures
        cam.spec_image(first, rng) == cam.spec_image(second, rng),
{
    lemma_same_hits_rows(cam, first, second, cam.frame.image_height as nat, rng);
}

} // verus!
