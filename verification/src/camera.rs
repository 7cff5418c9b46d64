//! The camera: the rays through the pixels of an image, the light that
//! comes back along a ray, and the image as text.

use vstd::prelude::*;
use vstd::arithmetic::div_mod::lemma_fundamental_div_mod_converse;
use crate::hittable::Hittable;
use crate::interval::Interval;
use crate::material::Material;
use crate::random::random_f64;
use crate::ray::Ray;
use crate::scalar::Scalar;
use crate::text::{decimal, push_decimal};
use crate::vec3::{Color, Point, Vec3};

verus! {

/// The pattern of `0.001`: a hit nearer than this along a ray is the
/// surface that the ray has just left.
pub const NEAREST_HIT_BITS: u64 = 0x3f50_624d_d2f1_a9fc;

/// The pattern of `0.7`, the green of the sky.
pub const SKY_GREEN_BITS: u64 = 0x3fe6_6666_6666_6666;

/// A camera, ready to render: the grid of pixels on the plane of focus and
/// the disk of the lens.
#[derive(Clone, Copy, Debug)]
pub struct Camera {
    pub image_width: i32,
    pub image_height: i32,
    pub center: Point,
    pub pixel00_loc: Point,
    pub pixel_delta_u: Vec3,
    pub pixel_delta_v: Vec3,
    pub samples_per_pixel: u32,
    pub pixel_samples_scale: Scalar,
    pub max_depth: u32,
    pub defocus_angle: Scalar,
    pub defocus_disk_u: Vec3,
    pub defocus_disk_v: Vec3,
}

impl Camera {
    /// The height of an image from its width over its ratio of width to
    /// height: the quotient without its fraction, and 1 where the quotient
    /// is below one or no number.
    pub open spec fn spec_height_for(ratio: Scalar) -> i32 {
        if ratio.is_nan() || ratio.lt(Scalar::one()) {
            1
        } else {
            ratio.to_i32()
        }
    }

    /// The height of an image of the given width and ratio of width to height.
    pub open spec fn spec_image_height(image_width: i32, aspect_ratio: Scalar) -> i32 {
        Self::spec_height_for(Scalar::spec_from_int(image_width as int).div(aspect_ratio))
    }

    /// The camera that `init` makes. With `w` the unit vector from the
    /// point looked at to the eye, `u = vup x w` made unit and `v = w x u`,
    /// the viewport lies at the focus distance, `2 tan(vfov / 2)` focus
    /// distances high, and the lens disk has the radius
    /// `focus_dist tan(defocus_angle / 2)`.
    pub open spec fn spec_init(
        aspect_ratio: Scalar,
        image_width: i32,
        samples_per_pixel: u32,
        max_depth: u32,
        vfov: Scalar,
        look_from: Point,
        look_at: Point,
        vup: Vec3,
        defocus_angle: Scalar,
        focus_dist: Scalar,
    ) -> Camera {
        let image_height = Self::spec_image_height(image_width, aspect_ratio);
        let width = Scalar::spec_from_int(image_width as int);
        let height = Scalar::spec_from_int(image_height as int);
        let h = vfov.to_radians().div(Scalar::two()).tan();
        let viewport_height = Scalar::two().mul(h).mul(focus_dist);
        let viewport_width = viewport_height.mul(width).div(height);
        let w = look_from.sub(look_at).normalized();
        let u = vup.cross(w).normalized();
        let v = w.cross(u);
        let viewport_u = u.scale(viewport_width);
        let viewport_v = v.neg().scale(viewport_height);
        let pixel_delta_u = viewport_u.div(width);
        let pixel_delta_v = viewport_v.div(height);
        let viewport_upper_left = look_from.sub(w.scale(focus_dist)).sub(
            viewport_u.div(Scalar::two()),
        ).sub(viewport_v.div(Scalar::two()));
        let defocus_radius = focus_dist.mul(defocus_angle.div(Scalar::two()).to_radians().tan());
        Camera {
            image_width,
            image_height,
            center: look_from,
            pixel00_loc: viewport_upper_left.add(
                pixel_delta_u.add(pixel_delta_v).scale(Scalar::half()),
            ),
            pixel_delta_u,
            pixel_delta_v,
            samples_per_pixel,
            pixel_samples_scale: Scalar::one().div(
                Scalar::spec_from_int(samples_per_pixel as int),
            ),
            max_depth,
            defocus_angle,
            defocus_disk_u: u.scale(defocus_radius),
            defocus_disk_v: v.scale(defocus_radius),
        }
    }

    /// The window of parameters in which a hit counts: above `0.001`.
    pub open spec fn hit_window() -> Interval {
        Interval { min: Scalar { bits: NEAREST_HIT_BITS }, max: Scalar::infinity() }
    }

    /// The colour of the sky along a ray: white at the bottom, blue at the
    /// top, blended by `a = 0.5 (y + 1)` for the height `y` of the unit direction.
    pub open spec fn spec_background(ray: Ray) -> Color {
        let a = Scalar::half().mul(ray.dir.normalized().y.add(Scalar::one()));
        Vec3::white().scale(Scalar::one().sub(a)).add(
            Vec3 { x: Scalar::half(), y: Scalar { bits: SKY_GREEN_BITS }, z: Scalar::one() }.scale(
                a,
            ),
        )
    }

    /// Whether `c` is a colour that the light along `ray` may be estimated
    /// at, with `depth` bounces left. With none left it is black. A ray that
    /// hits nothing has the colour of the sky. A ray that hits a surface
    /// has black where the surface swallows it, else the estimate for the
    /// ray that leaves, one bounce fewer left, times the surface's
    /// attenuation, colour by colour.
    pub open spec fn radiance_outcome<H: Hittable>(world: &H, ray: Ray, depth: nat, c: Color) -> bool
        decreases depth,
    {
        if depth == 0 {
            c == Vec3::black()
        } else {
            match world.spec_hit(ray, Self::hit_window()) {
                Some(h) => {
                    ||| h.material.scatter_outcome(ray, h, None) && c == Vec3::black()
                    ||| exists|scattered: Ray, attenuation: Color, rest: Color|
                        #![trigger
                            h.material.scatter_outcome(ray, h, Some((scattered, attenuation))),
                            attenuation.spec_mul(rest)
                        ]
                        {
                            &&& h.material.scatter_outcome(ray, h, Some((scattered, attenuation)))
                            &&& Self::radiance_outcome(world, scattered, (depth - 1) as nat, rest)
                            &&& c == attenuation.spec_mul(rest)
                        }
                },
                None => c == Self::spec_background(ray),
            }
        }
    }

    /// What a draw from the unit square about the origin is: two unit
    /// draws, each less one half, and a zero.
    pub open spec fn is_square_draw(offset: Vec3) -> bool {
        exists|u: Scalar, v: Scalar|
            u.is_unit_draw() && v.is_unit_draw() && offset == #[trigger] Self::spec_square(u, v)
    }

    pub open spec fn spec_square(u: Scalar, v: Scalar) -> Vec3 {
        Vec3 { x: u.sub(Scalar::half()), y: v.sub(Scalar::half()), z: Scalar::zero() }
    }

    /// The point of the lens that the disk draw `p` picks.
    pub open spec fn spec_lens_point(&self, p: Vec3) -> Point {
        self.center.add(self.defocus_disk_u.scale(p.x)).add(self.defocus_disk_v.scale(p.y))
    }

    /// The ray through pixel `(i, j)`, counted from the left and from the
    /// top, moved within the pixel by `offset`: it leaves the centre of the
    /// camera, or the point of the lens that `lens` picks where the defocus
    /// angle is above zero, toward the sample point on the plane of focus.
    pub open spec fn spec_ray_through(&self, i: i32, j: i32, offset: Vec3, lens: Vec3) -> Ray {
        let pixel_sample = self.pixel00_loc.add(
            self.pixel_delta_u.scale(Scalar::spec_from_int(i as int).add(offset.x)),
        ).add(self.pixel_delta_v.scale(Scalar::spec_from_int(j as int).add(offset.y)));
        let origin = if self.defocus_angle.le(Scalar::zero()) {
            self.center
        } else {
            self.spec_lens_point(lens)
        };
        Ray { origin, dir: pixel_sample.sub(origin) }
    }

    /// Whether `ray` is a ray that `ray_at` may return for the pixel: the
    /// ray through it for a draw from the unit square and, where the defocus
    /// angle is above zero, a draw from the unit disk.
    pub open spec fn ray_outcome(&self, i: i32, j: i32, ray: Ray) -> bool {
        exists|offset: Vec3, lens: Vec3|
            Self::is_square_draw(offset) && (self.defocus_angle.le(Scalar::zero())
                || lens.is_disk_draw()) && ray == #[trigger] self.spec_ray_through(
                i,
                j,
                offset,
                lens,
            )
    }

    /// Whether `c` may be the sum of the estimates of `n` rays through the pixel.
    pub open spec fn pixel_outcome<H: Hittable>(
        &self,
        world: &H,
        i: i32,
        j: i32,
        n: nat,
        c: Color,
    ) -> bool
        decreases n,
    {
        if n == 0 {
            c == Vec3::zero()
        } else {
            exists|sum: Color, ray: Ray, sample: Color|
                #![trigger self.ray_outcome(i, j, ray), sum.spec_add(sample)]
                {
                    &&& self.pixel_outcome(world, i, j, (n - 1) as nat, sum)
                    &&& self.ray_outcome(i, j, ray)
                    &&& Self::radiance_outcome(world, ray, self.max_depth as nat, sample)
                    &&& c == sum.spec_add(sample)
                }
        }
    }

    /// The number of pixels of the image.
    pub open spec fn pixel_count(&self) -> nat {
        if self.image_width > 0 && self.image_height > 0 {
            (self.image_width * self.image_height) as nat
        } else {
            0
        }
    }

    /// Whether `pixels` may be what `render_pixels` returns: row after row
    /// from the top, each row from the left, each pixel the sum of the
    /// estimates of `samples_per_pixel` rays through it.
    pub open spec fn image_outcome<H: Hittable>(&self, world: &H, pixels: Seq<Color>) -> bool {
        &&& pixels.len() == self.pixel_count()
        &&& forall|k: int|
            0 <= k < pixels.len() ==> self.pixel_outcome(
                world,
                (k % self.image_width as int) as i32,
                (k / self.image_width as int) as i32,
                self.samples_per_pixel as nat,
                #[trigger] pixels[k],
            )
    }

    /// The header of a plain-text image: `P3`, width and height, and the
    /// greatest level 255, each on a line.
    pub open spec fn spec_header(&self) -> Seq<char> {
        seq!['P', '3', '\n'] + decimal(self.image_width as int) + seq![' '] + decimal(
            self.image_height as int,
        ) + seq!['\n', '2', '5', '5', '\n']
    }

    /// The lines of the first `n` pixels: each sum times
    /// `pixel_samples_scale`, as the line of a colour.
    pub open spec fn spec_lines(&self, pixels: Seq<Color>, n: nat) -> Seq<char>
        decreases n,
    {
        if n == 0 {
            Seq::empty()
        } else {
            self.spec_lines(pixels, (n - 1) as nat) + pixels[n - 1].scale(
                self.pixel_samples_scale,
            ).spec_format()
        }
    }

    /// The image as text: the header, then a line for each pixel.
    pub open spec fn spec_image_text(&self, pixels: Seq<Color>) -> Seq<char> {
        self.spec_header() + self.spec_lines(pixels, pixels.len())
    }

    /// The height is at least 1 for every quotient.
    #[verifier::when_used_as_spec(spec_height_for)]
    pub fn height_for(ratio: Scalar) -> (r: i32)
        ensures
            r == Self::spec_height_for(ratio),
            r >= 1,
    {
        if ratio.is_nan() || ratio.lt(Scalar::one()) {
            1
        } else {
            proof {
                crate::convert::lemma_whole_part_of_one_or_more(ratio);
            }
            ratio.to_i32()
        }
    }

    /// A camera at `look_from` that looks at `look_at` with `vup` upward,
    /// for an image `image_width` pixels wide and `aspect_ratio` times
    /// wider than high. `vfov` is the vertical field of view and
    /// `defocus_angle` the angle of the lens seen from the plane of focus,
    /// both in degrees; `focus_dist` is the distance of that plane.
    pub fn init(
        aspect_ratio: Scalar,
        image_width: i32,
        samples_per_pixel: u32,
        max_depth: u32,
        vfov: Scalar,
        look_from: Point,
        look_at: Point,
        vup: Vec3,
        defocus_angle: Scalar,
        focus_dist: Scalar,
    ) -> (r: Camera)
        ensures
            r == Camera::spec_init(
                aspect_ratio,
                image_width,
                samples_per_pixel,
                max_depth,
                vfov,
                look_from,
                look_at,
                vup,
                defocus_angle,
                focus_dist,
            ),
            r.image_height >= 1,
    {
        let width = Scalar::from_i32(image_width);
        let ratio = width.div(aspect_ratio);
        let image_height = Self::height_for(ratio);
        let height = Scalar::from_i32(image_height);
        let center = look_from;

        let theta = vfov.to_radians();
        let h = theta.div(Scalar::two()).tan();
        let viewport_height = Scalar::two().mul(h).mul(focus_dist);
        let viewport_width = viewport_height.mul(width).div(height);

        let w = look_from.sub(look_at).normalized();
        let u = vup.cross(w).normalized();
        let v = w.cross(u);

        let viewport_u = u.scale(viewport_width);
        let viewport_v = v.neg().scale(viewport_height);

        let pixel_delta_u = viewport_u.div(width);
        let pixel_delta_v = viewport_v.div(height);

        let viewport_upper_left = center.sub(w.scale(focus_dist)).sub(
            viewport_u.div(Scalar::two()),
        ).sub(viewport_v.div(Scalar::two()));
        let pixel00_loc = viewport_upper_left.add(
            pixel_delta_u.add(pixel_delta_v).scale(Scalar::half()),
        );

        let defocus_radius = focus_dist.mul(defocus_angle.div(Scalar::two()).to_radians().tan());
        let defocus_disk_u = u.scale(defocus_radius);
        let defocus_disk_v = v.scale(defocus_radius);

        let pixel_samples_scale = Scalar::one().div(Scalar::from_u32(samples_per_pixel));

        Camera {
            image_width,
            image_height,
            center,
            pixel00_loc,
            pixel_delta_u,
            pixel_delta_v,
            samples_per_pixel,
            pixel_samples_scale,
            max_depth,
            defocus_angle,
            defocus_disk_u,
            defocus_disk_v,
        }
    }

    /// The colour of the sky along a ray.
    pub fn background(ray: &Ray) -> (c: Color)
        ensures
            c == Self::spec_background(*ray),
    {
        let unit_direction = ray.dir.normalized();
        let a = Scalar::half().mul(unit_direction.y().add(Scalar::one()));
        Vec3::white().scale(Scalar::one().sub(a)).add(
            Vec3::new(Scalar::half(), Scalar { bits: SKY_GREEN_BITS }, Scalar::one()).scale(a),
        )
    }

    /// An estimate of the light that comes back along `ray` from `world`,
    /// following the ray over at most `depth` bounces.
    pub fn ray_color<H: Hittable>(&self, ray: &Ray, world: &H, depth: u32) -> (c: Color)
        ensures
            Self::radiance_outcome(world, *ray, depth as nat, c),
            depth == 0 ==> c == Vec3::black(),
        decreases depth,
    {
        if depth == 0 {
            return Vec3::black();
        }
        let window = Interval::new(Scalar { bits: NEAREST_HIT_BITS }, Scalar::infinity());
        assert(window == Self::hit_window());
        if let Some(hit_rec) = world.hit(ray, window) {
            return if let Some((scattered_ray, attenuation)) = hit_rec.material.scatter(
                ray,
                &hit_rec,
            ) {
                let rest = self.ray_color(&scattered_ray, world, depth - 1);
                let c = attenuation.mul(rest);
                assert(hit_rec.material.scatter_outcome(
                    *ray,
                    hit_rec,
                    Some((scattered_ray, attenuation)),
                ) && Self::radiance_outcome(world, scattered_ray, (depth - 1) as nat, rest) && c
                    == attenuation.spec_mul(rest));
                c
            } else {
                Vec3::black()
            };
        }
        Self::background(ray)
    }

    /// The ray through pixel `(i, j)` for the given draws.
    pub fn ray_through(&self, i: i32, j: i32, offset: Vec3, lens: Vec3) -> (r: Ray)
        ensures
            r == self.spec_ray_through(i, j, offset, lens),
    {
        let pixel_sample = self.pixel00_loc.add(
            self.pixel_delta_u.scale(Scalar::from_i32(i).add(offset.x())),
        ).add(self.pixel_delta_v.scale(Scalar::from_i32(j).add(offset.y())));
        let origin = if self.defocus_angle.le(Scalar::zero()) {
            self.center
        } else {
            self.lens_point(lens)
        };
        let direction = pixel_sample.sub(origin);
        Ray::new(origin, direction)
    }

    /// A ray through a random point of pixel `(i, j)`, from a random point
    /// of the lens where the defocus angle is above zero.
    pub fn ray_at(&self, i: i32, j: i32) -> (r: Ray)
        ensures
            self.ray_outcome(i, j, r),
    {
        let offset = self.sample_square();
        let lens = if self.defocus_angle.le(Scalar::zero()) {
            Vec3::zero()
        } else {
            Vec3::random_in_unit_disk()
        };
        self.ray_through(i, j, offset, lens)
    }

    /// The point of the lens that the disk draw `p` picks.
    pub fn lens_point(&self, p: Vec3) -> (r: Point)
        ensures
            r == self.spec_lens_point(p),
    {
        self.center.add(self.defocus_disk_u.scale(p.x())).add(self.defocus_disk_v.scale(p.y()))
    }

    /// A random point of the lens.
    pub fn defocus_disk_sample(&self) -> (r: Point)
        ensures
            exists|p: Vec3| p.is_disk_draw() && r == #[trigger] self.spec_lens_point(p),
    {
        let p = Vec3::random_in_unit_disk();
        self.lens_point(p)
    }

    /// A draw from the unit square about the origin.
    pub fn sample_square(&self) -> (r: Vec3)
        ensures
            Self::is_square_draw(r),
    {
        let u = random_f64();
        let v = random_f64();
        let r = Vec3::new(u.sub(Scalar::half()), v.sub(Scalar::half()), Scalar::zero());
        assert(r == Self::spec_square(u, v));
        r
    }

    /// The sum of the estimates of `samples_per_pixel` rays through pixel `(i, j)`.
    pub fn sample_pixel<H: Hittable>(&self, world: &H, i: i32, j: i32) -> (c: Color)
        ensures
            self.pixel_outcome(world, i, j, self.samples_per_pixel as nat, c),
    {
        let mut pixel_color = Vec3::new(Scalar::zero(), Scalar::zero(), Scalar::zero());
        let mut n: u32 = 0;
        while n < self.samples_per_pixel
            invariant
                n <= self.samples_per_pixel,
                self.pixel_outcome(world, i, j, n as nat, pixel_color),
            decreases self.samples_per_pixel - n,
        {
            let ray = self.ray_at(i, j);
            let sample = self.ray_color(&ray, world, self.max_depth);
            let ghost sum = pixel_color;
            pixel_color.add_assign(sample);
            n = n + 1;
            assert(self.pixel_outcome(world, i, j, (n - 1) as nat, sum) && self.ray_outcome(
                i,
                j,
                ray,
            ) && Self::radiance_outcome(world, ray, self.max_depth as nat, sample) && pixel_color
                == sum.spec_add(sample));
        }
        pixel_color
    }

    /// The sums of the estimates for all pixels, row after row from the top.
    pub fn render_pixels<H: Hittable>(&self, world: &H) -> (image: Vec<Color>)
        ensures
            self.image_outcome(world, image@),
    {
        let mut image: Vec<Color> = Vec::new();
        let w = self.image_width;
        let h = self.image_height;
        if w <= 0 || h <= 0 {
            return image;
        }
        let mut j: i32 = 0;
        while j < h
            invariant
                w == self.image_width,
                h == self.image_height,
                w > 0,
                0 <= j <= h,
                image@.len() == j * w,
                forall|k: int|
                    0 <= k < image@.len() ==> self.pixel_outcome(
                        world,
                        (k % w as int) as i32,
                        (k / w as int) as i32,
                        self.samples_per_pixel as nat,
                        #[trigger] image@[k],
                    ),
            decreases h - j,
        {
            let mut i: i32 = 0;
            while i < w
                invariant
                    w == self.image_width,
                    h == self.image_height,
                    w > 0,
                    0 <= j < h,
                    0 <= i <= w,
                    image@.len() == j * w + i,
                    forall|k: int|
                        0 <= k < image@.len() ==> self.pixel_outcome(
                            world,
                            (k % w as int) as i32,
                            (k / w as int) as i32,
                            self.samples_per_pixel as nat,
                            #[trigger] image@[k],
                        ),
                decreases w - i,
            {
                let pixel_color = self.sample_pixel(world, i, j);
                proof {
                    lemma_fundamental_div_mod_converse(j * w + i, w as int, j as int, i as int);
                }
                image.push(pixel_color);
                i = i + 1;
            }
            assert((j + 1) * w == j * w + w) by (nonlinear_arith);
            j = j + 1;
        }
        assert(j * w == w * h) by (nonlinear_arith)
            requires
                j == h,
        ;
        image
    }

    /// The header of the image as text.
    pub fn header(&self) -> (r: String)
        ensures
            r@ == self.spec_header(),
    {
        let mut out = String::new();
        out.push('P');
        out.push('3');
        out.push('\n');
        push_decimal(&mut out, self.image_width);
        out.push(' ');
        push_decimal(&mut out, self.image_height);
        out.push('\n');
        out.push('2');
        out.push('5');
        out.push('5');
        out.push('\n');
        assert(out@ =~= self.spec_header());
        out
    }

    /// The image as text, from the sums of estimates that `render_pixels` returns.
    pub fn image_text(&self, pixels: &Vec<Color>) -> (r: String)
        ensures
            r@ == self.spec_image_text(pixels@),
    {
        let mut out = self.header();
        let mut k: usize = 0;
        while k < pixels.len()
            invariant
                k <= pixels@.len(),
                out@ == self.spec_header() + self.spec_lines(pixels@, k as nat),
            decreases pixels@.len() - k,
        {
            pixels[k].scale(self.pixel_samples_scale).push_format(&mut out);
            k = k + 1;
            assert(out@ =~= self.spec_header() + self.spec_lines(pixels@, k as nat));
        }
        out
    }

    /// Renders the scene: the image as text.
    pub fn render(&self, world: &crate::hittable::HittableList) -> (r: String)
        ensures
            exists|pixels: Seq<Color>|
                self.image_outcome(world, pixels) && r@ == #[trigger] self.spec_image_text(pixels),
    {
        let image = self.render_pixels(world);
        self.image_text(&image)
    }
}

} // verus!
