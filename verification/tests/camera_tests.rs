use raytracer::camera::Camera;
use raytracer::hittable::{HittableKind, HittableList};
use raytracer::material::{Dielectric, Lambertian, MaterialKind, Metal};
use raytracer::ray::Ray;
use raytracer::scalar::Scalar;
use raytracer::sphere::Sphere;
use raytracer::vec3::Vec3;

fn c_num(x: f64) -> Scalar {
    Scalar::from_bits(x.to_bits())
}

fn c_val(x: Scalar) -> f64 {
    f64::from_bits(x.to_bits())
}

fn c_vec(x: f64, y: f64, z: f64) -> Vec3 {
    Vec3::new(c_num(x), c_num(y), c_num(z))
}

fn c_parts(v: Vec3) -> [f64; 3] {
    [c_val(v.x()), c_val(v.y()), c_val(v.z())]
}

fn plain_camera(width: i32, ratio: f64, samples: u32, depth: u32) -> Camera {
    Camera::init(
        c_num(ratio),
        width,
        samples,
        depth,
        c_num(90.0),
        c_vec(0.0, 0.0, 0.0),
        c_vec(0.0, 0.0, -1.0),
        c_vec(0.0, 1.0, 0.0),
        c_num(0.0),
        c_num(1.0),
    )
}

fn one_sphere() -> HittableList {
    HittableList {
        objects: vec![HittableKind::Sphere(Sphere::new(
            c_vec(0.0, 0.0, -1.0),
            c_num(0.5),
            MaterialKind::Lambertian(Lambertian { albedo: c_vec(0.5, 0.5, 0.5) }),
        ))],
    }
}

fn nothing() -> HittableList {
    HittableList { objects: vec![] }
}

#[test]
fn init_derives_the_height_from_the_width() {
    assert_eq!(plain_camera(400, 16.0 / 9.0, 1, 1).image_height, 225);
    assert_eq!(plain_camera(1200, 16.0 / 9.0, 1, 1).image_height, 675);
    assert_eq!(plain_camera(2, 1.0, 1, 1).image_height, 2);
    assert_eq!(plain_camera(100, 3.0, 1, 1).image_height, 33);
}

#[test]
fn init_holds_the_height_to_at_least_one() {
    assert_eq!(plain_camera(1, 16.0 / 9.0, 1, 1).image_height, 1);
    assert_eq!(plain_camera(10, 100.0, 1, 1).image_height, 1);
    assert_eq!(plain_camera(0, 2.0, 1, 1).image_height, 1);
    assert_eq!(plain_camera(-5, 2.0, 1, 1).image_height, 1);
}

#[test]
fn init_lays_out_the_pixel_grid() {
    let cam = plain_camera(2, 1.0, 4, 7);
    assert_eq!(cam.image_width, 2);
    assert_eq!(cam.samples_per_pixel, 4);
    assert_eq!(cam.max_depth, 7);
    assert_eq!(c_val(cam.pixel_samples_scale), 0.25);
    assert_eq!(c_parts(cam.center), [0.0, 0.0, 0.0]);
    let h = c_val(c_num(45.0f64.to_radians()).tan());
    assert!((h - 1.0).abs() < 1e-15);
    let du = c_parts(cam.pixel_delta_u);
    let dv = c_parts(cam.pixel_delta_v);
    assert!((du[0] - h).abs() < 1e-15 && du[1] == 0.0 && du[2] == 0.0);
    assert!((dv[1] + h).abs() < 1e-15 && dv[0] == 0.0 && dv[2] == 0.0);
    let p = c_parts(cam.pixel00_loc);
    assert!((p[0] + 0.5).abs() < 1e-15 && (p[1] - 0.5).abs() < 1e-15 && p[2] == -1.0);
    assert_eq!(c_parts(cam.defocus_disk_u), [0.0, 0.0, 0.0]);
    assert_eq!(c_parts(cam.defocus_disk_v), [0.0, 0.0, 0.0]);
}

#[test]
fn init_builds_the_basis_and_the_lens() {
    let cam = Camera::init(
        c_num(2.0),
        200,
        10,
        5,
        c_num(20.0),
        c_vec(13.0, 2.0, 3.0),
        c_vec(0.0, 0.0, 0.0),
        c_vec(0.0, 1.0, 0.0),
        c_num(0.6),
        c_num(10.0),
    );
    assert_eq!(cam.image_height, 100);
    assert_eq!(c_parts(cam.center), [13.0, 2.0, 3.0]);
    assert_eq!(c_val(cam.defocus_angle), 0.6);
    assert_eq!(c_val(cam.pixel_samples_scale), 0.1);
    let radius = 10.0 * (0.3f64.to_radians()).tan();
    let lens_u = c_parts(cam.defocus_disk_u);
    let lens_v = c_parts(cam.defocus_disk_v);
    let len = |v: [f64; 3]| (v[0] * v[0] + v[1] * v[1] + v[2] * v[2]).sqrt();
    assert!((len(lens_u) - radius).abs() < 1e-12);
    assert!((len(lens_v) - radius).abs() < 1e-12);
    assert!((lens_u[0] * lens_v[0] + lens_u[1] * lens_v[1] + lens_u[2] * lens_v[2]).abs() < 1e-12);
    let viewport_height = 2.0 * (10.0f64.to_radians()).tan() * 10.0;
    assert!((len(c_parts(cam.pixel_delta_v)) - viewport_height / 100.0).abs() < 1e-12);
    assert!((len(c_parts(cam.pixel_delta_u)) - viewport_height * 2.0 / 200.0).abs() < 1e-12);
    let centre = cam.ray_through(100, 50, c_vec(-0.5, -0.5, 0.0), c_vec(0.0, 0.0, 0.0));
    let d = c_parts(centre.dir);
    let want = [-13.0, -2.0, -3.0];
    let scale = d[0] / want[0];
    assert!((scale - 10.0 / len(want)).abs() < 1e-12);
    assert!((d[1] - want[1] * scale).abs() < 1e-12 && (d[2] - want[2] * scale).abs() < 1e-12);
}

#[test]
fn depth_zero_is_black() {
    let cam = plain_camera(2, 1.0, 1, 1);
    let rays = [
        Ray::new(c_vec(0.0, 0.0, 0.0), c_vec(0.0, 0.0, -1.0)),
        Ray::new(c_vec(0.0, 0.0, 0.0), c_vec(0.0, 1.0, 0.0)),
        Ray::new(c_vec(5.0, 5.0, 5.0), c_vec(1.0, 2.0, 3.0)),
    ];
    for ray in rays {
        assert_eq!(cam.ray_color(&ray, &one_sphere(), 0).to_rgb(), [0, 0, 0]);
        assert_eq!(c_parts(cam.ray_color(&ray, &one_sphere(), 0)), [0.0, 0.0, 0.0]);
        assert_eq!(c_parts(cam.ray_color(&ray, &nothing(), 0)), [0.0, 0.0, 0.0]);
    }
}

#[test]
fn background_runs_from_white_to_blue() {
    let cam = plain_camera(2, 1.0, 1, 1);
    let up = Ray::new(c_vec(0.0, 0.0, 0.0), c_vec(0.0, 1.0, 0.0));
    let down = Ray::new(c_vec(0.0, 0.0, 0.0), c_vec(0.0, -1.0, 0.0));
    let level = Ray::new(c_vec(0.0, 0.0, 0.0), c_vec(1.0, 0.0, 0.0));
    assert_eq!(c_parts(cam.ray_color(&up, &nothing(), 1)), [0.5, 0.7, 1.0]);
    assert_eq!(c_parts(cam.ray_color(&down, &nothing(), 1)), [1.0, 1.0, 1.0]);
    assert_eq!(c_parts(cam.ray_color(&level, &nothing(), 5)), [0.75, 0.85, 1.0]);
    assert_eq!(c_parts(Camera::background(&up)), [0.5, 0.7, 1.0]);
    assert_eq!(c_parts(Camera::background(&down)), [1.0, 1.0, 1.0]);
    assert_eq!(c_parts(cam.ray_color(&up, &one_sphere(), 3)), [0.5, 0.7, 1.0]);
}

#[test]
fn a_hit_at_the_last_bounce_is_black() {
    fastrand::seed(59);
    let cam = plain_camera(2, 1.0, 1, 1);
    let ray = Ray::new(c_vec(0.0, 0.0, 0.0), c_vec(0.0, 0.0, -1.0));
    for _ in 0..50 {
        assert_eq!(c_parts(cam.ray_color(&ray, &one_sphere(), 1)), [0.0, 0.0, 0.0]);
    }
}

#[test]
fn a_mirror_shows_the_sky() {
    let cam = plain_camera(2, 1.0, 1, 1);
    let world = HittableList {
        objects: vec![HittableKind::Sphere(Sphere::new(
            c_vec(0.0, -1.0, 0.0),
            c_num(1.0),
            MaterialKind::Metal(Metal { albedo: c_vec(0.5, 1.0, 0.25), fuzz: c_num(0.0) }),
        ))],
    };
    let ray = Ray::new(c_vec(0.0, 5.0, 0.0), c_vec(0.0, -1.0, 0.0));
    assert_eq!(c_parts(cam.ray_color(&ray, &world, 2)), [0.25, 0.7, 0.25]);
    assert_eq!(c_parts(cam.ray_color(&ray, &world, 1)), [0.0, 0.0, 0.0]);
}

#[test]
fn glass_takes_nothing_from_the_light() {
    fastrand::seed(61);
    let cam = plain_camera(2, 1.0, 1, 1);
    let world = HittableList {
        objects: vec![HittableKind::Sphere(Sphere::new(
            c_vec(0.0, 0.0, 0.0),
            c_num(1.0),
            MaterialKind::Dielectric(Dielectric { refraction_index: c_num(1.5) }),
        ))],
    };
    let ray = Ray::new(c_vec(0.0, 5.0, 0.0), c_vec(0.0, -1.0, 0.0));
    for _ in 0..20 {
        let c = c_parts(cam.ray_color(&ray, &world, 50));
        assert!(c == [1.0, 1.0, 1.0] || c == [0.5, 0.7, 1.0], "{c:?}");
    }
}

#[test]
fn rays_pass_through_their_pixels() {
    let cam = plain_camera(2, 1.0, 1, 1);
    let zero = c_vec(0.0, 0.0, 0.0);
    let r = cam.ray_through(0, 0, zero, zero);
    assert_eq!(c_parts(r.origin), [0.0, 0.0, 0.0]);
    assert_eq!(c_parts(r.dir), c_parts(cam.pixel00_loc));
    let r = cam.ray_through(1, 1, zero, zero);
    let d = c_parts(r.dir);
    assert!((d[0] - 0.5).abs() < 1e-15 && (d[1] + 0.5).abs() < 1e-15 && d[2] == -1.0);
    let r = cam.ray_through(0, 0, c_vec(0.5, 0.5, 0.0), zero);
    let d = c_parts(r.dir);
    assert!(d[0].abs() < 1e-15 && d[1].abs() < 1e-15 && d[2] == -1.0);
    fastrand::seed(67);
    for _ in 0..500 {
        let r = cam.ray_at(1, 0);
        let d = c_parts(r.dir);
        assert_eq!(c_parts(r.origin), [0.0, 0.0, 0.0]);
        assert!((0.0..=1.0).contains(&d[0]) && (0.0..=1.0).contains(&d[1]) && d[2] == -1.0);
        let o = c_parts(cam.sample_square());
        assert!((-0.5..0.5).contains(&o[0]) && (-0.5..0.5).contains(&o[1]) && o[2] == 0.0);
    }
}

#[test]
fn the_lens_moves_the_origin() {
    let cam = Camera::init(
        c_num(1.0),
        2,
        1,
        1,
        c_num(90.0),
        c_vec(0.0, 0.0, 0.0),
        c_vec(0.0, 0.0, -1.0),
        c_vec(0.0, 1.0, 0.0),
        c_num(10.0),
        c_num(2.0),
    );
    let radius = c_val(cam.defocus_disk_u.length());
    assert!((radius - 2.0 * (5.0f64.to_radians()).tan()).abs() < 1e-12);
    assert_eq!(c_parts(cam.lens_point(c_vec(0.0, 0.0, 0.0))), [0.0, 0.0, 0.0]);
    let p = c_parts(cam.lens_point(c_vec(1.0, 0.0, 0.0)));
    assert_eq!(p, c_parts(cam.defocus_disk_u));
    let r = cam.ray_through(0, 0, c_vec(0.0, 0.0, 0.0), c_vec(0.5, -0.5, 0.0));
    assert_eq!(c_parts(r.origin), c_parts(cam.lens_point(c_vec(0.5, -0.5, 0.0))));
    let through = c_parts(r.origin.add(r.dir));
    let want = c_parts(cam.pixel00_loc);
    for k in 0..3 {
        assert!((through[k] - want[k]).abs() < 1e-15);
    }
    assert_eq!(c_parts(r.dir), c_parts(cam.pixel00_loc.sub(r.origin)));
    fastrand::seed(71);
    for _ in 0..500 {
        let o = c_parts(cam.defocus_disk_sample());
        assert!((o[0] * o[0] + o[1] * o[1]).sqrt() < radius && o[2] == 0.0);
        let r = cam.ray_at(0, 1);
        let o = c_parts(r.origin);
        assert!((o[0] * o[0] + o[1] * o[1]).sqrt() < radius);
    }
}

#[test]
fn header_names_the_size() {
    assert_eq!(plain_camera(2, 1.0, 1, 1).header(), "P3\n2 2\n255\n");
    assert_eq!(plain_camera(1200, 16.0 / 9.0, 1, 1).header(), "P3\n1200 675\n255\n");
}

#[test]
fn image_text_averages_and_formats() {
    let cam = plain_camera(2, 2.0, 4, 1);
    let pixels = vec![c_vec(4.0, 1.0, 0.0), c_vec(0.0, 2.0, 8.0)];
    assert_eq!(cam.image_text(&pixels), "P3\n2 1\n255\n254 127 0\n0 180 254\n");
    assert_eq!(cam.image_text(&vec![]), "P3\n2 1\n255\n");
}

#[test]
fn sample_pixel_adds_the_samples() {
    let cam = plain_camera(2, 1.0, 3, 4);
    let up = Camera::init(
        c_num(1.0),
        1,
        3,
        4,
        c_num(1e-6),
        c_vec(0.0, 0.0, 0.0),
        c_vec(0.0, 1.0, 0.0),
        c_vec(0.0, 0.0, 1.0),
        c_num(0.0),
        c_num(1.0),
    );
    fastrand::seed(73);
    let c = c_parts(up.sample_pixel(&nothing(), 0, 0));
    assert!((c[0] - 1.5).abs() < 1e-6 && (c[1] - 2.1).abs() < 1e-6 && (c[2] - 3.0).abs() < 1e-6);
    let c = c_parts(cam.sample_pixel(&one_sphere(), 0, 0));
    assert!(c[0] > 0.0 && c[1] > 0.0 && c[2] > 0.0);
    let none = plain_camera(2, 1.0, 0, 4);
    assert_eq!(c_parts(none.sample_pixel(&one_sphere(), 0, 0)), [0.0, 0.0, 0.0]);
}

#[test]
fn render_pixels_fills_the_grid() {
    fastrand::seed(79);
    let cam = plain_camera(3, 1.5, 2, 3);
    assert_eq!(cam.image_height, 2);
    assert_eq!(cam.render_pixels(&one_sphere()).len(), 6);
    let mut none = cam;
    none.image_width = 0;
    assert_eq!(none.render_pixels(&one_sphere()).len(), 0);
    none.image_width = 3;
    none.image_height = -1;
    assert_eq!(none.render_pixels(&one_sphere()).len(), 0);
}

#[test]
fn render_is_reproducible_under_a_seed() {
    let cam = plain_camera(2, 1.0, 1, 1);
    let world = one_sphere();
    fastrand::seed(7);
    let first = cam.render(&world);
    fastrand::seed(7);
    let second = cam.render(&world);
    assert_eq!(first, second);
    assert!(first.starts_with("P3\n2 2\n255\n"));
    assert_eq!(first.lines().count(), 3 + 4);
    assert_eq!(first, "P3\n2 2\n255\n197 222 254\n206 226 254\n225 237 254\n223 236 254\n");
}

#[test]
fn render_of_a_sphere_that_fills_the_view() {
    let cam = Camera::init(
        c_num(1.0),
        2,
        1,
        1,
        c_num(20.0),
        c_vec(0.0, 0.0, 0.0),
        c_vec(0.0, 0.0, -1.0),
        c_vec(0.0, 1.0, 0.0),
        c_num(0.0),
        c_num(1.0),
    );
    for seed in [1, 2, 3] {
        fastrand::seed(seed);
        assert_eq!(cam.render(&one_sphere()), "P3\n2 2\n255\n0 0 0\n0 0 0\n0 0 0\n0 0 0\n");
    }
    let deeper = Camera::init(
        c_num(1.0),
        2,
        8,
        10,
        c_num(20.0),
        c_vec(0.0, 0.0, 0.0),
        c_vec(0.0, 0.0, -1.0),
        c_vec(0.0, 1.0, 0.0),
        c_num(0.0),
        c_num(1.0),
    );
    fastrand::seed(9);
    let first = deeper.render(&one_sphere());
    fastrand::seed(9);
    assert_eq!(deeper.render(&one_sphere()), first);
    assert_ne!(first, "P3\n2 2\n255\n0 0 0\n0 0 0\n0 0 0\n0 0 0\n");
}
