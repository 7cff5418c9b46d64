use raytracer::hittable::HitRecord;
use raytracer::material::{reflectance, Dielectric, Lambertian, Material, MaterialKind, Metal};
use raytracer::ray::Ray;
use raytracer::scalar::Scalar;
use raytracer::vec3::Vec3;

fn m_num(x: f64) -> Scalar {
    Scalar::from_bits(x.to_bits())
}

fn m_val(x: Scalar) -> f64 {
    f64::from_bits(x.to_bits())
}

fn m_vec(x: f64, y: f64, z: f64) -> Vec3 {
    Vec3::new(m_num(x), m_num(y), m_num(z))
}

fn m_parts(v: Vec3) -> [f64; 3] {
    [m_val(v.x()), m_val(v.y()), m_val(v.z())]
}

fn floor_hit(ray: &Ray, material: MaterialKind) -> HitRecord {
    HitRecord::new(ray, &m_vec(0.0, 0.0, 0.0), m_num(1.0), m_vec(0.0, 1.0, 0.0), material)
}

fn unit(v: [f64; 3]) -> [f64; 3] {
    let len = (v[0] * v[0] + v[1] * v[1] + v[2] * v[2]).sqrt();
    let inv = 1.0 / len;
    [v[0] * inv, v[1] * inv, v[2] * inv]
}

fn mirror(v: [f64; 3], n: [f64; 3]) -> [f64; 3] {
    let k = 2.0 * (v[0] * n[0] + v[1] * n[1] + v[2] * n[2]);
    [v[0] - k * n[0], v[1] - k * n[1], v[2] - k * n[2]]
}

#[test]
fn lambertian_keeps_the_albedo_and_leaves_the_point() {
    let l = Lambertian { albedo: m_vec(0.1, 0.2, 0.5) };
    let ray = Ray::new(m_vec(0.0, 1.0, 0.0), m_vec(0.0, -1.0, 0.0));
    let hit = floor_hit(&ray, MaterialKind::Lambertian(l));
    let (scattered, attenuation) = l.scatter_with(&hit, m_vec(0.6, 0.0, 0.8)).expect("scatters");
    assert_eq!(m_parts(attenuation), [0.1, 0.2, 0.5]);
    assert_eq!(m_parts(scattered.origin), [0.0, 0.0, 0.0]);
    assert_eq!(m_parts(scattered.dir), [0.6, 1.0, 0.8]);
}

#[test]
fn lambertian_falls_back_to_the_normal() {
    let l = Lambertian { albedo: m_vec(0.1, 0.2, 0.5) };
    let ray = Ray::new(m_vec(0.0, 1.0, 0.0), m_vec(0.0, -1.0, 0.0));
    let hit = floor_hit(&ray, MaterialKind::Lambertian(l));
    let (scattered, attenuation) = l.scatter_with(&hit, m_vec(0.0, -1.0, 0.0)).expect("scatters");
    assert_eq!(m_parts(scattered.dir), [0.0, 1.0, 0.0]);
    assert_eq!(m_parts(attenuation), [0.1, 0.2, 0.5]);
    let (scattered, _) = l.scatter_with(&hit, m_vec(1e-9, -1.0, 1e-10)).expect("scatters");
    assert_eq!(m_parts(scattered.dir), [0.0, 1.0, 0.0]);
}

#[test]
fn lambertian_keeps_a_sum_with_negative_components() {
    let l = Lambertian { albedo: m_vec(0.1, 0.2, 0.5) };
    let ray = Ray::new(m_vec(-2.0, 0.0, 0.0), m_vec(1.0, 0.0, 0.0));
    let hit = HitRecord::new(
        &ray,
        &m_vec(0.0, 0.0, 0.0),
        m_num(2.0),
        m_vec(-1.0, 0.0, 0.0),
        MaterialKind::Lambertian(l),
    );
    assert_eq!(m_parts(hit.normal), [-1.0, 0.0, 0.0]);
    let (scattered, attenuation) = l.scatter_with(&hit, m_vec(0.0, -1.0, 0.0)).expect("scatters");
    assert_eq!(m_parts(scattered.dir), [-1.0, -1.0, 0.0]);
    assert_eq!(m_parts(scattered.origin), [0.0, 0.0, 0.0]);
    assert_eq!(m_parts(attenuation), [0.1, 0.2, 0.5]);
    let (scattered, _) = l.scatter_with(&hit, m_vec(1.0, 0.0, 0.0)).expect("scatters");
    assert_eq!(m_parts(scattered.dir), [-1.0, 0.0, 0.0]);
    let (scattered, _) = l.scatter_with(&hit, m_vec(1.0, -1e-9, 1e-10)).expect("scatters");
    assert_eq!(m_parts(scattered.dir), [-1.0, 0.0, 0.0]);
}

#[test]
fn lambertian_never_scatters_into_nothing() {
    fastrand::seed(41);
    let l = Lambertian { albedo: m_vec(0.8, 0.8, 0.0) };
    let ray = Ray::new(m_vec(0.0, 1.0, 0.0), m_vec(0.3, -1.0, 0.2));
    let hit = floor_hit(&ray, MaterialKind::Lambertian(l));
    for _ in 0..2_000 {
        let (scattered, attenuation) = l.scatter(&ray, &hit).expect("scatters");
        assert_eq!(m_parts(attenuation), [0.8, 0.8, 0.0]);
        assert_eq!(m_parts(scattered.origin), [0.0, 0.0, 0.0]);
        let d = m_parts(scattered.dir);
        assert!(d == [0.0, 1.0, 0.0] || !scattered.dir.near_zero());
        assert!(!(d[0].abs() < 1e-8 && d[1].abs() < 1e-8 && d[2].abs() < 1e-8));
    }
}

#[test]
fn metal_without_fuzz_is_a_mirror() {
    let m = Metal { albedo: m_vec(0.8, 0.6, 0.2), fuzz: m_num(0.0) };
    let ray = Ray::new(m_vec(-1.0, 1.0, 0.0), m_vec(1.0, -1.0, 0.0));
    let hit = floor_hit(&ray, MaterialKind::Metal(m));
    let want = unit(mirror([1.0, -1.0, 0.0], [0.0, 1.0, 0.0]));
    for rv in [m_vec(0.0, 1.0, 0.0), m_vec(0.6, 0.0, -0.8), m_vec(-1.0, 0.0, 0.0)] {
        let (scattered, attenuation) = m.scatter_with(&ray, &hit, rv).expect("scatters");
        assert_eq!(m_parts(scattered.dir), want);
        assert_eq!(m_parts(scattered.origin), [0.0, 0.0, 0.0]);
        assert_eq!(m_parts(attenuation), [0.8, 0.6, 0.2]);
    }
    let down = Ray::new(m_vec(0.0, 1.0, 0.0), m_vec(0.0, -1.0, 0.0));
    let hit = floor_hit(&down, MaterialKind::Metal(m));
    let (scattered, _) = m.scatter_with(&down, &hit, m_vec(0.6, 0.0, -0.8)).expect("scatters");
    assert_eq!(m_parts(scattered.dir), [0.0, 1.0, 0.0]);
    fastrand::seed(43);
    for _ in 0..200 {
        let (scattered, _) = m.scatter(&ray, &hit).expect("scatters");
        assert_eq!(m_parts(scattered.dir), want);
    }
}

#[test]
fn metal_with_fuzz_moves_the_mirror_image() {
    let m = Metal { albedo: m_vec(0.8, 0.6, 0.2), fuzz: m_num(0.5) };
    let ray = Ray::new(m_vec(0.0, 1.0, 0.0), m_vec(0.0, -1.0, 0.0));
    let hit = floor_hit(&ray, MaterialKind::Metal(m));
    let (scattered, _) = m.scatter_with(&ray, &hit, m_vec(1.0, 0.0, 0.0)).expect("scatters");
    assert_eq!(m_parts(scattered.dir), [0.5, 1.0, 0.0]);
}

#[test]
fn metal_swallows_a_ray_that_would_go_below_the_surface() {
    let m = Metal { albedo: m_vec(0.8, 0.6, 0.2), fuzz: m_num(1.0) };
    let ray = Ray::new(m_vec(-10.0, 1.0, 0.0), m_vec(10.0, -1.0, 0.0));
    let hit = floor_hit(&ray, MaterialKind::Metal(m));
    assert!(m.scatter_with(&ray, &hit, m_vec(0.0, -1.0, 0.0)).is_none());
    assert!(m.scatter_with(&ray, &hit, m_vec(0.0, 1.0, 0.0)).is_some());
}

#[test]
fn dielectric_reflects_beyond_the_critical_angle() {
    let d = Dielectric { refraction_index: m_num(1.5) };
    let ray = Ray::new(m_vec(-1.0, -0.2, 0.0), m_vec(1.0, 0.2, 0.0));
    let hit = floor_hit(&ray, MaterialKind::Dielectric(d));
    assert!(!hit.front_face);
    assert_eq!(m_parts(hit.normal), [-0.0, -1.0, -0.0]);
    assert!(d.cannot_refract(&ray, &hit));
    let u = unit([1.0, 0.2, 0.0]);
    let want = mirror(u, [-0.0, -1.0, -0.0]);
    for draw in [0.0, 0.25, 0.5, 0.9999999] {
        let (scattered, attenuation) = d.scatter_with(&ray, &hit, m_num(draw)).expect("scatters");
        assert_eq!(m_parts(scattered.dir), want);
        assert_eq!(m_parts(scattered.origin), [0.0, 0.0, 0.0]);
        assert_eq!(m_parts(attenuation), [1.0, 1.0, 1.0]);
    }
    fastrand::seed(47);
    for _ in 0..200 {
        let (scattered, _) = d.scatter(&ray, &hit).expect("scatters");
        assert_eq!(m_parts(scattered.dir), want);
    }
    fastrand::seed(47);
    let before = fastrand::u64(..);
    fastrand::seed(47);
    let _ = d.scatter(&ray, &hit);
    assert_eq!(fastrand::u64(..), before);
}

#[test]
fn dielectric_refracts_or_reflects_by_the_draw() {
    let d = Dielectric { refraction_index: m_num(1.5) };
    let ray = Ray::new(m_vec(-0.6, 0.8, 0.0), m_vec(0.6, -0.8, 0.0));
    let hit = floor_hit(&ray, MaterialKind::Dielectric(d));
    assert!(hit.front_face);
    assert!(!d.cannot_refract(&ray, &hit));
    let (refracted, attenuation) = d.scatter_with(&ray, &hit, m_num(0.999)).expect("scatters");
    assert_eq!(m_parts(attenuation), [1.0, 1.0, 1.0]);
    assert!(m_parts(refracted.dir)[1] < 0.0);
    let unit_dir = ray.dir.normalized();
    assert_eq!(
        m_parts(refracted.dir),
        m_parts(unit_dir.refract(hit.normal, m_num(1.0 / 1.5)))
    );
    let (reflected, _) = d.scatter_with(&ray, &hit, m_num(0.0)).expect("scatters");
    assert_eq!(m_parts(reflected.dir), m_parts(unit_dir.reflect(hit.normal)));
    assert!(m_parts(reflected.dir)[1] > 0.0);
}

#[test]
fn reflectance_is_schlicks_estimate() {
    let by_hand = |cosine: f64, index: f64| {
        let r0 = (1.0 - index) / (1.0 + index);
        let r0_2 = r0 * r0;
        let x = 1.0 - cosine;
        let square = x * x;
        r0_2 + (1.0 - r0_2) * (x * (square * square))
    };
    assert_eq!(m_val(reflectance(m_num(1.0), m_num(1.5))), by_hand(1.0, 1.5));
    assert!((m_val(reflectance(m_num(1.0), m_num(1.5))) - 0.04).abs() < 1e-15);
    assert_eq!(m_val(reflectance(m_num(0.0), m_num(1.5))), 1.0);
    for (c, n) in [(0.3, 1.5), (0.8, 1.0 / 1.5), (0.5, 2.4), (0.1, 1.33)] {
        assert_eq!(m_val(reflectance(m_num(c), m_num(n))), by_hand(c, n));
    }
}

#[test]
fn material_kind_hands_on_to_its_material() {
    fastrand::seed(53);
    let ray = Ray::new(m_vec(0.0, 1.0, 0.0), m_vec(0.0, -1.0, 0.0));
    let kinds = [
        (MaterialKind::Lambertian(Lambertian { albedo: m_vec(0.1, 0.2, 0.3) }), [0.1, 0.2, 0.3]),
        (
            MaterialKind::Metal(Metal { albedo: m_vec(0.4, 0.5, 0.6), fuzz: m_num(0.0) }),
            [0.4, 0.5, 0.6],
        ),
        (MaterialKind::Dielectric(Dielectric { refraction_index: m_num(1.5) }), [1.0, 1.0, 1.0]),
    ];
    for (kind, want) in kinds {
        let hit = floor_hit(&ray, kind);
        let (scattered, attenuation) = kind.scatter(&ray, &hit).expect("scatters");
        assert_eq!(m_parts(attenuation), want);
        assert_eq!(m_parts(scattered.origin), [0.0, 0.0, 0.0]);
    }
}
