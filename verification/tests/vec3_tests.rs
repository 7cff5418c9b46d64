use raytracer::scalar::Scalar;
use raytracer::text::{push_decimal, push_digits};
use raytracer::vec3::{channel_level, linear_to_gamma, Vec3, SAMPLING_BUDGET};

fn v_num(x: f64) -> Scalar {
    Scalar::from_bits(x.to_bits())
}

fn v_val(x: Scalar) -> f64 {
    f64::from_bits(x.to_bits())
}

fn vec(x: f64, y: f64, z: f64) -> Vec3 {
    Vec3::new(v_num(x), v_num(y), v_num(z))
}

fn parts(v: Vec3) -> [f64; 3] {
    [v_val(v.x()), v_val(v.y()), v_val(v.z())]
}

fn level_by_hand(x: f64) -> i32 {
    let gamma = if x > 0.0 { x.sqrt() } else { 0.0 };
    let held = if gamma <= 0.0 {
        0.0
    } else if gamma >= 0.999 {
        0.999
    } else {
        gamma
    };
    (255.0 * held) as i32
}

#[test]
fn new_and_getters() {
    let v = vec(1.0, -2.0, 3.5);
    assert_eq!(parts(v), [1.0, -2.0, 3.5]);
    assert_eq!(parts(Vec3::zero()), [0.0, 0.0, 0.0]);
    assert_eq!(parts(Vec3::black()), [0.0, 0.0, 0.0]);
    assert_eq!(parts(Vec3::white()), [1.0, 1.0, 1.0]);
}

#[test]
fn dot_and_lengths() {
    let a = vec(1.0, 2.0, 3.0);
    let b = vec(4.0, -5.0, 6.0);
    assert_eq!(v_val(a.dot(b)), 12.0);
    assert_eq!(v_val(a.length_squared()), 14.0);
    assert_eq!(v_val(vec(3.0, 4.0, 0.0).length()), 5.0);
    let c = vec(0.1, 0.2, 0.3);
    let d = vec(0.7, -0.4, 0.9);
    assert_eq!(v_val(c.dot(d)), 0.1 * 0.7 + 0.2 * -0.4 + 0.3 * 0.9);
    assert_eq!(v_val(c.length()), (0.1f64 * 0.1 + 0.2 * 0.2 + 0.3 * 0.3).sqrt());
}

#[test]
fn cross_is_right_handed() {
    assert_eq!(parts(vec(1.0, 0.0, 0.0).cross(vec(0.0, 1.0, 0.0))), [0.0, 0.0, 1.0]);
    assert_eq!(parts(vec(0.0, 1.0, 0.0).cross(vec(0.0, 0.0, 1.0))), [1.0, 0.0, 0.0]);
    assert_eq!(parts(vec(1.0, 2.0, 3.0).cross(vec(4.0, 5.0, 6.0))), [-3.0, 6.0, -3.0]);
}

#[test]
fn arithmetic_by_component() {
    let a = vec(1.0, 2.0, 3.0);
    let b = vec(0.5, -1.0, 4.0);
    assert_eq!(parts(a.add(b)), [1.5, 1.0, 7.0]);
    assert_eq!(parts(a.sub(b)), [0.5, 3.0, -1.0]);
    assert_eq!(parts(a.mul(b)), [0.5, -2.0, 12.0]);
    assert_eq!(parts(a.neg()), [-1.0, -2.0, -3.0]);
    assert_eq!(parts(a.scale(v_num(2.0))), [2.0, 4.0, 6.0]);
    assert_eq!(parts(a.div(v_num(2.0))), [0.5, 1.0, 1.5]);
    assert_eq!(parts(a.div(v_num(3.0))), [1.0 * (1.0 / 3.0), 2.0 * (1.0 / 3.0), 3.0 * (1.0 / 3.0)]);
}

#[test]
fn assigning_arithmetic() {
    let mut a = vec(1.0, 2.0, 3.0);
    a.add_assign(vec(1.0, 1.0, 1.0));
    assert_eq!(parts(a), [2.0, 3.0, 4.0]);
    a.sub_assign(vec(0.5, 0.5, 0.5));
    assert_eq!(parts(a), [1.5, 2.5, 3.5]);
    a.mul_assign(v_num(2.0));
    assert_eq!(parts(a), [3.0, 5.0, 7.0]);
    a.div_assign(v_num(4.0));
    assert_eq!(parts(a), [0.75, 1.25, 1.75]);
}

#[test]
fn normalized_has_unit_length() {
    assert_eq!(parts(vec(0.0, 3.0, 0.0).normalized()), [0.0, 3.0 * (1.0 / 3.0), 0.0]);
    assert_eq!(parts(vec(0.0, 0.0, -2.0).normalized()), [0.0, 0.0, -1.0]);
    let n = vec(1.0, 2.0, -2.0).normalized();
    assert!((v_val(n.length()) - 1.0).abs() < 1e-15);
    let z = parts(Vec3::zero().normalized());
    assert!(z[0].is_nan() && z[1].is_nan() && z[2].is_nan());
}

#[test]
fn near_zero_looks_at_every_component() {
    assert!(vec(0.0, 0.0, 0.0).near_zero());
    assert!(vec(1e-9, 1e-9, 1e-9).near_zero());
    assert!(!vec(1e-9, 1e-7, 1e-9).near_zero());
    assert!(!vec(1.0, 0.0, 0.0).near_zero());
    assert!(!vec(1e-8, 0.0, 0.0).near_zero());
    assert!(!vec(f64::NAN, 0.0, 0.0).near_zero());
    assert!(!vec(-1.0, -1.0, -1.0).near_zero());
    assert!(!vec(-1.0, 0.0, 0.0).near_zero());
    assert!(!vec(0.0, -1e-7, 0.0).near_zero());
    assert!(!vec(-1e-8, 0.0, 0.0).near_zero());
    assert!(vec(1e-9, -1e-9, 0.0).near_zero());
    assert!(vec(-1e-9, -1e-9, -1e-9).near_zero());
    assert!(vec(-0.0, -0.0, -0.0).near_zero());
    assert!(!vec(f64::NEG_INFINITY, 0.0, 0.0).near_zero());
}

#[test]
fn reflect_mirrors_about_the_normal() {
    let n = vec(0.0, 1.0, 0.0);
    assert_eq!(parts(vec(1.0, -1.0, 0.0).reflect(n)), [1.0, 1.0, 0.0]);
    assert_eq!(parts(vec(0.0, -1.0, 0.0).reflect(n)), [0.0, 1.0, 0.0]);
    assert_eq!(parts(vec(0.5, -0.25, 2.0).reflect(n)), [0.5, 0.25, 2.0]);
}

#[test]
fn refract_goes_straight_through_at_equal_indices() {
    let n = vec(0.0, 1.0, 0.0);
    let down = vec(0.0, -1.0, 0.0);
    assert_eq!(parts(down.refract(n, v_num(1.0))), [0.0, -1.0, 0.0]);
    assert_eq!(parts(down.refract(n, v_num(1.5))), [0.0, -1.0, 0.0]);
}

#[test]
fn refract_follows_snell() {
    let n = vec(0.0, 1.0, 0.0);
    let v = vec(0.6, -0.8, 0.0);
    let eta = 1.0 / 1.5;
    let cos_theta = f64::min(-(0.6 * 0.0 + -0.8 * 1.0 + 0.0 * 0.0), 1.0);
    let perp = [eta * (0.6 + cos_theta * 0.0), eta * (-0.8 + cos_theta * 1.0), eta * (0.0 + cos_theta * 0.0)];
    let perp_len2 = perp[0] * perp[0] + perp[1] * perp[1] + perp[2] * perp[2];
    let k = -f64::sqrt(f64::abs(1.0 - perp_len2));
    let want = [perp[0] + k * 0.0, perp[1] + k * 1.0, perp[2] + k * 0.0];
    assert_eq!(parts(v.refract(n, v_num(eta))), want);
    assert!((want[0] - 0.4).abs() < 1e-15);
}

#[test]
fn toward_turns_to_the_side_of_the_normal() {
    let n = vec(0.0, 1.0, 0.0);
    assert_eq!(parts(vec(0.3, 0.5, 0.0).toward(n)), [0.3, 0.5, 0.0]);
    assert_eq!(parts(vec(0.3, -0.5, 0.0).toward(n)), [-0.3, 0.5, -0.0]);
    assert_eq!(parts(vec(0.3, 0.0, 0.0).toward(n)), [-0.3, -0.0, -0.0]);
}

#[test]
fn random_vectors_lie_in_their_cubes() {
    fastrand::seed(17);
    for _ in 0..2_000 {
        for x in parts(Vec3::random()) {
            assert!((0.0..1.0).contains(&x));
        }
        for x in parts(Vec3::random_clamped(v_num(-2.0), v_num(3.0))) {
            assert!((-2.0..3.0).contains(&x));
        }
    }
}

#[test]
fn rejection_sampling_ends_under_a_seed() {
    assert_eq!(SAMPLING_BUDGET, u64::MAX);
    fastrand::seed(23);
    for _ in 0..5_000 {
        let p = Vec3::random_in_unit_sphere();
        assert!(v_val(p.length_squared()) < 1.0);
        let d = Vec3::random_in_unit_disk();
        assert!(v_val(d.length()) < 1.0);
        assert_eq!(v_val(d.z()), 0.0);
    }
}

#[test]
fn random_directions_have_unit_length() {
    fastrand::seed(29);
    let n = vec(0.0, 0.0, 1.0);
    for _ in 0..2_000 {
        let u = Vec3::random_unit_vector();
        assert!((v_val(u.length()) - 1.0).abs() < 1e-12);
        let h = Vec3::random_on_hemisphere(n);
        assert!((v_val(h.length()) - 1.0).abs() < 1e-12);
        assert!(!(v_val(h.dot(n)) < 0.0));
    }
}

#[test]
fn random_vectors_follow_the_seed() {
    fastrand::seed(31);
    let a = parts(Vec3::random_unit_vector());
    let b = parts(Vec3::random_in_unit_disk());
    fastrand::seed(31);
    assert_eq!(parts(Vec3::random_unit_vector()), a);
    assert_eq!(parts(Vec3::random_in_unit_disk()), b);
}

#[test]
fn gamma_is_the_square_root() {
    assert_eq!(v_val(linear_to_gamma(v_num(0.25))), 0.5);
    assert_eq!(v_val(linear_to_gamma(v_num(0.0))), 0.0);
    assert_eq!(v_val(linear_to_gamma(v_num(-4.0))), 0.0);
    assert_eq!(v_val(linear_to_gamma(v_num(f64::NAN))), 0.0);
    assert_eq!(v_val(linear_to_gamma(v_num(2.0))), std::f64::consts::SQRT_2);
}

#[test]
fn levels_of_a_colour() {
    assert_eq!(channel_level(v_num(0.0)), 0);
    assert_eq!(channel_level(v_num(0.25)), 127);
    assert_eq!(channel_level(v_num(1.0)), 254);
    assert_eq!(channel_level(v_num(7.0)), 254);
    assert_eq!(channel_level(v_num(-1.0)), 0);
    assert_eq!(vec(0.0, 0.25, 1.0).to_rgb(), [0, 127, 254]);
    assert_eq!(vec(0.5, 0.7, 1.0).to_rgb(), [level_by_hand(0.5), level_by_hand(0.7), 254]);
}

#[test]
fn format_writes_a_line() {
    assert_eq!(vec(0.0, 0.25, 1.0).format(), "0 127 254\n");
    assert_eq!(vec(1.0, 1.0, 1.0).format(), "254 254 254\n");
    assert_eq!(vec(0.01, 0.0001, 0.5).format(), format!("{} {} {}\n", level_by_hand(0.01), 2, 180));
    let mut out = String::from("x");
    vec(0.0, 0.0, 0.0).push_format(&mut out);
    assert_eq!(out, "x0 0 0\n");
}

#[test]
fn levels_never_fall_as_the_intensity_rises() {
    let mut last = channel_level(v_num(0.0));
    let steps = 1 << 16;
    for k in 0..=steps {
        let x = k as f64 / steps as f64;
        let level = channel_level(v_num(x));
        assert!(level >= last, "{x}");
        assert!((0..=254).contains(&level));
        assert_eq!(level, level_by_hand(x));
        last = level;
    }
    assert_eq!(last, 254);
}

#[test]
fn decimal_text_of_integers() {
    for n in [0i32, 7, 10, 99, 100, 254, 1200, -1, -10, -675, i32::MAX, i32::MIN] {
        let mut out = String::new();
        push_decimal(&mut out, n);
        assert_eq!(out, format!("{n}"));
    }
    for n in [0u64, 9, 10, 12345678901234567890, u64::MAX] {
        let mut out = String::from("n=");
        push_digits(&mut out, n);
        assert_eq!(out, format!("n={n}"));
    }
}

#[test]
fn vectors_compare_by_component() {
    assert_eq!(vec(1.0, 2.0, 3.0), vec(1.0, 2.0, 3.0));
    assert_eq!(vec(0.0, -0.0, 3.0), vec(-0.0, 0.0, 3.0));
    assert_ne!(vec(1.0, 2.0, 3.0), vec(1.0, 2.0, 3.5));
    assert_ne!(vec(f64::NAN, 2.0, 3.0), vec(f64::NAN, 2.0, 3.0));
    assert_eq!(vec(1.0, 2.0, 3.0).add(vec(1.0, 1.0, 1.0)), vec(2.0, 3.0, 4.0));
}

#[test]
fn ball_and_disk_are_open() {
    assert!(vec(0.0, 0.0, 0.0).in_unit_ball());
    assert!(vec(0.5, 0.5, 0.5).in_unit_ball());
    assert!(!vec(1.0, 0.0, 0.0).in_unit_ball());
    assert!(!vec(0.6, 0.6, 0.6).in_unit_ball());
    assert!(!vec(f64::NAN, 0.0, 0.0).in_unit_ball());
    assert!(vec(0.6, 0.6, 0.0).in_unit_disk());
    assert!(!vec(0.0, 1.0, 0.0).in_unit_disk());
    assert!(!vec(0.8, 0.8, 0.0).in_unit_disk());
}
