//! Scenes to render: two small ones, and a field of random spheres.

use vstd::prelude::*;
use crate::hittable::{HittableKind, HittableList};
use crate::material::{Dielectric, Lambertian, MaterialKind, Metal};
use crate::random::{random_f64, random_f64_between};
use crate::scalar::Scalar;
use crate::sphere::Sphere;
use crate::vec3::{Color, Point, Vec3};

verus! {

/// `n / 10`.
pub open spec fn spec_tenths(n: int) -> Scalar {
    Scalar::spec_ratio(n, 10)
}

pub fn tenths(n: i32) -> (r: Scalar)
    ensures
        r == spec_tenths(n as int),
{
    Scalar::ratio(n, 10)
}

/// The vector `(x / 10, y / 10, z / 10)`.
pub open spec fn spec_tenths3(x: int, y: int, z: int) -> Vec3 {
    Vec3 { x: spec_tenths(x), y: spec_tenths(y), z: spec_tenths(z) }
}

pub fn tenths3(x: i32, y: i32, z: i32) -> (r: Vec3)
    ensures
        r == spec_tenths3(x as int, y as int, z as int),
{
    Vec3::new(tenths(x), tenths(y), tenths(z))
}

/// A matt sphere.
pub open spec fn spec_matt(center: Point, radius: Scalar, albedo: Color) -> HittableKind {
    HittableKind::Sphere(
        Sphere { center, radius, material: MaterialKind::Lambertian(Lambertian { albedo }) },
    )
}

/// A mirroring sphere.
pub open spec fn spec_mirror(center: Point, radius: Scalar, albedo: Color, fuzz: Scalar) -> HittableKind {
    HittableKind::Sphere(
        Sphere { center, radius, material: MaterialKind::Metal(Metal { albedo, fuzz }) },
    )
}

/// A clear sphere.
pub open spec fn spec_glass(center: Point, radius: Scalar, refraction_index: Scalar) -> HittableKind {
    HittableKind::Sphere(
        Sphere {
            center,
            radius,
            material: MaterialKind::Dielectric(Dielectric { refraction_index }),
        },
    )
}

fn matt(center: Point, radius: Scalar, albedo: Color) -> (r: HittableKind)
    ensures
        r == spec_matt(center, radius, albedo),
{
    HittableKind::Sphere(
        Sphere::new(center, radius, MaterialKind::Lambertian(Lambertian { albedo })),
    )
}

fn mirror(center: Point, radius: Scalar, albedo: Color, fuzz: Scalar) -> (r: HittableKind)
    ensures
        r == spec_mirror(center, radius, albedo, fuzz),
{
    HittableKind::Sphere(Sphere::new(center, radius, MaterialKind::Metal(Metal { albedo, fuzz })))
}

fn glass(center: Point, radius: Scalar, refraction_index: Scalar) -> (r: HittableKind)
    ensures
        r == spec_glass(center, radius, refraction_index),
{
    HittableKind::Sphere(
        Sphere::new(center, radius, MaterialKind::Dielectric(Dielectric { refraction_index })),
    )
}

/// A yellow-green ground with three spheres on it: a blue matt one in the
/// middle, a hollow glass one to the left and a fuzzy golden mirror to the right.
pub open spec fn spec_old_world() -> Seq<HittableKind> {
    seq![
        spec_matt(spec_tenths3(0, -1005, -10), spec_tenths(1000), spec_tenths3(8, 8, 0)),
        spec_matt(spec_tenths3(0, 0, -12), spec_tenths(5), spec_tenths3(1, 2, 5)),
        spec_glass(spec_tenths3(-10, 0, -10), spec_tenths(5), spec_tenths(15)),
        spec_glass(spec_tenths3(-10, 0, -10), spec_tenths(4), Scalar::one().div(spec_tenths(15))),
        spec_mirror(spec_tenths3(10, 0, -10), spec_tenths(5), spec_tenths3(8, 6, 2), Scalar::one()),
    ]
}

pub fn old_world() -> (world: HittableList)
    ensures
        world@ == spec_old_world(),
{
    let mut world = HittableList { objects: Vec::new() };
    world.objects.push(matt(tenths3(0, -1005, -10), tenths(1000), tenths3(8, 8, 0)));
    world.objects.push(matt(tenths3(0, 0, -12), tenths(5), tenths3(1, 2, 5)));
    world.objects.push(glass(tenths3(-10, 0, -10), tenths(5), tenths(15)));
    world.objects.push(glass(tenths3(-10, 0, -10), tenths(4), Scalar::one().div(tenths(15))));
    world.objects.push(mirror(tenths3(10, 0, -10), tenths(5), tenths3(8, 6, 2), Scalar::one()));
    assert(world@ =~= spec_old_world());
    world
}

/// The pattern of a quarter of pi.
pub const QUARTER_PI_BITS: u64 = 0x3fe9_21fb_5444_2d18;

/// Two matt spheres that touch, a blue one to the left and a red one to
/// the right, of radius `cos(pi / 4)`.
pub open spec fn spec_new_world() -> Seq<HittableKind> {
    let r = Scalar { bits: QUARTER_PI_BITS }.cos();
    seq![
        spec_matt(Vec3 { x: r.neg(), y: Scalar::zero(), z: spec_tenths(-10) }, r, spec_tenths3(0, 0, 10)),
        spec_matt(Vec3 { x: r, y: Scalar::zero(), z: spec_tenths(-10) }, r, spec_tenths3(10, 0, 0)),
    ]
}

pub fn new_world() -> (world: HittableList)
    ensures
        world@ == spec_new_world(),
{
    let mut world = HittableList { objects: Vec::new() };
    let r = Scalar { bits: QUARTER_PI_BITS }.cos();
    world.objects.push(
        matt(Vec3::new(r.neg(), Scalar::zero(), tenths(-10)), r, tenths3(0, 0, 10)),
    );
    world.objects.push(matt(Vec3::new(r, Scalar::zero(), tenths(-10)), r, tenths3(10, 0, 0)));
    assert(world@ =~= spec_new_world());
    world
}

/// The grey ground of the field of spheres.
pub open spec fn spec_ground() -> HittableKind {
    spec_matt(spec_tenths3(0, -10000, 0), spec_tenths(10000), spec_tenths3(5, 5, 5))
}

/// The three large spheres of the field: glass, brown matt, and a clean mirror.
pub open spec fn spec_landmarks() -> Seq<HittableKind> {
    seq![
        spec_glass(spec_tenths3(0, 10, 0), spec_tenths(10), spec_tenths(15)),
        spec_matt(spec_tenths3(-40, 10, 0), spec_tenths(10), spec_tenths3(4, 2, 1)),
        spec_mirror(spec_tenths3(40, 10, 0), spec_tenths(10), spec_tenths3(7, 6, 5), Scalar::zero()),
    ]
}

/// Where the small sphere of cell `(a, b)` lies for the unit draws `u` and
/// `v`: on the ground, up to nine tenths into the cell.
pub open spec fn spec_cell_center(a: i32, b: i32, u: Scalar, v: Scalar) -> Point {
    Vec3 {
        x: Scalar::spec_from_int(a as int).add(spec_tenths(9).mul(u)),
        y: spec_tenths(2),
        z: Scalar::spec_from_int(b as int).add(spec_tenths(9).mul(v)),
    }
}

#[verifier::when_used_as_spec(spec_cell_center)]
pub fn cell_center(a: i32, b: i32, u: Scalar, v: Scalar) -> (r: Point)
    ensures
        r == spec_cell_center(a, b, u, v),
{
    Vec3::new(
        Scalar::from_i32(a).add(tenths(9).mul(u)),
        tenths(2),
        Scalar::from_i32(b).add(tenths(9).mul(v)),
    )
}

/// Whether a small sphere at `center` keeps clear of the large mirror:
/// farther than nine tenths from `(4, 0.2, 0)`.
pub open spec fn spec_keeps_clear(center: Point) -> bool {
    center.sub(spec_tenths3(40, 2, 0)).length().gt(spec_tenths(9))
}

#[verifier::when_used_as_spec(spec_keeps_clear)]
pub fn keeps_clear(center: Point) -> (r: bool)
    ensures
        r == spec_keeps_clear(center),
{
    center.sub(tenths3(40, 2, 0)).length().gt(tenths(9))
}

/// What the material of a small sphere may be for the draw `choose_mat`:
/// below `0.8` matt, its albedo the product of two draws from the unit
/// cube; else below `0.95` a mirror, its albedo a draw from the unit cube
/// and its fuzz a draw between 0 and one half; else glass.
pub open spec fn is_small_material(choose_mat: Scalar, m: MaterialKind) -> bool {
    if choose_mat.lt(spec_tenths(8)) {
        m matches MaterialKind::Lambertian(l) && exists|c1: Vec3, c2: Vec3|
            c1.is_unit_cube_draw() && c2.is_unit_cube_draw() && l.albedo == #[trigger] c1.spec_mul(
                c2,
            )
    } else if choose_mat.lt(Scalar::spec_ratio(95, 100)) {
        m matches MaterialKind::Metal(metal) && metal.albedo.is_unit_cube_draw()
            && metal.fuzz.is_draw_between(Scalar::zero(), Scalar::half())
    } else {
        m == MaterialKind::Dielectric(Dielectric { refraction_index: spec_tenths(15) })
    }
}

/// A material for a small sphere, picked by `choose_mat`.
pub fn small_material(choose_mat: Scalar) -> (m: MaterialKind)
    ensures
        is_small_material(choose_mat, m),
{
    if choose_mat.lt(tenths(8)) {
        let c1 = Vec3::random();
        let c2 = Vec3::random();
        let albedo = c1.mul(c2);
        MaterialKind::Lambertian(Lambertian { albedo })
    } else if choose_mat.lt(Scalar::ratio(95, 100)) {
        let albedo = Vec3::random();
        let fuzz = random_f64_between(Scalar::zero(), Scalar::half());
        MaterialKind::Metal(Metal { albedo, fuzz })
    } else {
        MaterialKind::Dielectric(Dielectric { refraction_index: tenths(15) })
    }
}

/// What a small sphere of the field is: of radius `0.2`, on the ground in
/// one of the cells from -11 to 10 each way, clear of the large mirror, of
/// a material picked by a unit draw.
pub open spec fn is_small_sphere(object: HittableKind) -> bool {
    object matches HittableKind::Sphere(s) && {
        &&& s.radius == spec_tenths(2)
        &&& spec_keeps_clear(s.center)
        &&& exists|a: i32, b: i32, u: Scalar, v: Scalar|
            -11 <= a < 11 && -11 <= b < 11 && u.is_unit_draw() && v.is_unit_draw() && s.center
                == #[trigger] spec_cell_center(a, b, u, v)
        &&& exists|choose_mat: Scalar|
            choose_mat.is_unit_draw() && #[trigger] is_small_material(choose_mat, s.material)
    }
}

/// What the field of spheres may be: the ground, then at most one small
/// sphere for each of the 484 cells, then the three large spheres.
pub open spec fn is_final_world(world: Seq<HittableKind>) -> bool {
    &&& 4 <= world.len() <= 488
    &&& world[0] == spec_ground()
    &&& world.subrange(world.len() - 3, world.len() as int) == spec_landmarks()
    &&& forall|k: int| 1 <= k < world.len() - 3 ==> is_small_sphere(#[trigger] world[k])
}

pub fn final_world() -> (world: HittableList)
    ensures
        is_final_world(world@),
{
    let mut world = HittableList { objects: Vec::new() };
    world.objects.push(matt(tenths3(0, -10000, 0), tenths(10000), tenths3(5, 5, 5)));

    let mut a: i32 = -11;
    while a < 11
        invariant
            -11 <= a <= 11,
            1 <= world@.len() <= 1 + (a + 11) * 22,
            world@[0] == spec_ground(),
            forall|k: int| 1 <= k < world@.len() ==> is_small_sphere(#[trigger] world@[k]),
        decreases 11 - a,
    {
        let mut b: i32 = -11;
        while b < 11
            invariant
                -11 <= a < 11,
                -11 <= b <= 11,
                1 <= world@.len() <= 1 + (a + 11) * 22 + (b + 11),
                world@[0] == spec_ground(),
                forall|k: int| 1 <= k < world@.len() ==> is_small_sphere(#[trigger] world@[k]),
            decreases 11 - b,
        {
            let choose_mat = random_f64();
            let u = random_f64();
            let v = random_f64();
            let center = cell_center(a, b, u, v);
            if keeps_clear(center) {
                let sphere_mat = small_material(choose_mat);
                let object = HittableKind::Sphere(Sphere::new(center, tenths(2), sphere_mat));
                assert(is_small_sphere(object));
                world.objects.push(object);
            }
            b = b + 1;
        }
        a = a + 1;
    }
    world.objects.push(glass(tenths3(0, 10, 0), tenths(10), tenths(15)));
    world.objects.push(matt(tenths3(-40, 10, 0), tenths(10), tenths3(4, 2, 1)));
    world.objects.push(mirror(tenths3(40, 10, 0), tenths(10), tenths3(7, 6, 5), Scalar::zero()));
    assert(world@.subrange(world@.len() - 3, world@.len() as int) =~= spec_landmarks());
    world
}

} // verus!
