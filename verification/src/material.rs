//! How a surface sends a ray on: diffuse, mirroring and refracting materials.

use vstd::prelude::*;
use crate::hittable::HitRecord;
use crate::random::random_f64;
use crate::ray::Ray;
use crate::scalar::Scalar;
use crate::vec3::{Color, Vec3};

verus! {

/// What a surface does to a ray that hits it.
pub trait Material {
    /// Whether `out` is something that `scatter` may return.
    spec fn scatter_outcome(&self, ray_in: Ray, hit_rec: HitRecord, out: Option<(Ray, Color)>) -> bool;

    /// The ray that leaves the surface and the share of each colour that it
    /// keeps; nothing where the surface swallows the ray.
    fn scatter(&self, ray_in: &Ray, hit_rec: &HitRecord) -> (r: Option<(Ray, Color)>)
        ensures
            self.scatter_outcome(*ray_in, *hit_rec, r),
    ;
}

/// The materials that a surface can have.
#[derive(Clone, Copy, Debug)]
pub enum MaterialKind {
    Metal(Metal),
    Lambertian(Lambertian),
    Dielectric(Dielectric),
}

impl Material for MaterialKind {
    open spec fn scatter_outcome(
        &self,
        ray_in: Ray,
        hit_rec: HitRecord,
        out: Option<(Ray, Color)>,
    ) -> bool {
        match self {
            MaterialKind::Metal(m) => m.scatter_outcome(ray_in, hit_rec, out),
            MaterialKind::Lambertian(l) => l.scatter_outcome(ray_in, hit_rec, out),
            MaterialKind::Dielectric(d) => d.scatter_outcome(ray_in, hit_rec, out),
        }
    }

    fn scatter(&self, ray_in: &Ray, hit_rec: &HitRecord) -> (r: Option<(Ray, Color)>) {
        match self {
            MaterialKind::Metal(m) => m.scatter(ray_in, hit_rec),
            MaterialKind::Lambertian(l) => l.scatter(ray_in, hit_rec),
            MaterialKind::Dielectric(d) => d.scatter(ray_in, hit_rec),
        }
    }
}

/// A mirror of colour `albedo`, blurred by `fuzz` (from 0 to 1).
#[derive(Clone, Copy, Debug)]
pub struct Metal {
    pub albedo: Color,
    pub fuzz: Scalar,
}

impl Metal {
    /// The direction that leaves: the unit mirror image of the incoming
    /// direction, moved by `fuzz` times the random direction `rv`.
    pub open spec fn scattered_dir(&self, ray_in: Ray, hit_rec: HitRecord, rv: Vec3) -> Vec3 {
        ray_in.dir.reflect(hit_rec.normal).normalized().add(rv.scale(self.fuzz))
    }

    /// The ray leaves from the point of the hit with the albedo, where its
    /// direction has a positive product with the normal; else it is swallowed.
    pub open spec fn spec_scatter_with(&self, ray_in: Ray, hit_rec: HitRecord, rv: Vec3) -> Option<
        (Ray, Color),
    > {
        let dir = self.scattered_dir(ray_in, hit_rec, rv);
        if dir.dot(hit_rec.normal).gt(Scalar::zero()) {
            Some((Ray { origin: hit_rec.point, dir }, self.albedo))
        } else {
            None
        }
    }

    /// What the surface does where the random direction is `rv`.
    pub fn scatter_with(&self, ray_in: &Ray, hit_rec: &HitRecord, rv: Vec3) -> (r: Option<
        (Ray, Color),
    >)
        ensures
            r == self.spec_scatter_with(*ray_in, *hit_rec, rv),
    {
        let mut reflected = ray_in.dir.reflect(hit_rec.normal);
        reflected = reflected.normalized().add(rv.scale(self.fuzz));
        let scattered = Ray::new(hit_rec.point, reflected);
        if scattered.dir.dot(hit_rec.normal).gt(Scalar::zero()) {
            Some((scattered, self.albedo))
        } else {
            None
        }
    }
}

impl Material for Metal {
    open spec fn scatter_outcome(
        &self,
        ray_in: Ray,
        hit_rec: HitRecord,
        out: Option<(Ray, Color)>,
    ) -> bool {
        exists|rv: Vec3|
            rv.is_direction_draw() && out == #[trigger] self.spec_scatter_with(ray_in, hit_rec, rv)
    }

    fn scatter(&self, ray_in: &Ray, hit_rec: &HitRecord) -> (r: Option<(Ray, Color)>) {
        let rv = Vec3::random_unit_vector();
        self.scatter_with(ray_in, hit_rec, rv)
    }
}

/// A matt surface of colour `albedo`.
#[derive(Clone, Copy, Debug)]
pub struct Lambertian {
    pub albedo: Color,
}

impl Lambertian {
    /// The direction that leaves, from the normal and its sum with the
    /// random direction: the sum, or the normal where the sum all but vanishes.
    pub open spec fn spec_guarded(normal: Vec3, sum: Vec3) -> Vec3 {
        if sum.near_zero() {
            normal
        } else {
            sum
        }
    }

    /// The direction that leaves: the normal plus the random direction `rv`,
    /// or the normal alone where that sum all but vanishes.
    pub open spec fn scattered_dir(&self, hit_rec: HitRecord, rv: Vec3) -> Vec3 {
        Self::spec_guarded(hit_rec.normal, hit_rec.normal.add(rv))
    }

    #[verifier::when_used_as_spec(spec_guarded)]
    pub fn guarded(normal: Vec3, sum: Vec3) -> (r: Vec3)
        ensures
            r == Self::spec_guarded(normal, sum),
            r == normal || !r.near_zero(),
    {
        if sum.near_zero() {
            normal
        } else {
            sum
        }
    }

    /// The ray always leaves, from the point of the hit, with the albedo.
    pub open spec fn spec_scatter_with(&self, hit_rec: HitRecord, rv: Vec3) -> Option<
        (Ray, Color),
    > {
        Some((Ray { origin: hit_rec.point, dir: self.scattered_dir(hit_rec, rv) }, self.albedo))
    }

    /// What the surface does where the random direction is `rv`.
    pub fn scatter_with(&self, hit_rec: &HitRecord, rv: Vec3) -> (r: Option<(Ray, Color)>)
        ensures
            r == self.spec_scatter_with(*hit_rec, rv),
    {
        let scatter_direction = Self::guarded(hit_rec.normal, hit_rec.normal.add(rv));
        Some((Ray::new(hit_rec.point, scatter_direction), self.albedo))
    }
}

impl Material for Lambertian {
    open spec fn scatter_outcome(
        &self,
        ray_in: Ray,
        hit_rec: HitRecord,
        out: Option<(Ray, Color)>,
    ) -> bool {
        exists|rv: Vec3|
            rv.is_direction_draw() && out == #[trigger] self.spec_scatter_with(hit_rec, rv)
    }

    fn scatter(&self, ray_in: &Ray, hit_rec: &HitRecord) -> (r: Option<(Ray, Color)>) {
        let rv = Vec3::random_unit_vector();
        self.scatter_with(hit_rec, rv)
    }
}

/// A clear medium, such as glass, with its index of refraction over that
/// of what surrounds it.
#[derive(Clone, Copy, Debug)]
pub struct Dielectric {
    pub refraction_index: Scalar,
}

impl Dielectric {
    /// The index that the ray leaves over the index that it enters: the
    /// reciprocal of the medium's where the ray comes from outside.
    pub open spec fn relative_index(&self, hit_rec: HitRecord) -> Scalar {
        if hit_rec.front_face {
            Scalar::one().div(self.refraction_index)
        } else {
            self.refraction_index
        }
    }

    /// The cosine of the angle between the incoming ray and the normal, at most one.
    pub open spec fn cos_theta(ray_in: Ray, hit_rec: HitRecord) -> Scalar {
        ray_in.dir.normalized().neg().dot(hit_rec.normal).min(Scalar::one())
    }

    /// The sine of that angle: `sqrt(1 - cos^2)`.
    pub open spec fn sin_theta(ray_in: Ray, hit_rec: HitRecord) -> Scalar {
        Scalar::one().sub(Self::cos_theta(ray_in, hit_rec).mul(Self::cos_theta(ray_in, hit_rec))).sqrt()
    }

    /// Total internal reflection: Snell's law has no solution, the relative
    /// index times the sine being above one.
    pub open spec fn spec_cannot_refract(&self, ray_in: Ray, hit_rec: HitRecord) -> bool {
        self.relative_index(hit_rec).mul(Self::sin_theta(ray_in, hit_rec)).gt(Scalar::one())
    }

    /// Whether the ray is mirrored where the unit draw is `u`: always under
    /// total internal reflection, else where the reflectance is above the draw.
    pub open spec fn reflects(&self, ray_in: Ray, hit_rec: HitRecord, u: Scalar) -> bool {
        self.spec_cannot_refract(ray_in, hit_rec) || spec_reflectance(
            Self::cos_theta(ray_in, hit_rec),
            self.relative_index(hit_rec),
        ).gt(u)
    }

    /// The ray always leaves, from the point of the hit, with nothing taken
    /// from its colour: mirrored or refracted.
    pub open spec fn spec_scatter_with(&self, ray_in: Ray, hit_rec: HitRecord, u: Scalar) -> Option<
        (Ray, Color),
    > {
        let unit_direction = ray_in.dir.normalized();
        let dir = if self.reflects(ray_in, hit_rec, u) {
            unit_direction.reflect(hit_rec.normal)
        } else {
            unit_direction.refract(hit_rec.normal, self.relative_index(hit_rec))
        };
        Some((Ray { origin: hit_rec.point, dir }, Vec3::white()))
    }

    pub fn cannot_refract(&self, ray_in: &Ray, hit_rec: &HitRecord) -> (r: bool)
        ensures
            r == self.spec_cannot_refract(*ray_in, *hit_rec),
    {
        let ri = if hit_rec.front_face {
            Scalar::one().div(self.refraction_index)
        } else {
            self.refraction_index
        };
        let unit_direction = ray_in.dir.normalized();
        let cos_theta = unit_direction.neg().dot(hit_rec.normal).min(Scalar::one());
        let sin_theta = Scalar::one().sub(cos_theta.mul(cos_theta)).sqrt();
        ri.mul(sin_theta).gt(Scalar::one())
    }

    /// What the surface does where the unit draw is `u`.
    pub fn scatter_with(&self, ray_in: &Ray, hit_rec: &HitRecord, u: Scalar) -> (r: Option<
        (Ray, Color),
    >)
        ensures
            r == self.spec_scatter_with(*ray_in, *hit_rec, u),
    {
        let ri = if hit_rec.front_face {
            Scalar::one().div(self.refraction_index)
        } else {
            self.refraction_index
        };
        let unit_direction = ray_in.dir.normalized();
        let cos_theta = unit_direction.neg().dot(hit_rec.normal).min(Scalar::one());
        let sin_theta = Scalar::one().sub(cos_theta.mul(cos_theta)).sqrt();

        let cannot_refract = ri.mul(sin_theta).gt(Scalar::one());
        let direction = if cannot_refract || reflectance(cos_theta, ri).gt(u) {
            unit_direction.reflect(hit_rec.normal)
        } else {
            unit_direction.refract(hit_rec.normal, ri)
        };
        Some((Ray::new(hit_rec.point, direction), Vec3::white()))
    }
}

impl Material for Dielectric {
    open spec fn scatter_outcome(
        &self,
        ray_in: Ray,
        hit_rec: HitRecord,
        out: Option<(Ray, Color)>,
    ) -> bool {
        exists|u: Scalar|
            u.is_unit_draw() && out == #[trigger] self.spec_scatter_with(ray_in, hit_rec, u)
    }

    /// Draws only where the draw decides: not under total internal reflection.
    fn scatter(&self, ray_in: &Ray, hit_rec: &HitRecord) -> (r: Option<(Ray, Color)>) {
        if self.cannot_refract(ray_in, hit_rec) {
            proof {
                crate::random::lemma_zero_is_unit_draw();
            }
            self.scatter_with(ray_in, hit_rec, Scalar::zero())
        } else {
            let u = random_f64();
            self.scatter_with(ray_in, hit_rec, u)
        }
    }
}

/// Schlick's estimate of the share of light that a clear surface mirrors:
/// `r0 + (1 - r0) (1 - cosine)^5` with `r0 = ((1 - n) / (1 + n))^2`.
pub open spec fn spec_reflectance(cosine: Scalar, refraction_index: Scalar) -> Scalar {
    let r0 = Scalar::one().sub(refraction_index).div(Scalar::one().add(refraction_index));
    let r0_2 = r0.mul(r0);
    r0_2.add(Scalar::one().sub(r0_2).mul(Scalar::one().sub(cosine).fifth_power()))
}

#[verifier::when_used_as_spec(spec_reflectance)]
pub fn reflectance(cosine: Scalar, refraction_index: Scalar) -> (r: Scalar)
    ensures
        r == spec_reflectance(cosine, refraction_index),
{
    let r0 = Scalar::one().sub(refraction_index).div(Scalar::one().add(refraction_index));
    let r0_2 = r0.mul(r0);
    r0_2.add(Scalar::one().sub(r0_2).mul(Scalar::one().sub(cosine).fifth_power()))
}

/// A matt surface sends every ray on, with its albedo, from the point of
/// the hit, in a direction that is the normal or does not vanish.
pub proof fn lemma_lambertian_scatter(
    l: Lambertian,
    ray_in: Ray,
    hit_rec: HitRecord,
    out: Option<(Ray, Color)>,
)
    requires
        l.scatter_outcome(ray_in, hit_rec, out),
    ensures
        out matches Some((scattered, attenuation)) && {
            &&& attenuation == l.albedo
            &&& scattered.origin == hit_rec.point
            &&& scattered.dir == hit_rec.normal || !scattered.dir.near_zero()
        },
{
}

/// Under total internal reflection a clear surface mirrors the ray,
/// whatever the draw.
pub proof fn lemma_total_internal_reflection(
    d: Dielectric,
    ray_in: Ray,
    hit_rec: HitRecord,
    out: Option<(Ray, Color)>,
)
    requires
        d.spec_cannot_refract(ray_in, hit_rec),
        d.scatter_outcome(ray_in, hit_rec, out),
    ensures
        out == Some(
            (
                Ray {
                    origin: hit_rec.point,
                    dir: ray_in.dir.normalized().reflect(hit_rec.normal),
                },
                Vec3::white(),
            ),
        ),
{
}

/// A clear surface sends every ray on and takes nothing from its colour.
pub proof fn lemma_dielectric_scatter(
    d: Dielectric,
    ray_in: Ray,
    hit_rec: HitRecord,
    out: Option<(Ray, Color)>,
)
    requires
        d.scatter_outcome(ray_in, hit_rec, out),
    ensures
        out matches Some((scattered, attenuation)) && {
            &&& attenuation == Vec3::white()
            &&& scattered.origin == hit_rec.point
            &&& scattered.dir == ray_in.dir.normalized().reflect(hit_rec.normal) || scattered.dir
                == ray_in.dir.normalized().refract(hit_rec.normal, d.relative_index(hit_rec))
        },
{
}

/// A mirror that sends a ray on sends it from the point of the hit, with
/// its albedo, to the side of the normal.
pub proof fn lemma_metal_scatter(
    m: Metal,
    ray_in: Ray,
    hit_rec: HitRecord,
    out: Option<(Ray, Color)>,
)
    requires
        m.scatter_outcome(ray_in, hit_rec, out),
    ensures
        out matches Some((scattered, attenuation)) ==> {
            &&& attenuation == m.albedo
            &&& scattered.origin == hit_rec.point
            &&& scattered.dir.dot(hit_rec.normal).gt(Scalar::zero())
        },
{
}

} // verus!
