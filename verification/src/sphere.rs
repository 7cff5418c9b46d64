//! Spheres, and where a ray meets one.

use vstd::prelude::*;
use crate::hittable::{HitRecord, Hittable};
use crate::interval::Interval;
use crate::material::MaterialKind;
use crate::ray::Ray;
use crate::scalar::Scalar;
use crate::vec3::Point;

verus! {

/// The points at distance `radius` from `center`, of one material.
pub struct Sphere {
    pub center: Point,
    pub radius: Scalar,
    pub material: MaterialKind,
}

impl Sphere {
    /// `h = d . (c - o)`, half the linear coefficient of the quadratic in
    /// the ray parameter that the points of the ray on the sphere solve.
    pub open spec fn half_b(&self, ray: Ray) -> Scalar {
        ray.dir.dot(self.center.sub(ray.origin))
    }

    /// `h^2 - a c` with `a = |d|^2` and `c = |c - o|^2 - r^2`: negative where
    /// the line of the ray misses the sphere.
    pub open spec fn discriminant(&self, ray: Ray) -> Scalar {
        let oc = self.center.sub(ray.origin);
        let a = ray.dir.length_squared();
        let h = self.half_b(ray);
        let c = oc.length_squared().sub(self.radius.mul(self.radius));
        h.mul(h).sub(a.mul(c))
    }

    /// `(h - sqrt(disc)) / a`: where the ray enters the sphere.
    pub open spec fn near_root(&self, ray: Ray) -> Scalar {
        self.half_b(ray).sub(self.discriminant(ray).sqrt()).div(ray.dir.length_squared())
    }

    /// `(h + sqrt(disc)) / a`: where the ray leaves the sphere.
    pub open spec fn far_root(&self, ray: Ray) -> Scalar {
        self.half_b(ray).add(self.discriminant(ray).sqrt()).div(ray.dir.length_squared())
    }

    /// Which of the two roots is the hit: the near one where it lies strictly
    /// inside the window, else the far one where that does; none where the
    /// discriminant is negative or neither root lies inside.
    pub open spec fn spec_choose_root(
        ray_t: Interval,
        discriminant: Scalar,
        near: Scalar,
        far: Scalar,
    ) -> Option<Scalar> {
        if discriminant.lt(Scalar::zero()) {
            None
        } else if ray_t.surrounds(near) {
            Some(near)
        } else if ray_t.surrounds(far) {
            Some(far)
        } else {
            None
        }
    }

    /// The parameter of the hit of the ray on the sphere inside the window.
    pub open spec fn hit_parameter(&self, ray: Ray, ray_t: Interval) -> Option<Scalar> {
        Self::spec_choose_root(
            ray_t,
            self.discriminant(ray),
            self.near_root(ray),
            self.far_root(ray),
        )
    }

    /// The record of the hit at parameter `t`: the point of the ray there,
    /// with the outward normal `(point - center) / radius`.
    pub open spec fn record_at(&self, ray: Ray, t: Scalar) -> HitRecord {
        let point = ray.at(t);
        HitRecord::spec_new(ray, point, t, point.sub(self.center).div(self.radius), self.material)
    }

    #[verifier::when_used_as_spec(spec_choose_root)]
    pub fn choose_root(ray_t: Interval, discriminant: Scalar, near: Scalar, far: Scalar) -> (r:
        Option<Scalar>)
        ensures
            r == Self::spec_choose_root(ray_t, discriminant, near, far),
    {
        if discriminant.lt(Scalar::zero()) {
            None
        } else if ray_t.surrounds(near) {
            Some(near)
        } else if ray_t.surrounds(far) {
            Some(far)
        } else {
            None
        }
    }

    pub fn new(center: Point, radius: Scalar, material: MaterialKind) -> (r: Sphere)
        ensures
            r.center == center,
            r.radius == radius,
            r.material == material,
    {
        Sphere { center, radius, material }
    }
}

impl Hittable for Sphere {
    open spec fn spec_hit(&self, ray: Ray, ray_t: Interval) -> Option<HitRecord> {
        match self.hit_parameter(ray, ray_t) {
            Some(t) => Some(self.record_at(ray, t)),
            None => None,
        }
    }

    proof fn lemma_hit_inside(&self, ray: Ray, ray_t: Interval) {
    }

    proof fn lemma_miss_narrows(&self, ray: Ray, ray_t: Interval, max: Scalar) {
    }

    fn hit(&self, ray: &Ray, ray_t: Interval) -> (r: Option<HitRecord>) {
        let oc = self.center.sub(ray.origin);
        let a = ray.dir.length_squared();
        let h = ray.dir.dot(oc);
        let c = oc.length_squared().sub(self.radius.mul(self.radius));

        let disc = h.mul(h).sub(a.mul(c));
        if disc.lt(Scalar::zero()) {
            return None;
        }
        let sqrt_disc = disc.sqrt();
        let near = h.sub(sqrt_disc).div(a);
        let far = h.add(sqrt_disc).div(a);
        let t = match Self::choose_root(ray_t, disc, near, far) {
            Some(t) => t,
            None => {
                return None;
            },
        };
        let point = ray.at(t);
        let outward_normal = point.sub(self.center).div(self.radius);

        Some(HitRecord::new(ray, &point, t, outward_normal, self.material))
    }
}

/// A ray whose line misses the sphere hits it in no window.
pub proof fn lemma_miss_in_every_window(sphere: Sphere, ray: Ray)
    requires
        sphere.discriminant(ray).lt(Scalar::zero()),
    ensures
        forall|ray_t: Interval| sphere.spec_hit(ray, ray_t) is None,
{
}

/// A hit lies on the ray at its parameter, and the parameter is a root of
/// the quadratic that lies strictly inside the window.
pub proof fn lemma_hit_on_ray(sphere: Sphere, ray: Ray, ray_t: Interval)
    ensures
        sphere.spec_hit(ray, ray_t) matches Some(h) ==> {
            &&& h.point == ray.at(h.t)
            &&& ray_t.surrounds(h.t)
            &&& h.t == sphere.near_root(ray) || h.t == sphere.far_root(ray)
            &&& h.material == sphere.material
            &&& !sphere.discriminant(ray).lt(Scalar::zero())
        },
{
}

} // verus!
