//! What a ray can hit: the record of a hit, the objects, and lists of them.

use vstd::prelude::*;
use crate::interval::Interval;
use crate::material::MaterialKind;
use crate::ray::Ray;
use crate::scalar::Scalar;
use crate::sphere::Sphere;
use crate::vec3::{Point, Vec3};

verus! {

/// Where a ray met a surface. The normal is turned against the ray;
/// `front_face` tells whether the surface's own outward normal already was.
#[derive(Clone, Copy, Debug)]
pub struct HitRecord {
    pub point: Point,
    pub normal: Vec3,
    pub t: Scalar,
    pub front_face: bool,
    pub material: MaterialKind,
}

impl HitRecord {
    /// Whether a ray meets the front face, and the normal turned against
    /// it, from the product of its direction with the outward normal: the
    /// front where the product is negative, else the back, with the normal negated.
    pub open spec fn spec_orient(product: Scalar, outward_normal: Vec3) -> (bool, Vec3) {
        if product.lt(Scalar::zero()) {
            (true, outward_normal)
        } else {
            (false, outward_normal.neg())
        }
    }

    pub open spec fn spec_new(
        ray: Ray,
        point: Point,
        t: Scalar,
        outward_normal: Vec3,
        material: MaterialKind,
    ) -> HitRecord {
        let (front_face, normal) = Self::spec_orient(ray.dir.dot(outward_normal), outward_normal);
        HitRecord { point, normal, t, front_face, material }
    }

    #[verifier::when_used_as_spec(spec_orient)]
    pub fn orient(product: Scalar, outward_normal: Vec3) -> (r: (bool, Vec3))
        ensures
            r == Self::spec_orient(product, outward_normal),
    {
        if product.lt(Scalar::zero()) {
            (true, outward_normal)
        } else {
            (false, outward_normal.neg())
        }
    }

    /// The record of a hit at `point`, parameter `t`, on a surface whose
    /// outward normal there is `outward_normal`. The ray meets the front
    /// face where its direction has a negative product with that normal; on
    /// the back face the recorded normal is the negative.
    pub fn new(
        ray: &Ray,
        point: &Point,
        t: Scalar,
        outward_normal: Vec3,
        material: MaterialKind,
    ) -> (r: HitRecord)
        ensures
            r == HitRecord::spec_new(*ray, *point, t, outward_normal, material),
    {
        let (front_face, normal) = Self::orient(ray.dir.dot(outward_normal), outward_normal);
        HitRecord { point: *point, normal, t, front_face, material }
    }
}

/// Something a ray can hit.
pub trait Hittable {
    /// The hit that `hit` reports.
    spec fn spec_hit(&self, ray: Ray, ray_t: Interval) -> Option<HitRecord>;

    /// A reported hit has its parameter strictly inside the window.
    proof fn lemma_hit_inside(&self, ray: Ray, ray_t: Interval)
        ensures
            self.spec_hit(ray, ray_t) matches Some(h) ==> ray_t.surrounds(h.t),
    ;

    /// An object that reports no hit in a window reports none in a window
    /// that begins at the same parameter and ends no later.
    proof fn lemma_miss_narrows(&self, ray: Ray, ray_t: Interval, max: Scalar)
        requires
            self.spec_hit(ray, ray_t) is None,
            max.le(ray_t.max),
        ensures
            self.spec_hit(ray, Interval { min: ray_t.min, max }) is None,
    ;

    /// The hit of the ray on the object with a parameter strictly inside
    /// `ray_t`, if there is one.
    fn hit(&self, ray: &Ray, ray_t: Interval) -> (r: Option<HitRecord>)
        ensures
            r == self.spec_hit(*ray, ray_t),
    ;
}

/// The objects that a scene is made of.
pub enum HittableKind {
    Sphere(Sphere),
}

impl Hittable for HittableKind {
    open spec fn spec_hit(&self, ray: Ray, ray_t: Interval) -> Option<HitRecord> {
        match self {
            HittableKind::Sphere(sphere) => sphere.spec_hit(ray, ray_t),
        }
    }

    proof fn lemma_hit_inside(&self, ray: Ray, ray_t: Interval) {
        match self {
            HittableKind::Sphere(sphere) => sphere.lemma_hit_inside(ray, ray_t),
        }
    }

    proof fn lemma_miss_narrows(&self, ray: Ray, ray_t: Interval, max: Scalar) {
        match self {
            HittableKind::Sphere(sphere) => sphere.lemma_miss_narrows(ray, ray_t, max),
        }
    }

    fn hit(&self, ray: &Ray, ray_t: Interval) -> (r: Option<HitRecord>) {
        match self {
            HittableKind::Sphere(sphere) => sphere.hit(ray, ray_t),
        }
    }
}

/// A scene: objects in the order in which they are asked.
pub struct HittableList {
    pub objects: Vec<HittableKind>,
}

impl View for HittableList {
    type V = Seq<HittableKind>;

    open spec fn view(&self) -> Seq<HittableKind> {
        self.objects@
    }
}

impl HittableList {
    /// The window that remains after `best`: it ends at the parameter of the
    /// best hit so far.
    pub open spec fn window(ray_t: Interval, best: Option<HitRecord>) -> Interval {
        match best {
            Some(h) => Interval { min: ray_t.min, max: h.t },
            None => ray_t,
        }
    }

    /// The best hit among the first `n` objects: each object in turn is
    /// asked for a hit inside the window that the earlier ones left, and a
    /// hit that it reports takes the place of the best so far.
    pub open spec fn scan(objects: Seq<HittableKind>, ray: Ray, ray_t: Interval, n: nat) -> Option<
        HitRecord,
    >
        decreases n,
    {
        if n == 0 {
            None
        } else {
            let before = Self::scan(objects, ray, ray_t, (n - 1) as nat);
            match objects[n - 1].spec_hit(ray, Self::window(ray_t, before)) {
                Some(h) => Some(h),
                None => before,
            }
        }
    }
}

impl Hittable for HittableList {
    open spec fn spec_hit(&self, ray: Ray, ray_t: Interval) -> Option<HitRecord> {
        Self::scan(self@, ray, ray_t, self@.len())
    }

    proof fn lemma_hit_inside(&self, ray: Ray, ray_t: Interval) {
        lemma_scan_inside(self@, ray, ray_t, self@.len());
    }

    proof fn lemma_miss_narrows(&self, ray: Ray, ray_t: Interval, max: Scalar) {
        let narrow = Interval { min: ray_t.min, max };
        lemma_scan_miss(self@, ray, ray_t, self@.len());
        lemma_scan_miss(self@, ray, narrow, self@.len());
        assert forall|k: int| 0 <= k < self@.len() implies (#[trigger] self@[k]).spec_hit(
            ray,
            narrow,
        ) is None by {
            self@[k].lemma_miss_narrows(ray, ray_t, max);
        }
    }

    /// The nearest hit of the ray on the scene: see [`HittableList::scan`],
    /// [`lemma_scan_miss`], [`lemma_scan_nearest`] and [`lemma_scan_nothing_nearer`].
    fn hit(&self, ray: &Ray, ray_t: Interval) -> (r: Option<HitRecord>) {
        let mut current_hit: Option<HitRecord> = None;
        let mut interval = ray_t;
        let n = self.objects.len();
        let mut i: usize = 0;
        while i < n
            invariant
                i <= n,
                n == self@.len(),
                current_hit == Self::scan(self@, *ray, ray_t, i as nat),
                interval == Self::window(ray_t, current_hit),
            decreases n - i,
        {
            if let Some(hit_rec) = self.objects[i].hit(ray, interval) {
                interval.max = hit_rec.t;
                current_hit = Some(hit_rec);
            }
            i = i + 1;
        }
        current_hit
    }
}

/// The best hit so far lies strictly inside the window that was given.
pub proof fn lemma_scan_inside(objects: Seq<HittableKind>, ray: Ray, ray_t: Interval, n: nat)
    requires
        n <= objects.len(),
    ensures
        HittableList::scan(objects, ray, ray_t, n) matches Some(h) ==> ray_t.surrounds(h.t),
    decreases n,
{
    if n > 0 {
        let before = HittableList::scan(objects, ray, ray_t, (n - 1) as nat);
        lemma_scan_inside(objects, ray, ray_t, (n - 1) as nat);
        objects[n - 1].lemma_hit_inside(ray, HittableList::window(ray_t, before));
    }
}

/// A scene reports no hit exactly when none of its objects reports one
/// inside the window that was given.
pub proof fn lemma_scan_miss(objects: Seq<HittableKind>, ray: Ray, ray_t: Interval, n: nat)
    requires
        n <= objects.len(),
    ensures
        HittableList::scan(objects, ray, ray_t, n) is None <==> forall|k: int|
            0 <= k < n ==> (#[trigger] objects[k]).spec_hit(ray, ray_t) is None,
    decreases n,
{
    if n > 0 {
        lemma_scan_miss(objects, ray, ray_t, (n - 1) as nat);
        let before = HittableList::scan(objects, ray, ray_t, (n - 1) as nat);
        if before is None {
            if objects[n - 1].spec_hit(ray, ray_t) is None {
                assert forall|k: int| 0 <= k < n implies (#[trigger] objects[k]).spec_hit(
                    ray,
                    ray_t,
                ) is None by {
                    if k < n - 1 {
                    }
                }
            } else {
                assert(!(objects[n - 1].spec_hit(ray, ray_t) is None));
            }
        } else {
            let k0 = choose|k: int|
                0 <= k < n - 1 && !((#[trigger] objects[k]).spec_hit(ray, ray_t) is None);
            assert(0 <= k0 < n && !(objects[k0].spec_hit(ray, ray_t) is None));
        }
    }
}

/// The hit that a scene reports is the hit that one of its objects reports
/// inside a window that begins where the given one does.
pub proof fn lemma_scan_member(objects: Seq<HittableKind>, ray: Ray, ray_t: Interval, n: nat)
    requires
        n <= objects.len(),
    ensures
        HittableList::scan(objects, ray, ray_t, n) matches Some(h) ==> exists|k: int, max: Scalar|
            0 <= k < n && #[trigger] objects[k].spec_hit(ray, Interval { min: ray_t.min, max })
                == Some(h),
    decreases n,
{
    if n > 0 {
        let before = HittableList::scan(objects, ray, ray_t, (n - 1) as nat);
        lemma_scan_member(objects, ray, ray_t, (n - 1) as nat);
        let w = HittableList::window(ray_t, before);
        match objects[n - 1].spec_hit(ray, w) {
            Some(h) => {
                assert(w == Interval { min: ray_t.min, max: w.max });
                assert(objects[n - 1].spec_hit(ray, Interval { min: ray_t.min, max: w.max })
                    == Some(h));
            },
            None => {
                if let Some(h) = before {
                    let (k, max) = choose|k: int, max: Scalar|
                        0 <= k < n - 1 && #[trigger] objects[k].spec_hit(
                            ray,
                            Interval { min: ray_t.min, max },
                        ) == Some(h);
                    assert(0 <= k < n && objects[k].spec_hit(
                        ray,
                        Interval { min: ray_t.min, max },
                    ) == Some(h));
                }
            },
        }
    }
}

/// The hit that a scene reports is the nearest of the hits that took the
/// lead while the objects were asked: none of them has a smaller parameter.
pub proof fn lemma_scan_nearest(
    objects: Seq<HittableKind>,
    ray: Ray,
    ray_t: Interval,
    n: nat,
    m: nat,
)
    requires
        m <= n <= objects.len(),
    ensures
        HittableList::scan(objects, ray, ray_t, m) matches Some(earlier) ==> (HittableList::scan(
            objects,
            ray,
            ray_t,
            n,
        ) matches Some(h) && h.t.le(earlier.t)),
    decreases n,
{
    if m < n {
        lemma_scan_nearest(objects, ray, ray_t, (n - 1) as nat, m);
        let before = HittableList::scan(objects, ray, ray_t, (n - 1) as nat);
        objects[n - 1].lemma_hit_inside(ray, HittableList::window(ray_t, before));
    } else {
        lemma_scan_inside(objects, ray, ray_t, n);
    }
}

/// Nothing is nearer than the hit that a scene reports: an object that
/// reported a hit when it was asked reported one at least as far, and an
/// object that reported none has none before the hit that the scene reports.
pub proof fn lemma_scan_nothing_nearer(
    objects: Seq<HittableKind>,
    ray: Ray,
    ray_t: Interval,
    n: nat,
    k: int,
)
    requires
        n <= objects.len(),
        0 <= k < n,
    ensures
        HittableList::scan(objects, ray, ray_t, n) matches Some(h) ==> match objects[k].spec_hit(
            ray,
            HittableList::window(ray_t, HittableList::scan(objects, ray, ray_t, k as nat)),
        ) {
            Some(hk) => h.t.le(hk.t),
            None => objects[k].spec_hit(ray, Interval { min: ray_t.min, max: h.t }) is None,
        },
{
    if let Some(h) = HittableList::scan(objects, ray, ray_t, n) {
        let before = HittableList::scan(objects, ray, ray_t, k as nat);
        let asked = HittableList::window(ray_t, before);
        lemma_scan_nearest(objects, ray, ray_t, n, (k + 1) as nat);
        lemma_scan_nearest(objects, ray, ray_t, n, k as nat);
        lemma_scan_inside(objects, ray, ray_t, n);
        if objects[k].spec_hit(ray, asked) is None {
            assert(h.t.le(asked.max));
            assert(asked.min == ray_t.min);
            objects[k].lemma_miss_narrows(ray, asked, h.t);
        }
    }
}

} // verus!
