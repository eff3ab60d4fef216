//! The scene: an ordered collection of surfaces.
use vstd::prelude::*;
use crate::fixed::Fixed;
use crate::hit::{HitRecord, Hittable};
use crate::moving_sphere::MovingSphere;
use crate::ray::Ray;
use crate::sphere::{
    in_interval, lemma_ball_hit_in_interval, lemma_ball_hit_restrict, lemma_ball_normal_opposes_ray,
    Sphere,
};
use crate::vec3::v_dot;

verus! {

#[derive(Clone, Copy, Debug, PartialEq, Eq, Structural)]
pub enum Surface {
    Sphere(Sphere),
    MovingSphere(MovingSphere),
}

impl Hittable for Surface {
    open spec fn hit_model(&self, ray: Ray, t_min: Fixed, t_max: Fixed) -> Option<HitRecord> {
        match self {
            Surface::Sphere(s) => s.hit_model(ray, t_min, t_max),
            Surface::MovingSphere(s) => s.hit_model(ray, t_min, t_max),
        }
    }

    fn hit(&self, ray: &Ray, t_min: Fixed, t_max: Fixed, record: &mut HitRecord) -> (r: bool) {
        match self {
            Surface::Sphere(s) => s.hit(ray, t_min, t_max, record),
            Surface::MovingSphere(s) => s.hit(ray, t_min, t_max, record),
        }
    }
}

/// The nearest meeting of `ray` with `objects` in `[t_min, t_max]`, found by
/// scanning them in order and narrowing the interval to each meeting found.
pub open spec fn list_hit(objects: Seq<Surface>, ray: Ray, t_min: Fixed, t_max: Fixed) -> Option<
    HitRecord,
>
    decreases objects.len(),
{
    if objects.len() == 0 {
        None
    } else {
        let prev = list_hit(objects.drop_last(), ray, t_min, t_max);
        let bound = match prev {
            Some(r) => r.t,
            None => t_max,
        };
        match objects.last().hit_model(ray, t_min, bound) {
            Some(r) => Some(r),
            None => prev,
        }
    }
}

/// Every meeting found in a scene reports a normal that faces against the
/// ray: its dot product with the ray's direction is at most zero.
pub proof fn lemma_scene_normal_opposes_ray(
    objects: Seq<Surface>,
    ray: Ray,
    t_min: Fixed,
    t_max: Fixed,
)
    requires
        list_hit(objects, ray, t_min, t_max) is Some,
    ensures
        v_dot(ray.direction, list_hit(objects, ray, t_min, t_max)->Some_0.normal).raw <= 0,
    decreases objects.len(),
{
    let prev = list_hit(objects.drop_last(), ray, t_min, t_max);
    let bound = match prev {
        Some(r) => r.t,
        None => t_max,
    };
    match objects.last().hit_model(ray, t_min, bound) {
        Some(r) => {
            match objects.last() {
                Surface::Sphere(s) => {
                    lemma_ball_normal_opposes_ray(s.center, s.radius, s.material, ray, t_min, bound);
                },
                Surface::MovingSphere(s) => {
                    lemma_ball_normal_opposes_ray(
                        s.center_at(ray.time),
                        s.radius,
                        s.material,
                        ray,
                        t_min,
                        bound,
                    );
                },
            }
        },
        None => {
            lemma_scene_normal_opposes_ray(objects.drop_last(), ray, t_min, t_max);
        },
    }
}

/// Searching a surface up to `bound <= t_max` finds what the search up to
/// `t_max` found, when that lies within `bound`, and nothing otherwise; and
/// what it finds lies in the interval searched.
pub proof fn lemma_surface_hit_restrict(
    s: Surface,
    ray: Ray,
    t_min: Fixed,
    t_max: Fixed,
    bound: Fixed,
)
    requires
        bound.raw <= t_max.raw,
    ensures
        s.hit_model(ray, t_min, t_max) is Some ==> in_interval(
            s.hit_model(ray, t_min, t_max)->Some_0.t,
            t_min,
            t_max,
        ),
        s.hit_model(ray, t_min, bound) == (if s.hit_model(ray, t_min, t_max) is Some
            && s.hit_model(ray, t_min, t_max)->Some_0.t.raw <= bound.raw {
            s.hit_model(ray, t_min, t_max)
        } else {
            None
        }),
{
    match s {
        Surface::Sphere(sp) => {
            lemma_ball_hit_restrict(sp.center, sp.radius, sp.material, ray, t_min, t_max, bound);
            if s.hit_model(ray, t_min, t_max) is Some {
                lemma_ball_hit_in_interval(sp.center, sp.radius, sp.material, ray, t_min, t_max);
            }
        },
        Surface::MovingSphere(sp) => {
            let center = sp.center_at(ray.time);
            lemma_ball_hit_restrict(center, sp.radius, sp.material, ray, t_min, t_max, bound);
            if s.hit_model(ray, t_min, t_max) is Some {
                lemma_ball_hit_in_interval(center, sp.radius, sp.material, ray, t_min, t_max);
            }
        },
    }
}

/// The scene reports the nearest meeting among its surfaces: what it finds
/// is what one of them finds over the whole interval, and no surface finds
/// a nearer one.
pub proof fn lemma_scene_hit_is_nearest(
    objects: Seq<Surface>,
    ray: Ray,
    t_min: Fixed,
    t_max: Fixed,
)
    ensures
        list_hit(objects, ray, t_min, t_max) is Some ==> in_interval(
            list_hit(objects, ray, t_min, t_max)->Some_0.t,
            t_min,
            t_max,
        ),
        list_hit(objects, ray, t_min, t_max) is Some ==> exists|i: int|
            0 <= i < objects.len() && #[trigger] objects[i].hit_model(ray, t_min, t_max)
                == list_hit(objects, ray, t_min, t_max),
        forall|i: int|
            0 <= i < objects.len() && (#[trigger] objects[i].hit_model(ray, t_min, t_max)) is Some
                ==> list_hit(objects, ray, t_min, t_max) is Some && list_hit(
                objects,
                ray,
                t_min,
                t_max,
            )->Some_0.t.raw <= objects[i].hit_model(ray, t_min, t_max)->Some_0.t.raw,
    decreases objects.len(),
{
    if objects.len() > 0 {
        let init = objects.drop_last();
        let n = objects.len() - 1;
        lemma_scene_hit_is_nearest(init, ray, t_min, t_max);
        let prev = list_hit(init, ray, t_min, t_max);
        let bound = match prev {
            Some(r) => r.t,
            None => t_max,
        };
        let last = objects.last();
        assert(last == objects[n]);
        lemma_surface_hit_restrict(last, ray, t_min, t_max, bound);
        let found = list_hit(objects, ray, t_min, t_max);
        assert forall|i: int|
            0 <= i < objects.len() && (#[trigger] objects[i].hit_model(ray, t_min, t_max)) is Some
                implies found is Some && found->Some_0.t.raw <= objects[i].hit_model(
                ray,
                t_min,
                t_max,
            )->Some_0.t.raw by {
            if i < n {
                assert(objects[i] == init[i]);
            }
        }
        if found is Some {
            if last.hit_model(ray, t_min, bound) is Some {
                assert(objects[n].hit_model(ray, t_min, t_max) == found);
            } else {
                let j = choose|j: int|
                    0 <= j < init.len() && #[trigger] init[j].hit_model(ray, t_min, t_max) == prev;
                assert(objects[j] == init[j]);
                assert(objects[j].hit_model(ray, t_min, t_max) == found);
            }
        }
    }
}

pub struct HittableList {
    pub objects: Vec<Surface>,
}

impl HittableList {
    pub fn new() -> (r: HittableList)
        ensures
            r.objects@ == Seq::<Surface>::empty(),
    {
        Self { objects: Vec::new() }
    }

    pub fn clear(&mut self)
        ensures
            final(self).objects@ == Seq::<Surface>::empty(),
    {
        self.objects.clear();
    }

    pub fn add(&mut self, object: Surface)
        ensures
            final(self).objects@ == old(self).objects@.push(object),
    {
        self.objects.push(object);
    }
}

impl Hittable for HittableList {
    open spec fn hit_model(&self, ray: Ray, t_min: Fixed, t_max: Fixed) -> Option<HitRecord> {
        list_hit(self.objects@, ray, t_min, t_max)
    }

    fn hit(&self, ray: &Ray, t_min: Fixed, t_max: Fixed, record: &mut HitRecord) -> (r: bool) {
        let ghost start = *record;
        let mut hit_anything = false;
        let mut closest_so_far = t_max;
        let mut i: usize = 0;
        while i < self.objects.len()
            invariant
                i <= self.objects.len(),
                hit_anything == list_hit(self.objects@.take(i as int), *ray, t_min, t_max) is Some,
                hit_anything ==> *record == list_hit(
                    self.objects@.take(i as int),
                    *ray,
                    t_min,
                    t_max,
                )->Some_0 && closest_so_far == record.t,
                !hit_anything ==> *record == start && closest_so_far == t_max,
            decreases self.objects.len() - i,
        {
            proof {
                let next = self.objects@.take(i + 1);
                assert(next.drop_last() =~= self.objects@.take(i as int));
                assert(next.last() == self.objects@[i as int]);
            }
            if self.objects[i].hit(ray, t_min, closest_so_far, record) {
                hit_anything = true;
                closest_so_far = record.t;
            }
            i = i + 1;
        }
        assert(self.objects@.take(i as int) =~= self.objects@);
        hit_anything
    }
}

} // verus!
