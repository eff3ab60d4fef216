//! Intersection records and the interface of intersectable surfaces.
use vstd::prelude::*;
use crate::fixed::{fx, lemma_mul_neg, Fixed};
use crate::material::Material;
use crate::ray::Ray;
use crate::vec3::{v3, v_dot, v_neg, Point3, Vec3};

verus! {

#[derive(Clone, Copy, Debug, PartialEq, Eq, Structural)]
pub struct HitRecord {
    pub p: Point3,
    /// Faces against the incoming ray.
    pub normal: Vec3,
    pub t: Fixed,
    /// The ray met the outside of the surface.
    pub front_face: bool,
    pub material: Option<Material>,
}

/// The ray meets the outside of a surface whose outward normal is `outward`.
pub open spec fn is_front_face(direction: Vec3, outward: Vec3) -> bool {
    v_dot(direction, outward).raw < 0
}

/// `outward`, turned to face against `direction`.
pub open spec fn face_normal(direction: Vec3, outward: Vec3) -> Vec3 {
    if is_front_face(direction, outward) {
        outward
    } else {
        v_neg(outward)
    }
}

/// The oriented normal never points along the ray: its dot product with the
/// ray's direction is at most zero.
pub proof fn lemma_face_normal_opposes_ray(direction: Vec3, outward: Vec3)
    requires
        outward.wf(),
    ensures
        v_dot(direction, face_normal(direction, outward)).raw <= 0,
{
    if !is_front_face(direction, outward) {
        lemma_mul_neg(direction.x, outward.x);
        lemma_mul_neg(direction.y, outward.y);
        lemma_mul_neg(direction.z, outward.z);
    }
}

impl Default for HitRecord {
    fn default() -> (r: HitRecord)
        ensures
            r == (HitRecord {
                p: v3(fx(0), fx(0), fx(0)),
                normal: v3(fx(0), fx(0), fx(0)),
                t: fx(0),
                front_face: false,
                material: None,
            }),
    {
        HitRecord {
            p: Vec3::zero(),
            normal: Vec3::zero(),
            t: Fixed::zero(),
            front_face: false,
            material: None,
        }
    }
}

impl HitRecord {
    /// Records on which side the ray arrived and orients the normal against it.
    pub fn set_face_normal(&mut self, ray: &Ray, outward_normal: Vec3)
        ensures
            final(self).front_face == is_front_face(ray.direction, outward_normal),
            final(self).normal == face_normal(ray.direction, outward_normal),
            final(self).p == old(self).p,
            final(self).t == old(self).t,
            final(self).material == old(self).material,
    {
        self.front_face = ray.direction.dot(outward_normal).raw < 0;
        self.normal = if self.front_face {
            outward_normal
        } else {
            outward_normal.neg()
        };
    }
}

/// A surface that a ray can meet.
pub trait Hittable {
    /// The record of the nearest meeting with a parameter in `[t_min, t_max]`.
    spec fn hit_model(&self, ray: Ray, t_min: Fixed, t_max: Fixed) -> Option<HitRecord>;

    /// Overwrites `record` with the nearest meeting in `[t_min, t_max]` and
    /// returns true, or leaves it as it was and returns false.
    fn hit(&self, ray: &Ray, t_min: Fixed, t_max: Fixed, record: &mut HitRecord) -> (r: bool)
        ensures
            r == self.hit_model(*ray, t_min, t_max) is Some,
            r ==> *final(record) == self.hit_model(*ray, t_min, t_max)->Some_0,
            !r ==> *final(record) == *old(record),
    ;
}

} // verus!
