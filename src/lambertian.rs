//! Diffuse material.
use vstd::prelude::*;
use crate::hit::HitRecord;
use crate::ray::{in_unit_ball, random_unit_vector, Ray};
use crate::vec3::{v_add, v_is_zero, v_normalize, Color, Vec3};

verus! {

#[derive(Clone, Copy, Debug, PartialEq, Eq, Structural)]
pub struct Lambertian {
    pub albedo: Color,
}

/// `normal + offset`, or `normal` itself where that sum vanishes.
pub open spec fn diffuse_direction(normal: Vec3, offset: Vec3) -> Vec3 {
    if v_is_zero(v_add(normal, offset)) {
        normal
    } else {
        v_add(normal, offset)
    }
}

impl Lambertian {
    pub fn new(color: Color) -> (r: Lambertian)
        ensures
            r.albedo == color,
    {
        Self { albedo: color }
    }

    pub open spec fn scatter_outcome(
        self,
        ray_in: Ray,
        rec: HitRecord,
        attenuation: Color,
        scattered: Ray,
        result: bool,
    ) -> bool {
        &&& result
        &&& attenuation == self.albedo
        &&& scattered.origin == rec.p
        &&& scattered.time == ray_in.time
        &&& exists|u: Vec3|
            #[trigger] in_unit_ball(u) && scattered.direction == diffuse_direction(
                rec.normal,
                v_normalize(u),
            )
    }

    pub fn scatter(
        &self,
        ray_in: &Ray,
        hit_record: &HitRecord,
        attenuation: &mut Color,
        scattered: &mut Ray,
    ) -> (r: bool)
        ensures
            self.scatter_outcome(*ray_in, *hit_record, *final(attenuation), *final(scattered), r),
    {
        let offset = random_unit_vector();
        let mut scatter_direction = hit_record.normal.add(offset);
        if scatter_direction.near_zero() {
            scatter_direction = hit_record.normal;
        }
        *scattered = Ray { origin: hit_record.p, direction: scatter_direction, time: ray_in.time };
        *attenuation = self.albedo;
        proof {
            let u = choose|u: Vec3| #[trigger] in_unit_ball(u) && offset == v_normalize(u);
            assert(in_unit_ball(u) && scattered.direction == diffuse_direction(
                hit_record.normal,
                v_normalize(u),
            ));
        }
        true
    }
}

/// A diffuse scatter always continues, with the albedo as its attenuation,
/// and never along the zero vector when the surface normal is not zero.
pub proof fn lemma_diffuse_scatter_nonzero(
    m: Lambertian,
    ray_in: Ray,
    rec: HitRecord,
    attenuation: Color,
    scattered: Ray,
    result: bool,
)
    requires
        m.scatter_outcome(ray_in, rec, attenuation, scattered, result),
        !v_is_zero(rec.normal),
    ensures
        result,
        attenuation == m.albedo,
        !v_is_zero(scattered.direction),
{
    let u = choose|u: Vec3|
        #[trigger] in_unit_ball(u) && scattered.direction == diffuse_direction(rec.normal, v_normalize(u));
}

} // verus!
