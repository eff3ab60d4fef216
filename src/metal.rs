//! Specular material with an optional blur of the reflection.
use vstd::prelude::*;
use crate::fixed::{fx_from_int, fx_mul, Fixed};
use crate::hit::HitRecord;
use crate::ray::{in_unit_ball, random_in_unit_sphere, Ray};
use crate::vec3::{v_add, v_dot, v_normalize, v_scale, v_sub, Color, Vec3};

verus! {

/// `v` mirrored about the plane with normal `n`: `v - 2 (v . n) n`.
pub open spec fn reflect_spec(v: Vec3, n: Vec3) -> Vec3 {
    v_sub(v, v_scale(fx_mul(fx_from_int(2), v_dot(v, n)), n))
}

pub fn reflect(v: Vec3, n: Vec3) -> (r: Vec3)
    ensures
        r == reflect_spec(v, n),
{
    v.sub(n.scale(Fixed::from_int(2).mul(v.dot(n))))
}

#[derive(Clone, Copy, Debug, PartialEq, Eq, Structural)]
pub struct Metal {
    pub albedo: Color,
    /// Radius of the blur added to the mirror direction, in `[0, 1]`.
    pub fuzz: Fixed,
}

/// The mirror direction of `direction` about `normal`, moved by `fuzz * u`.
pub open spec fn glossy_direction(direction: Vec3, normal: Vec3, fuzz: Fixed, u: Vec3) -> Vec3 {
    v_add(reflect_spec(v_normalize(direction), normal), v_scale(fuzz, u))
}

impl Metal {
    pub open spec fn scatter_outcome(
        self,
        ray_in: Ray,
        rec: HitRecord,
        attenuation: Color,
        scattered: Ray,
        result: bool,
    ) -> bool {
        &&& attenuation == self.albedo
        &&& scattered.origin == rec.p
        &&& scattered.time == ray_in.time
        &&& result == (v_dot(scattered.direction, rec.normal).raw > 0)
        &&& exists|u: Vec3|
            #[trigger] in_unit_ball(u) && scattered.direction == glossy_direction(
                ray_in.direction,
                rec.normal,
                self.fuzz,
                u,
            )
    }

    /// Reflects the ray; it is absorbed when the blurred reflection points
    /// into the surface.
    pub fn scatter(
        &self,
        ray_in: &Ray,
        hit_record: &HitRecord,
        attenuation: &mut Color,
        scattered: &mut Ray,
    ) -> (r: bool)
        ensures
            self.scatter_outcome(*ray_in, *hit_record, *final(attenuation), *final(scattered), r),
    {
        let reflected = reflect(ray_in.direction.normalize(), hit_record.normal);
        let u = random_in_unit_sphere();
        *scattered = Ray {
            origin: hit_record.p,
            direction: reflected.add(u.scale(self.fuzz)),
            time: ray_in.time,
        };
        *attenuation = self.albedo;
        assert(in_unit_ball(u) && scattered.direction == glossy_direction(
            ray_in.direction,
            hit_record.normal,
            self.fuzz,
            u,
        ));
        scattered.direction.dot(hit_record.normal).raw > 0
    }
}

} // verus!
