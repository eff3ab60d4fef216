//! Materials: how a ray continues after it meets a surface.
use vstd::prelude::*;
use crate::dielectric::Dielectric;
use crate::hit::HitRecord;
use crate::lambertian::Lambertian;
use crate::metal::Metal;
use crate::ray::Ray;
use crate::vec3::Color;

verus! {

#[derive(Clone, Copy, Debug, PartialEq, Eq, Structural)]
pub enum Material {
    Lambertian(Lambertian),
    Metal(Metal),
    Dielectric(Dielectric),
}

impl Material {
    /// `scattered` with `attenuation`, when `result` holds, or absorption
    /// otherwise, is one possible outcome of a ray meeting this material.
    #[verifier::opaque]
    pub open spec fn scatter_outcome(
        self,
        ray_in: Ray,
        rec: HitRecord,
        attenuation: Color,
        scattered: Ray,
        result: bool,
    ) -> bool {
        match self {
            Material::Lambertian(m) => m.scatter_outcome(ray_in, rec, attenuation, scattered, result),
            Material::Metal(m) => m.scatter_outcome(ray_in, rec, attenuation, scattered, result),
            Material::Dielectric(m) => m.scatter_outcome(ray_in, rec, attenuation, scattered, result),
        }
    }

    /// Decides whether the ray continues; if it does, writes the color
    /// multiplier and the continuing ray and returns true.
    pub fn scatter(
        &self,
        ray_in: &Ray,
        hit_record: &HitRecord,
        attenuation: &mut Color,
        scattered: &mut Ray,
    ) -> (r: bool)
        ensures
            self.scatter_outcome(*ray_in, *hit_record, *final(attenuation), *final(scattered), r),
    {
        reveal(Material::scatter_outcome);
        match self {
            Material::Lambertian(m) => m.scatter(ray_in, hit_record, attenuation, scattered),
            Material::Metal(m) => m.scatter(ray_in, hit_record, attenuation, scattered),
            Material::Dielectric(m) => m.scatter(ray_in, hit_record, attenuation, scattered),
        }
    }
}

} // verus!
