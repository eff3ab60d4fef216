//! Clear refractive material.
use vstd::prelude::*;
use crate::fixed::{
    fx, fx_abs, fx_add, fx_div, fx_min, fx_mul, fx_neg, fx_one, fx_sqrt, fx_sub,
    lemma_div_one, lemma_div_whole_by_itself, lemma_mul_whole, lemma_sqrt_at_most_one,
    lemma_sqrt_whole_square, Fixed, ONE_RAW,
};
use crate::hit::HitRecord;
use crate::metal::{reflect, reflect_spec};
use crate::ray::{random_fixed, Ray};
use crate::vec3::{v3, v_add, v_dot, v_length_squared, v_neg, v_normalize, v_scale, Color, Vec3};

verus! {

/// Snell's law for the unit vector `uv` entering through normal `n` with
/// ratio of indices `eta`: the part across the normal scales by `eta`, the
/// part along it keeps the length to one.
pub open spec fn refract_spec(uv: Vec3, n: Vec3, eta: Fixed) -> Vec3 {
    let cos_theta = fx_neg(fx_min(v_dot(uv, n), fx_one()));
    let r_out_perp = v_scale(eta, v_add(uv, v_scale(cos_theta, n)));
    let r_out_parallel = v_scale(
        fx_neg(fx_sqrt(fx_abs(fx_sub(fx_one(), v_length_squared(r_out_perp))))),
        n,
    );
    v_add(r_out_perp, r_out_parallel)
}

fn refract(uv: Vec3, n: Vec3, etai_over_etat: Fixed) -> (r: Vec3)
    ensures
        r == refract_spec(uv, n, etai_over_etat),
{
    let cos_theta = uv.dot(n).min(Fixed::one()).neg();
    let r_out_perp = uv.add(n.scale(cos_theta)).scale(etai_over_etat);
    let r_out_parallel = n.scale(Fixed::one().sub(r_out_perp.length_squared()).abs().sqrt().neg());
    r_out_perp.add(r_out_parallel)
}

/// Schlick's approximation of the reflected fraction:
/// `r0 + (1 - r0) (1 - cosine)^5` with `r0 = ((1 - n) / (1 + n))^2`.
pub open spec fn reflectance_spec(cosine: Fixed, ref_idx: Fixed) -> Fixed {
    let q = fx_div(fx_sub(fx_one(), ref_idx), fx_add(fx_one(), ref_idx));
    let r0 = fx_mul(q, q);
    let m = fx_sub(fx_one(), cosine);
    let m2 = fx_mul(m, m);
    let m5 = fx_mul(fx_mul(m2, m2), m);
    fx_add(r0, fx_mul(fx_sub(fx_one(), r0), m5))
}

fn reflectance(cosine: Fixed, ref_idx: Fixed) -> (r: Fixed)
    ensures
        r == reflectance_spec(cosine, ref_idx),
{
    let q = Fixed::one().sub(ref_idx).div(Fixed::one().add(ref_idx));
    let r0 = q.mul(q);
    let m = Fixed::one().sub(cosine);
    let m2 = m.mul(m);
    let m5 = m2.mul(m2).mul(m);
    r0.add(Fixed::one().sub(r0).mul(m5))
}

/// The sine of the angle whose cosine is `cos_theta`.
pub open spec fn sine_of(cos_theta: Fixed) -> Fixed {
    fx_sqrt(fx_sub(fx_one(), fx_mul(cos_theta, cos_theta)))
}

/// Snell's law has no solution: `ratio * sin_theta > 1`.
pub open spec fn cannot_refract(ratio: Fixed, cos_theta: Fixed) -> bool {
    fx_mul(ratio, sine_of(cos_theta)).raw > ONE_RAW
}

#[derive(Clone, Copy, Debug, PartialEq, Eq, Structural)]
pub struct Dielectric {
    /// Index of refraction.
    pub ir: Fixed,
}

impl Dielectric {
    /// Ratio of the indices of refraction across the surface.
    pub open spec fn refraction_ratio(self, front_face: bool) -> Fixed {
        if front_face {
            fx_div(fx_one(), self.ir)
        } else {
            self.ir
        }
    }

    /// The continuing direction for a uniform draw `draw` from `[0, 1)`:
    /// a reflection under total internal reflection or when the draw falls
    /// below the reflectance, a refraction otherwise.
    pub open spec fn direction_for(self, ray_in: Ray, rec: HitRecord, draw: Fixed) -> Vec3 {
        let ratio = self.refraction_ratio(rec.front_face);
        let unit_direction = v_normalize(ray_in.direction);
        let cos_theta = fx_min(v_dot(v_neg(unit_direction), rec.normal), fx_one());
        if cannot_refract(ratio, cos_theta) || reflectance_spec(cos_theta, ratio).raw > draw.raw {
            reflect_spec(unit_direction, rec.normal)
        } else {
            refract_spec(unit_direction, rec.normal, ratio)
        }
    }

    pub open spec fn scatter_outcome(
        self,
        ray_in: Ray,
        rec: HitRecord,
        attenuation: Color,
        scattered: Ray,
        result: bool,
    ) -> bool {
        &&& result
        &&& attenuation == v3(fx_one(), fx_one(), fx_one())
        &&& scattered.origin == rec.p
        &&& scattered.time == ray_in.time
        &&& exists|draw: Fixed|
            0 <= draw.raw < ONE_RAW && #[trigger] self.direction_for(ray_in, rec, draw)
                == scattered.direction
    }

    /// Reflects or refracts the ray; it is never absorbed.
    pub fn scatter(
        &self,
        ray_in: &Ray,
        hit_record: &HitRecord,
        attenuation: &mut Color,
        scattered: &mut Ray,
    ) -> (r: bool)
        ensures
            self.scatter_outcome(*ray_in, *hit_record, *final(attenuation), *final(scattered), r),
    {
        *attenuation = Vec3 { x: Fixed::one(), y: Fixed::one(), z: Fixed::one() };
        let refraction_ratio = if hit_record.front_face {
            Fixed::one().div(self.ir)
        } else {
            self.ir
        };
        let unit_direction = ray_in.direction.normalize();
        let cos_theta = unit_direction.neg().dot(hit_record.normal).min(Fixed::one());
        let sin_theta = Fixed::one().sub(cos_theta.mul(cos_theta)).sqrt();
        let cannot_refract = refraction_ratio.mul(sin_theta).raw > ONE_RAW;
        let draw = random_fixed(Fixed::zero(), Fixed::one());
        let direction = if cannot_refract || reflectance(cos_theta, refraction_ratio).raw > draw.raw {
            reflect(unit_direction, hit_record.normal)
        } else {
            refract(unit_direction, hit_record.normal, refraction_ratio)
        };
        *scattered = Ray { origin: hit_record.p, direction, time: ray_in.time };
        assert(self.direction_for(*ray_in, *hit_record, draw) == scattered.direction);
        true
    }
}

/// A ray meeting glass of index one head-on, straight down onto a surface
/// whose normal points up, keeps its direction whatever the draw.
pub proof fn lemma_index_one_head_on_unbent(
    d: Dielectric,
    ray_in: Ray,
    rec: HitRecord,
    k: int,
    draw: Fixed,
)
    requires
        d.ir == fx_one(),
        0 < k <= 0x1_0000,
        ray_in.direction == v3(fx(0), fx(-k * ONE_RAW), fx(0)),
        rec.normal == v3(fx(0), fx(ONE_RAW as int), fx(0)),
        0 <= draw.raw < ONE_RAW,
    ensures
        d.direction_for(ray_in, rec, draw) == v_normalize(ray_in.direction),
        v_normalize(ray_in.direction) == v3(fx(0), fx(-ONE_RAW), fx(0)),
{
    let one = ONE_RAW as int;
    lemma_mul_whole(-k, -k);
    lemma_mul_whole(0, 0);
    lemma_mul_whole(1, 1);
    lemma_mul_whole(1, -1);
    lemma_mul_whole(-1, -1);
    lemma_mul_whole(1, 0);
    lemma_mul_whole(0, 1);
    lemma_mul_whole(-1, 1);
    lemma_mul_whole(-1, 0);
    lemma_mul_whole(0, -1);
    assert((-k) * (-k) == k * k) by (nonlinear_arith);
    assert(0 < k * k <= 0x1_0000 * 0x1_0000) by (nonlinear_arith)
        requires
            0 < k <= 0x1_0000,
    ;
    assert(0 < k * k * one <= 0x1_0000 * 0x1_0000 * one) by (nonlinear_arith)
        requires
            0 < k * k <= 0x1_0000 * 0x1_0000,
            one == ONE_RAW,
    ;
    assert(v_length_squared(ray_in.direction) == fx(k * k * one));
    lemma_sqrt_whole_square(k);
    lemma_sqrt_whole_square(1);
    lemma_sqrt_whole_square(0);
    assert(0 < k * one <= 0x1_0000 * one) by (nonlinear_arith)
        requires
            0 < k <= 0x1_0000,
            one == ONE_RAW,
    ;
    lemma_div_whole_by_itself(k);
    let unit = v_normalize(ray_in.direction);
    assert(unit == v3(fx(0), fx(-one), fx(0)));
    lemma_index_one_no_total_reflection(d, rec.front_face, fx_one());
    let ratio = d.refraction_ratio(rec.front_face);
    assert(v_dot(v_neg(unit), rec.normal) == fx_one());
    let cos_theta = fx_min(v_dot(v_neg(unit), rec.normal), fx_one());
    assert(cos_theta == fx_one());
    lemma_div_one(0);
    assert(reflectance_spec(cos_theta, ratio) == fx(0));
    assert(v_dot(unit, rec.normal) == fx(-one));
    let perp = v_scale(ratio, v_add(unit, v_scale(fx(one), rec.normal)));
    assert(perp == v3(fx(0), fx(0), fx(0)));
    assert(refract_spec(unit, rec.normal, ratio) == unit);
}

/// With an index of refraction of one the ratio of indices is one on either
/// side of the surface, and total internal reflection never occurs, whatever
/// the angle of incidence.
pub proof fn lemma_index_one_no_total_reflection(d: Dielectric, front_face: bool, cos_theta: Fixed)
    requires
        d.ir == fx_one(),
    ensures
        d.refraction_ratio(front_face) == fx_one(),
        !cannot_refract(d.refraction_ratio(front_face), cos_theta),
{
    let c = cos_theta.raw as int;
    assert(c * c >= 0) by (nonlinear_arith);
    let x = fx_sub(fx_one(), fx_mul(cos_theta, cos_theta));
    lemma_sqrt_at_most_one(x);
    let s = sine_of(cos_theta);
    assert(ONE_RAW * s.raw == s.raw * ONE_RAW);
}

} // verus!
