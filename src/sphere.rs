//! Stationary spheres, and the ray-ball intersection shared with moving ones.
use vstd::prelude::*;
use crate::fixed::{
    abs_int, fx, fx_add, fx_div, fx_mul, fx_neg, fx_sqrt, fx_sub, lemma_div_one,
    lemma_div_monotone, lemma_div_whole_by_itself, lemma_mul_whole, lemma_sqrt_whole_square,
    lemma_square_nonneg, Fixed, ONE_RAW,
};
use crate::hit::{face_normal, is_front_face, lemma_face_normal_opposes_ray, HitRecord, Hittable};
use crate::material::Material;
use crate::ray::{ray_at, Ray};
use crate::vec3::{v3, v_div, v_dot, v_length_squared, v_sub, Point3};

verus! {

/// `t` lies in `[t_min, t_max]`.
pub open spec fn in_interval(t: Fixed, t_min: Fixed, t_max: Fixed) -> bool {
    !(t.raw < t_min.raw || t_max.raw < t.raw)
}

/// The record of `ray` meeting the ball at parameter `t`.
pub open spec fn ball_record(
    center: Point3,
    radius: Fixed,
    material: Material,
    ray: Ray,
    t: Fixed,
) -> HitRecord {
    let p = ray_at(ray, t);
    let outward = v_div(v_sub(p, center), radius);
    HitRecord {
        p,
        normal: face_normal(ray.direction, outward),
        t,
        front_face: is_front_face(ray.direction, outward),
        material: Some(material),
    }
}

/// The roots of `|O + tD - C|^2 = r^2`, from the reduced discriminant
/// `half_b^2 - a c`: none when it is negative, else the nearer root when it
/// lies in `[t_min, t_max]`, else the farther one when it does.
#[verifier::opaque]
pub open spec fn ball_hit(
    center: Point3,
    radius: Fixed,
    material: Material,
    ray: Ray,
    t_min: Fixed,
    t_max: Fixed,
) -> Option<HitRecord> {
    let oc = v_sub(ray.origin, center);
    let a = v_length_squared(ray.direction);
    let half_b = v_dot(oc, ray.direction);
    let c = fx_sub(v_length_squared(oc), fx_mul(radius, radius));
    let discriminant = fx_sub(fx_mul(half_b, half_b), fx_mul(a, c));
    if discriminant.raw < 0 {
        None
    } else {
        let sqrtd = fx_sqrt(discriminant);
        let near = fx_div(fx_sub(fx_neg(half_b), sqrtd), a);
        let far = fx_div(fx_add(fx_neg(half_b), sqrtd), a);
        if in_interval(near, t_min, t_max) {
            Some(ball_record(center, radius, material, ray, near))
        } else if in_interval(far, t_min, t_max) {
            Some(ball_record(center, radius, material, ray, far))
        } else {
            None
        }
    }
}

/// A meeting with a ball lies in the interval searched.
pub proof fn lemma_ball_hit_in_interval(
    center: Point3,
    radius: Fixed,
    material: Material,
    ray: Ray,
    t_min: Fixed,
    t_max: Fixed,
)
    requires
        ball_hit(center, radius, material, ray, t_min, t_max) is Some,
    ensures
        in_interval(ball_hit(center, radius, material, ray, t_min, t_max)->Some_0.t, t_min, t_max),
{
    reveal(ball_hit);
}

/// Searching a ball up to `bound <= t_max` finds what the search up to
/// `t_max` found, when that lies within `bound`, and nothing otherwise.
pub proof fn lemma_ball_hit_restrict(
    center: Point3,
    radius: Fixed,
    material: Material,
    ray: Ray,
    t_min: Fixed,
    t_max: Fixed,
    bound: Fixed,
)
    requires
        bound.raw <= t_max.raw,
    ensures
        ball_hit(center, radius, material, ray, t_min, bound) == (if ball_hit(
            center,
            radius,
            material,
            ray,
            t_min,
            t_max,
        ) is Some && ball_hit(center, radius, material, ray, t_min, t_max)->Some_0.t.raw
            <= bound.raw {
            ball_hit(center, radius, material, ray, t_min, t_max)
        } else {
            None
        }),
{
    reveal(ball_hit);
    let oc = v_sub(ray.origin, center);
    let a = v_length_squared(ray.direction);
    let half_b = v_dot(oc, ray.direction);
    let c = fx_sub(v_length_squared(oc), fx_mul(radius, radius));
    let discriminant = fx_sub(fx_mul(half_b, half_b), fx_mul(a, c));
    if discriminant.raw >= 0 {
        let sqrtd = fx_sqrt(discriminant);
        lemma_square_nonneg(ray.direction.x);
        lemma_square_nonneg(ray.direction.y);
        lemma_square_nonneg(ray.direction.z);
        assert(a.raw >= 0);
        lemma_div_monotone(
            fx_sub(fx_neg(half_b), sqrtd),
            fx_add(fx_neg(half_b), sqrtd),
            a,
        );
    }
}

/// A meeting with a ball reports a normal that faces against the ray.
pub proof fn lemma_ball_normal_opposes_ray(
    center: Point3,
    radius: Fixed,
    material: Material,
    ray: Ray,
    t_min: Fixed,
    t_max: Fixed,
)
    requires
        ball_hit(center, radius, material, ray, t_min, t_max) is Some,
    ensures
        v_dot(ray.direction, ball_hit(center, radius, material, ray, t_min, t_max)->Some_0.normal).raw
            <= 0,
{
    reveal(ball_hit);
    let t = ball_hit(center, radius, material, ray, t_min, t_max)->Some_0.t;
    let outward = v_div(v_sub(ray_at(ray, t), center), radius);
    lemma_face_normal_opposes_ray(ray.direction, outward);
}

/// A ray that starts `s` whole units from the center of a ball of whole
/// radius `r < s` and runs along the first axis toward the center, with unit
/// speed, meets the ball at `t = s - r`, the distance less the radius, with
/// the normal pointing from the center to the point met.
pub proof fn lemma_axis_ray_meets_at_distance_minus_radius(
    center: Point3,
    s: int,
    r: int,
    material: Material,
    ray: Ray,
    t_min: Fixed,
    t_max: Fixed,
)
    requires
        0 < r < s <= 0x1_0000,
        -0x100_0000_0000 <= center.x.raw <= 0x100_0000_0000,
        center.y.wf(),
        center.z.wf(),
        ray.origin == v3(fx(center.x.raw - s * ONE_RAW), center.y, center.z),
        ray.direction == v3(fx(ONE_RAW as int), fx(0), fx(0)),
        t_min.raw <= (s - r) * ONE_RAW <= t_max.raw,
    ensures
        ball_hit(center, fx(r * ONE_RAW), material, ray, t_min, t_max) is Some,
        ball_hit(center, fx(r * ONE_RAW), material, ray, t_min, t_max)->Some_0.t == fx(
            (s - r) * ONE_RAW,
        ),
        v_sub(ball_hit(center, fx(r * ONE_RAW), material, ray, t_min, t_max)->Some_0.p, center)
            == v3(fx(-r * ONE_RAW), fx(0), fx(0)),
        ball_hit(center, fx(r * ONE_RAW), material, ray, t_min, t_max)->Some_0.normal == v3(
            fx(-ONE_RAW),
            fx(0),
            fx(0),
        ),
{
    reveal(ball_hit);
    let one = ONE_RAW as int;
    let radius = fx(r * one);
    let oc = v_sub(ray.origin, center);
    assert(-0x1_0000 * one <= s * one <= 0x1_0000 * one) by (nonlinear_arith)
        requires
            0 < s <= 0x1_0000,
            one == ONE_RAW,
    ;
    assert(oc == v3(fx(-s * one), fx(0 * one), fx(0 * one)));
    lemma_mul_whole(1, 1);
    lemma_mul_whole(0, 0);
    lemma_mul_whole(-s, 1);
    lemma_mul_whole(-s, -s);
    lemma_mul_whole(r, r);
    lemma_mul_whole(-s, 0);
    assert((-s) * (-s) == s * s) by (nonlinear_arith);
    let a = v_length_squared(ray.direction);
    assert(a == fx(one));
    let half_b = v_dot(oc, ray.direction);
    assert(half_b == fx(-s * one));
    assert(v_length_squared(oc) == fx(s * s * one));
    lemma_axis_discriminant(s, r);
    let c = fx_sub(v_length_squared(oc), fx_mul(radius, radius));
    let discriminant = fx_sub(fx_mul(half_b, half_b), fx_mul(a, c));
    assert(discriminant == fx(r * r * one));
    lemma_sqrt_whole_square(r);
    let sqrtd = fx_sqrt(discriminant);
    assert(fx_sub(fx_neg(half_b), sqrtd) == fx((s - r) * one));
    lemma_div_one((s - r) * one);
    let near = fx_div(fx_sub(fx_neg(half_b), sqrtd), a);
    assert(near == fx((s - r) * one));
    lemma_mul_whole(s - r, 1);
    lemma_mul_whole(s - r, 0);
    let p = ray_at(ray, near);
    assert(p == v3(fx(center.x.raw - r * one), center.y, center.z));
    assert(v_sub(p, center) == v3(fx(-r * one), fx(0), fx(0)));
    lemma_div_whole_by_itself(r);
    let outward = v_div(v_sub(p, center), radius);
    assert(outward == v3(fx(-one), fx(0), fx(0)));
    lemma_mul_whole(1, -1);
    assert(is_front_face(ray.direction, outward));
}

/// The reduced discriminant of the axis ray: `half_b^2 - a c = r^2`.
proof fn lemma_axis_discriminant(s: int, r: int)
    requires
        0 < r < s <= 0x1_0000,
    ensures
        fx_sub(
            fx_mul(fx(-s * ONE_RAW), fx(-s * ONE_RAW)),
            fx_mul(fx(ONE_RAW as int), fx_sub(fx(s * s * ONE_RAW), fx(r * r * ONE_RAW))),
        ) == fx(r * r * ONE_RAW),
{
    assert(0 < r * r < s * s <= 0x1_0000 * 0x1_0000) by (nonlinear_arith)
        requires
            0 < r < s <= 0x1_0000,
    ;
    assert(s * s * ONE_RAW <= 0x1_0000 * 0x1_0000 * ONE_RAW) by (nonlinear_arith)
        requires
            s * s <= 0x1_0000 * 0x1_0000,
    ;
    assert(0 < r * r * ONE_RAW < s * s * ONE_RAW) by (nonlinear_arith)
        requires
            0 < r * r < s * s,
    ;
    lemma_mul_whole(-s, -s);
    let d = (s * s - r * r) * ONE_RAW;
    assert(d == s * s * ONE_RAW - r * r * ONE_RAW) by (nonlinear_arith)
        requires
            d == (s * s - r * r) * ONE_RAW,
    ;
    assert((-s) * (-s) == s * s) by (nonlinear_arith);
    assert(fx_sub(fx(s * s * ONE_RAW), fx(r * r * ONE_RAW)) == fx(d));
    assert(abs_int(ONE_RAW * d) == ONE_RAW * d && ONE_RAW * d / (ONE_RAW as int) == d) by (nonlinear_arith)
        requires
            d > 0,
    ;
    assert(fx_mul(fx(ONE_RAW as int), fx(d)) == fx(d));
}

pub(crate) fn hit_ball(
    center: Point3,
    radius: Fixed,
    material: Material,
    ray: &Ray,
    t_min: Fixed,
    t_max: Fixed,
    record: &mut HitRecord,
) -> (r: bool)
    ensures
        r == ball_hit(center, radius, material, *ray, t_min, t_max) is Some,
        r ==> *final(record) == ball_hit(center, radius, material, *ray, t_min, t_max)->Some_0,
        !r ==> *final(record) == *old(record),
{
    reveal(ball_hit);
    let oc = ray.origin.sub(center);
    let a = ray.direction.length_squared();
    let half_b = oc.dot(ray.direction);
    let c = oc.length_squared().sub(radius.mul(radius));
    let discriminant = half_b.mul(half_b).sub(a.mul(c));
    if discriminant.raw < 0 {
        return false;
    }
    let sqrtd = discriminant.sqrt();
    let mut root = half_b.neg().sub(sqrtd).div(a);
    if root.raw < t_min.raw || t_max.raw < root.raw {
        root = half_b.neg().add(sqrtd).div(a);
        if root.raw < t_min.raw || t_max.raw < root.raw {
            return false;
        }
    }
    record.t = root;
    record.p = ray.at(record.t);
    let outward_normal = record.p.sub(center).div(radius);
    record.set_face_normal(ray, outward_normal);
    record.material = Some(material);
    true
}

#[derive(Clone, Copy, Debug, PartialEq, Eq, Structural)]
pub struct Sphere {
    pub center: Point3,
    pub radius: Fixed,
    pub material: Material,
}

impl Sphere {
    pub fn new(center: Point3, radius: Fixed, material: Material) -> (r: Sphere)
        requires
            radius.raw > 0,
        ensures
            r == (Sphere { center, radius, material }),
    {
        Sphere { center, radius, material }
    }
}

impl Hittable for Sphere {
    open spec fn hit_model(&self, ray: Ray, t_min: Fixed, t_max: Fixed) -> Option<HitRecord> {
        ball_hit(self.center, self.radius, self.material, ray, t_min, t_max)
    }

    fn hit(&self, ray: &Ray, t_min: Fixed, t_max: Fixed, record: &mut HitRecord) -> (r: bool) {
        hit_ball(self.center, self.radius, self.material, ray, t_min, t_max, record)
    }
}

} // verus!
