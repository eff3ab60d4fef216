//! Rays, random sampling of points, and the recursive color estimate.
use vstd::prelude::*;
use crate::fixed::{fx, fx_add, fx_div, fx_mul, fx_neg, fx_sqrt, fx_sub, Fixed, ONE_RAW, RAW_MAX};
use crate::hit::{HitRecord, Hittable};
use crate::hit_list::HittableList;
use crate::vec3::{
    v3, v_add, v_dot, v_length_squared, v_mul, v_normalize, v_scale, v_sub, Color, Point3, Vec3,
};

verus! {

#[derive(Clone, Copy, Debug, PartialEq, Eq, Structural)]
pub struct Ray {
    pub origin: Point3,
    pub direction: Vec3,
    /// The instant the ray is emitted, for moving geometry.
    pub time: Fixed,
}

/// The point `origin + t * direction`.
pub open spec fn ray_at(ray: Ray, t: Fixed) -> Point3 {
    v_add(ray.origin, v_scale(t, ray.direction))
}

impl Ray {
    pub fn new(origin: Point3, direction: Vec3, time: Fixed) -> (r: Ray)
        ensures
            r == (Ray { origin, direction, time }),
    {
        Ray { origin, direction, time }
    }

    pub fn at(&self, t: Fixed) -> (r: Point3)
        ensures
            r == ray_at(*self, t),
    {
        self.origin.add(self.direction.scale(t))
    }
}

/// The parameter of the nearer intersection of `ray` with a sphere, or -1
/// when the ray's line misses it.
pub open spec fn hit_sphere_param(center: Point3, radius: Fixed, ray: Ray) -> Fixed {
    let oc = v_sub(ray.origin, center);
    let a = v_length_squared(ray.direction);
    let half_b = v_dot(oc, ray.direction);
    let c = fx_sub(v_length_squared(oc), fx_mul(radius, radius));
    let discriminant = fx_sub(fx_mul(half_b, half_b), fx_mul(a, c));
    if discriminant.raw < 0 {
        fx(-ONE_RAW)
    } else {
        fx_div(fx_sub(fx_neg(half_b), fx_sqrt(discriminant)), a)
    }
}

pub fn hit_sphere(center: Point3, radius: Fixed, ray: &Ray) -> (r: Fixed)
    ensures
        r == hit_sphere_param(center, radius, *ray),
{
    let oc = ray.origin.sub(center);
    let a = ray.direction.length_squared();
    let half_b = oc.dot(ray.direction);
    let c = oc.length_squared().sub(radius.mul(radius));
    let discriminant = half_b.mul(half_b).sub(a.mul(c));
    if discriminant.raw < 0 {
        Fixed { raw: -ONE_RAW }
    } else {
        half_b.neg().sub(discriminant.sqrt()).div(a)
    }
}

/// Relies on rand's `Uniform::new(lo, hi)` sampled from `thread_rng()`: the
/// draw lies in `[lo, hi)`; `Uniform::new` panics unless `lo < hi`.
#[verifier::external_body]
pub(crate) fn uniform_raw(lo: i64, hi: i64) -> (r: i64)
    requires
        lo < hi,
    ensures
        lo <= r < hi,
{
    rand::distributions::Distribution::sample(
        &rand::distributions::Uniform::new(lo, hi),
        &mut rand::thread_rng(),
    )
}

/// A draw from `[min, max)`.
pub fn random_fixed(min: Fixed, max: Fixed) -> (r: Fixed)
    requires
        min.raw < max.raw,
    ensures
        min.raw <= r.raw < max.raw,
{
    Fixed { raw: uniform_raw(min.raw, max.raw) }
}

pub open spec fn in_range(a: Fixed, min: Fixed, max: Fixed) -> bool {
    min.raw <= a.raw < max.raw
}

pub open spec fn in_box(p: Vec3, min: Fixed, max: Fixed) -> bool {
    in_range(p.x, min, max) && in_range(p.y, min, max) && in_range(p.z, min, max)
}

/// Strictly inside the unit ball, as measured by the fixed-point squared length.
pub open spec fn in_unit_ball(p: Vec3) -> bool {
    v_length_squared(p).raw < ONE_RAW
}

/// Strictly inside the unit disk of the `z = 0` plane.
pub open spec fn in_unit_disk(p: Vec3) -> bool {
    p.z.raw == 0 && in_unit_ball(p)
}

/// Draws tried before a rejection sampler settles for the origin; the chance
/// that all of them miss is below 1e-20.
pub const MAX_REJECTION_DRAWS: u32 = 64;

/// Values that can be drawn at random, component by component.
pub trait Random: Sized {
    /// Every component lies in `[min, max)`.
    spec fn within(self, min: Fixed, max: Fixed) -> bool;

    /// A value whose components are drawn from `[0, 1)`.
    fn random() -> (r: Self)
        ensures
            r.within(fx(0), fx(ONE_RAW as int)),
    ;

    /// A value whose components are drawn from `[min, max)`.
    fn random_by(min: Fixed, max: Fixed) -> (r: Self)
        requires
            min.raw < max.raw,
        ensures
            r.within(min, max),
    ;
}

impl Random for Vec3 {
    open spec fn within(self, min: Fixed, max: Fixed) -> bool {
        in_box(self, min, max)
    }

    fn random() -> (r: Vec3) {
        Vec3::random_by(Fixed::zero(), Fixed::one())
    }

    fn random_by(min: Fixed, max: Fixed) -> (r: Vec3) {
        let x = random_fixed(min, max);
        let y = random_fixed(min, max);
        let z = random_fixed(min, max);
        Vec3 { x, y, z }
    }
}

/// A point drawn from the unit ball by rejection.
pub fn random_in_unit_sphere() -> (r: Vec3)
    ensures
        in_unit_ball(r),
        in_box(r, fx(-ONE_RAW), fx(ONE_RAW as int)),
{
    let mut i: u32 = 0;
    while i < MAX_REJECTION_DRAWS
        decreases MAX_REJECTION_DRAWS - i,
    {
        let p = Vec3::random_by(Fixed { raw: -ONE_RAW }, Fixed::one());
        if p.length_squared().raw < ONE_RAW {
            return p;
        }
        i = i + 1;
    }
    Vec3::zero()
}

/// A unit vector in a random direction.
pub fn random_unit_vector() -> (r: Vec3)
    ensures
        exists|p: Vec3| #[trigger] in_unit_ball(p) && r == v_normalize(p),
{
    let p = random_in_unit_sphere();
    let r = p.normalize();
    assert(in_unit_ball(p) && r == v_normalize(p));
    r
}

/// A point of the unit ball on the same side as `normal`.
pub fn random_in_hemisphere(normal: &Vec3) -> (r: Vec3)
    ensures
        exists|p: Vec3|
            #[trigger] in_unit_ball(p) && r == (if v_dot(p, *normal).raw > 0 {
                p
            } else {
                crate::vec3::v_neg(p)
            }),
{
    let p = random_in_unit_sphere();
    if p.dot(*normal).raw > 0 {
        p
    } else {
        p.neg()
    }
}

/// A point drawn from the unit disk of the `z = 0` plane by rejection.
pub fn random_in_unit_disk() -> (r: Vec3)
    ensures
        in_unit_disk(r),
        in_box(r, fx(-ONE_RAW), fx(ONE_RAW as int)),
{
    let mut i: u32 = 0;
    while i < MAX_REJECTION_DRAWS
        decreases MAX_REJECTION_DRAWS - i,
    {
        let x = random_fixed(Fixed { raw: -ONE_RAW }, Fixed::one());
        let y = random_fixed(Fixed { raw: -ONE_RAW }, Fixed::one());
        let p = Vec3 { x, y, z: Fixed::zero() };
        if p.length_squared().raw < ONE_RAW {
            return p;
        }
        i = i + 1;
    }
    Vec3::zero()
}

/// Parameter below which a meeting is taken for the surface the ray leaves
/// (0.001).
pub const EPSILON_RAW: i64 = 65;

/// Half, raw.
pub const HALF_RAW: i64 = 32768;

/// Green channel of the sky's zenith color (0.7), raw.
pub const SKY_GREEN_RAW: i64 = 45875;

pub open spec fn black() -> Color {
    v3(fx(0), fx(0), fx(0))
}

/// The sky's color at the horizon.
pub open spec fn white() -> Color {
    v3(fx(ONE_RAW as int), fx(ONE_RAW as int), fx(ONE_RAW as int))
}

/// The sky's color at the zenith.
pub open spec fn sky_blue() -> Color {
    v3(fx(HALF_RAW as int), fx(SKY_GREEN_RAW as int), fx(ONE_RAW as int))
}

/// The sky seen along `direction`: white blended toward blue by
/// `t = (unit_y + 1) / 2`.
#[verifier::opaque]
pub open spec fn background_color(direction: Vec3) -> Color {
    let unit_direction = v_normalize(direction);
    let t = fx_mul(fx(HALF_RAW as int), fx_add(unit_direction.y, fx(ONE_RAW as int)));
    v_add(v_scale(fx_sub(fx(ONE_RAW as int), t), white()), v_scale(t, sky_blue()))
}

pub fn background(direction: Vec3) -> (r: Color)
    ensures
        r == background_color(direction),
{
    reveal(background_color);
    let unit_direction = direction.normalize();
    let t = Fixed { raw: HALF_RAW }.mul(unit_direction.y.add(Fixed::one()));
    let white = Vec3 { x: Fixed::one(), y: Fixed::one(), z: Fixed::one() };
    let sky = Vec3 { x: Fixed { raw: HALF_RAW }, y: Fixed { raw: SKY_GREEN_RAW }, z: Fixed::one() };
    white.scale(Fixed::one().sub(t)).add(sky.scale(t))
}

/// The interval in which a ray looks for the surfaces it meets.
pub open spec fn search_min() -> Fixed {
    fx(EPSILON_RAW as int)
}

pub open spec fn search_max() -> Fixed {
    fx(RAW_MAX as int)
}

/// `c` is one possible estimate of the light arriving along `ray` with
/// `depth` bounces left: black once the bounces are spent or when the ray is
/// absorbed, the sky when nothing is met, and otherwise the attenuation of
/// one possible scatter times an estimate for the scattered ray.
pub open spec fn ray_color_outcome<W: Hittable>(world: W, ray: Ray, depth: int, c: Color) -> bool
    decreases depth,
{
    if depth <= 0 {
        c == black()
    } else {
        match world.hit_model(ray, search_min(), search_max()) {
            None => c == background_color(ray.direction),
            Some(rec) => match rec.material {
                None => c == black(),
                Some(m) => exists|attenuation: Color, scattered: Ray, ok: bool|
                    #[trigger] m.scatter_outcome(ray, rec, attenuation, scattered, ok) && if ok {
                        exists|c2: Color|
                            ray_color_outcome(world, scattered, depth - 1, c2) && c
                                == #[trigger] v_mul(attenuation, c2)
                    } else {
                        c == black()
                    },
            },
        }
    }
}

/// An estimate of the light arriving along `ray`, following at most `depth`
/// bounces.
pub fn ray_color<W: Hittable>(ray: &Ray, world: &W, depth: i32) -> (r: Color)
    ensures
        ray_color_outcome(*world, *ray, depth as int, r),
        depth <= 0 ==> r == black(),
        depth > 0 && world.hit_model(*ray, search_min(), search_max()) is None ==> r
            == background_color(ray.direction),
    decreases depth,
{
    let mut record = HitRecord::default();
    if depth <= 0 {
        return Vec3::zero();
    }
    if world.hit(ray, Fixed { raw: EPSILON_RAW }, Fixed::max_value(), &mut record) {
        let mut scattered = Ray { origin: Vec3::zero(), direction: Vec3::zero(), time: Fixed::zero() };
        let mut attenuation = Vec3::zero();
        match record.material {
            Some(m) => {
                let ok = m.scatter(ray, &record, &mut attenuation, &mut scattered);
                if ok {
                    let incoming = ray_color(&scattered, world, depth - 1);
                    let r = attenuation.mul(incoming);
                    proof {
                        lemma_scatter_step(*world, *ray, depth as int, record, m, attenuation, scattered, incoming);
                    }
                    return r;
                }
                assert(m.scatter_outcome(*ray, record, attenuation, scattered, ok));
                return Vec3::zero();
            },
            None => {
                return Vec3::zero();
            },
        }
    }
    background(ray.direction)
}

/// One bounce: a scatter followed by an estimate for the scattered ray.
proof fn lemma_scatter_step<W: Hittable>(
    world: W,
    ray: Ray,
    depth: int,
    rec: HitRecord,
    m: crate::material::Material,
    a: Color,
    sc: Ray,
    c2: Color,
)
    requires
        depth > 0,
        world.hit_model(ray, search_min(), search_max()) == Some(rec),
        rec.material == Some(m),
        m.scatter_outcome(ray, rec, a, sc, true),
        ray_color_outcome(world, sc, depth - 1, c2),
    ensures
        ray_color_outcome(world, ray, depth, v_mul(a, c2)),
{
    assert(ray_color_outcome(world, sc, depth - 1, c2) && v_mul(a, c2) == v_mul(a, c2));
}

/// With no bounces left every estimate is black.
pub proof fn lemma_no_bounces_black<W: Hittable>(world: W, ray: Ray, depth: int, c: Color)
    requires
        depth <= 0,
        ray_color_outcome(world, ray, depth, c),
    ensures
        c == black(),
{
}

/// In an empty scene every estimate is the sky along the ray, whatever
/// bounces are left.
pub proof fn lemma_empty_scene_background(world: HittableList, ray: Ray, depth: int, c: Color)
    requires
        world.objects@.len() == 0,
        depth > 0,
        ray_color_outcome(world, ray, depth, c),
    ensures
        c == background_color(ray.direction),
{
}

} // verus!
