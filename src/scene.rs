//! The demonstration scene: a ground, a grid of small random spheres, and
//! three large ones.
use vstd::prelude::*;
use crate::dielectric::Dielectric;
use crate::fixed::{fx, Fixed, ONE_RAW};
use crate::hit_list::{HittableList, Surface};
use crate::lambertian::Lambertian;
use crate::material::Material;
use crate::metal::Metal;
use crate::ray::{random_fixed, Random};
use crate::sphere::Sphere;
use crate::vec3::{v3, v_length, v_sub, Vec3};

verus! {

/// Radius, and height of the center, of the small spheres (0.2), raw.
pub const SMALL_RADIUS_RAW: i64 = 13107;

/// Least distance from a small sphere's center to the clearing kept beside
/// the metal sphere (0.9), raw.
pub const CLEARING_RAW: i64 = 58982;

/// Largest jitter of a small sphere's center across the grid's first axis
/// (0.9), raw.
pub const JITTER_RAW: i64 = 58982;

/// Index of refraction of the glass spheres (1.5), raw.
pub const GLASS_IR_RAW: i64 = 98304;

/// Half the grid's side: small spheres stand at `a, b` in `[-11, 11)`.
pub const GRID_HALF: i64 = 11;

/// Draw below which a small sphere is diffuse (0.8), raw.
pub const DIFFUSE_SHARE_RAW: i64 = 52428;

/// Draw below which a small sphere that is not diffuse is metal (0.95), raw.
pub const METAL_SHARE_RAW: i64 = 62259;

pub open spec fn glass() -> Material {
    Material::Dielectric(Dielectric { ir: fx(GLASS_IR_RAW as int) })
}

pub open spec fn ground_sphere() -> Surface {
    Surface::Sphere(
        Sphere {
            center: v3(fx(0), fx(-1000 * ONE_RAW), fx(0)),
            radius: fx(1000 * ONE_RAW),
            material: Material::Lambertian(
                Lambertian { albedo: v3(fx(32768), fx(32768), fx(32768)) },
            ),
        },
    )
}

pub open spec fn glass_sphere() -> Surface {
    Surface::Sphere(
        Sphere { center: v3(fx(0), fx(ONE_RAW as int), fx(0)), radius: fx(ONE_RAW as int), material: glass() },
    )
}

pub open spec fn diffuse_sphere() -> Surface {
    Surface::Sphere(
        Sphere {
            center: v3(fx(-4 * ONE_RAW), fx(ONE_RAW as int), fx(0)),
            radius: fx(ONE_RAW as int),
            material: Material::Lambertian(
                Lambertian { albedo: v3(fx(26214), fx(13107), fx(6553)) },
            ),
        },
    )
}

pub open spec fn metal_sphere() -> Surface {
    Surface::Sphere(
        Sphere {
            center: v3(fx(4 * ONE_RAW), fx(ONE_RAW as int), fx(0)),
            radius: fx(ONE_RAW as int),
            material: Material::Metal(
                Metal { albedo: v3(fx(45875), fx(39321), fx(32768)), fuzz: fx(0) },
            ),
        },
    )
}

/// The point that the small spheres keep clear of.
pub open spec fn clearing() -> Vec3 {
    v3(fx(4 * ONE_RAW), fx(SMALL_RADIUS_RAW as int), fx(0))
}

/// A small sphere of the grid: radius 0.2, resting at height 0.2, clear of
/// the metal sphere.
pub open spec fn is_small_sphere(s: Surface) -> bool {
    match s {
        Surface::Sphere(sp) => {
            &&& sp.radius == fx(SMALL_RADIUS_RAW as int)
            &&& sp.center.y == fx(SMALL_RADIUS_RAW as int)
            &&& v_length(v_sub(sp.center, clearing())).raw > CLEARING_RAW
        },
        Surface::MovingSphere(_) => false,
    }
}

/// The material of a small sphere for a uniform draw `choose_material`:
/// diffuse below 0.8, then metal below 0.95, then glass.
fn small_sphere_material(choose_material: Fixed) -> (r: Material)
    ensures
        choose_material.raw < DIFFUSE_SHARE_RAW ==> r is Lambertian,
        DIFFUSE_SHARE_RAW <= choose_material.raw < METAL_SHARE_RAW ==> r is Metal
            && r->Metal_0.fuzz == fx(0) && crate::ray::in_box(
            r->Metal_0.albedo,
            fx(ONE_RAW / 2),
            fx(ONE_RAW as int),
        ),
        METAL_SHARE_RAW <= choose_material.raw ==> r == glass(),
{
    if choose_material.raw < DIFFUSE_SHARE_RAW {
        let albedo = Vec3::random().mul(Vec3::random());
        Material::Lambertian(Lambertian { albedo })
    } else if choose_material.raw < METAL_SHARE_RAW {
        let albedo = Vec3::random_by(Fixed { raw: ONE_RAW / 2 }, Fixed::one());
        Material::Metal(Metal { albedo, fuzz: Fixed::zero() })
    } else {
        Material::Dielectric(Dielectric { ir: Fixed { raw: GLASS_IR_RAW } })
    }
}

/// The ground, up to one small sphere per cell of a 22 by 22 grid, and the
/// glass, diffuse and metal spheres, in that order.
pub fn random_scene() -> (r: HittableList)
    ensures
        4 <= r.objects@.len() <= 4 + 4 * GRID_HALF * GRID_HALF,
        r.objects@[0] == ground_sphere(),
        r.objects@[r.objects@.len() - 3] == glass_sphere(),
        r.objects@[r.objects@.len() - 2] == diffuse_sphere(),
        r.objects@[r.objects@.len() - 1] == metal_sphere(),
        forall|i: int| 1 <= i < r.objects@.len() - 3 ==> is_small_sphere(#[trigger] r.objects@[i]),
{
    let mut world = HittableList::new();
    let ground_material = Material::Lambertian(
        Lambertian { albedo: Vec3 { x: Fixed { raw: 32768 }, y: Fixed { raw: 32768 }, z: Fixed { raw: 32768 } } },
    );
    world.add(Surface::Sphere(Sphere {
        center: Vec3 { x: Fixed::zero(), y: Fixed { raw: -1000 * ONE_RAW }, z: Fixed::zero() },
        radius: Fixed { raw: 1000 * ONE_RAW },
        material: ground_material,
    }));
    let clear_of = Vec3 { x: Fixed { raw: 4 * ONE_RAW }, y: Fixed { raw: SMALL_RADIUS_RAW }, z: Fixed::zero() };
    let mut a: i64 = -GRID_HALF;
    while a < GRID_HALF
        invariant
            -GRID_HALF <= a <= GRID_HALF,
            1 <= world.objects@.len() <= 1 + (a + GRID_HALF) * 2 * GRID_HALF,
            world.objects@[0] == ground_sphere(),
            clear_of == clearing(),
            forall|i: int| 1 <= i < world.objects@.len() ==> is_small_sphere(#[trigger] world.objects@[i]),
        decreases GRID_HALF - a,
    {
        let mut b: i64 = -GRID_HALF;
        while b < GRID_HALF
            invariant
                -GRID_HALF <= a < GRID_HALF,
                -GRID_HALF <= b <= GRID_HALF,
                1 <= world.objects@.len() <= 1 + (a + GRID_HALF) * 2 * GRID_HALF + (b + GRID_HALF),
                world.objects@[0] == ground_sphere(),
                clear_of == clearing(),
                forall|i: int| 1 <= i < world.objects@.len() ==> is_small_sphere(#[trigger] world.objects@[i]),
            decreases GRID_HALF - b,
        {
            let choose_material = random_fixed(Fixed::zero(), Fixed::one());
            let center = Vec3 {
                x: Fixed::from_int(a).add(Fixed { raw: JITTER_RAW }.mul(random_fixed(Fixed::zero(), Fixed::one()))),
                y: Fixed { raw: SMALL_RADIUS_RAW },
                z: Fixed::from_int(b).add(random_fixed(Fixed::zero(), Fixed::one())),
            };
            if center.sub(clear_of).length().raw > CLEARING_RAW {
                let sphere_material = small_sphere_material(choose_material);
                let ghost before = world.objects@;
                world.add(Surface::Sphere(Sphere {
                    center,
                    radius: Fixed { raw: SMALL_RADIUS_RAW },
                    material: sphere_material,
                }));
                assert(forall|i: int| 1 <= i < before.len() ==> world.objects@[i] == before[i]);
            }
            b = b + 1;
        }
        a = a + 1;
    }
    world.add(Surface::Sphere(Sphere {
        center: Vec3 { x: Fixed::zero(), y: Fixed::one(), z: Fixed::zero() },
        radius: Fixed::one(),
        material: Material::Dielectric(Dielectric { ir: Fixed { raw: GLASS_IR_RAW } }),
    }));
    world.add(Surface::Sphere(Sphere {
        center: Vec3 { x: Fixed { raw: -4 * ONE_RAW }, y: Fixed::one(), z: Fixed::zero() },
        radius: Fixed::one(),
        material: Material::Lambertian(
            Lambertian { albedo: Vec3 { x: Fixed { raw: 26214 }, y: Fixed { raw: 13107 }, z: Fixed { raw: 6553 } } },
        ),
    }));
    world.add(Surface::Sphere(Sphere {
        center: Vec3 { x: Fixed { raw: 4 * ONE_RAW }, y: Fixed::one(), z: Fixed::zero() },
        radius: Fixed::one(),
        material: Material::Metal(
            Metal { albedo: Vec3 { x: Fixed { raw: 45875 }, y: Fixed { raw: 39321 }, z: Fixed { raw: 32768 } }, fuzz: Fixed::zero() },
        ),
    }));
    world
}

} // verus!
