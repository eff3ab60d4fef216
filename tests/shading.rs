use ryt::camera::Camera;
use ryt::dielectric::Dielectric;
use ryt::fixed::{Fixed, ONE_RAW};
use ryt::hit::{HitRecord, Hittable};
use ryt::hit_list::{HittableList, Surface};
use ryt::lambertian::Lambertian;
use ryt::material::Material;
use ryt::metal::{reflect, Metal};
use ryt::ray::{
    background, random_in_hemisphere, random_in_unit_disk, random_in_unit_sphere,
    random_unit_vector, ray_color, Random, Ray,
};
use ryt::render::{sample_pixel, tone_map};
use ryt::scene::random_scene;
use ryt::sphere::Sphere;
use ryt::vec3::Vec3;

fn fx(raw: i64) -> Fixed {
    Fixed { raw }
}

fn v(x: i64, y: i64, z: i64) -> Vec3 {
    Vec3::new(fx(x), fx(y), fx(z))
}

fn ray(origin: Vec3, direction: Vec3) -> Ray {
    Ray::new(origin, direction, Fixed::zero())
}

fn hit_at(p: Vec3, normal: Vec3, front_face: bool) -> HitRecord {
    HitRecord { p, normal, t: Fixed::one(), front_face, material: None }
}

fn black() -> Vec3 {
    Vec3::zero()
}

fn two_sphere_world() -> HittableList {
    let albedo = v(32768, 32768, 32768);
    let mut world = HittableList::new();
    world.add(Surface::Sphere(Sphere::new(
        v(0, -100 * ONE_RAW - ONE_RAW / 2, 0),
        Fixed::from_int(100),
        Material::Lambertian(Lambertian::new(albedo)),
    )));
    world.add(Surface::Sphere(Sphere::new(
        Vec3::zero(),
        Fixed::ratio(1, 2),
        Material::Lambertian(Lambertian::new(albedo)),
    )));
    world
}

fn axis_camera(aperture: Fixed, time0: Fixed, time1: Fixed) -> Camera {
    Camera::new(
        Vec3::from_ints(0, 0, 2),
        Vec3::zero(),
        Vec3::from_ints(0, 1, 0),
        Fixed::one(),
        Fixed::from_int(2),
        aperture,
        Fixed::one(),
        time0,
        time1,
    )
}

#[test]
fn random_points_stay_in_their_regions() {
    for _ in 0..2000 {
        let p = random_in_unit_sphere();
        assert!(p.length_squared().raw < ONE_RAW);
        let d = random_in_unit_disk();
        assert_eq!(d.z.raw, 0);
        assert!(d.length_squared().raw < ONE_RAW);
        let b = Vec3::random_by(Fixed::ratio(1, 2), Fixed::one());
        for c in [b.x, b.y, b.z] {
            assert!(c.raw >= ONE_RAW / 2 && c.raw < ONE_RAW);
        }
        let n = v(0, ONE_RAW, 0);
        assert!(random_in_hemisphere(&n).dot(n).raw >= 0);
    }
}

#[test]
fn random_unit_vectors_have_length_near_one() {
    for _ in 0..200 {
        let u = random_unit_vector();
        if !u.near_zero() {
            assert!((u.length().raw - ONE_RAW).abs() < 700);
        }
    }
}

#[test]
fn background_gradient_values() {
    assert_eq!(background(Vec3::from_ints(0, 1, 0)), v(32768, 45875, ONE_RAW));
    assert_eq!(background(Vec3::from_ints(0, -3, 0)), v(ONE_RAW, ONE_RAW, ONE_RAW));
    assert_eq!(background(Vec3::from_ints(1, 0, 0)), v(49152, 55705, ONE_RAW));
}

#[test]
fn lambertian_keeps_albedo_and_nonzero_direction() {
    let albedo = v(10000, 20000, 30000);
    let m = Lambertian::new(albedo);
    let rec = hit_at(Vec3::from_ints(1, 2, 3), v(0, ONE_RAW, 0), true);
    let incoming = Ray::new(Vec3::zero(), Vec3::from_ints(1, -1, 0), Fixed::ratio(1, 3));
    for _ in 0..500 {
        let mut att = Vec3::zero();
        let mut out = ray(Vec3::zero(), Vec3::zero());
        assert!(m.scatter(&incoming, &rec, &mut att, &mut out));
        assert_eq!(att, albedo);
        assert_eq!(out.origin, rec.p);
        assert_eq!(out.time, incoming.time);
        assert!(!out.direction.near_zero());
    }
}

#[test]
fn metal_without_fuzz_mirrors() {
    let albedo = v(45875, 39321, 32768);
    let m = Material::Metal(Metal { albedo, fuzz: Fixed::zero() });
    let rec = hit_at(Vec3::zero(), v(0, ONE_RAW, 0), true);
    let incoming = ray(Vec3::from_ints(-1, 1, 0), Vec3::from_ints(1, -1, 0));
    let mut att = Vec3::zero();
    let mut out = ray(Vec3::zero(), Vec3::zero());
    assert!(m.scatter(&incoming, &rec, &mut att, &mut out));
    assert_eq!(att, albedo);
    let unit = Vec3::from_ints(1, -1, 0).normalize();
    assert_eq!(out.direction, Vec3::new(unit.x, unit.y.neg(), unit.z));
    assert_eq!(reflect(unit, v(0, ONE_RAW, 0)), out.direction);
}

#[test]
fn metal_absorbs_reflection_into_surface() {
    let m = Material::Metal(Metal { albedo: v(ONE_RAW, ONE_RAW, ONE_RAW), fuzz: Fixed::zero() });
    let rec = hit_at(Vec3::zero(), v(0, ONE_RAW, 0), true);
    let incoming = ray(Vec3::from_ints(0, -1, 0), Vec3::from_ints(0, 1, 0));
    let mut att = Vec3::zero();
    let mut out = ray(Vec3::zero(), Vec3::zero());
    assert!(!m.scatter(&incoming, &rec, &mut att, &mut out));
}

#[test]
fn dielectric_index_one_passes_straight_through() {
    let m = Material::Dielectric(Dielectric { ir: Fixed::one() });
    let rec = hit_at(Vec3::zero(), v(0, ONE_RAW, 0), true);
    let incoming = ray(Vec3::from_ints(0, 3, 0), Vec3::from_ints(0, -3, 0));
    for _ in 0..200 {
        let mut att = Vec3::zero();
        let mut out = ray(Vec3::zero(), Vec3::zero());
        assert!(m.scatter(&incoming, &rec, &mut att, &mut out));
        assert_eq!(att, v(ONE_RAW, ONE_RAW, ONE_RAW));
        assert_eq!(out.direction, v(0, -ONE_RAW, 0));
    }
}

#[test]
fn dielectric_total_internal_reflection() {
    let m = Material::Dielectric(Dielectric { ir: Fixed::ratio(3, 2) });
    // leaving the glass at a grazing angle
    let rec = hit_at(Vec3::zero(), v(0, -ONE_RAW, 0), false);
    let incoming = ray(Vec3::zero(), v(ONE_RAW, ONE_RAW / 10, 0));
    let unit = incoming.direction.normalize();
    for _ in 0..100 {
        let mut att = Vec3::zero();
        let mut out = ray(Vec3::zero(), Vec3::zero());
        assert!(m.scatter(&incoming, &rec, &mut att, &mut out));
        assert_eq!(out.direction, reflect(unit, rec.normal));
        assert!(out.direction.y.raw < 0);
    }
}

#[test]
fn ray_color_without_bounces_is_black() {
    let world = two_sphere_world();
    let r = ray(Vec3::from_ints(0, 0, 2), Vec3::from_ints(0, 0, -1));
    assert_eq!(ray_color(&r, &world, 0), black());
    assert_eq!(ray_color(&r, &world, -3), black());
}

#[test]
fn ray_color_in_empty_scene_is_background() {
    let world = HittableList::new();
    for d in [v(1, 2, 3), v(0, -5, 0), v(-70000, 3000, 1), Vec3::from_ints(0, 1, 0)] {
        let r = ray(Vec3::zero(), d);
        assert_eq!(ray_color(&r, &world, 5), background(d));
        assert_eq!(ray_color(&r, &world, 1), background(d));
    }
}

#[test]
fn two_sphere_scene_center_and_sky() {
    let world = two_sphere_world();
    let camera = axis_camera(Fixed::zero(), Fixed::zero(), Fixed::zero());
    let center = camera.get_ray(Fixed::ratio(1, 2), Fixed::ratio(1, 2));
    let mut rec = HitRecord::default();
    assert!(world.hit(&center, Fixed { raw: 65 }, Fixed::max_value(), &mut rec));
    assert_eq!(rec.t, Fixed::ratio(3, 2));
    // with one bounce allowed the scattered ray has nothing left: black
    assert_eq!(ray_color(&center, &world, 1), black());
    let albedo = v(32768, 32768, 32768);
    for _ in 0..50 {
        let c = ray_color(&center, &world, 2);
        assert!(c.x.raw <= albedo.x.raw && c.y.raw <= albedo.y.raw && c.z.raw <= albedo.z.raw);
        assert!(c.x.raw >= 0 && c.y.raw >= 0 && c.z.raw >= 0);
    }
    let top = camera.get_ray(Fixed::ratio(1, 2), Fixed::one());
    assert_eq!(ray_color(&top, &world, 1), background(top.direction));
}

#[test]
fn camera_basis_from_axis_view() {
    let camera = Camera::new(
        Vec3::zero(),
        Vec3::from_ints(0, 0, -1),
        Vec3::from_ints(0, 1, 0),
        Fixed::one(),
        Fixed::from_int(2),
        Fixed::zero(),
        Fixed::one(),
        Fixed::zero(),
        Fixed::zero(),
    );
    assert_eq!(camera.w, Vec3::from_ints(0, 0, 1));
    assert_eq!(camera.u, Vec3::from_ints(1, 0, 0));
    assert_eq!(camera.v, Vec3::from_ints(0, 1, 0));
    assert_eq!(camera.horizontal, Vec3::from_ints(4, 0, 0));
    assert_eq!(camera.vertical, Vec3::from_ints(0, 2, 0));
    assert_eq!(camera.lower_left_corner, Vec3::from_ints(-2, -1, -1));
    assert_eq!(camera.lens_radius, Fixed::zero());
    let r = camera.get_ray(Fixed::ratio(1, 2), Fixed::ratio(1, 2));
    assert_eq!(r.origin, Vec3::zero());
    assert_eq!(r.direction, Vec3::from_ints(0, 0, -1));
}

#[test]
fn pinhole_camera_rays_repeat() {
    let camera = axis_camera(Fixed::zero(), Fixed::zero(), Fixed::zero());
    let first = camera.get_ray(Fixed::ratio(1, 2), Fixed::ratio(1, 2));
    for _ in 0..100 {
        let again = camera.get_ray(Fixed::ratio(1, 2), Fixed::ratio(1, 2));
        assert_eq!(again.origin, first.origin);
        assert_eq!(again.direction, first.direction);
        assert_eq!(again.time, Fixed::zero());
    }
}

#[test]
fn lens_and_shutter_samples_stay_in_range() {
    let camera = axis_camera(Fixed::one(), Fixed::zero(), Fixed::one());
    for _ in 0..200 {
        let r = camera.get_ray(Fixed::ratio(1, 2), Fixed::ratio(1, 2));
        assert!(r.time.raw >= 0 && r.time.raw < ONE_RAW);
        let offset = r.origin.sub(camera.origin);
        assert_eq!(offset.z.raw, 0);
        assert!(offset.length_squared().raw <= ONE_RAW / 4);
    }
}

#[test]
fn tone_map_values() {
    assert_eq!(tone_map(Vec3::from_ints(4, 1, 0), 4), (255, 128, 0));
    assert_eq!(tone_map(v(-ONE_RAW, ONE_RAW / 4, 9 * ONE_RAW), 1), (0, 128, 255));
    assert_eq!(tone_map(Vec3::from_ints(3, 3, 3), 0), (0, 0, 0));
}

#[test]
fn sky_pixel_samples_add_up() {
    let world = HittableList::new();
    let camera = axis_camera(Fixed::zero(), Fixed::zero(), Fixed::zero());
    let sum = sample_pixel(&camera, &world, 3, 0, 8, 6, 4, 3);
    assert_eq!(sum.z, Fixed::from_int(4));
    assert!(sum.x.raw < sum.y.raw);
    let (r, g, b) = tone_map(sum, 4);
    assert!(r < g && g < b && b == 255);
    assert_eq!(sample_pixel(&camera, &world, 0, 0, 8, 6, 0, 3), Vec3::zero());
}

#[test]
fn random_scene_layout() {
    let world = random_scene();
    let n = world.objects.len();
    assert!(n >= 4 && n <= 4 + 22 * 22);
    match world.objects[0] {
        Surface::Sphere(s) => assert_eq!(s.radius, Fixed::from_int(1000)),
        Surface::MovingSphere(_) => panic!("ground must be a sphere"),
    }
    for i in 1..n - 3 {
        match world.objects[i] {
            Surface::Sphere(s) => {
                assert_eq!(s.radius.raw, 13107);
                assert_eq!(s.center.y.raw, 13107);
            }
            Surface::MovingSphere(_) => panic!("small spheres stand still"),
        }
    }
    match world.objects[n - 1] {
        Surface::Sphere(s) => assert_eq!(s.center, Vec3::from_ints(4, 1, 0)),
        Surface::MovingSphere(_) => panic!("metal sphere stands still"),
    }
}

#[test]
fn uniform_draws_vary_within_range() {
    let first = ryt::ray::random_fixed(Fixed::zero(), Fixed::one());
    let mut differs = false;
    for _ in 0..100 {
        let d = ryt::ray::random_fixed(Fixed::zero(), Fixed::one());
        assert!(d.raw >= 0 && d.raw < ONE_RAW);
        differs = differs || d != first;
    }
    assert!(differs);
    let r = Vec3::random();
    for c in [r.x, r.y, r.z] {
        assert!(c.raw >= 0 && c.raw < ONE_RAW);
    }
}
