use ryt::dielectric::Dielectric;
use ryt::fixed::{Fixed, ONE_RAW};
use ryt::hit::{HitRecord, Hittable};
use ryt::hit_list::{HittableList, Surface};
use ryt::lambertian::Lambertian;
use ryt::material::Material;
use ryt::moving_sphere::MovingSphere;
use ryt::ray::{hit_sphere, Ray};
use ryt::sphere::Sphere;
use ryt::vec3::Vec3;

fn fx(raw: i64) -> Fixed {
    Fixed { raw }
}

fn v(x: i64, y: i64, z: i64) -> Vec3 {
    Vec3::new(fx(x), fx(y), fx(z))
}

fn gray() -> Material {
    Material::Lambertian(Lambertian::new(v(32768, 32768, 32768)))
}

fn ray(origin: Vec3, direction: Vec3) -> Ray {
    Ray::new(origin, direction, Fixed::zero())
}

fn all_of_range() -> (Fixed, Fixed) {
    (Fixed { raw: 65 }, Fixed::max_value())
}

#[test]
fn ray_at_moves_along_direction() {
    let r = ray(Vec3::from_ints(1, 2, 3), Vec3::from_ints(1, 0, -2));
    assert_eq!(r.at(Fixed::from_int(2)), Vec3::from_ints(3, 2, -1));
    assert_eq!(r.at(Fixed::zero()), Vec3::from_ints(1, 2, 3));
}

#[test]
fn hit_sphere_nearer_root_or_minus_one() {
    let r = ray(Vec3::zero(), Vec3::from_ints(0, 0, -1));
    assert_eq!(hit_sphere(Vec3::from_ints(0, 0, -1), Fixed::ratio(1, 2), &r).raw, ONE_RAW / 2);
    assert_eq!(hit_sphere(Vec3::from_ints(0, 5, -1), Fixed::ratio(1, 2), &r).raw, -ONE_RAW);
}

#[test]
fn set_face_normal_front_and_back() {
    let mut rec = HitRecord::default();
    let r = ray(Vec3::zero(), Vec3::from_ints(0, 0, -1));
    rec.set_face_normal(&r, Vec3::from_ints(0, 0, 1));
    assert!(rec.front_face);
    assert_eq!(rec.normal, Vec3::from_ints(0, 0, 1));
    rec.set_face_normal(&r, Vec3::from_ints(0, 0, -1));
    assert!(!rec.front_face);
    assert_eq!(rec.normal, Vec3::from_ints(0, 0, 1));
    assert!(r.direction.dot(rec.normal).raw <= 0);
}

#[test]
fn face_normal_always_opposes_the_ray() {
    let dirs = [v(1, 2, 3), v(-5, 0, 7), v(0, 0, 0), v(100000, -3, 9)];
    let normals = [v(ONE_RAW, 0, 0), v(0, -ONE_RAW, 0), v(3, 4, -5), v(-7, 11, 13)];
    for d in dirs.iter() {
        for n in normals.iter() {
            let mut rec = HitRecord::default();
            rec.set_face_normal(&ray(Vec3::zero(), *d), *n);
            assert!(d.dot(rec.normal).raw <= 0);
        }
    }
}

#[test]
fn sphere_hit_along_axis_through_center() {
    let s = Sphere::new(Vec3::from_ints(0, 0, -5), Fixed::one(), gray());
    let r = ray(Vec3::zero(), Vec3::from_ints(0, 0, -1));
    let (lo, hi) = all_of_range();
    let mut rec = HitRecord::default();
    assert!(s.hit(&r, lo, hi, &mut rec));
    assert_eq!(rec.t, Fixed::from_int(4));
    assert_eq!(rec.p, Vec3::from_ints(0, 0, -4));
    assert_eq!(rec.normal, Vec3::from_ints(0, 0, 1));
    assert!(rec.front_face);
    assert_eq!(rec.material, Some(gray()));
}

#[test]
fn sphere_hit_oblique_through_center() {
    // origin outside, unit direction toward the center: t = distance - radius
    let center = Vec3::from_ints(3, 4, 0);
    let s = Sphere::new(center, Fixed::one(), gray());
    let r = ray(Vec3::zero(), Vec3::from_ints(3, 4, 0).normalize());
    let (lo, hi) = all_of_range();
    let mut rec = HitRecord::default();
    assert!(s.hit(&r, lo, hi, &mut rec));
    assert!((rec.t.raw - 4 * ONE_RAW).abs() < 66);
    let to_hit = rec.p.sub(center);
    let across = rec.normal.cross(to_hit);
    assert!(across.x.raw.abs() < 66 && across.y.raw.abs() < 66 && across.z.raw.abs() < 66);
    assert!(rec.normal.dot(to_hit).raw > 0);
}

#[test]
fn sphere_hit_far_root_from_inside() {
    let s = Sphere::new(Vec3::zero(), Fixed::from_int(2), gray());
    let r = ray(Vec3::zero(), Vec3::from_ints(1, 0, 0));
    let (lo, hi) = all_of_range();
    let mut rec = HitRecord::default();
    assert!(s.hit(&r, lo, hi, &mut rec));
    assert_eq!(rec.t, Fixed::from_int(2));
    assert!(!rec.front_face);
    assert_eq!(rec.normal, Vec3::from_ints(-1, 0, 0));
}

#[test]
fn sphere_miss_leaves_record() {
    let s = Sphere::new(Vec3::from_ints(0, 10, -5), Fixed::one(), gray());
    let r = ray(Vec3::zero(), Vec3::from_ints(0, 0, -1));
    let (lo, hi) = all_of_range();
    let mut rec = HitRecord::default();
    rec.t = Fixed::from_int(77);
    let before = rec;
    assert!(!s.hit(&r, lo, hi, &mut rec));
    assert_eq!(rec, before);
    let near = Sphere::new(Vec3::from_ints(0, 0, -5), Fixed::one(), gray());
    assert!(!near.hit(&r, lo, Fixed::from_int(3), &mut rec));
    assert_eq!(rec, before);
}

#[test]
fn moving_sphere_center_interpolates() {
    let m = MovingSphere::new(
        Vec3::from_ints(0, 0, 0),
        Vec3::from_ints(2, 4, 0),
        Fixed::zero(),
        Fixed::one(),
        Fixed::one(),
        gray(),
    );
    assert_eq!(m.center(Fixed::zero()), Vec3::from_ints(0, 0, 0));
    assert_eq!(m.center(Fixed::one()), Vec3::from_ints(2, 4, 0));
    assert_eq!(m.center(Fixed::ratio(1, 2)), Vec3::from_ints(1, 2, 0));
    assert_eq!(m.center(Fixed::from_int(2)), Vec3::from_ints(4, 8, 0));
    let still = MovingSphere::new(
        Vec3::from_ints(1, 1, 1),
        Vec3::from_ints(2, 4, 0),
        Fixed::one(),
        Fixed::one(),
        Fixed::one(),
        gray(),
    );
    assert_eq!(still.center(Fixed::from_int(5)), Vec3::from_ints(1, 1, 1));
}

#[test]
fn moving_sphere_hit_depends_on_time() {
    let m = MovingSphere::new(
        Vec3::from_ints(0, 0, -5),
        Vec3::from_ints(10, 0, -5),
        Fixed::zero(),
        Fixed::one(),
        Fixed::one(),
        gray(),
    );
    let (lo, hi) = all_of_range();
    let mut rec = HitRecord::default();
    let early = Ray::new(Vec3::zero(), Vec3::from_ints(0, 0, -1), Fixed::zero());
    assert!(m.hit(&early, lo, hi, &mut rec));
    assert_eq!(rec.t, Fixed::from_int(4));
    let late = Ray::new(Vec3::zero(), Vec3::from_ints(0, 0, -1), Fixed::one());
    assert!(!m.hit(&late, lo, hi, &mut rec));
}

#[test]
fn list_finds_nearest_in_any_order() {
    let near = Surface::Sphere(Sphere::new(Vec3::from_ints(0, 0, -3), Fixed::one(), gray()));
    let glass = Material::Dielectric(Dielectric { ir: Fixed::ratio(3, 2) });
    let far = Surface::Sphere(Sphere::new(Vec3::from_ints(0, 0, -10), Fixed::one(), glass));
    let r = ray(Vec3::zero(), Vec3::from_ints(0, 0, -1));
    let (lo, hi) = all_of_range();
    for order in [[near, far], [far, near]].iter() {
        let mut world = HittableList::new();
        world.add(order[0]);
        world.add(order[1]);
        let mut rec = HitRecord::default();
        assert!(world.hit(&r, lo, hi, &mut rec));
        assert_eq!(rec.t, Fixed::from_int(2));
        assert_eq!(rec.material, Some(gray()));
    }
}

#[test]
fn empty_list_never_hits_and_clear_empties() {
    let mut world = HittableList::new();
    let r = ray(Vec3::zero(), Vec3::from_ints(0, 0, -1));
    let (lo, hi) = all_of_range();
    let mut rec = HitRecord::default();
    assert!(!world.hit(&r, lo, hi, &mut rec));
    assert_eq!(rec, HitRecord::default());
    world.add(Surface::Sphere(Sphere::new(Vec3::from_ints(0, 0, -3), Fixed::one(), gray())));
    assert_eq!(world.objects.len(), 1);
    assert!(world.hit(&r, lo, hi, &mut rec));
    world.clear();
    assert!(world.objects.is_empty());
}

#[test]
fn axis_ray_meets_ball_at_distance_less_radius() {
    let center = Vec3::from_ints(7, -3, 4);
    let s = Sphere::new(center, Fixed::from_int(2), gray());
    let r = ray(Vec3::from_ints(2, -3, 4), Vec3::from_ints(1, 0, 0));
    let (lo, hi) = all_of_range();
    let mut rec = HitRecord::default();
    assert!(s.hit(&r, lo, hi, &mut rec));
    assert_eq!(rec.t, Fixed::from_int(3));
    assert_eq!(rec.p.sub(center), Vec3::from_ints(-2, 0, 0));
    assert_eq!(rec.normal, Vec3::from_ints(-1, 0, 0));
}
