use ryt::fixed::{Fixed, ONE_RAW, RAW_MAX};
use ryt::vec3::Vec3;

fn fx(raw: i64) -> Fixed {
    Fixed { raw }
}

fn v(x: i64, y: i64, z: i64) -> Vec3 {
    Vec3::new(fx(x), fx(y), fx(z))
}

#[test]
fn fixed_mul_is_exact_on_halves() {
    let half = Fixed::ratio(1, 2);
    assert_eq!(half.raw, 32768);
    assert_eq!(half.mul(half).raw, 16384);
    assert_eq!(Fixed::from_int(3).mul(Fixed::from_int(-4)), Fixed::from_int(-12));
}

#[test]
fn fixed_mul_truncates_toward_zero() {
    assert_eq!(fx(-1).mul(Fixed::ratio(1, 2)).raw, 0);
    assert_eq!(fx(-3).mul(Fixed::ratio(1, 2)).raw, -1);
    assert_eq!(fx(3).mul(Fixed::ratio(1, 2)).raw, 1);
}

#[test]
fn fixed_div_values() {
    assert_eq!(Fixed::ratio(7, 10).raw, 45875);
    assert_eq!(Fixed::ratio(-3, 5).raw, -39321);
    assert_eq!(Fixed::from_int(5).div(Fixed::zero()).raw, 0);
}

#[test]
fn fixed_saturates_instead_of_overflowing() {
    assert_eq!(Fixed::max_value().add(Fixed::one()).raw, RAW_MAX);
    assert_eq!(Fixed::max_value().neg().sub(Fixed::one()).raw, -RAW_MAX);
    assert_eq!(Fixed::max_value().mul(Fixed::from_int(2)).raw, RAW_MAX);
    assert_eq!(fx(i64::MIN).neg().raw, RAW_MAX);
    assert_eq!(Fixed::from_int(i64::MAX).raw, RAW_MAX);
}

#[test]
fn fixed_sqrt_values() {
    assert_eq!(Fixed::from_int(4).sqrt(), Fixed::from_int(2));
    assert_eq!(Fixed::from_int(2).sqrt().raw, 92681);
    assert_eq!(Fixed::ratio(1, 4).sqrt().raw, ONE_RAW / 2);
    assert_eq!(Fixed::from_int(-9).sqrt().raw, 0);
    assert_eq!(Fixed::max_value().sqrt().raw, 777472127993);
}

#[test]
fn fixed_min_abs_lt() {
    assert_eq!(fx(5).min(fx(-2)), fx(-2));
    assert_eq!(fx(-7).abs(), fx(7));
    assert!(fx(1).lt(fx(2)));
    assert!(!fx(2).lt(fx(2)));
}

#[test]
fn vec3_basic_operations() {
    let a = Vec3::from_ints(1, 2, 3);
    let b = Vec3::from_ints(4, -5, 6);
    assert_eq!(a.add(b), Vec3::from_ints(5, -3, 9));
    assert_eq!(a.sub(b), Vec3::from_ints(-3, 7, -3));
    assert_eq!(a.neg(), Vec3::from_ints(-1, -2, -3));
    assert_eq!(a.scale(Fixed::from_int(2)), Vec3::from_ints(2, 4, 6));
    assert_eq!(a.mul(b), Vec3::from_ints(4, -10, 18));
    assert_eq!(b.div(Fixed::from_int(2)), v(2 * ONE_RAW, -5 * ONE_RAW / 2, 3 * ONE_RAW));
    assert_eq!(a.dot(b), Fixed::from_int(12));
    assert_eq!(a.length_squared(), Fixed::from_int(14));
}

#[test]
fn vec3_cross_of_axes() {
    let x = Vec3::from_ints(1, 0, 0);
    let y = Vec3::from_ints(0, 1, 0);
    assert_eq!(x.cross(y), Vec3::from_ints(0, 0, 1));
    assert_eq!(y.cross(x), Vec3::from_ints(0, 0, -1));
    assert_eq!(x.cross(x), Vec3::zero());
}

#[test]
fn vec3_normalize_and_length() {
    let a = Vec3::from_ints(3, 4, 0);
    assert_eq!(a.length(), Fixed::from_int(5));
    assert_eq!(a.normalize(), v(39321, 52428, 0));
    assert_eq!(Vec3::zero().normalize(), Vec3::zero());
}

#[test]
fn vec3_near_zero() {
    assert!(Vec3::zero().near_zero());
    assert!(!v(0, 1, 0).near_zero());
    assert!(!v(0, 0, -1).near_zero());
}
