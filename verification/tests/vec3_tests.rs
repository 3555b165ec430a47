use raytracer::fixed::Fixed;
use raytracer::ray::Ray;
use raytracer::vec3::{dot, dot_wide, Vec3};

fn fx(raw: i32) -> Fixed {
    Fixed::from_raw(raw)
}

fn v(x: i32, y: i32, z: i32) -> Vec3 {
    Vec3::new(Fixed::from_int(x), Fixed::from_int(y), Fixed::from_int(z))
}

fn raw(x: i32, y: i32, z: i32) -> Vec3 {
    Vec3::new(fx(x), fx(y), fx(z))
}

#[test]
fn components_are_read_as_coordinates_and_channels() {
    let p = raw(1, 2, 3);
    assert_eq!((p.x().raw(), p.y().raw(), p.z().raw()), (1, 2, 3));
    assert_eq!((p.r().raw(), p.g().raw(), p.b().raw()), (1, 2, 3));
    assert_eq!(Vec3::unit(), raw(100_000, 100_000, 100_000));
}

#[test]
fn sum_difference_and_pairwise_product() {
    assert_eq!(v(1, 2, 3) + v(4, 5, 6), v(5, 7, 9));
    assert_eq!(v(1, 2, 3) - v(4, 5, 7), v(-3, -3, -4));
    assert_eq!(v(1, 2, 3) * v(4, -5, 6), v(4, -10, 18));
    assert_eq!(raw(i32::MAX, 0, i32::MIN) + raw(1, 0, -1), raw(i32::MAX, 0, i32::MIN));
    assert_eq!(raw(i32::MIN, 0, 0) - raw(1, 0, 0), raw(i32::MIN, 0, 0));
}

#[test]
fn scaling_commutes() {
    let half = Fixed::half();
    assert_eq!(v(1, 2, -3) * half, raw(50_000, 100_000, -150_000));
    assert_eq!(half * v(1, 2, -3), raw(50_000, 100_000, -150_000));
    assert_eq!(raw(1, -1, 3) * half, raw(0, 0, 1));
}

#[test]
fn repeating_commutes_and_saturates() {
    assert_eq!(v(1, -2, 3) * 3usize, v(3, -6, 9));
    assert_eq!(3usize * v(1, -2, 3), v(3, -6, 9));
    assert_eq!(v(1, -2, 0) * 0usize, v(0, 0, 0));
    assert_eq!(v(1, -1, 0) * usize::MAX, raw(i32::MAX, i32::MIN, 0));
}

#[test]
fn dot_product_is_exact_before_rounding() {
    assert_eq!(dot(v(1, 2, 3), v(4, -5, 6)).raw(), 1_200_000);
    assert_eq!(dot_wide(v(1, 2, 3), v(4, -5, 6)), 120_000_000_000);
    assert_eq!(dot(raw(300, 0, 0), raw(300, 0, 0)).raw(), 0);
    assert_eq!(dot(raw(-400, 0, 0), raw(300, 0, 0)).raw(), -1);
    assert_eq!(dot(raw(i32::MAX, 0, 0), raw(i32::MAX, 0, 0)).raw(), i32::MAX);
}

#[test]
fn lengths() {
    assert_eq!(v(3, 4, 0).length().raw(), 500_000);
    assert_eq!(v(3, 4, 0).squared_length().raw(), 2_500_000);
    assert_eq!(v(1, 1, 1).length().raw(), 173_205);
    assert_eq!(v(0, 0, 0).length().raw(), 0);
    assert_eq!(raw(i32::MIN, i32::MIN, i32::MIN).length().raw(), i32::MAX);
}

#[test]
fn unit_vectors() {
    assert_eq!(v(3, 4, 0).as_unit(), raw(60_000, 80_000, 0));
    assert_eq!(v(0, -7, 0).as_unit(), raw(0, -100_000, 0));
    assert_eq!(v(-1, -1, -1).as_unit(), raw(-57_735, -57_735, -57_735));
    assert_eq!(raw(0, 0, 1).as_unit(), raw(0, 0, 100_000));
    assert_eq!(raw(i32::MAX, 0, 0).as_unit(), raw(100_000, 0, 0));
}

#[test]
fn the_zero_vector_has_no_direction() {
    assert_eq!(v(0, 0, 0).as_unit(), v(0, 0, 0));
}

#[test]
fn a_unit_vector_is_no_longer_than_one() {
    let samples = [raw(1, 2, 3), v(5, -3, 2), raw(-99_999, 1, 70_000), raw(i32::MIN, i32::MAX, 12)];
    for s in samples {
        let u = s.as_unit();
        assert!(dot_wide(u, u) <= 10_000_000_000);
        assert!(dot_wide(u, u) > 9_999_000_000);
    }
}

#[test]
fn ray_points() {
    let ray = Ray::new(v(1, 2, 3), v(0, 0, -2));
    assert_eq!(ray.origin(), v(1, 2, 3));
    assert_eq!(ray.direction(), v(0, 0, -2));
    assert_eq!(ray.point_at(Fixed::zero()), v(1, 2, 3));
    assert_eq!(ray.point_at(Fixed::from_int(2)), v(1, 2, -1));
    assert_eq!(ray.point_at(Fixed::from_int(-1)), v(1, 2, 5));
    assert_eq!(ray.point_at(Fixed::half()), v(1, 2, 2));
}

#[test]
fn ray_points_saturate() {
    let ray = Ray::new(v(0, 0, 0), v(20_000, 0, 0));
    assert_eq!(ray.point_at(Fixed::from_int(2)), raw(i32::MAX, 0, 0));
}

#[test]
fn numbers_as_text() {
    assert_eq!(fx(150_000).to_string(), "1.50000");
    assert_eq!(fx(-25_000).to_string(), "-0.25000");
    assert_eq!(fx(0).to_string(), "0.00000");
    assert_eq!(fx(-5).to_string(), "-0.00005");
    assert_eq!(fx(i32::MAX).to_string(), "21474.83647");
    assert_eq!(fx(i32::MIN).to_string(), "-21474.83648");
}

#[test]
fn vectors_as_text() {
    assert_eq!(raw(150_000, -25_000, 0).to_string(), "1.50000 -0.25000 0.00000");
}

#[test]
fn numbers_are_ordered_by_value() {
    assert!(fx(-1) < fx(0));
    assert!(fx(3) > fx(2));
    assert!(fx(3) >= fx(3));
    assert!(fx(3) <= fx(3));
    assert!(!(fx(3) < fx(3)));
    assert!(fx(i32::MIN) < fx(i32::MAX));
}
