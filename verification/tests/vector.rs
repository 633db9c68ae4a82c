use raycaster::vector::{Vec3, COMPONENT_LIMIT};

#[test]
fn new_keeps_the_components() {
    let v = Vec3::new(1, -2, 3);
    assert_eq!(v.x, 1);
    assert_eq!(v.y, -2);
    assert_eq!(v.z, 3);
    assert_eq!(v, Vec3 { x: 1, y: -2, z: 3 });
}

#[test]
fn dot_sums_the_componentwise_products() {
    let a = Vec3::new(1, 2, 3);
    let b = Vec3::new(4, -5, 6);
    assert_eq!(a.dot(b), 4 - 10 + 18);
    assert_eq!(b.dot(a), 12);
    assert_eq!(a.dot(Vec3::new(0, 0, 0)), 0);
}

#[test]
fn dot_of_perpendicular_vectors_is_zero() {
    assert_eq!(Vec3::new(1, 0, 0).dot(Vec3::new(0, 1, 0)), 0);
    assert_eq!(Vec3::new(2, 3, 0).dot(Vec3::new(-3, 2, 7)), 0);
}

#[test]
fn dot_at_the_component_limit() {
    let top = Vec3::new(COMPONENT_LIMIT, COMPONENT_LIMIT, COMPONENT_LIMIT);
    let bottom = Vec3::new(-COMPONENT_LIMIT, -COMPONENT_LIMIT, -COMPONENT_LIMIT);
    let square = (COMPONENT_LIMIT as i128) * (COMPONENT_LIMIT as i128);
    assert_eq!(top.dot(top), 3 * square);
    assert_eq!(top.dot(bottom), -3 * square);
}

#[test]
fn dot_with_itself_is_the_squared_length() {
    for v in [
        Vec3::new(0, 0, 0),
        Vec3::new(3, 4, 0),
        Vec3::new(-7, 11, 13),
        Vec3::new(1_000_000, -2_000_000, 3_000_000),
    ] {
        assert_eq!(v.dot(v), v.length_squared() as i128);
    }
    assert_eq!(Vec3::new(1, 2, 3).length_squared(), 14);
}

#[test]
fn length_squared_of_the_largest_vector() {
    let v = Vec3::new(i64::MIN, i64::MIN, i64::MIN);
    assert_eq!(v.length_squared(), 3 * (1u128 << 126));
    let w = Vec3::new(i64::MAX, i64::MIN, i64::MAX);
    let m = i64::MAX as u128;
    assert_eq!(w.length_squared(), 2 * m * m + (1u128 << 126));
}

#[test]
fn vector_divided_by_its_norm_has_length_one() {
    for v in [Vec3::new(3, 4, 0), Vec3::new(1, 1, 1), Vec3::new(-799, 599, -600), Vec3::new(0, 0, -1)] {
        let len = (v.length_squared() as f64).sqrt();
        let (x, y, z) = (v.x as f64 / len, v.y as f64 / len, v.z as f64 / len);
        assert!(((x * x + y * y + z * z).sqrt() - 1.0).abs() < 1e-5);
    }
}

#[test]
fn length_squared_of_the_zero_vector_is_zero() {
    assert_eq!(Vec3::new(0, 0, 0).length_squared(), 0);
}

#[test]
fn length_squared_of_small_vectors() {
    assert_eq!(Vec3::new(3, 4, 0).length_squared(), 25);
    assert_eq!(Vec3::new(1, 1, 0).length_squared(), 2);
    assert_eq!(Vec3::new(-2, 3, -6).length_squared(), 49);
    assert_eq!(Vec3::new(0, 0, -5).length_squared(), 25);
}

#[test]
fn square_of_the_norm_is_the_dot_product() {
    for v in [Vec3::new(1, 1, 0), Vec3::new(3, 4, 0), Vec3::new(-40, 30, 7), Vec3::new(1000, 1, 1)] {
        let d = v.dot(v) as f64;
        let l = (v.length_squared() as f64).sqrt();
        assert!(d >= 0.0);
        assert!((l * l - d).abs() <= 1e-5 * d.max(1.0));
    }
}
