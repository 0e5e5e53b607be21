use raycaster::arith::{div_trunc, isqrt};
use raycaster::vec3::Vec3;

fn v(x: i64, y: i64, z: i64) -> Vec3 {
    Vec3 { x, y, z }
}

#[test]
fn isqrt_rounds_down() {
    assert_eq!(isqrt(0), 0);
    assert_eq!(isqrt(1), 1);
    assert_eq!(isqrt(2), 1);
    assert_eq!(isqrt(3), 1);
    assert_eq!(isqrt(4), 2);
    assert_eq!(isqrt(49), 7);
    assert_eq!(isqrt(50), 7);
    assert_eq!(isqrt(63), 7);
    assert_eq!(isqrt(64), 8);
    assert_eq!(isqrt(1 << 58), 1 << 29);
}

#[test]
fn div_trunc_rounds_toward_zero() {
    assert_eq!(div_trunc(7, 2), 3);
    assert_eq!(div_trunc(-7, 2), -3);
    assert_eq!(div_trunc(7, -2), -3);
    assert_eq!(div_trunc(-7, -2), 3);
    assert_eq!(div_trunc(6, 3), 2);
    assert_eq!(div_trunc(0, 5), 0);
}

#[test]
fn vector_products_are_exact() {
    let a = v(1, 2, 3);
    let b = v(4, -5, 6);
    assert_eq!(a.dot(&b), 1 * 4 + 2 * (-5) + 3 * 6);
    assert_eq!(a.cross(&b), v(2 * 6 - 3 * (-5), 3 * 4 - 1 * 6, 1 * (-5) - 2 * 4));
    assert_eq!(a.add(&b), v(5, -3, 9));
    assert_eq!(a.sub(&b), v(-3, 7, -3));
    assert_eq!(a.scale(-2), v(-2, -4, -6));
}
