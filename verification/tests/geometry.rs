use raycaster::color::Color;
use raycaster::ray::Ray;
use raycaster::sphere::Sphere;
use raycaster::triangle::Triangle;
use raycaster::vec3::Vec3;

fn v(x: i64, y: i64, z: i64) -> Vec3 {
    Vec3 { x, y, z }
}

#[test]
fn hit_should_hit() {
    let o = v(0, 0, 0);
    let d = v(1, 0, 0);
    let p0 = v(10, 3, 0);
    let p1 = v(10, -1, 3);
    let p2 = v(10, -1, -3);
    let p_expected = v(10, 0, 0);
    let r = Ray { origin: o, direction: d };
    let t = Triangle { p0, p1, p2, difuse_color: Color { r: 255, g: 0, b: 0 } };
    let result = t.hit(&r);
    assert_eq!(result, Some(p_expected));
}

#[test]
fn should_not_hit() {
    let o = v(0, 0, 0);
    let d = v(1, 0, 0);
    let p0 = v(10, 3, 0);
    let p1 = v(13, -1, 0);
    let p2 = v(7, -1, 0);
    let r = Ray { origin: o, direction: d };
    let t = Triangle { p0, p1, p2, difuse_color: Color { r: 255, g: 0, b: 0 } };
    let result = t.hit(&r);
    assert_eq!(result, None);
}

#[test]
fn triangle_behind_origin_is_rejected() {
    // Plane intersection at parametric distance -10: behind the origin.
    let r = Ray { origin: v(0, 0, 0), direction: v(1, 0, 0) };
    let t = Triangle {
        p0: v(-10, 3, 0),
        p1: v(-10, -1, 3),
        p2: v(-10, -1, -3),
        difuse_color: Color { r: 255, g: 0, b: 0 },
    };
    assert_eq!(t.hit(&r), None);
}

#[test]
fn triangle_origin_on_plane_is_rejected() {
    // Exact-origin hit: parametric distance 0 falls below EPSILON.
    let r = Ray { origin: v(10, 0, 0), direction: v(1, 0, 0) };
    let t = Triangle {
        p0: v(10, 3, 0),
        p1: v(10, -1, 3),
        p2: v(10, -1, -3),
        difuse_color: Color { r: 255, g: 0, b: 0 },
    };
    assert_eq!(t.hit(&r), None);
}

#[test]
fn triangle_at_epsilon_is_accepted() {
    // Parametric distance exactly EPSILON passes the strict gate.
    let r = Ray { origin: v(9, 0, 0), direction: v(1, 0, 0) };
    let t = Triangle {
        p0: v(10, 3, 0),
        p1: v(10, -1, 3),
        p2: v(10, -1, -3),
        difuse_color: Color { r: 255, g: 0, b: 0 },
    };
    assert_eq!(t.hit(&r), Some(v(10, 0, 0)));
}

#[test]
fn triangle_point_outside_edges_is_rejected() {
    // The ray meets the triangle's plane well outside the edges.
    let r = Ray { origin: v(0, 100, 0), direction: v(1, 0, 0) };
    let t = Triangle {
        p0: v(10, 3, 0),
        p1: v(10, -1, 3),
        p2: v(10, -1, -3),
        difuse_color: Color { r: 255, g: 0, b: 0 },
    };
    assert_eq!(t.hit(&r), None);
}

#[test]
fn triangle_normal_is_the_face_normal() {
    let t = Triangle {
        p0: v(10, 3, 0),
        p1: v(10, -1, 3),
        p2: v(10, -1, -3),
        difuse_color: Color { r: 255, g: 0, b: 0 },
    };
    // (p1 - p0) x (p2 - p0) = (0,-4,3) x (0,-4,-3) = (24, 0, 0)
    assert_eq!(t.get_normal(&v(10, 0, 0)), Some(v(24, 0, 0)));
}

#[test]
fn sphere_hit_through_center_at_radius() {
    // Origin strictly outside, direction through the center: the hit
    // lies at Euclidean distance exactly `radius` from the center.
    let r = Ray { origin: v(0, 0, 0), direction: v(1, 0, 0) };
    let s = Sphere { c: v(10, 0, 0), r: 5, difuse_color: Color { r: 0, g: 255, b: 0 } };
    let p = s.hit(&r).expect("ray through the center must hit");
    assert_eq!(p, v(5, 0, 0));
    let dx = p.x - s.c.x;
    let dy = p.y - s.c.y;
    let dz = p.z - s.c.z;
    assert_eq!(dx * dx + dy * dy + dz * dz, (s.r * s.r));
}

#[test]
fn sphere_miss_returns_none() {
    // Negative discriminant: the ray passes well beside the sphere.
    let r = Ray { origin: v(0, 0, 0), direction: v(1, 0, 0) };
    let s = Sphere { c: v(10, 10, 0), r: 2, difuse_color: Color { r: 0, g: 255, b: 0 } };
    assert_eq!(s.hit(&r), None);
}

#[test]
fn sphere_tangent_single_root_on_surface() {
    // delta == 0: the repeated root; the hit point lies on the surface.
    let r = Ray { origin: v(0, 0, 0), direction: v(1, 0, 0) };
    let s = Sphere { c: v(5, 3, 0), r: 3, difuse_color: Color { r: 0, g: 0, b: 255 } };
    let p = s.hit(&r).expect("tangent ray reports the repeated root");
    assert_eq!(p, v(5, 0, 0));
    let dx = p.x - s.c.x;
    let dy = p.y - s.c.y;
    let dz = p.z - s.c.z;
    assert_eq!(dx * dx + dy * dy + dz * dz, s.r * s.r);
}

#[test]
fn sphere_hit_behind_origin_is_reported() {
    // The nearer root is not clamped at zero: an origin past the
    // sphere still reports the hit behind it.
    let r = Ray { origin: v(20, 0, 0), direction: v(1, 0, 0) };
    let s = Sphere { c: v(10, 0, 0), r: 5, difuse_color: Color { r: 9, g: 9, b: 9 } };
    assert_eq!(s.hit(&r), Some(v(5, 0, 0)));
}

#[test]
fn sphere_normal_points_outward() {
    let s = Sphere { c: v(10, 0, 0), r: 5, difuse_color: Color { r: 0, g: 255, b: 0 } };
    assert_eq!(s.get_normal(&v(5, 0, 0)), Some(v(-5, 0, 0)));
}

#[test]
fn diffuse_colors_are_returned_unchanged() {
    let c = Color { r: 12, g: 34, b: 56 };
    let s = Sphere { c: v(10, 0, 0), r: 5, difuse_color: c };
    let t = Triangle { p0: v(10, 3, 0), p1: v(10, -1, 3), p2: v(10, -1, -3), difuse_color: c };
    assert_eq!(s.get_difuse_color(), c);
    assert_eq!(t.get_difuse_color(), c);
}

#[test]
fn point_at_parameter_walks_the_ray() {
    let r = Ray { origin: v(1, 2, 3), direction: v(2, 0, -1) };
    assert_eq!(r.point_at_parameter(4), v(9, 2, -1));
    assert_eq!(r.point_at_parameter(0), v(1, 2, 3));
    assert_eq!(r.point_at_parameter(-2), v(-3, 2, 5));
}

#[test]
fn collinear_triangle_never_hits() {
    // A zero-area triangle has a zero face normal; the parallel gate
    // rejects every ray.
    let t = Triangle {
        p0: v(10, 0, 0),
        p1: v(10, 1, 0),
        p2: v(10, 3, 0),
        difuse_color: Color { r: 255, g: 0, b: 0 },
    };
    let towards = Ray { origin: v(0, 0, 0), direction: v(1, 0, 0) };
    let along = Ray { origin: v(0, 0, 0), direction: v(0, 1, 0) };
    assert_eq!(t.hit(&towards), None);
    assert_eq!(t.hit(&along), None);
}

#[test]
fn direction_scaling_does_not_change_the_hit_point() {
    // Directions need not be normalized: scaling the direction
    // rescales the parametric distance and lands on the same point.
    let t = Triangle {
        p0: v(10, 3, 0),
        p1: v(10, -1, 3),
        p2: v(10, -1, -3),
        difuse_color: Color { r: 255, g: 0, b: 0 },
    };
    let r1 = Ray { origin: v(0, 0, 0), direction: v(1, 0, 0) };
    let r2 = Ray { origin: v(0, 0, 0), direction: v(5, 0, 0) };
    assert_eq!(t.hit(&r1), t.hit(&r2));
    assert_eq!(t.hit(&r2), Some(v(10, 0, 0)));
}
