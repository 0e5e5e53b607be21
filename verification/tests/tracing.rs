use raycaster::color::Color;
use raycaster::ray::Ray;
use raycaster::scene::{Light, Primitive, Scene};
use raycaster::sphere::Sphere;
use raycaster::triangle::Triangle;
use raycaster::vec3::Vec3;

fn v(x: i64, y: i64, z: i64) -> Vec3 {
    Vec3 { x, y, z }
}

const RED: Color = Color { r: 255, g: 0, b: 0 };
const GREEN: Color = Color { r: 0, g: 255, b: 0 };
const BLUE: Color = Color { r: 0, g: 0, b: 255 };
const BLACK: Color = Color { r: 0, g: 0, b: 0 };

fn near_sphere() -> Primitive {
    Primitive::Sphere(Sphere { c: v(10, 0, 0), r: 2, difuse_color: GREEN })
}

fn far_sphere() -> Primitive {
    Primitive::Sphere(Sphere { c: v(20, 0, 0), r: 2, difuse_color: RED })
}

#[test]
fn trace_returns_nearest_color() {
    let r = Ray { origin: v(0, 0, 0), direction: v(1, 0, 0) };
    let scene = Scene { objects: vec![far_sphere(), near_sphere()], lights: vec![] };
    assert_eq!(r.trace(&scene), GREEN);
}

#[test]
fn trace_order_independent_for_strictly_nearer_hit() {
    // Swapping insertion order leaves the result unchanged when one
    // hit is strictly nearer.
    let r = Ray { origin: v(0, 0, 0), direction: v(1, 0, 0) };
    let scene_ab = Scene { objects: vec![far_sphere(), near_sphere()], lights: vec![] };
    let scene_ba = Scene { objects: vec![near_sphere(), far_sphere()], lights: vec![] };
    let col_ab = r.trace(&scene_ab);
    let col_ba = r.trace(&scene_ba);
    assert_eq!(col_ab, GREEN);
    assert_eq!(col_ba, GREEN);
}

#[test]
fn trace_tie_goes_to_first_inserted() {
    // Two coincident spheres hit at the same distance: the strict
    // comparison keeps the first-seen primitive.
    let r = Ray { origin: v(0, 0, 0), direction: v(1, 0, 0) };
    let blue = Primitive::Sphere(Sphere { c: v(10, 0, 0), r: 2, difuse_color: BLUE });
    let red = Primitive::Sphere(Sphere { c: v(10, 0, 0), r: 2, difuse_color: RED });
    let scene_br = Scene { objects: vec![blue, red], lights: vec![] };
    let scene_rb = Scene { objects: vec![red, blue], lights: vec![] };
    assert_eq!(r.trace(&scene_br), BLUE);
    assert_eq!(r.trace(&scene_rb), RED);
}

#[test]
fn trace_background_when_nothing_hit() {
    let r = Ray { origin: v(0, 0, 0), direction: v(0, 0, 1) };
    let scene = Scene { objects: vec![near_sphere(), far_sphere()], lights: vec![] };
    assert_eq!(r.trace(&scene), BLACK);
    let empty = Scene { objects: vec![], lights: vec![] };
    assert_eq!(r.trace(&empty), BLACK);
}

#[test]
fn trace_mixed_primitives() {
    // A triangle in front of a sphere: the triangle wins.
    let r = Ray { origin: v(0, 0, 0), direction: v(1, 0, 0) };
    let tri = Primitive::Triangle(Triangle {
        p0: v(5, 3, 0),
        p1: v(5, -1, 3),
        p2: v(5, -1, -3),
        difuse_color: BLUE,
    });
    let scene = Scene { objects: vec![near_sphere(), tri], lights: vec![] };
    assert_eq!(r.trace(&scene), BLUE);
}

#[test]
fn trace_twice_is_bit_identical() {
    // Determinism: an identical ray against an identical scene.
    let r = Ray { origin: v(0, 0, 0), direction: v(1, 0, 0) };
    let scene = Scene {
        objects: vec![far_sphere(), near_sphere()],
        lights: vec![Light { o: v(0, 100, 0), color: Color { r: 255, g: 255, b: 255 } }],
    };
    let first = r.trace(&scene);
    let second = r.trace(&scene);
    assert_eq!(first, second);
}

#[test]
fn lights_do_not_affect_shading() {
    let r = Ray { origin: v(0, 0, 0), direction: v(1, 0, 0) };
    let without = Scene { objects: vec![near_sphere()], lights: vec![] };
    let with = Scene {
        objects: vec![near_sphere()],
        lights: vec![Light { o: v(3, 3, 3), color: RED }],
    };
    assert_eq!(r.trace(&without), r.trace(&with));
}

#[test]
fn primitive_dispatch_matches_shapes() {
    let r = Ray { origin: v(0, 0, 0), direction: v(1, 0, 0) };
    let s = Sphere { c: v(10, 0, 0), r: 2, difuse_color: GREEN };
    let t = Triangle { p0: v(5, 3, 0), p1: v(5, -1, 3), p2: v(5, -1, -3), difuse_color: BLUE };
    assert_eq!(Primitive::Sphere(s).hit(&r), s.hit(&r));
    assert_eq!(Primitive::Triangle(t).hit(&r), t.hit(&r));
    assert_eq!(Primitive::Sphere(s).get_difuse_color(), GREEN);
    assert_eq!(Primitive::Triangle(t).get_difuse_color(), BLUE);
    assert_eq!(Primitive::Sphere(s).get_normal(&v(8, 0, 0)), Some(v(-2, 0, 0)));
    assert_eq!(Primitive::Triangle(t).get_normal(&v(5, 0, 0)), t.get_normal(&v(5, 0, 0)));
}
