//! Spheres and their analytic quadratic hit test.
//!
//! For an unnormalized direction `v` the quadratic is kept in the
//! parametric form `(v.v) t^2 + 2 (v.oc) t + (oc.oc - r^2) = 0`, whose
//! discriminant has the same sign as the one for the normalized
//! direction, so the ray misses exactly when the discriminant is
//! negative.  The nearer root is selected *without* clamping it to be
//! nonnegative: a ray whose origin lies past the sphere reports a hit
//! behind the origin.  That quirk is deliberate, stated in the
//! contract, and the tracer sees such hits like any other.

use vstd::prelude::*;
use crate::arith::{
    tdiv, sqrt_floor, isqrt, lemma_mul_bound, lemma_tdiv_bound, lemma_tdiv_by_one,
    lemma_sqrt_floor_unique,
};
use crate::color::Color;
use crate::ray::Ray;
use crate::vec3::{
    Vec3, V3, v_sub, v_dot, v_scale, v_dist2, v_bounded, v_wf, lemma_dot_bound,
    lemma_dot_self_pos, scale_div, MAX_COORD, HIT_BOUND,
};

verus! {

/// A sphere: center, strictly positive radius, diffuse color.
#[derive(Clone, Copy, PartialEq, Eq, Structural, Debug)]
pub struct Sphere {
    pub c: Vec3,
    pub r: i64,
    pub difuse_color: Color,
}

/// Leading coefficient of the quadratic: the squared length of the
/// ray direction.
pub open spec fn sph_a(r: Ray) -> int {
    v_dot(r.direction@, r.direction@)
}

/// Half the linear coefficient: direction dotted with `origin - center`.
pub open spec fn sph_b(s: Sphere, r: Ray) -> int {
    v_dot(r.direction@, v_sub(r.origin@, s.c@))
}

/// The discriminant `b^2 - a (|oc|^2 - radius^2)`.  Negative exactly
/// when the ray misses the sphere.
pub open spec fn sph_delta(s: Sphere, r: Ray) -> int {
    let oc = v_sub(r.origin@, s.c@);
    sph_b(s, r) * sph_b(s, r) - sph_a(r) * (v_dot(oc, oc) - s.r * s.r)
}

/// The nearer root of the quadratic, scaled by `a`: `-b - sqrt(delta)`
/// (square root rounded down to an integer).
pub open spec fn sph_root1(s: Sphere, r: Ray) -> int {
    -sph_b(s, r) - sqrt_floor(sph_delta(s, r) as nat)
}

/// The farther root of the quadratic, scaled by `a`: `-b + sqrt(delta)`.
pub open spec fn sph_root2(s: Sphere, r: Ray) -> int {
    -sph_b(s, r) + sqrt_floor(sph_delta(s, r) as nat)
}

/// The full hit test: `None` exactly when the discriminant is
/// negative; otherwise the point at the smaller root, each
/// coordinate's division by `a` truncated toward zero.
pub open spec fn sph_hit(s: Sphere, r: Ray) -> Option<V3> {
    if sph_delta(s, r) < 0 {
        None
    } else {
        let t1 = sph_root1(s, r);
        let t2 = sph_root2(s, r);
        let tmin = if t1 < t2 {
            t1
        } else {
            t2
        };
        let a = sph_a(r);
        Some(
            V3 {
                x: r.origin@.x + tdiv(tmin * r.direction@.x, a),
                y: r.origin@.y + tdiv(tmin * r.direction@.y, a),
                z: r.origin@.z + tdiv(tmin * r.direction@.z, a),
            },
        )
    }
}

impl Sphere {
    /// Well-formed sphere: center inside the scene box, radius
    /// strictly positive and no larger than the box.  Degenerate
    /// radii are rejected here, at construction time, rather than
    /// leaving their hit behavior unspecified.
    pub open spec fn wf(self) -> bool {
        &&& v_wf(self.c@)
        &&& 0 < self.r <= MAX_COORD
    }

    /// Where (and whether) the ray hits this sphere.
    pub fn hit(&self, ray: &Ray) -> (res: Option<Vec3>)
        requires
            self.wf(),
            ray.wf(),
        ensures
            (res is Some <==> sph_hit(*self, *ray) is Some),
            (res matches Some(p) ==> sph_hit(*self, *ray) == Some(p@) && v_bounded(
                p@,
                HIT_BOUND as int,
            )),
    {
        let oc = ray.origin.sub(&self.c);
        proof {
            lemma_dot_bound(ray.direction@, ray.direction@, MAX_COORD as int, MAX_COORD as int);
            lemma_dot_bound(ray.direction@, oc@, MAX_COORD as int, 2 * MAX_COORD as int);
            lemma_dot_bound(oc@, oc@, 2 * MAX_COORD as int, 2 * MAX_COORD as int);
            lemma_dot_self_pos(ray.direction@);
        }
        let a: i64 = ray.direction.dot(&ray.direction);
        let b: i64 = ray.direction.dot(&oc);
        let m2: i64 = oc.dot(&oc);
        proof {
            lemma_mul_bound(self.r as int, self.r as int, MAX_COORD as int, MAX_COORD as int);
        }
        let r2: i64 = self.r * self.r;
        proof {
            lemma_mul_bound(b as int, b as int, 0x600_0000, 0x600_0000);
            lemma_mul_bound(a as int, m2 - r2, 0x300_0000, 0xD00_0000);
        }
        let delta: i64 = b * b - a * (m2 - r2);
        if delta < 0 {
            None
        } else {
            let sq: i64 = isqrt(delta as u64) as i64;
            let d1: i64 = -b - sq;
            let d2: i64 = -b + sq;
            let dist: i64 = if d1 < d2 {
                d1
            } else {
                d2
            };
            let disp = scale_div(&ray.direction, dist, a);
            proof {
                lemma_mul_bound(dist as int, ray.direction@.x, 0x4600_0000, MAX_COORD as int);
                lemma_mul_bound(dist as int, ray.direction@.y, 0x4600_0000, MAX_COORD as int);
                lemma_mul_bound(dist as int, ray.direction@.z, 0x4600_0000, MAX_COORD as int);
                lemma_tdiv_bound(dist as int * ray.direction@.x, a as int);
                lemma_tdiv_bound(dist as int * ray.direction@.y, a as int);
                lemma_tdiv_bound(dist as int * ray.direction@.z, a as int);
                assert(v_bounded(disp@, 0x4_6000_0000_0000));
            }
            let intersection_point = ray.origin.add(&disp);
            Some(intersection_point)
        }
    }

    /// The sphere's flat diffuse color.
    pub fn get_difuse_color(&self) -> (c: Color)
        ensures
            c == self.difuse_color,
    {
        self.difuse_color
    }

    /// The outward direction at a surface point: `p - center`,
    /// returned unnormalized.  Unit length is not representable in
    /// the fixed-point scalars, so a consumer that needs a unit
    /// normal scales this exact direction itself.
    pub fn get_normal(&self, p: &Vec3) -> (n: Option<Vec3>)
        requires
            self.wf(),
            v_bounded(p@, HIT_BOUND as int),
        ensures
            (n matches Some(v) && v@ == v_sub(p@, self.c@)),
    {
        Some(p.sub(&self.c))
    }
}

/// Tangency: when the discriminant is exactly zero the two computed
/// roots coincide, and the hit test reports a hit (at that repeated
/// root).
pub proof fn lemma_tangent_roots(s: Sphere, r: Ray)
    requires
        sph_delta(s, r) == 0,
    ensures
        sph_root1(s, r) == sph_root2(s, r),
        sph_hit(s, r) is Some,
{
    assert(sqrt_floor(0nat) == 0);
}

/// Tangency puts the hit point exactly on the sphere's surface, for
/// directions of unit squared length (the axis directions: the only
/// integer vectors of unit length, and the one case in which the
/// division by `a` loses nothing).
pub proof fn lemma_tangent_point_on_sphere(s: Sphere, r: Ray)
    requires
        sph_delta(s, r) == 0,
        sph_a(r) == 1,
    ensures
        sph_hit(s, r) is Some,
        v_dist2(sph_hit(s, r)->0, s.c@) == s.r * s.r,
{
    lemma_tangent_roots(s, r);
    assert(sqrt_floor(0nat) == 0);
    let v = r.direction@;
    let o = r.origin@;
    let c = s.c@;
    let b = sph_b(s, r);
    lemma_tdiv_by_one(-b * v.x);
    lemma_tdiv_by_one(-b * v.y);
    lemma_tdiv_by_one(-b * v.z);
    let p = sph_hit(s, r)->0;
    assert(p.x == o.x + -b * v.x);
    assert(p.y == o.y + -b * v.y);
    assert(p.z == o.z + -b * v.z);
    assert((p.x - c.x) * (p.x - c.x) + (p.y - c.y) * (p.y - c.y) + (p.z - c.z) * (p.z - c.z)
        == s.r * s.r) by (nonlinear_arith)
        requires
            p.x == o.x + -b * v.x,
            p.y == o.y + -b * v.y,
            p.z == o.z + -b * v.z,
            b == v.x * (o.x - c.x) + v.y * (o.y - c.y) + v.z * (o.z - c.z),
            v.x * v.x + v.y * v.y + v.z * v.z == 1,
            b * b - ((o.x - c.x) * (o.x - c.x) + (o.y - c.y) * (o.y - c.y) + (o.z - c.z) * (o.z
                - c.z) - s.r * s.r) == 0,
    ;
    assert(v_dist2(p, c) == s.r * s.r);
}

/// A ray whose origin lies strictly outside the sphere and whose
/// direction points through the center hits the surface at Euclidean
/// distance exactly `radius` from the center.  Stated for directions
/// of unit squared length (the axis directions), where the division
/// by `a` loses nothing; `m` is the parametric distance of the center
/// along the ray, and `m > radius` says the origin is strictly
/// outside.
pub proof fn lemma_ray_through_center_hits_at_radius(s: Sphere, r: Ray, m: int)
    requires
        s.wf(),
        r.wf(),
        sph_a(r) == 1,
        v_sub(s.c@, r.origin@) == v_scale(m, r.direction@),
        m > s.r,
    ensures
        sph_hit(s, r) is Some,
        v_dist2(sph_hit(s, r)->0, s.c@) == s.r * s.r,
{
    let v = r.direction@;
    let o = r.origin@;
    let c = s.c@;
    let rr = s.r as int;
    assert(c.x - o.x == m * v.x && c.y - o.y == m * v.y && c.z - o.z == m * v.z);
    let b = sph_b(s, r);
    assert(b == -m && sph_delta(s, r) == rr * rr) by (nonlinear_arith)
        requires
            b == v.x * (o.x - c.x) + v.y * (o.y - c.y) + v.z * (o.z - c.z),
            sph_delta(s, r) == b * b - (v.x * v.x + v.y * v.y + v.z * v.z) * ((o.x - c.x) * (o.x
                - c.x) + (o.y - c.y) * (o.y - c.y) + (o.z - c.z) * (o.z - c.z) - rr * rr),
            v.x * v.x + v.y * v.y + v.z * v.z == 1,
            c.x - o.x == m * v.x,
            c.y - o.y == m * v.y,
            c.z - o.z == m * v.z,
    ;
    assert(rr * rr < (rr + 1) * (rr + 1)) by (nonlinear_arith)
        requires
            rr >= 1,
    ;
    lemma_sqrt_floor_unique((rr * rr) as nat, rr as nat);
    assert(sqrt_floor(sph_delta(s, r) as nat) == rr);
    assert(sph_root1(s, r) == m - rr);
    assert(sph_root2(s, r) == m + rr);
    let tmin = m - rr;
    lemma_tdiv_by_one(tmin * v.x);
    lemma_tdiv_by_one(tmin * v.y);
    lemma_tdiv_by_one(tmin * v.z);
    let p = sph_hit(s, r)->0;
    assert(p.x == o.x + tmin * v.x);
    assert(p.y == o.y + tmin * v.y);
    assert(p.z == o.z + tmin * v.z);
    assert((p.x - c.x) * (p.x - c.x) + (p.y - c.y) * (p.y - c.y) + (p.z - c.z) * (p.z - c.z)
        == rr * rr) by (nonlinear_arith)
        requires
            p.x == o.x + tmin * v.x,
            p.y == o.y + tmin * v.y,
            p.z == o.z + tmin * v.z,
            c.x - o.x == m * v.x,
            c.y - o.y == m * v.y,
            c.z - o.z == m * v.z,
            v.x * v.x + v.y * v.y + v.z * v.z == 1,
            tmin == m - rr,
    ;
    assert(v_dist2(p, c) == rr * rr);
}

} // verus!
