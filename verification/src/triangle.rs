//! Triangles and their hit test: plane intersection followed by a
//! per-edge sidedness test (a non-normalized Moller-Trumbore variant),
//! computed exactly over the fixed-point coordinates.

use vstd::prelude::*;
use crate::arith::{abs_i, tdiv, lemma_mul_bound, lemma_tdiv_bound};
use crate::color::Color;
use crate::ray::Ray;
use crate::vec3::{
    Vec3, V3, v_sub, v_dot, v_cross, v_bounded, v_wf, lemma_cross_bound, lemma_dot_bound,
    scale_div, triple, MAX_COORD, HIT_BOUND,
};

verus! {

/// Degenerate-case threshold, in fixed-point steps: a denominator
/// smaller than this in magnitude means the ray is parallel to the
/// triangle's plane, and a parametric distance below it lies behind
/// (or too close to) the ray origin.  One step is the smallest
/// positive scalar, so with exact arithmetic the parallel gate is an
/// exact zero test.  The threshold is absolute, deliberately not
/// scaled to triangle size or ray magnitude.
pub const EPSILON: i64 = 1;

/// A triangle with flat shading: three vertices and a diffuse color.
/// The sidedness test assumes one consistent winding order across the
/// three edges; winding is caller-supplied, not validated.  A
/// degenerate (collinear) triangle has a zero face normal and is
/// rejected by the parallel gate, the same epsilon gate that rejects
/// parallel rays.
#[derive(Clone, Copy, PartialEq, Eq, Structural, Debug)]
pub struct Triangle {
    pub p0: Vec3,
    pub p1: Vec3,
    pub p2: Vec3,
    pub difuse_color: Color,
}

/// The (unnormalized) face normal: `(p1 - p0) x (p2 - p0)`.
pub open spec fn tri_normal(t: Triangle) -> V3 {
    v_cross(v_sub(t.p1@, t.p0@), v_sub(t.p2@, t.p0@))
}

/// Denominator of the plane intersection: face normal dotted with the
/// ray direction.  Zero exactly when the ray is parallel to the plane.
pub open spec fn tri_den(t: Triangle, r: Ray) -> int {
    v_dot(tri_normal(t), r.direction@)
}

/// Numerator of the plane intersection: with plane offset
/// `d = -(normal . p0)`, this is `normal . origin + d`.  The
/// parametric distance of the plane along the ray is the rational
/// `-num / den`.
pub open spec fn tri_num(t: Triangle, r: Ray) -> int {
    v_dot(tri_normal(t), r.origin@) - v_dot(tri_normal(t), t.p0@)
}

/// Whether the parametric distance `-num / den` is strictly below
/// `EPSILON`, compared exactly as rationals (multiply through by the
/// denominator, minding its sign).
pub open spec fn tri_t_below_eps(t: Triangle, r: Ray) -> bool {
    let num = tri_num(t, r);
    let den = tri_den(t, r);
    if den > 0 {
        -num < EPSILON * den
    } else {
        -num > EPSILON * den
    }
}

/// The plane intersection point: the origin displaced by
/// `(-num / den) * direction`, each coordinate's division truncated
/// toward zero.
pub open spec fn tri_point(t: Triangle, r: Ray) -> V3 {
    let num = tri_num(t, r);
    let den = tri_den(t, r);
    V3 {
        x: r.origin@.x + tdiv(-num * r.direction@.x, den),
        y: r.origin@.y + tdiv(-num * r.direction@.y, den),
        z: r.origin@.z + tdiv(-num * r.direction@.z, den),
    }
}

/// The sidedness test: `p` is inside the triangle when, for each
/// oriented edge, the cross of the edge vector with the vector from
/// the edge's start to `p` points to the same side as the face normal.
pub open spec fn tri_contains(t: Triangle, p: V3) -> bool {
    let n = tri_normal(t);
    &&& v_dot(n, v_cross(v_sub(t.p1@, t.p0@), v_sub(p, t.p0@))) >= 0
    &&& v_dot(n, v_cross(v_sub(t.p2@, t.p1@), v_sub(p, t.p1@))) >= 0
    &&& v_dot(n, v_cross(v_sub(t.p0@, t.p2@), v_sub(p, t.p2@))) >= 0
}

/// The full hit test: `None` for a parallel ray (or degenerate
/// triangle), for a plane intersection behind the origin, and for a
/// point outside the edges; otherwise the intersection point.
pub open spec fn tri_hit(t: Triangle, r: Ray) -> Option<V3> {
    if abs_i(tri_den(t, r)) < EPSILON {
        None
    } else if tri_t_below_eps(t, r) {
        None
    } else if tri_contains(t, tri_point(t, r)) {
        Some(tri_point(t, r))
    } else {
        None
    }
}

impl Triangle {
    /// Well-formed triangle: vertices inside the scene box.
    pub open spec fn wf(self) -> bool {
        &&& v_wf(self.p0@)
        &&& v_wf(self.p1@)
        &&& v_wf(self.p2@)
    }

    /// Where (and whether) the ray hits this triangle.
    pub fn hit(&self, r: &Ray) -> (res: Option<Vec3>)
        requires
            self.wf(),
            r.wf(),
        ensures
            (res is Some <==> tri_hit(*self, *r) is Some),
            (res matches Some(p) ==> tri_hit(*self, *r) == Some(p@) && v_bounded(
                p@,
                HIT_BOUND as int,
            )),
    {
        let edge1 = self.p1.sub(&self.p0);
        let edge2 = self.p2.sub(&self.p0);
        let triangle_normal = edge1.cross(&edge2);
        proof {
            lemma_cross_bound(edge1@, edge2@, 2 * MAX_COORD as int, 2 * MAX_COORD as int);
            assert(v_bounded(triangle_normal@, 0x800_0000));
            lemma_dot_bound(triangle_normal@, r.direction@, 0x800_0000, MAX_COORD as int);
            lemma_dot_bound(triangle_normal@, self.p0@, 0x800_0000, MAX_COORD as int);
            lemma_dot_bound(triangle_normal@, r.origin@, 0x800_0000, MAX_COORD as int);
        }

        // parallel ray (or degenerate triangle): |den| below the threshold
        let den = triangle_normal.dot(&r.direction);
        let den_abs: i64 = if den < 0 {
            -den
        } else {
            den
        };
        if den_abs < EPSILON {
            return None;
        }

        // plane intersection behind (or too close to) the origin
        let d: i64 = -(triangle_normal.dot(&self.p0));
        let num: i64 = triangle_normal.dot(&r.origin) + d;
        let below_eps: bool = if den > 0 {
            -num < EPSILON * den
        } else {
            -num > EPSILON * den
        };
        if below_eps {
            return None;
        }

        let disp = scale_div(&r.direction, -num, den);
        proof {
            lemma_mul_bound(-num as int, r.direction@.x, 0x400_0000_0000, MAX_COORD as int);
            lemma_mul_bound(-num as int, r.direction@.y, 0x400_0000_0000, MAX_COORD as int);
            lemma_mul_bound(-num as int, r.direction@.z, 0x400_0000_0000, MAX_COORD as int);
            lemma_tdiv_bound(-num as int * r.direction@.x, den as int);
            lemma_tdiv_bound(-num as int * r.direction@.y, den as int);
            lemma_tdiv_bound(-num as int * r.direction@.z, den as int);
            assert(v_bounded(disp@, 0x40_0000_0000_0000));
        }
        let intersection_point = r.origin.add(&disp);
        proof {
            assert(intersection_point@ == tri_point(*self, *r));
            assert(v_bounded(intersection_point@, HIT_BOUND as int));
        }

        // sidedness test against each oriented edge
        let vp0 = intersection_point.sub(&self.p0);
        if triple(&triangle_normal, &edge1, &vp0) < 0 {
            return None;
        }
        let edge12 = self.p2.sub(&self.p1);
        let vp1 = intersection_point.sub(&self.p1);
        if triple(&triangle_normal, &edge12, &vp1) < 0 {
            return None;
        }
        let edge20 = self.p0.sub(&self.p2);
        let vp2 = intersection_point.sub(&self.p2);
        if triple(&triangle_normal, &edge20, &vp2) < 0 {
            return None;
        }

        Some(intersection_point)
    }

    /// The triangle's flat diffuse color.
    pub fn get_difuse_color(&self) -> (c: Color)
        ensures
            c == self.difuse_color,
    {
        self.difuse_color
    }

    /// The face normal, identical for every point of the face (flat
    /// shading) and returned unnormalized: unit length is not
    /// representable in the fixed-point scalars, so a consumer that
    /// needs a unit normal scales this exact direction itself.  The
    /// sign follows the vertex winding; there is no view-direction
    /// correction.
    #[allow(unused_variables)]
    pub fn get_normal(&self, p: &Vec3) -> (n: Option<Vec3>)
        requires
            self.wf(),
        ensures
            (n matches Some(v) && v@ == tri_normal(*self)),
    {
        let edge1 = self.p1.sub(&self.p0);
        let edge2 = self.p2.sub(&self.p0);
        let triangle_normal = edge1.cross(&edge2);
        Some(triangle_normal)
    }
}

} // verus!
