//! 3D points and vectors over fixed-point integer coordinates, with an
//! exact mathematical model (`V3`, coordinates as unbounded integers)
//! and verified exec operations: addition, subtraction, scaling, dot
//! and cross products, scalar triple product and squared distance.

use vstd::prelude::*;
use crate::arith::{tdiv, div_trunc, lemma_mul_bound};

verus! {

/// Largest coordinate magnitude accepted for scene geometry: primitive
/// fields, ray origins and ray directions.  Keeping scene input inside
/// this box lets every intermediate of the hit tests be computed
/// exactly, with no overflow.
pub const MAX_COORD: i64 = 4096;

/// Coordinate magnitude bound that every hit point returned by the hit
/// tests satisfies; squared distances between such points still fit
/// the 128-bit arithmetic of the tracer.
pub const HIT_BOUND: i64 = 0x80_0000_0000_0000;

/// Mathematical model of a point or vector: unbounded integer
/// coordinates.
pub ghost struct V3 {
    pub x: int,
    pub y: int,
    pub z: int,
}

/// A 3D point or vector in fixed-point coordinates.
#[derive(Clone, Copy, PartialEq, Eq, Structural, Debug)]
pub struct Vec3 {
    pub x: i64,
    pub y: i64,
    pub z: i64,
}

impl View for Vec3 {
    type V = V3;

    open spec fn view(&self) -> V3 {
        V3 { x: self.x as int, y: self.y as int, z: self.z as int }
    }
}

pub open spec fn v_add(a: V3, b: V3) -> V3 {
    V3 { x: a.x + b.x, y: a.y + b.y, z: a.z + b.z }
}

pub open spec fn v_sub(a: V3, b: V3) -> V3 {
    V3 { x: a.x - b.x, y: a.y - b.y, z: a.z - b.z }
}

pub open spec fn v_scale(k: int, a: V3) -> V3 {
    V3 { x: k * a.x, y: k * a.y, z: k * a.z }
}

pub open spec fn v_dot(a: V3, b: V3) -> int {
    a.x * b.x + a.y * b.y + a.z * b.z
}

pub open spec fn v_cross(a: V3, b: V3) -> V3 {
    V3 {
        x: a.y * b.z - a.z * b.y,
        y: a.z * b.x - a.x * b.z,
        z: a.x * b.y - a.y * b.x,
    }
}

/// Squared Euclidean distance between two points.
pub open spec fn v_dist2(a: V3, b: V3) -> int {
    v_dot(v_sub(a, b), v_sub(a, b))
}

/// Every coordinate within `m` in magnitude.
pub open spec fn v_bounded(a: V3, m: int) -> bool {
    &&& -m <= a.x <= m
    &&& -m <= a.y <= m
    &&& -m <= a.z <= m
}

/// Well-formed scene geometry: coordinates within `MAX_COORD`.
pub open spec fn v_wf(a: V3) -> bool {
    v_bounded(a, MAX_COORD as int)
}

pub open spec fn v_zero() -> V3 {
    V3 { x: 0, y: 0, z: 0 }
}

/// Bounded factors bound each component of the cross product.
pub proof fn lemma_cross_bound(a: V3, b: V3, m: int, n: int)
    requires
        0 <= m,
        0 <= n,
        v_bounded(a, m),
        v_bounded(b, n),
    ensures
        v_bounded(v_cross(a, b), 2 * m * n),
{
    vstd::arithmetic::mul::lemma_mul_is_associative(2, m, n);
    lemma_mul_bound(a.y, b.z, m, n);
    lemma_mul_bound(a.z, b.y, m, n);
    lemma_mul_bound(a.z, b.x, m, n);
    lemma_mul_bound(a.x, b.z, m, n);
    lemma_mul_bound(a.x, b.y, m, n);
    lemma_mul_bound(a.y, b.x, m, n);
}

/// Bounded factors bound the dot product.
pub proof fn lemma_dot_bound(a: V3, b: V3, m: int, n: int)
    requires
        0 <= m,
        0 <= n,
        v_bounded(a, m),
        v_bounded(b, n),
    ensures
        -(3 * m * n) <= v_dot(a, b) <= 3 * m * n,
{
    vstd::arithmetic::mul::lemma_mul_is_associative(3, m, n);
    lemma_mul_bound(a.x, b.x, m, n);
    lemma_mul_bound(a.y, b.y, m, n);
    lemma_mul_bound(a.z, b.z, m, n);
}

/// A vector dotted with itself is nonnegative, and at least one when
/// the vector is nonzero.
pub proof fn lemma_dot_self_pos(a: V3)
    by (nonlinear_arith)
    ensures
        v_dot(a, a) >= 0,
        a != v_zero() ==> v_dot(a, a) >= 1,
{
}

impl Vec3 {
    /// Componentwise sum.
    pub fn add(&self, rhs: &Vec3) -> (r: Vec3)
        requires
            v_bounded(self@, 0x2000_0000_0000_0000),
            v_bounded(rhs@, 0x2000_0000_0000_0000),
        ensures
            r@ == v_add(self@, rhs@),
    {
        Vec3 { x: self.x + rhs.x, y: self.y + rhs.y, z: self.z + rhs.z }
    }

    /// Componentwise difference.
    pub fn sub(&self, rhs: &Vec3) -> (r: Vec3)
        requires
            v_bounded(self@, 0x2000_0000_0000_0000),
            v_bounded(rhs@, 0x2000_0000_0000_0000),
        ensures
            r@ == v_sub(self@, rhs@),
    {
        Vec3 { x: self.x - rhs.x, y: self.y - rhs.y, z: self.z - rhs.z }
    }

    /// Scaling by an integer factor.
    pub fn scale(&self, k: i64) -> (r: Vec3)
        requires
            v_bounded(self@, MAX_COORD as int),
            -0x4_0000_0000_0000 <= k <= 0x4_0000_0000_0000,
        ensures
            r@ == v_scale(k as int, self@),
    {
        proof {
            lemma_mul_bound(k as int, self@.x, 0x4_0000_0000_0000, MAX_COORD as int);
            lemma_mul_bound(k as int, self@.y, 0x4_0000_0000_0000, MAX_COORD as int);
            lemma_mul_bound(k as int, self@.z, 0x4_0000_0000_0000, MAX_COORD as int);
        }
        Vec3 { x: k * self.x, y: k * self.y, z: k * self.z }
    }

    /// Exact dot product.
    pub fn dot(&self, rhs: &Vec3) -> (r: i64)
        requires
            v_bounded(self@, 0x4000_0000),
            v_bounded(rhs@, 0x4000_0000),
        ensures
            r == v_dot(self@, rhs@),
    {
        proof {
            lemma_mul_bound(self@.x, rhs@.x, 0x4000_0000, 0x4000_0000);
            lemma_mul_bound(self@.y, rhs@.y, 0x4000_0000, 0x4000_0000);
            lemma_mul_bound(self@.z, rhs@.z, 0x4000_0000, 0x4000_0000);
        }
        self.x * rhs.x + self.y * rhs.y + self.z * rhs.z
    }

    /// Exact cross product.
    pub fn cross(&self, rhs: &Vec3) -> (r: Vec3)
        requires
            v_bounded(self@, 0x4000_0000),
            v_bounded(rhs@, 0x4000_0000),
        ensures
            r@ == v_cross(self@, rhs@),
    {
        proof {
            lemma_mul_bound(self@.x, rhs@.x, 0x4000_0000, 0x4000_0000);
            lemma_mul_bound(self@.x, rhs@.y, 0x4000_0000, 0x4000_0000);
            lemma_mul_bound(self@.x, rhs@.z, 0x4000_0000, 0x4000_0000);
            lemma_mul_bound(self@.y, rhs@.x, 0x4000_0000, 0x4000_0000);
            lemma_mul_bound(self@.y, rhs@.y, 0x4000_0000, 0x4000_0000);
            lemma_mul_bound(self@.y, rhs@.z, 0x4000_0000, 0x4000_0000);
            lemma_mul_bound(self@.z, rhs@.x, 0x4000_0000, 0x4000_0000);
            lemma_mul_bound(self@.z, rhs@.y, 0x4000_0000, 0x4000_0000);
            lemma_mul_bound(self@.z, rhs@.z, 0x4000_0000, 0x4000_0000);
        }
        Vec3 {
            x: self.y * rhs.z - self.z * rhs.y,
            y: self.z * rhs.x - self.x * rhs.z,
            z: self.x * rhs.y - self.y * rhs.x,
        }
    }
}

/// Exact scalar triple product `a . (b x c)`, computed in 128 bits so
/// that `c` may be a hit point rather than scene geometry.
pub fn triple(a: &Vec3, b: &Vec3, c: &Vec3) -> (r: i128)
    requires
        v_bounded(a@, 0x4000_0000),
        v_bounded(b@, 0x4000_0000),
        v_bounded(c@, 0x2000_0000_0000_0000),
    ensures
        r == v_dot(a@, v_cross(b@, c@)),
{
    let bx = b.x as i128;
    let by = b.y as i128;
    let bz = b.z as i128;
    let cx = c.x as i128;
    let cy = c.y as i128;
    let cz = c.z as i128;
    proof {
        lemma_mul_bound(b@.y, c@.z, 0x4000_0000, 0x2000_0000_0000_0000);
        lemma_mul_bound(b@.z, c@.y, 0x4000_0000, 0x2000_0000_0000_0000);
        lemma_mul_bound(b@.z, c@.x, 0x4000_0000, 0x2000_0000_0000_0000);
        lemma_mul_bound(b@.x, c@.z, 0x4000_0000, 0x2000_0000_0000_0000);
        lemma_mul_bound(b@.x, c@.y, 0x4000_0000, 0x2000_0000_0000_0000);
        lemma_mul_bound(b@.y, c@.x, 0x4000_0000, 0x2000_0000_0000_0000);
    }
    let mx: i128 = by * cz - bz * cy;
    let my: i128 = bz * cx - bx * cz;
    let mz: i128 = bx * cy - by * cx;
    proof {
        let big: int = 0x1000_0000_0000_0000_0000_0000;
        lemma_mul_bound(a@.x, mx as int, 0x4000_0000, big);
        lemma_mul_bound(a@.y, my as int, 0x4000_0000, big);
        lemma_mul_bound(a@.z, mz as int, 0x4000_0000, big);
    }
    (a.x as i128) * mx + (a.y as i128) * my + (a.z as i128) * mz
}

/// Exact squared Euclidean distance, in 128 bits.
pub fn dist2(a: &Vec3, b: &Vec3) -> (r: i128)
    requires
        v_bounded(a@, 0x2000_0000_0000_0000),
        v_bounded(b@, 0x2000_0000_0000_0000),
    ensures
        r == v_dist2(a@, b@),
{
    let dx: i128 = a.x as i128 - b.x as i128;
    let dy: i128 = a.y as i128 - b.y as i128;
    let dz: i128 = a.z as i128 - b.z as i128;
    proof {
        let big: int = 0x4000_0000_0000_0000;
        lemma_mul_bound(dx as int, dx as int, big, big);
        lemma_mul_bound(dy as int, dy as int, big, big);
        lemma_mul_bound(dz as int, dz as int, big, big);
    }
    dx * dx + dy * dy + dz * dz
}

/// Componentwise `v * k / d` with division truncated toward zero: the
/// exact displacement the hit tests add to a ray origin once the
/// parametric distance `k / d` along the ray is known.
pub fn scale_div(v: &Vec3, k: i64, d: i64) -> (r: Vec3)
    requires
        v_bounded(v@, MAX_COORD as int),
        -0x4_0000_0000_0000 <= k <= 0x4_0000_0000_0000,
        d != 0,
        -0x4_0000_0000_0000 <= d <= 0x4_0000_0000_0000,
    ensures
        r@ == (V3 {
            x: tdiv(k * v@.x, d as int),
            y: tdiv(k * v@.y, d as int),
            z: tdiv(k * v@.z, d as int),
        }),
        v_bounded(r@, 0x4000_0000_0000_0000),
{
    proof {
        lemma_mul_bound(k as int, v@.x, 0x4_0000_0000_0000, MAX_COORD as int);
        lemma_mul_bound(k as int, v@.y, 0x4_0000_0000_0000, MAX_COORD as int);
        lemma_mul_bound(k as int, v@.z, 0x4_0000_0000_0000, MAX_COORD as int);
    }
    Vec3 {
        x: div_trunc(k * v.x, d),
        y: div_trunc(k * v.y, d),
        z: div_trunc(k * v.z, d),
    }
}

} // verus!
