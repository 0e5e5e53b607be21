//! Rays: an origin point and a direction vector.  Directions need not
//! be normalized; the hit tests are stated for the unnormalized
//! parametric form, so any nonzero direction is accepted.

use vstd::prelude::*;
use crate::vec3::{Vec3, v_add, v_scale, v_wf, v_zero, MAX_COORD};
use crate::arith::lemma_mul_bound;

verus! {

/// A ray, constructed once per pixel and discarded after tracing.
#[derive(Clone, Copy, Debug)]
pub struct Ray {
    pub origin: Vec3,
    pub direction: Vec3,
}

impl Ray {
    /// Well-formed ray: coordinates inside the scene box and a nonzero
    /// direction.
    pub open spec fn wf(self) -> bool {
        &&& v_wf(self.origin@)
        &&& v_wf(self.direction@)
        &&& self.direction@ != v_zero()
    }

    /// The point at integer parametric distance `t` along the ray.
    pub fn point_at_parameter(&self, t: i64) -> (p: Vec3)
        requires
            self.wf(),
            -0x2_0000_0000_0000 <= t <= 0x2_0000_0000_0000,
        ensures
            p@ == v_add(self.origin@, v_scale(t as int, self.direction@)),
    {
        let d = self.direction.scale(t);
        proof {
            lemma_mul_bound(t as int, self.direction@.x, 0x2_0000_0000_0000, MAX_COORD as int);
            lemma_mul_bound(t as int, self.direction@.y, 0x2_0000_0000_0000, MAX_COORD as int);
            lemma_mul_bound(t as int, self.direction@.z, 0x2_0000_0000_0000, MAX_COORD as int);
        }
        self.origin.add(&d)
    }
}

} // verus!
