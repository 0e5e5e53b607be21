//! Scalar arithmetic for the fixed-point geometry: truncated division
//! (the rounding the hit tests use when a parametric distance is turned
//! back into coordinates) and the integer square root used by the
//! sphere's quadratic.

use vstd::prelude::*;

verus! {

/// Magnitude of an integer.
pub open spec fn abs_i(a: int) -> int {
    if a < 0 {
        -a
    } else {
        a
    }
}

/// Division truncated toward zero, the semantics of Rust's `/` on
/// signed integers.  (Spec-mode `/` is Euclidean, so the hit tests
/// state their rounding through this function instead.)
pub open spec fn tdiv(a: int, b: int) -> int {
    if (a < 0) == (b < 0) {
        abs_i(a) / abs_i(b)
    } else {
        -(abs_i(a) / abs_i(b))
    }
}

/// Product bound: factors bounded in magnitude bound the product.
pub proof fn lemma_mul_bound(x: int, y: int, m: int, n: int)
    by (nonlinear_arith)
    requires
        0 <= m,
        0 <= n,
        -m <= x <= m,
        -n <= y <= n,
    ensures
        -(m * n) <= x * y <= m * n,
{
}

/// Truncated division never grows the magnitude of the dividend.
pub proof fn lemma_tdiv_bound(a: int, b: int)
    requires
        b != 0,
    ensures
        abs_i(tdiv(a, b)) <= abs_i(a),
{
    let ua = abs_i(a);
    let ub = abs_i(b);
    assert(ua / ub <= ua && ua / ub >= 0) by (nonlinear_arith)
        requires
            0 <= ua,
            1 <= ub,
    ;
}

/// Truncated division by one is the identity.
pub proof fn lemma_tdiv_by_one(a: int)
    ensures
        tdiv(a, 1) == a,
{
    assert(abs_i(a) / 1 == abs_i(a));
}

/// Exact truncated division of bounded 64-bit values.
pub fn div_trunc(a: i64, b: i64) -> (q: i64)
    requires
        b != 0,
        -0x4000_0000_0000_0000 <= a <= 0x4000_0000_0000_0000,
        -0x4000_0000_0000_0000 <= b <= 0x4000_0000_0000_0000,
    ensures
        q == tdiv(a as int, b as int),
        abs_i(q as int) <= abs_i(a as int),
{
    let ua: u64 = if a < 0 {
        (-a) as u64
    } else {
        a as u64
    };
    let ub: u64 = if b < 0 {
        (-b) as u64
    } else {
        b as u64
    };
    let uq: u64 = ua / ub;
    assert(uq <= ua) by (nonlinear_arith)
        requires
            uq == ua as int / ub as int,
            0 <= ua,
            1 <= ub,
    ;
    proof {
        lemma_tdiv_bound(a as int, b as int);
    }
    if (a < 0) != (b < 0) {
        -(uq as i64)
    } else {
        uq as i64
    }
}

/// The floor of the square root of a natural number.
pub open spec fn sqrt_floor(n: nat) -> nat
    decreases n,
{
    if n == 0 {
        0
    } else {
        let s = sqrt_floor((n - 1) as nat);
        if (s + 1) * (s + 1) <= n {
            s + 1
        } else {
            s
        }
    }
}

/// `sqrt_floor` is squeezed between the two neighbouring squares.
pub proof fn lemma_sqrt_floor_bounds(n: nat)
    ensures
        sqrt_floor(n) * sqrt_floor(n) <= n,
        n < (sqrt_floor(n) + 1) * (sqrt_floor(n) + 1),
    decreases n,
{
    if n == 0 {
        let s0 = sqrt_floor(n);
        assert(s0 == 0);
        assert((s0 + 1) * (s0 + 1) == 1) by (nonlinear_arith)
            requires
                s0 == 0,
        ;
    } else {
        let m = (n - 1) as nat;
        lemma_sqrt_floor_bounds(m);
        let s = sqrt_floor(m);
        assert(s * s <= m);
        assert(m < (s + 1) * (s + 1));
        if (s + 1) * (s + 1) <= n {
            assert(sqrt_floor(n) == s + 1);
            assert(n < ((s + 1) + 1) * ((s + 1) + 1)) by (nonlinear_arith)
                requires
                    n == m + 1,
                    m < (s + 1) * (s + 1),
                    0 <= s,
            ;
        } else {
            assert(sqrt_floor(n) == s);
            assert(s * s <= n);
        }
        assert(sqrt_floor(n) * sqrt_floor(n) <= n);
        assert(n < (sqrt_floor(n) + 1) * (sqrt_floor(n) + 1));
    }
}

/// Any value squeezed between the neighbouring squares is the floor
/// of the square root.
pub proof fn lemma_sqrt_floor_unique(n: nat, s: nat)
    requires
        s * s <= n,
        n < (s + 1) * (s + 1),
    ensures
        s == sqrt_floor(n),
{
    lemma_sqrt_floor_bounds(n);
    let t = sqrt_floor(n);
    assert(s == t) by (nonlinear_arith)
        requires
            0 <= s,
            0 <= t,
            s * s <= n,
            n < (s + 1) * (s + 1),
            t * t <= n,
            n < (t + 1) * (t + 1),
    ;
}

/// Exact integer square root by binary search.
pub fn isqrt(n: u64) -> (r: u64)
    requires
        n < 0x1000_0000_0000_0000,
    ensures
        r == sqrt_floor(n as nat),
        r < 0x4000_0000,
{
    let mut lo: u64 = 0;
    let mut hi: u64 = 0x4000_0000;
    assert(0x4000_0000 * 0x4000_0000 == 0x1000_0000_0000_0000int);
    while lo + 1 < hi
        invariant
            lo < hi <= 0x4000_0000,
            lo * lo <= n,
            n < hi * hi,
        decreases hi - lo,
    {
        let mid: u64 = lo + (hi - lo) / 2;
        assert(lo < mid < hi);
        assert(mid * mid < 0x1000_0000_0000_0000) by (nonlinear_arith)
            requires
                0 <= mid < 0x4000_0000u64,
        ;
        if mid * mid <= n {
            lo = mid;
        } else {
            hi = mid;
        }
    }
    proof {
        lemma_sqrt_floor_unique(n as nat, lo as nat);
    }
    lo
}

} // verus!
