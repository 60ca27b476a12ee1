//! Vector geometry on fixed-point 3D points: distances, dot and cross
//! products, and the scaled cosine of the angle between two directions.
//!
//! All results are exact integer computations; square roots are floor
//! square roots, pinned by the `is_sqrt_floor` bracket.

use vstd::prelude::*;

verus! {

use crate::math::{floor_div, SCALE};

/// Largest coordinate magnitude the geometry functions accept.  Sampled
/// coordinates extrapolate at most one padding step beyond the configured
/// bounding box, so this is eight times the configuration limit.
pub const POINT_BOUND: i64 = 8_000_000_000;

/// A point (or displacement) in 3D space, each coordinate a fixed-point
/// number counting multiples of `1 / SCALE` of the physical unit.
#[derive(Clone, Copy, Debug, PartialEq, Eq, Structural)]
pub struct Point3 {
    pub x: i64,
    pub y: i64,
    pub z: i64,
}

impl Point3 {
    /// All coordinates lie within the range the engine's exact arithmetic
    /// supports.
    pub open spec fn in_bounds(self) -> bool {
        &&& -POINT_BOUND <= self.x <= POINT_BOUND
        &&& -POINT_BOUND <= self.y <= POINT_BOUND
        &&& -POINT_BOUND <= self.z <= POINT_BOUND
    }
}

/// Squared Euclidean distance between two points, exactly.
pub open spec fn dist_sq(p: Point3, q: Point3) -> int {
    (p.x - q.x) * (p.x - q.x) + (p.y - q.y) * (p.y - q.y) + (p.z - q.z) * (p.z - q.z)
}

/// Dot product of the two displacement vectors from `origin` to `first`
/// and from `origin` to `second`.
pub open spec fn dot_from(origin: Point3, first: Point3, second: Point3) -> int {
    (first.x - origin.x) * (second.x - origin.x)
        + (first.y - origin.y) * (second.y - origin.y)
        + (first.z - origin.z) * (second.z - origin.z)
}

/// The two displacement vectors from `origin` are collinear: their cross
/// product vanishes.  For non-zero vectors this is exactly "the angle
/// between them is 0 or pi", the case in which its sine vanishes.
pub open spec fn collinear_from(origin: Point3, first: Point3, second: Point3) -> bool {
    let ax = first.x - origin.x;
    let ay = first.y - origin.y;
    let az = first.z - origin.z;
    let bx = second.x - origin.x;
    let by = second.y - origin.y;
    let bz = second.z - origin.z;
    ay * bz - az * by == 0 && az * bx - ax * bz == 0 && ax * by - ay * bx == 0
}

/// `r` is the floor of the square root of `n`.
pub open spec fn is_sqrt_floor(n: int, r: int) -> bool {
    r >= 0 && r * r <= n < (r + 1) * (r + 1)
}

/// The floor square root is unique.
pub proof fn lemma_sqrt_floor_unique(n: int, r1: int, r2: int) by (nonlinear_arith)
    requires
        is_sqrt_floor(n, r1),
        is_sqrt_floor(n, r2),
    ensures
        r1 == r2,
{
}

/// The floor square root of a non-negative number, as a function (the
/// bracket `is_sqrt_floor` has exactly one solution).
pub open spec fn sqrt_floor_val(n: int) -> int {
    choose |r: int| is_sqrt_floor(n, r)
}

/// Every non-negative number has a floor square root, so `sqrt_floor_val`
/// denotes it.
pub proof fn lemma_sqrt_floor_val(n: int)
    requires
        n >= 0,
    ensures
        is_sqrt_floor(n, sqrt_floor_val(n)),
    decreases n,
{
    if n == 0 {
        assert(is_sqrt_floor(0, 0));
    } else {
        lemma_sqrt_floor_val(n - 1);
        let r = sqrt_floor_val(n - 1);
        if n < (r + 1) * (r + 1) {
            assert(is_sqrt_floor(n, r));
        } else {
            assert(is_sqrt_floor(n, r + 1)) by (nonlinear_arith)
                requires
                    is_sqrt_floor(n - 1, r),
                    (r + 1) * (r + 1) <= n;
        }
    }
}

/// Floor square root by binary search.
pub fn isqrt_u128(n: u128) -> (r: u64)
    ensures
        is_sqrt_floor(n as int, r as int),
{
    let mut lo: u64 = 0;
    let mut hi: u64 = u64::MAX;
    proof {
        assert((n as int) < (u64::MAX as int + 1) * (u64::MAX as int + 1)) by (nonlinear_arith)
            requires
                n <= u128::MAX;
    }
    while lo < hi
        invariant
            lo <= hi,
            (lo as int) * (lo as int) <= n as int,
            (n as int) < (hi as int + 1) * (hi as int + 1),
        decreases hi - lo,
    {
        let mid: u64 = lo + (hi - lo) / 2 + 1;
        proof {
            assert((mid as int) * (mid as int) <= u128::MAX as int) by (nonlinear_arith)
                requires
                    0 <= mid <= u64::MAX;
        }
        if (mid as u128) * (mid as u128) <= n {
            lo = mid;
        } else {
            hi = mid - 1;
        }
    }
    lo
}

/// A floor square root of a positive number is positive, and only zero has
/// floor square root zero.
pub proof fn lemma_sqrt_floor_zero(n: int, r: int) by (nonlinear_arith)
    requires
        is_sqrt_floor(n, r),
        n >= 0,
    ensures
        r == 0 <==> n == 0,
{
}

/// Bounding the radicand bounds the floor square root.
pub proof fn lemma_sqrt_floor_bound(n: int, r: int, m: int) by (nonlinear_arith)
    requires
        is_sqrt_floor(n, r),
        0 <= m,
        n <= m * m,
    ensures
        r <= m,
{
}

/// Euclidean distance between two points: the floor square root of the
/// exact squared distance, in the same fixed-point unit as the coordinates.
pub fn compute_distance_between(first: &Point3, second: &Point3) -> (r: i64)
    requires
        first.in_bounds(),
        second.in_bounds(),
    ensures
        r == sqrt_floor_val(dist_sq(*first, *second)),
        is_sqrt_floor(dist_sq(*first, *second), r as int),
        0 <= r <= 32_000_000_000i64,
{
    let dx: i64 = first.x - second.x;
    let dy: i64 = first.y - second.y;
    let dz: i64 = first.z - second.z;
    proof {
        crate::math::lemma_mul_bounds(dx as int, dx as int, 16_000_000_000, 16_000_000_000);
        crate::math::lemma_mul_bounds(dy as int, dy as int, 16_000_000_000, 16_000_000_000);
        crate::math::lemma_mul_bounds(dz as int, dz as int, 16_000_000_000, 16_000_000_000);
        assert(0 <= (dx as int) * (dx as int) + (dy as int) * (dy as int) + (dz as int) * (dz as int)
            <= 3 * (16_000_000_000 * 16_000_000_000)) by (nonlinear_arith)
            requires
                -16_000_000_000 <= dx <= 16_000_000_000,
                -16_000_000_000 <= dy <= 16_000_000_000,
                -16_000_000_000 <= dz <= 16_000_000_000;
    }
    let sq: u128 = ((dx as i128) * (dx as i128) + (dy as i128) * (dy as i128)
        + (dz as i128) * (dz as i128)) as u128;
    let root = isqrt_u128(sq);
    proof {
        lemma_sqrt_floor_bound(sq as int, root as int, 32_000_000_000);
        lemma_sqrt_floor_val(dist_sq(*first, *second));
        lemma_sqrt_floor_unique(
            dist_sq(*first, *second),
            root as int,
            sqrt_floor_val(dist_sq(*first, *second)),
        );
    }
    root as i64
}

/// The squared distance is symmetric in its two points.
pub proof fn lemma_dist_sq_symmetric(p: Point3, q: Point3) by (nonlinear_arith)
    ensures
        dist_sq(p, q) == dist_sq(q, p),
{
}

/// The squared distance is non-negative, and vanishes exactly when the two
/// points coincide.
pub proof fn lemma_dist_sq_zero_iff_equal(p: Point3, q: Point3) by (nonlinear_arith)
    ensures
        dist_sq(p, q) >= 0,
        dist_sq(p, q) == 0 <==> p == q,
{
}

/// The distance itself is symmetric, and vanishes exactly when the two
/// points coincide: the laws of the squared distance carry through the
/// floor square root.
pub proof fn lemma_distance_symmetric_and_zero_iff(p: Point3, q: Point3, r1: int, r2: int)
    requires
        is_sqrt_floor(dist_sq(p, q), r1),
        is_sqrt_floor(dist_sq(q, p), r2),
    ensures
        r1 == r2,
        r1 == 0 <==> p == q,
{
    lemma_dist_sq_symmetric(p, q);
    lemma_sqrt_floor_unique(dist_sq(p, q), r1, r2);
    lemma_dist_sq_zero_iff_equal(p, q);
    lemma_sqrt_floor_zero(dist_sq(p, q), r1);
}

/// The dot product from a shared origin is symmetric under swapping the two
/// end points.
pub proof fn lemma_dot_symmetric(origin: Point3, first: Point3, second: Point3) by (nonlinear_arith)
    ensures
        dot_from(origin, first, second) == dot_from(origin, second, first),
{
}

/// Clamp a scaled cosine into the representable range `[-SCALE, SCALE]`
/// (the value of a true cosine always lies there; only the floor rounding
/// of the two square roots can push the quotient out).
pub open spec fn clamp_scaled(v: int) -> int {
    if v > SCALE as int {
        SCALE as int
    } else if v < -(SCALE as int) {
        -(SCALE as int)
    } else {
        v
    }
}

/// The scaled cosine of the angle at `origin` between the directions
/// toward `first` and `second`: the dot product of the two displacement
/// vectors, divided by the floor square roots of their squared lengths,
/// scaled by `SCALE`, floored and clamped.
pub open spec fn angle_cosine_spec(origin: Point3, first: Point3, second: Point3) -> int {
    clamp_scaled(floor_div(
        dot_from(origin, first, second) * SCALE as int,
        sqrt_floor_val(dist_sq(origin, first)) * sqrt_floor_val(dist_sq(origin, second)),
    ))
}

/// Scaled cosine of the angle at `origin` between the directions toward
/// `first` and `second` (`SCALE` stands for a cosine of one).  Both
/// directions must have non-zero length.
pub fn compute_angle_cosine(origin: &Point3, first: &Point3, second: &Point3) -> (c: i64)
    requires
        origin.in_bounds(),
        first.in_bounds(),
        second.in_bounds(),
        *first != *origin,
        *second != *origin,
    ensures
        c == angle_cosine_spec(*origin, *first, *second),
        -SCALE <= c <= SCALE,
{
    let ax: i64 = first.x - origin.x;
    let ay: i64 = first.y - origin.y;
    let az: i64 = first.z - origin.z;
    let bx: i64 = second.x - origin.x;
    let by: i64 = second.y - origin.y;
    let bz: i64 = second.z - origin.z;
    proof {
        crate::math::lemma_mul_bounds(ax as int, bx as int, 16_000_000_000, 16_000_000_000);
        crate::math::lemma_mul_bounds(ay as int, by as int, 16_000_000_000, 16_000_000_000);
        crate::math::lemma_mul_bounds(az as int, bz as int, 16_000_000_000, 16_000_000_000);
        assert(-(3 * (16_000_000_000 * 16_000_000_000))
            <= (ax as int) * (bx as int) + (ay as int) * (by as int) + (az as int) * (bz as int)
            <= 3 * (16_000_000_000 * 16_000_000_000)) by (nonlinear_arith)
            requires
                -16_000_000_000 <= ax <= 16_000_000_000,
                -16_000_000_000 <= ay <= 16_000_000_000,
                -16_000_000_000 <= az <= 16_000_000_000,
                -16_000_000_000 <= bx <= 16_000_000_000,
                -16_000_000_000 <= by <= 16_000_000_000,
                -16_000_000_000 <= bz <= 16_000_000_000;
    }
    let dot: i128 = (ax as i128) * (bx as i128) + (ay as i128) * (by as i128)
        + (az as i128) * (bz as i128);
    let ra = compute_distance_between(origin, first);
    let rb = compute_distance_between(origin, second);
    proof {
        lemma_dist_sq_zero_iff_equal(*origin, *first);
        lemma_dist_sq_zero_iff_equal(*origin, *second);
        lemma_sqrt_floor_zero(dist_sq(*origin, *first), ra as int);
        lemma_sqrt_floor_zero(dist_sq(*origin, *second), rb as int);
        assert(1 <= (ra as int) * (rb as int)
            <= 32_000_000_000 * 32_000_000_000) by (nonlinear_arith)
            requires
                1 <= ra <= 32_000_000_000,
                1 <= rb <= 32_000_000_000;
        assert(-(3 * (16_000_000_000 * 16_000_000_000) * (SCALE as int))
            <= (dot as int) * (SCALE as int)
            <= 3 * (16_000_000_000 * 16_000_000_000) * (SCALE as int)) by (nonlinear_arith)
            requires
                -(3 * (16_000_000_000 * 16_000_000_000)) <= dot
                    <= 3 * (16_000_000_000 * 16_000_000_000),
                SCALE == 1_000_000;
    }
    let denom: i128 = (ra as i128) * (rb as i128);
    let q: i128 = crate::math::div_floor_i128(dot * (SCALE as i128), denom);
    let c: i64 = if q > SCALE as i128 {
        SCALE
    } else if q < -(SCALE as i128) {
        -SCALE
    } else {
        q as i64
    };
    proof {
        let ci = c as int;
        assert(ci == clamp_scaled(floor_div(
            dot_from(*origin, *first, *second) * SCALE as int,
            (ra as int) * (rb as int),
        )));
    }
    c
}

/// The scaled angle cosine is symmetric under swapping the two end points,
/// and is zero when the two directions are perpendicular (a zero dot
/// product; a true angle of half pi).
pub proof fn lemma_angle_cosine_symmetric_and_perpendicular(origin: Point3, first: Point3, second: Point3)
    requires
        first != origin,
        second != origin,
    ensures
        angle_cosine_spec(origin, first, second) == angle_cosine_spec(origin, second, first),
        dot_from(origin, first, second) == 0 ==> angle_cosine_spec(origin, first, second) == 0,
{
    let ra = sqrt_floor_val(dist_sq(origin, first));
    let rb = sqrt_floor_val(dist_sq(origin, second));
    lemma_dot_symmetric(origin, first, second);
    assert(ra * rb == rb * ra) by (nonlinear_arith);
    if dot_from(origin, first, second) == 0 {
        lemma_dist_sq_zero_iff_equal(origin, first);
        lemma_dist_sq_zero_iff_equal(origin, second);
        lemma_sqrt_floor_val(dist_sq(origin, first));
        lemma_sqrt_floor_val(dist_sq(origin, second));
        lemma_sqrt_floor_zero(dist_sq(origin, first), ra);
        lemma_sqrt_floor_zero(dist_sq(origin, second), rb);
        assert(ra * rb >= 1) by (nonlinear_arith)
            requires
                ra >= 1,
                rb >= 1;
        vstd::arithmetic::div_mod::lemma_div_of0(ra * rb);
        assert(dot_from(origin, first, second) * SCALE as int == 0);
    }
}

} // verus!
