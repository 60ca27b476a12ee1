//! Mapping of integer grid indices to physical coordinates.
//!
//! A sampled axis is described by an index range `[index_begin, index_end]`
//! and the fixed-point coordinates of its two ends.  The mapping is affine
//! and exact: the result is returned as an exact rational so that the end
//! points and the degenerate midpoint suffer no rounding at all.  The grid
//! engine quantizes the rational back onto the fixed-point lattice in a
//! separate, explicitly-specified step.

use vstd::prelude::*;

verus! {

use crate::math::{floor_div, lemma_mul_bounds, mul_div_floor, SCALE};

/// Largest fixed-point coordinate magnitude the sampler accepts
/// (`1000` physical units), chosen so that every intermediate product
/// below fits in an `i64`.
pub const COORD_LIMIT: i64 = 1_000_000_000;

/// Largest number of grid steps along one axis.
pub const GRID_LIMIT: i64 = 1_000_000;

/// An exact rational with a positive denominator.
#[derive(Clone, Copy, Debug, PartialEq, Eq, Structural)]
pub struct Rat {
    pub num: i64,
    pub den: i64,
}

impl Rat {
    /// A rational is well formed when its denominator is positive.
    pub open spec fn wf(self) -> bool {
        self.den >= 1
    }
}

/// Numerator of the sampled coordinate, over `sample_den`.
pub open spec fn sample_num(index: int, index_begin: int, index_end: int, value_begin: int, value_end: int) -> int {
    if index_begin == index_end {
        value_begin + value_end
    } else {
        value_begin * (index_end - index_begin) + (index - index_begin) * (value_end - value_begin)
    }
}

/// Denominator of the sampled coordinate.
pub open spec fn sample_den(index_begin: int, index_end: int) -> int {
    if index_begin == index_end {
        2
    } else {
        index_end - index_begin
    }
}

/// Argument bounds under which the sampler's integer arithmetic cannot
/// overflow a 64-bit machine word.
pub open spec fn sample_args_ok(index: int, index_begin: int, index_end: int, value_begin: int, value_end: int) -> bool {
    &&& index_begin <= index_end
    &&& index_end - index_begin <= GRID_LIMIT as int
    &&& index_begin - GRID_LIMIT as int <= index <= index_end + GRID_LIMIT as int
    &&& -(COORD_LIMIT as int) * 8 <= value_begin <= (COORD_LIMIT as int) * 8
    &&& -(COORD_LIMIT as int) * 8 <= value_end <= (COORD_LIMIT as int) * 8
}

/// Maps an integer index on the closed range `[index_begin, index_end]` to a
/// physical coordinate by exact linear interpolation between `value_begin`
/// and `value_end`.  A degenerate range (`index_begin == index_end`) yields
/// the exact midpoint of the two values, whatever the index.  Indices
/// outside the range extrapolate linearly; no rounding or clamping happens.
pub fn compute_linear_sampling(index: i64, index_begin: i64, index_end: i64, value_begin: i64, value_end: i64) -> (r: Rat)
    requires
        sample_args_ok(index as int, index_begin as int, index_end as int, value_begin as int, value_end as int),
    ensures
        r.num == sample_num(index as int, index_begin as int, index_end as int, value_begin as int, value_end as int),
        r.den == sample_den(index_begin as int, index_end as int),
        r.wf(),
{
    if index_begin == index_end {
        Rat { num: value_begin + value_end, den: 2 }
    } else {
        let den = index_end - index_begin;
        proof {
            lemma_mul_bounds(value_begin as int, den as int, 8 * COORD_LIMIT as int, GRID_LIMIT as int);
            lemma_mul_bounds(
                index as int - index_begin as int,
                value_end as int - value_begin as int,
                2 * GRID_LIMIT as int,
                16 * COORD_LIMIT as int,
            );
        }
        let num = value_begin * den + (index - index_begin) * (value_end - value_begin);
        Rat { num, den }
    }
}

/// On a degenerate axis the sample is the exact midpoint of the two end
/// values: the result does not depend on the index at all, and the
/// rational it denotes equals `(value_begin + value_end) / 2` by cross
/// multiplication against its positive denominator.
pub proof fn lemma_sample_degenerate_is_midpoint(index_a: int, index_b: int, index_begin: int, value_begin: int, value_end: int)
    ensures
        sample_num(index_a, index_begin, index_begin, value_begin, value_end)
            == sample_num(index_b, index_begin, index_begin, value_begin, value_end),
        2 * sample_num(index_a, index_begin, index_begin, value_begin, value_end)
            == (value_begin + value_end) * sample_den(index_begin, index_begin),
{
}

/// On a non-degenerate axis the sampled coordinate is exact at both ends:
/// the begin index yields `value_begin` and the end index yields `value_end`.
pub proof fn lemma_sample_exact_at_endpoints(index_begin: int, index_end: int, value_begin: int, value_end: int)
    requires
        index_begin != index_end,
    ensures
        sample_num(index_begin, index_begin, index_end, value_begin, value_end)
            == value_begin * sample_den(index_begin, index_end),
        sample_num(index_end, index_begin, index_end, value_begin, value_end)
            == value_end * sample_den(index_begin, index_end),
{
    let d = index_end - index_begin;
    assert(value_begin * d + (index_begin - index_begin) * (value_end - value_begin) == value_begin * d)
        by (nonlinear_arith);
    assert(value_begin * d + d * (value_end - value_begin) == value_end * d) by (nonlinear_arith);
}

/// Sampling is strictly monotonic in the index when `value_begin < value_end`
/// and strictly anti-monotonic when `value_begin > value_end`: the sampled
/// numerators move the same, respectively the opposite, way as the indices
/// (the shared denominator is positive).
pub proof fn lemma_sample_monotonic(index_a: int, index_b: int, index_begin: int, index_end: int, value_begin: int, value_end: int)
    requires
        index_begin < index_end,
        index_a < index_b,
    ensures
        value_begin < value_end ==> sample_num(index_a, index_begin, index_end, value_begin, value_end)
            < sample_num(index_b, index_begin, index_end, value_begin, value_end),
        value_begin > value_end ==> sample_num(index_a, index_begin, index_end, value_begin, value_end)
            > sample_num(index_b, index_begin, index_end, value_begin, value_end),
{
    assert(value_begin < value_end ==> (index_a - index_begin) * (value_end - value_begin)
        < (index_b - index_begin) * (value_end - value_begin)) by (nonlinear_arith)
        requires
            index_a < index_b;
    assert(value_begin > value_end ==> (index_a - index_begin) * (value_end - value_begin)
        > (index_b - index_begin) * (value_end - value_begin)) by (nonlinear_arith)
        requires
            index_a < index_b;
}

/// Quantizes a sampled coordinate back onto the fixed-point lattice by
/// flooring the exact rational.
pub fn sample_coordinate(index: i64, index_begin: i64, index_end: i64, value_begin: i64, value_end: i64) -> (r: i64)
    requires
        sample_args_ok(index as int, index_begin as int, index_end as int, value_begin as int, value_end as int),
    ensures
        r == floor_div(
            sample_num(index as int, index_begin as int, index_end as int, value_begin as int, value_end as int),
            sample_den(index_begin as int, index_end as int),
        ),
{
    let rat = compute_linear_sampling(index, index_begin, index_end, value_begin, value_end);
    proof {
        crate::math::lemma_div_in_range(rat.num as int, rat.den as int);
    }
    mul_div_floor(rat.num, 1, rat.den)
}

} // verus!
