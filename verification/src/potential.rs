//! The radiation-potential stage: central finite differences of the
//! complex pressure along each axis, combined with the squared pressure
//! magnitude into a scalar potential over the non-padded interior.
//!
//! At an interior cell the potential is
//!
//! `2 * C1 * |p|^2 - 2 * C2 * (|dp/dx|^2 + |dp/dy|^2 + |dp/dz|^2)`
//!
//! with each derivative approximated by `(above - below) / (2 * step)`
//! along its axis.  This stage needs the uniform-cell-size discretization,
//! whose step is the same in every axis.  The one-sample padding of the
//! pressure field supplies the neighbours of every interior cell, so no
//! border branching is needed; the border of the potential field itself is
//! left at zero.

use vstd::prelude::*;

verus! {

use crate::engine::Complex;
use crate::field::{PressureField, PRESSURE_CAP};
use crate::math::{
    div_floor_i128,
    div_trunc_i128,
    floor_div,
    lemma_div_in_range,
    lemma_mul_bounds,
    lemma_trunc_div_antisymmetric,
    lemma_trunc_div_magnitude,
    trunc_div,
    SCALE,
};

/// Largest magnitude of a computed potential value.
pub const POTENTIAL_CAP: i128 = 100_000_000_000_000_000_000_000_000_000_000_000_000;

/// Squared magnitude of a complex pressure sample (in squared fixed-point
/// units).
pub open spec fn abs_sq(c: Complex) -> int {
    c.re * c.re + c.im * c.im
}

/// Central difference quotient: the change across two cells two steps
/// apart, divided by twice the step, fixed-point.  The quotient truncates
/// toward zero, so that swapping the two samples negates it exactly, as the
/// real-valued formula does.
pub open spec fn diff_quot(below: int, above: int, h: int) -> int {
    trunc_div((above - below) * SCALE as int, 2 * h)
}

/// Swapping the two samples of a central difference negates the quotient
/// exactly; in particular equal samples give a zero quotient.
pub proof fn lemma_diff_quot_antisymmetric(below: int, above: int, h: int)
    requires
        h >= 1,
    ensures
        diff_quot(below, above, h) == -diff_quot(above, below, h),
        below == above ==> diff_quot(below, above, h) == 0,
{
    lemma_trunc_div_antisymmetric((above - below) * SCALE as int, 2 * h);
    assert((below - above) * SCALE as int == -((above - below) * SCALE as int)) by (nonlinear_arith);
}

/// Squared magnitude of the central-difference derivative of the field
/// along the first (x) axis at an interior cell.
pub open spec fn deriv_sq_x(f: PressureField, i: int, j: int, k: int, h: int) -> int {
    let dre = diff_quot(f.at(i - 1, j, k).re as int, f.at(i + 1, j, k).re as int, h);
    let dim = diff_quot(f.at(i - 1, j, k).im as int, f.at(i + 1, j, k).im as int, h);
    dre * dre + dim * dim
}

/// Squared magnitude of the derivative along the second (y) axis.
pub open spec fn deriv_sq_y(f: PressureField, i: int, j: int, k: int, h: int) -> int {
    let dre = diff_quot(f.at(i, j - 1, k).re as int, f.at(i, j + 1, k).re as int, h);
    let dim = diff_quot(f.at(i, j - 1, k).im as int, f.at(i, j + 1, k).im as int, h);
    dre * dre + dim * dim
}

/// Squared magnitude of the derivative along the third (z) axis.
pub open spec fn deriv_sq_z(f: PressureField, i: int, j: int, k: int, h: int) -> int {
    let dre = diff_quot(f.at(i, j, k - 1).re as int, f.at(i, j, k + 1).re as int, h);
    let dim = diff_quot(f.at(i, j, k - 1).im as int, f.at(i, j, k + 1).im as int, h);
    dre * dre + dim * dim
}

/// The radiation potential at an interior cell: the monopole term
/// `2 * C1 * |p|^2` less the dipole term `2 * C2 * (sum of the squared
/// derivative magnitudes)`, with the fixed-point rescaling steps written
/// out (squared quantities carry two scale factors and are brought back to
/// one before the constants multiply in).
pub open spec fn potential_at(f: PressureField, i: int, j: int, k: int, h: int, c1: int, c2: int) -> int {
    let w1 = floor_div(abs_sq(f.at(i, j, k)), SCALE as int);
    let term1 = 2 * floor_div(c1 * w1, SCALE as int);
    let dsum = deriv_sq_x(f, i, j, k, h) + deriv_sq_y(f, i, j, k, h) + deriv_sq_z(f, i, j, k, h);
    let w2 = floor_div(floor_div(dsum, SCALE as int), SCALE as int);
    term1 - 2 * (c2 * w2)
}

/// The potential value stored at any padded cell: the interior formula
/// inside, zero on the one-cell border.
pub open spec fn potential_cell(f: PressureField, i: int, j: int, k: int, h: int, c1: int, c2: int) -> int {
    if 1 <= i < f.count0 - 1 && 1 <= j < f.count1 - 1 && 1 <= k < f.count2 - 1 {
        potential_at(f, i, j, k, h, c1, c2)
    } else {
        0
    }
}

/// A dense scalar radiation-potential field over the same padded grid as
/// the pressure field it was derived from.
pub struct PotentialField {
    /// Padded sample values, physical axis order; only the interior is
    /// populated.
    pub data: Vec<Vec<Vec<i128>>>,
    /// Padded sample count along the physical x axis.
    pub count0: usize,
    /// Padded sample count along the physical y axis.
    pub count1: usize,
    /// Padded sample count along the physical z axis.
    pub count2: usize,
}

impl PotentialField {
    /// The storage has exactly the declared shape and every value is
    /// within the computed range.
    pub open spec fn wf(self) -> bool {
        &&& self.data@.len() == self.count0
        &&& forall |i: int| 0 <= i < self.count0 ==> (#[trigger] self.data@[i])@.len() == self.count1
        &&& forall |i: int, j: int| 0 <= i < self.count0 && 0 <= j < self.count1
            ==> (#[trigger] self.data@[i]@[j])@.len() == self.count2
        &&& forall |i: int, j: int, k: int|
            0 <= i < self.count0 && 0 <= j < self.count1 && 0 <= k < self.count2
                ==> -POTENTIAL_CAP <= #[trigger] self.data@[i]@[j]@[k] <= POTENTIAL_CAP
    }

    /// The sample at padded physical indices `(i, j, k)`.
    pub open spec fn at(self, i: int, j: int, k: int) -> int {
        self.data@[i]@[j]@[k] as int
    }

    /// Reads the sample at padded physical indices `(i, j, k)`.
    pub fn get(&self, i: usize, j: usize, k: usize) -> (r: i128)
        requires
            self.wf(),
            i < self.count0,
            j < self.count1,
            k < self.count2,
        ensures
            r == self.at(i as int, j as int, k as int),
    {
        self.data[i][j][k]
    }
}

/// One central difference quotient, exactly.
pub fn compute_diff_quot(below: i64, above: i64, h: i64) -> (r: i128)
    requires
        1 <= h,
        -PRESSURE_CAP <= below <= PRESSURE_CAP,
        -PRESSURE_CAP <= above <= PRESSURE_CAP,
    ensures
        r == diff_quot(below as int, above as int, h as int),
        -2_000_000_000_000_000_000 <= r <= 2_000_000_000_000_000_000,
{
    proof {
        lemma_mul_bounds(
            above as int - below as int,
            SCALE as int,
            4_000_000_000_000,
            SCALE as int,
        );
        assert(2_000_000_000_000_000_000int * (2 * h as int) >= 4_000_000_000_000_000_000)
            by (nonlinear_arith)
            requires
                h >= 1;
    }
    let num: i128 = ((above as i128) - (below as i128)) * (SCALE as i128);
    proof {
        lemma_trunc_div_magnitude(num as int, 2 * h as int, 2_000_000_000_000_000_000);
    }
    div_trunc_i128(num, 2 * (h as i128))
}

/// Derives the radiation-potential field from a pressure field: the
/// potential formula at every interior cell, zero on the padding border.
#[verifier::loop_isolation(false)]
pub fn compute_potential_field(f: &PressureField, h: i64, c1: i64, c2: i64) -> (r: PotentialField)
    requires
        f.wf(),
        1 <= h,
        -1_000_000_000_000 <= c1 <= 1_000_000_000_000,
        -1_000_000_000_000 <= c2 <= 1_000_000_000_000,
    ensures
        r.wf(),
        r.count0 == f.count0,
        r.count1 == f.count1,
        r.count2 == f.count2,
        forall |i: int, j: int, k: int|
            0 <= i < f.count0 && 0 <= j < f.count1 && 0 <= k < f.count2
                ==> #[trigger] r.at(i, j, k) == potential_cell(*f, i, j, k, h as int, c1 as int, c2 as int),
{
    let n0 = f.count0;
    let n1 = f.count1;
    let n2 = f.count2;
    let mut data: Vec<Vec<Vec<i128>>> = Vec::new();
    let mut i: usize = 0;
    while i < n0
        invariant
            i <= n0,
            data@.len() == i,
            forall |a: int| 0 <= a < i ==> (#[trigger] data@[a])@.len() == n1,
            forall |a: int, b: int| 0 <= a < i && 0 <= b < n1
                ==> (#[trigger] data@[a]@[b])@.len() == n2,
            forall |a: int, b: int, c: int| 0 <= a < i && 0 <= b < n1 && 0 <= c < n2
                ==> (#[trigger] data@[a]@[b]@[c]) as int
                    == potential_cell(*f, a, b, c, h as int, c1 as int, c2 as int)
                    && -POTENTIAL_CAP <= data@[a]@[b]@[c] <= POTENTIAL_CAP,
        decreases n0 - i,
    {
        let mut sheet: Vec<Vec<i128>> = Vec::new();
        let mut j: usize = 0;
        while j < n1
            invariant
                j <= n1,
                sheet@.len() == j,
                forall |b: int| 0 <= b < j ==> (#[trigger] sheet@[b])@.len() == n2,
                forall |b: int, c: int| 0 <= b < j && 0 <= c < n2
                    ==> (#[trigger] sheet@[b]@[c]) as int
                        == potential_cell(*f, i as int, b, c, h as int, c1 as int, c2 as int)
                        && -POTENTIAL_CAP <= sheet@[b]@[c] <= POTENTIAL_CAP,
            decreases n1 - j,
        {
            let mut row: Vec<i128> = Vec::new();
            let mut k: usize = 0;
            while k < n2
                invariant
                    k <= n2,
                    row@.len() == k,
                    forall |c: int| 0 <= c < k
                        ==> (#[trigger] row@[c]) as int
                            == potential_cell(*f, i as int, j as int, c, h as int, c1 as int, c2 as int)
                            && -POTENTIAL_CAP <= row@[c] <= POTENTIAL_CAP,
                decreases n2 - k,
            {
                let v: i128 = if 1 <= i && i + 1 < n0 && 1 <= j && j + 1 < n1 && 1 <= k && k + 1 < n2 {
                    compute_potential_at(f, h, c1, c2, i, j, k)
                } else {
                    0
                };
                row.push(v);
                k = k + 1;
            }
            sheet.push(row);
            proof {
                assert forall |b: int, c: int| 0 <= b < j + 1 && 0 <= c < n2 implies
                    (#[trigger] sheet@[b]@[c]) as int
                        == potential_cell(*f, i as int, b, c, h as int, c1 as int, c2 as int)
                        && -POTENTIAL_CAP <= sheet@[b]@[c] <= POTENTIAL_CAP by {
                    if b == j as int {
                        assert(sheet@[b]@[c] == row@[c]);
                    }
                }
            }
            j = j + 1;
        }
        data.push(sheet);
        proof {
            assert forall |a: int, b: int, c: int|
                0 <= a < i + 1 && 0 <= b < n1 && 0 <= c < n2 implies
                (#[trigger] data@[a]@[b]@[c]) as int
                    == potential_cell(*f, a, b, c, h as int, c1 as int, c2 as int)
                    && -POTENTIAL_CAP <= data@[a]@[b]@[c] <= POTENTIAL_CAP by {
                if a == i as int {
                    assert(data@[a]@[b]@[c] == sheet@[b]@[c]);
                }
            }
        }
        i = i + 1;
    }
    PotentialField { data, count0: n0, count1: n1, count2: n2 }
}

/// The potential formula at one interior cell.
fn compute_potential_at(f: &PressureField, h: i64, c1: i64, c2: i64, i: usize, j: usize, k: usize) -> (r: i128)
    requires
        f.wf(),
        1 <= h,
        -1_000_000_000_000 <= c1 <= 1_000_000_000_000,
        -1_000_000_000_000 <= c2 <= 1_000_000_000_000,
        1 <= i && i + 1 < f.count0,
        1 <= j && j + 1 < f.count1,
        1 <= k && k + 1 < f.count2,
    ensures
        r == potential_at(*f, i as int, j as int, k as int, h as int, c1 as int, c2 as int),
        -POTENTIAL_CAP <= r <= POTENTIAL_CAP,
{
    let center = f.get(i, j, k);
    proof {
        lemma_mul_bounds(center.re as int, center.re as int, PRESSURE_CAP as int, PRESSURE_CAP as int);
        lemma_mul_bounds(center.im as int, center.im as int, PRESSURE_CAP as int, PRESSURE_CAP as int);
    }
    let pa: i128 = (center.re as i128) * (center.re as i128)
        + (center.im as i128) * (center.im as i128);
    proof {
        lemma_div_in_range(pa as int, SCALE as int);
    }
    let w1: i128 = div_floor_i128(pa, SCALE as i128);
    proof {
        lemma_mul_bounds(c1 as int, w1 as int, 1_000_000_000_000, 8_000_000_000_000_000_000_000_000);
        lemma_div_in_range(c1 as int * w1 as int, SCALE as int);
    }
    let term1: i128 = 2 * div_floor_i128((c1 as i128) * w1, SCALE as i128);

    let xb = f.get(i - 1, j, k);
    let xa = f.get(i + 1, j, k);
    let yb = f.get(i, j - 1, k);
    let ya = f.get(i, j + 1, k);
    let zb = f.get(i, j, k - 1);
    let za = f.get(i, j, k + 1);
    let dxr = compute_diff_quot(xb.re, xa.re, h);
    let dxi = compute_diff_quot(xb.im, xa.im, h);
    let dyr = compute_diff_quot(yb.re, ya.re, h);
    let dyi = compute_diff_quot(yb.im, ya.im, h);
    let dzr = compute_diff_quot(zb.re, za.re, h);
    let dzi = compute_diff_quot(zb.im, za.im, h);
    proof {
        lemma_mul_bounds(dxr as int, dxr as int, 2_000_000_000_000_000_000, 2_000_000_000_000_000_000);
        lemma_mul_bounds(dxi as int, dxi as int, 2_000_000_000_000_000_000, 2_000_000_000_000_000_000);
        lemma_mul_bounds(dyr as int, dyr as int, 2_000_000_000_000_000_000, 2_000_000_000_000_000_000);
        lemma_mul_bounds(dyi as int, dyi as int, 2_000_000_000_000_000_000, 2_000_000_000_000_000_000);
        lemma_mul_bounds(dzr as int, dzr as int, 2_000_000_000_000_000_000, 2_000_000_000_000_000_000);
        lemma_mul_bounds(dzi as int, dzi as int, 2_000_000_000_000_000_000, 2_000_000_000_000_000_000);
    }
    let dsum: i128 = dxr * dxr + dxi * dxi + dyr * dyr + dyi * dyi + dzr * dzr + dzi * dzi;
    proof {
        crate::math::lemma_div_magnitude(dsum as int, SCALE as int, 24_000_000_000_000_000_000_000_000_000_000);
        crate::math::lemma_div_magnitude(
            floor_div(dsum as int, SCALE as int),
            SCALE as int,
            24_000_000_000_000_000_000_000_000,
        );
    }
    let w2: i128 = div_floor_i128(div_floor_i128(dsum, SCALE as i128), SCALE as i128);
    proof {
        lemma_mul_bounds(
            c2 as int,
            w2 as int,
            1_000_000_000_000,
            24_000_000_000_000_000_000_000_000,
        );
    }
    let term2: i128 = 2 * ((c2 as i128) * w2);
    term1 - term2
}

} // verus!
