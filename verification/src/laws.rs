//! Laws of the engine that relate several of its stages.

use vstd::prelude::*;

verus! {

use crate::data_structures::{transducer_valid, ConfigPacket, Transducer};
use crate::engine::{amplitude_spec, kernel_admissible, lemma_zero_power_zero_contribution, KernelOutput};
use crate::field::{cell_pressure, grid_admissible, padded_counts, position_at, PressureField};
use crate::geometry::{
    dist_sq,
    lemma_dist_sq_zero_iff_equal,
    lemma_sqrt_floor_val,
    lemma_sqrt_floor_zero,
    sqrt_floor_val,
    Point3,
};
use crate::math::{floor_div, fx_mul, SCALE};
use crate::potential::{abs_sq, diff_quot, potential_at};

/// The far-field falloff of one transducer's contribution: the amplitude
/// never grows as the sample point moves away from the transducer (it
/// follows the inverse of the distance).
pub proof fn lemma_amplitude_antitone_in_distance(t: Transducer, p: Point3, q: Point3)
    requires
        transducer_valid(t),
        p != t.position,
        dist_sq(t.position, p) <= dist_sq(t.position, q),
    ensures
        amplitude_spec(t, p) >= amplitude_spec(t, q),
{
    let np = dist_sq(t.position, p);
    let nq = dist_sq(t.position, q);
    let dp = sqrt_floor_val(np);
    let dq = sqrt_floor_val(nq);
    lemma_dist_sq_zero_iff_equal(t.position, p);
    lemma_dist_sq_zero_iff_equal(t.position, q);
    lemma_sqrt_floor_val(np);
    lemma_sqrt_floor_val(nq);
    lemma_sqrt_floor_zero(np, dp);
    assert(dp <= dq) by (nonlinear_arith)
        requires
            dp >= 0,
            dq >= 0,
            dp * dp <= np,
            nq < (dq + 1) * (dq + 1),
            np <= nq;
    let base = fx_mul(t.output_power as int, t.loss_factor as int);
    assert(0 <= t.output_power as int * t.loss_factor as int) by (nonlinear_arith)
        requires
            t.output_power >= 0,
            t.loss_factor >= 0;
    vstd::arithmetic::div_mod::lemma_div_pos_is_pos(
        t.output_power as int * t.loss_factor as int,
        SCALE as int,
    );
    assert(0 <= base * SCALE as int) by (nonlinear_arith)
        requires
            base >= 0;
    vstd::arithmetic::div_mod::lemma_div_is_ordered_by_denominator(base * SCALE as int, dp, dq);
}

/// The exact fixed-point form of the `1 / d` falloff: the distance times
/// the quantized amplitude brackets the drive product
/// `output_power * loss_factor` (scaled) within one distance quantum.  The
/// real-valued law `amplitude * d == output_power * loss_factor` holds of
/// the formula; quantization leaves exactly this bracket of it.
pub proof fn lemma_amplitude_inverse_distance_bracket(t: Transducer, p: Point3)
    requires
        transducer_valid(t),
        p != t.position,
    ensures
        ({
            let d = crate::engine::distance_spec(t, p);
            let base = fx_mul(t.output_power as int, t.loss_factor as int) * SCALE as int;
            d * amplitude_spec(t, p) <= base < d * (amplitude_spec(t, p) + 1)
        }),
{
    let d = crate::engine::distance_spec(t, p);
    let base = fx_mul(t.output_power as int, t.loss_factor as int) * SCALE as int;
    let q = amplitude_spec(t, p);
    lemma_dist_sq_zero_iff_equal(t.position, p);
    lemma_sqrt_floor_val(dist_sq(t.position, p));
    lemma_sqrt_floor_zero(dist_sq(t.position, p), d);
    vstd::arithmetic::div_mod::lemma_fundamental_div_mod(base, d);
    vstd::arithmetic::div_mod::lemma_mod_bound(base, d);
    assert(d * (q + 1) == d * q + d) by (nonlinear_arith);
}

/// The complex pressure sum over transducers that are all driven at zero
/// output power is zero.
proof fn lemma_cell_pressure_zero(transducers: Seq<Transducer>, p: Point3, outs: Seq<KernelOutput>, t: int)
    requires
        forall |d: int| 0 <= d < t ==> (#[trigger] transducers[d]).output_power == 0
            && p != transducers[d].position,
    ensures
        cell_pressure(transducers, p, outs, t).0 == 0,
        cell_pressure(transducers, p, outs, t).1 == 0,
    decreases t,
{
    if t > 0 {
        lemma_cell_pressure_zero(transducers, p, outs, t - 1);
        lemma_zero_power_zero_contribution(transducers[t - 1], p, outs[t - 1]);
    }
}

/// The potential formula on an identically zero pressure field yields
/// exactly zero.
proof fn lemma_zero_field_zero_potential(f: PressureField, i: int, j: int, k: int, h: int, c1: int, c2: int)
    requires
        1 <= h,
        1 <= i < f.count0 - 1,
        1 <= j < f.count1 - 1,
        1 <= k < f.count2 - 1,
        forall |a: int, b: int, c: int|
            0 <= a < f.count0 && 0 <= b < f.count1 && 0 <= c < f.count2
                ==> (#[trigger] f.at(a, b, c)).re == 0 && f.at(a, b, c).im == 0,
    ensures
        potential_at(f, i, j, k, h, c1, c2) == 0,
{
    vstd::arithmetic::div_mod::lemma_div_of0(SCALE as int);
    vstd::arithmetic::div_mod::lemma_div_of0(2 * h);
    assert(abs_sq(f.at(i, j, k)) == 0);
    assert(diff_quot(0, 0, h) == 0);
    assert(c1 * floor_div(abs_sq(f.at(i, j, k)), SCALE as int) == 0) by (nonlinear_arith)
        requires
            floor_div(abs_sq(f.at(i, j, k)), SCALE as int) == 0;
    assert(c2 * floor_div(floor_div(0, SCALE as int), SCALE as int) == 0) by (nonlinear_arith)
        requires
            floor_div(floor_div(0, SCALE as int), SCALE as int) == 0;
}

/// With every transducer driven at zero output power, the assembled
/// pressure field is zero at every sample — whatever the outside
/// evaluations returned — and the radiation potential vanishes identically
/// over the whole interior.
pub proof fn lemma_zero_power_vanishing_potential(cfg: ConfigPacket, outs: Vec<Vec<Vec<Vec<KernelOutput>>>>, f: PressureField, h: int, c1: int, c2: int)
    requires
        grid_admissible(cfg),
        forall |t: int| 0 <= t < cfg.transducers@.len()
            ==> (#[trigger] cfg.transducers@[t]).output_power == 0,
        f.count0 == padded_counts(cfg.simulation_geometry).0,
        f.count1 == padded_counts(cfg.simulation_geometry).1,
        f.count2 == padded_counts(cfg.simulation_geometry).2,
        forall |i: int, j: int, k: int|
            0 <= i < f.count0 && 0 <= j < f.count1 && 0 <= k < f.count2
                ==> {
                    let sum = cell_pressure(
                        cfg.transducers@,
                        position_at(cfg.simulation_geometry, i, j, k),
                        outs@[i]@[j]@[k]@,
                        cfg.transducers@.len() as int,
                    );
                    (#[trigger] f.at(i, j, k)).re == sum.0 && f.at(i, j, k).im == sum.1
                },
        1 <= h,
    ensures
        forall |i: int, j: int, k: int|
            0 <= i < f.count0 && 0 <= j < f.count1 && 0 <= k < f.count2
                ==> (#[trigger] f.at(i, j, k)).re == 0 && f.at(i, j, k).im == 0,
        forall |i: int, j: int, k: int|
            1 <= i < f.count0 - 1 && 1 <= j < f.count1 - 1 && 1 <= k < f.count2 - 1
                ==> #[trigger] potential_at(f, i, j, k, h, c1, c2) == 0,
{
    assert forall |i: int, j: int, k: int|
        0 <= i < f.count0 && 0 <= j < f.count1 && 0 <= k < f.count2 implies
        (#[trigger] f.at(i, j, k)).re == 0 && f.at(i, j, k).im == 0 by {
        let p = position_at(cfg.simulation_geometry, i, j, k);
        assert forall |d: int| 0 <= d < cfg.transducers@.len() implies
            (#[trigger] cfg.transducers@[d]).output_power == 0
                && p != cfg.transducers@[d].position by {
            assert(kernel_admissible(cfg.transducers@[d], p));
        }
        lemma_cell_pressure_zero(
            cfg.transducers@,
            p,
            outs@[i]@[j]@[k]@,
            cfg.transducers@.len() as int,
        );
    }
    assert forall |i: int, j: int, k: int|
        1 <= i < f.count0 - 1 && 1 <= j < f.count1 - 1 && 1 <= k < f.count2 - 1 implies
        #[trigger] potential_at(f, i, j, k, h, c1, c2) == 0 by {
        lemma_zero_field_zero_potential(f, i, j, k, h, c1, c2);
    }
}

} // verus!
