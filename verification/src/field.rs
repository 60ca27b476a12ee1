//! The field builder: superposition of every transducer's contribution at
//! every sample of the padded grid.
//!
//! The grid carries one extra sample on each side of every axis, so that
//! the potential stage can difference across the whole nominal range
//! without branching at its borders.  Axis indices `1..=count` map onto
//! `[begin, end]`; indices `0` and `count + 1` are the padding samples one
//! step outside.
//!
//! The build happens in two passes around the outside evaluations: the
//! engine first derives a kernel input for every (cell, transducer) pair,
//! the caller evaluates the three transcendentals for each, and the engine
//! then assembles the dense complex pressure field from the inputs and
//! those evaluations, summing in transducer order.

use vstd::prelude::*;

verus! {

use crate::data_structures::{
    axis_cells_of,
    cell_counts,
    config_valid,
    geometry_valid,
    ConfigPacket,
    Discretization,
    SimulationGeometry,
    Transducer,
    MAX_AXIS_CELLS,
};
use crate::engine::{
    compute_contribution,
    compute_kernel_input,
    contrib_im_spec,
    contrib_re_spec,
    kernel_admissible,
    kernel_input_spec,
    Complex,
    KernelInput,
    KernelOutput,
    AMP_CAP,
};
use crate::geometry::Point3;
use crate::math::{floor_div, lemma_div_in_range, lemma_div_magnitude, lemma_mul_bounds};
use crate::sampling::{sample_args_ok, sample_coordinate, sample_den, sample_num, COORD_LIMIT};

/// Largest magnitude of one component of an assembled pressure value.
pub const PRESSURE_CAP: i64 = 2_000_000_000_000;

/// A failure of the field computation, described for the caller.
#[derive(Debug)]
pub struct ComputationError {
    pub details: String,
}

impl ComputationError {
    /// Wraps a description.
    pub fn new(message: &str) -> (r: ComputationError)
        ensures
            r.details@ == message@,
    {
        broadcast use vstd::string::to_string_from_display_ensures_for_str;

        ComputationError { details: message.to_string() }
    }

    /// The description of the failure.
    pub fn message(&self) -> (r: &str)
        ensures
            r@ == self.details@,
    {
        self.details.as_str()
    }
}

/// Padded sample counts: every axis gets its cell count plus one padding
/// sample on each side.
pub open spec fn padded_counts(g: SimulationGeometry) -> (int, int, int) {
    let c = cell_counts(g);
    (c.0 + 2, c.1 + 2, c.2 + 2)
}

/// Physical coordinates of the grid sample with physical indices
/// `(i, j, k)`: per axis, index `1` maps to `begin`, index `count` to
/// `end`, linearly in between and one step beyond at the padding.
pub open spec fn position_at(g: SimulationGeometry, i: int, j: int, k: int) -> Point3 {
    let c = cell_counts(g);
    Point3 {
        x: floor_div(sample_num(i, 1, c.0, g.begin.x as int, g.end.x as int), sample_den(1, c.0)) as i64,
        y: floor_div(sample_num(j, 1, c.1, g.begin.y as int, g.end.y as int), sample_den(1, c.1)) as i64,
        z: floor_div(sample_num(k, 1, c.2, g.begin.z as int, g.end.z as int), sample_den(1, c.2)) as i64,
    }
}

/// A sampled coordinate stays within five times the configuration
/// coordinate limit: padding extrapolates at most one step, and one step is
/// at most the whole box.
pub proof fn lemma_sampled_coord_in_bounds(i: int, n: int, vb: int, ve: int)
    requires
        1 <= n <= MAX_AXIS_CELLS as int,
        0 <= i <= n + 1,
        -(COORD_LIMIT as int) <= vb <= COORD_LIMIT as int,
        -(COORD_LIMIT as int) <= ve <= COORD_LIMIT as int,
    ensures
        sample_args_ok(i, 1, n, vb, ve),
        -5_000_000_000 <= floor_div(sample_num(i, 1, n, vb, ve), sample_den(1, n)) <= 5_000_000_000,
{
    let cl = COORD_LIMIT as int;
    if n == 1 {
        lemma_div_in_range(vb + ve, 2);
    } else {
        let den = n - 1;
        let num = sample_num(i, 1, n, vb, ve);
        lemma_mul_bounds(vb, den, cl, den);
        lemma_mul_bounds(i - 1, ve - vb, 2 * den, 2 * cl);
        assert((2 * den) * (2 * cl) == (4 * cl) * den) by (nonlinear_arith);
        assert(cl * den + (4 * cl) * den == (5 * cl) * den) by (nonlinear_arith);
        lemma_div_magnitude(num, den, 5 * cl);
    }
}

/// Computes the grid sample position with physical indices `(i, j, k)`.
pub fn compute_position_at(g: &SimulationGeometry, counts: (i64, i64, i64), i: i64, j: i64, k: i64) -> (r: Point3)
    requires
        geometry_valid(*g),
        counts.0 as int == cell_counts(*g).0,
        counts.1 as int == cell_counts(*g).1,
        counts.2 as int == cell_counts(*g).2,
        0 <= i <= counts.0 + 1,
        0 <= j <= counts.1 + 1,
        0 <= k <= counts.2 + 1,
        1 <= counts.0,
        1 <= counts.1,
        1 <= counts.2,
    ensures
        r == position_at(*g, i as int, j as int, k as int),
        r.in_bounds(),
        -5_000_000_000 <= r.x <= 5_000_000_000,
        -5_000_000_000 <= r.y <= 5_000_000_000,
        -5_000_000_000 <= r.z <= 5_000_000_000,
{
    proof {
        lemma_sampled_coord_in_bounds(i as int, counts.0 as int, g.begin.x as int, g.end.x as int);
        lemma_sampled_coord_in_bounds(j as int, counts.1 as int, g.begin.y as int, g.end.y as int);
        lemma_sampled_coord_in_bounds(k as int, counts.2 as int, g.begin.z as int, g.end.z as int);
    }
    let x = sample_coordinate(i, 1, counts.0, g.begin.x, g.end.x);
    let y = sample_coordinate(j, 1, counts.1, g.begin.y, g.end.y);
    let z = sample_coordinate(k, 1, counts.2, g.begin.z, g.end.z);
    Point3 { x, y, z }
}

/// The three per-physical-axis cell counts, as machine integers.
pub fn cell_counts_exec(g: &SimulationGeometry) -> (r: (i64, i64, i64))
    requires
        geometry_valid(*g),
    ensures
        r.0 as int == cell_counts(*g).0,
        r.1 as int == cell_counts(*g).1,
        r.2 as int == cell_counts(*g).2,
        1 <= r.0 <= MAX_AXIS_CELLS,
        1 <= r.1 <= MAX_AXIS_CELLS,
        1 <= r.2 <= MAX_AXIS_CELLS,
{
    match g.discretization {
        Discretization::Divisions(d0, d1, d2) => (d0, d1, d2),
        Discretization::CellSize(h) => {
            let c0 = axis_cells_of(g.begin.x, g.end.x, h);
            let c1 = axis_cells_of(g.begin.y, g.end.y, h);
            let c2 = axis_cells_of(g.begin.z, g.end.z, h);
            proof {
                lemma_div_in_range(
                    crate::data_structures::axis_span(g.begin.x as int, g.end.x as int),
                    h as int,
                );
                lemma_div_in_range(
                    crate::data_structures::axis_span(g.begin.y as int, g.end.y as int),
                    h as int,
                );
                lemma_div_in_range(
                    crate::data_structures::axis_span(g.begin.z as int, g.end.z as int),
                    h as int,
                );
            }
            (c0, c1, c2)
        },
    }
}

/// The nested grid of kernel inputs has the padded shape of the geometry,
/// one entry per transducer in every cell.
pub open spec fn inputs_shaped(v: Vec<Vec<Vec<Vec<KernelInput>>>>, n0: int, n1: int, n2: int, nt: int) -> bool {
    &&& v@.len() == n0
    &&& forall |i: int| 0 <= i < n0 ==> (#[trigger] v@[i])@.len() == n1
    &&& forall |i: int, j: int| 0 <= i < n0 && 0 <= j < n1 ==> (#[trigger] v@[i]@[j])@.len() == n2
    &&& forall |i: int, j: int, k: int| 0 <= i < n0 && 0 <= j < n1 && 0 <= k < n2
        ==> (#[trigger] v@[i]@[j]@[k])@.len() == nt
}

/// Every kernel input in the grid is the one the engine derives for its
/// cell's position and its transducer, and is well formed.
pub open spec fn inputs_pointwise(v: Vec<Vec<Vec<Vec<KernelInput>>>>, c: ConfigPacket, n0: int, n1: int, n2: int, nt: int) -> bool {
    forall |i: int, j: int, k: int, t: int|
        0 <= i < n0 && 0 <= j < n1 && 0 <= k < n2 && 0 <= t < nt
            ==> {
                &&& (#[trigger] v@[i]@[j]@[k]@[t])
                    == kernel_input_spec(c.transducers@[t], position_at(c.simulation_geometry, i, j, k))
                &&& v@[i]@[j]@[k]@[t].wf()
            }
}

/// Every (cell, transducer) pair of the padded grid is admissible: no
/// sample point coincides with, or sits overflowing-close to, a
/// transducer.
pub open spec fn grid_admissible(c: ConfigPacket) -> bool {
    let n = padded_counts(c.simulation_geometry);
    forall |i: int, j: int, k: int, t: int|
        0 <= i < n.0 && 0 <= j < n.1 && 0 <= k < n.2 && 0 <= t < c.transducers@.len()
            ==> #[trigger] kernel_admissible(
                c.transducers@[t],
                position_at(c.simulation_geometry, i, j, k),
            )
}

/// Derives the kernel input of every (cell, transducer) pair of the padded
/// grid, in cell-major, transducer-minor order; fails exactly when some
/// sample point coincides with, or sits overflowing-close to, a
/// transducer.
#[verifier::loop_isolation(false)]
pub fn compute_kernel_inputs(cfg: &ConfigPacket) -> (r: Result<Vec<Vec<Vec<Vec<KernelInput>>>>, ComputationError>)
    requires
        config_valid(*cfg),
    ensures
        r is Ok <==> grid_admissible(*cfg),
        r is Ok ==> {
            let n = padded_counts(cfg.simulation_geometry);
            &&& inputs_shaped(r->Ok_0, n.0, n.1, n.2, cfg.transducers@.len() as int)
            &&& inputs_pointwise(r->Ok_0, *cfg, n.0, n.1, n.2, cfg.transducers@.len() as int)
        },
{
    let g = &cfg.simulation_geometry;
    let counts = cell_counts_exec(g);
    let n0: usize = (counts.0 + 2) as usize;
    let n1: usize = (counts.1 + 2) as usize;
    let n2: usize = (counts.2 + 2) as usize;
    let nt: usize = cfg.transducers.len();
    let mut grid: Vec<Vec<Vec<Vec<KernelInput>>>> = Vec::new();
    let mut i: usize = 0;
    while i < n0
        invariant
            i <= n0,
            grid@.len() == i,
            forall |a: int| 0 <= a < i ==> (#[trigger] grid@[a])@.len() == n1,
            forall |a: int, b: int| 0 <= a < i && 0 <= b < n1 ==> (#[trigger] grid@[a]@[b])@.len() == n2,
            forall |a: int, b: int, c: int| 0 <= a < i && 0 <= b < n1 && 0 <= c < n2
                ==> (#[trigger] grid@[a]@[b]@[c])@.len() == nt,
            forall |a: int, b: int, c: int, d: int|
                0 <= a < i && 0 <= b < n1 && 0 <= c < n2 && 0 <= d < nt
                    ==> (#[trigger] grid@[a]@[b]@[c]@[d])
                        == kernel_input_spec(cfg.transducers@[d], position_at(*g, a, b, c))
                        && grid@[a]@[b]@[c]@[d].wf()
                        && kernel_admissible(cfg.transducers@[d], position_at(*g, a, b, c)),
        decreases n0 - i,
    {
        let mut sheet: Vec<Vec<Vec<KernelInput>>> = Vec::new();
        let mut j: usize = 0;
        while j < n1
            invariant
                j <= n1,
                sheet@.len() == j,
                forall |b: int| 0 <= b < j ==> (#[trigger] sheet@[b])@.len() == n2,
                forall |b: int, c: int| 0 <= b < j && 0 <= c < n2
                    ==> (#[trigger] sheet@[b]@[c])@.len() == nt,
                forall |b: int, c: int, d: int| 0 <= b < j && 0 <= c < n2 && 0 <= d < nt
                    ==> (#[trigger] sheet@[b]@[c]@[d])
                        == kernel_input_spec(cfg.transducers@[d], position_at(*g, i as int, b, c))
                        && sheet@[b]@[c]@[d].wf()
                        && kernel_admissible(cfg.transducers@[d], position_at(*g, i as int, b, c)),
            decreases n1 - j,
        {
            let mut row: Vec<Vec<KernelInput>> = Vec::new();
            let mut k: usize = 0;
            while k < n2
                invariant
                    k <= n2,
                    row@.len() == k,
                    forall |c: int| 0 <= c < k ==> (#[trigger] row@[c])@.len() == nt,
                    forall |c: int, d: int| 0 <= c < k && 0 <= d < nt
                        ==> (#[trigger] row@[c]@[d])
                            == kernel_input_spec(cfg.transducers@[d], position_at(*g, i as int, j as int, c))
                            && row@[c]@[d].wf()
                            && kernel_admissible(cfg.transducers@[d], position_at(*g, i as int, j as int, c)),
                decreases n2 - k,
            {
                let pos = compute_position_at(g, counts, i as i64, j as i64, k as i64);
                let mut cell: Vec<KernelInput> = Vec::new();
                let mut t: usize = 0;
                while t < nt
                    invariant
                        t <= nt,
                        cell@.len() == t,
                        forall |d: int| 0 <= d < t
                            ==> (#[trigger] cell@[d]) == kernel_input_spec(cfg.transducers@[d], pos)
                                && cell@[d].wf()
                                && kernel_admissible(cfg.transducers@[d], pos),
                    decreases nt - t,
                {
                    match compute_kernel_input(&cfg.transducers[t], &pos) {
                        Some(ki) => {
                            cell.push(ki);
                        },
                        None => {
                            proof {
                                assert(!kernel_admissible(
                                    cfg.transducers@[t as int],
                                    position_at(*g, i as int, j as int, k as int),
                                ));
                                assert(!grid_admissible(*cfg));
                            }
                            return Err(ComputationError::new(
                                "a sample point coincides with or sits too close to a transducer",
                            ));
                        },
                    }
                    t = t + 1;
                }
                row.push(cell);
                proof {
                    assert forall |c: int, d: int| 0 <= c < k + 1 && 0 <= d < nt implies
                        (#[trigger] row@[c]@[d]) == kernel_input_spec(
                            cfg.transducers@[d],
                            position_at(*g, i as int, j as int, c),
                        ) && row@[c]@[d].wf() && kernel_admissible(
                            cfg.transducers@[d],
                            position_at(*g, i as int, j as int, c),
                        ) by {
                        if c == k as int {
                            assert(row@[c]@[d] == cell@[d]);
                        }
                    }
                }
                k = k + 1;
            }
            sheet.push(row);
            proof {
                assert forall |b: int, c: int, d: int|
                    0 <= b < j + 1 && 0 <= c < n2 && 0 <= d < nt implies
                    (#[trigger] sheet@[b]@[c]@[d]) == kernel_input_spec(
                        cfg.transducers@[d],
                        position_at(*g, i as int, b, c),
                    ) && sheet@[b]@[c]@[d].wf() && kernel_admissible(
                        cfg.transducers@[d],
                        position_at(*g, i as int, b, c),
                    ) by {
                    if b == j as int {
                        assert(sheet@[b]@[c]@[d] == row@[c]@[d]);
                    }
                }
            }
            j = j + 1;
        }
        grid.push(sheet);
        proof {
            assert forall |a: int, b: int, c: int, d: int|
                0 <= a < i + 1 && 0 <= b < n1 && 0 <= c < n2 && 0 <= d < nt implies
                (#[trigger] grid@[a]@[b]@[c]@[d]) == kernel_input_spec(
                    cfg.transducers@[d],
                    position_at(*g, a, b, c),
                ) && grid@[a]@[b]@[c]@[d].wf() && kernel_admissible(
                    cfg.transducers@[d],
                    position_at(*g, a, b, c),
                ) by {
                if a == i as int {
                    assert(grid@[a]@[b]@[c]@[d] == sheet@[b]@[c]@[d]);
                }
            }
        }
        i = i + 1;
    }
    proof {
        let n = padded_counts(cfg.simulation_geometry);
        assert forall |a: int, b: int, c: int, d: int|
            0 <= a < n.0 && 0 <= b < n.1 && 0 <= c < n.2 && 0 <= d < cfg.transducers@.len()
                implies #[trigger] kernel_admissible(
                cfg.transducers@[d],
                position_at(cfg.simulation_geometry, a, b, c),
            ) by {
            assert(grid@[a]@[b]@[c]@[d] == kernel_input_spec(
                cfg.transducers@[d],
                position_at(*g, a, b, c),
            ));
        }
    }
    Ok(grid)
}

/// A dense complex pressure field over the padded grid, indexed in the
/// physical axis order.
pub struct PressureField {
    /// Padded sample values, physical axis order.
    pub data: Vec<Vec<Vec<Complex>>>,
    /// Padded sample count along the physical x axis.
    pub count0: usize,
    /// Padded sample count along the physical y axis.
    pub count1: usize,
    /// Padded sample count along the physical z axis.
    pub count2: usize,
}

impl PressureField {
    /// The storage has exactly the declared shape and every value is
    /// within the assembled range.
    pub open spec fn wf(self) -> bool {
        &&& self.data@.len() == self.count0
        &&& forall |i: int| 0 <= i < self.count0 ==> (#[trigger] self.data@[i])@.len() == self.count1
        &&& forall |i: int, j: int| 0 <= i < self.count0 && 0 <= j < self.count1
            ==> (#[trigger] self.data@[i]@[j])@.len() == self.count2
        &&& forall |i: int, j: int, k: int|
            0 <= i < self.count0 && 0 <= j < self.count1 && 0 <= k < self.count2
                ==> -PRESSURE_CAP <= (#[trigger] self.data@[i]@[j]@[k]).re <= PRESSURE_CAP
                    && -PRESSURE_CAP <= self.data@[i]@[j]@[k].im <= PRESSURE_CAP
    }

    /// The sample at padded physical indices `(i, j, k)`.
    pub open spec fn at(self, i: int, j: int, k: int) -> Complex {
        self.data@[i]@[j]@[k]
    }

    /// Reads the sample at padded physical indices `(i, j, k)`.
    pub fn get(&self, i: usize, j: usize, k: usize) -> (r: Complex)
        requires
            self.wf(),
            i < self.count0,
            j < self.count1,
            k < self.count2,
        ensures
            r == self.at(i as int, j as int, k as int),
    {
        self.data[i][j][k]
    }
}

/// The complex pressure at one cell: the sum, in configuration order, of
/// the contributions of the first `t` transducers.
pub open spec fn cell_pressure(transducers: Seq<Transducer>, p: Point3, outs: Seq<KernelOutput>, t: int) -> (int, int)
    decreases t,
{
    if t <= 0 {
        (0, 0)
    } else {
        let prev = cell_pressure(transducers, p, outs, t - 1);
        (
            prev.0 + contrib_re_spec(kernel_input_spec(transducers[t - 1], p), outs[t - 1]),
            prev.1 + contrib_im_spec(kernel_input_spec(transducers[t - 1], p), outs[t - 1]),
        )
    }
}

/// The nested grid of outside evaluations has the padded shape of the
/// geometry, one entry per transducer in every cell, every entry in range.
pub open spec fn outputs_shaped(v: Vec<Vec<Vec<Vec<KernelOutput>>>>, n0: int, n1: int, n2: int, nt: int) -> bool {
    &&& v@.len() == n0
    &&& forall |i: int| 0 <= i < n0 ==> (#[trigger] v@[i])@.len() == n1
    &&& forall |i: int, j: int| 0 <= i < n0 && 0 <= j < n1 ==> (#[trigger] v@[i]@[j])@.len() == n2
    &&& forall |i: int, j: int, k: int| 0 <= i < n0 && 0 <= j < n1 && 0 <= k < n2
        ==> (#[trigger] v@[i]@[j]@[k])@.len() == nt
    &&& forall |i: int, j: int, k: int, t: int|
        0 <= i < n0 && 0 <= j < n1 && 0 <= k < n2 && 0 <= t < nt
            ==> (#[trigger] v@[i]@[j]@[k]@[t]).wf()
}

/// Assembles the dense complex pressure field: at every padded sample, the
/// sum over the transducers, in configuration order, of the contribution
/// formed from the derived kernel input and the matching outside
/// evaluation.
#[verifier::loop_isolation(false)]
pub fn assemble_field(cfg: &ConfigPacket, inputs: &Vec<Vec<Vec<Vec<KernelInput>>>>, outs: &Vec<Vec<Vec<Vec<KernelOutput>>>>) -> (r: PressureField)
    requires
        config_valid(*cfg),
        inputs_shaped(
            *inputs,
            padded_counts(cfg.simulation_geometry).0,
            padded_counts(cfg.simulation_geometry).1,
            padded_counts(cfg.simulation_geometry).2,
            cfg.transducers@.len() as int,
        ),
        inputs_pointwise(
            *inputs,
            *cfg,
            padded_counts(cfg.simulation_geometry).0,
            padded_counts(cfg.simulation_geometry).1,
            padded_counts(cfg.simulation_geometry).2,
            cfg.transducers@.len() as int,
        ),
        outputs_shaped(
            *outs,
            padded_counts(cfg.simulation_geometry).0,
            padded_counts(cfg.simulation_geometry).1,
            padded_counts(cfg.simulation_geometry).2,
            cfg.transducers@.len() as int,
        ),
    ensures
        r.wf(),
        r.count0 == padded_counts(cfg.simulation_geometry).0,
        r.count1 == padded_counts(cfg.simulation_geometry).1,
        r.count2 == padded_counts(cfg.simulation_geometry).2,
        forall |i: int, j: int, k: int|
            0 <= i < r.count0 && 0 <= j < r.count1 && 0 <= k < r.count2
                ==> {
                    let sum = cell_pressure(
                        cfg.transducers@,
                        position_at(cfg.simulation_geometry, i, j, k),
                        outs@[i]@[j]@[k]@,
                        cfg.transducers@.len() as int,
                    );
                    (#[trigger] r.at(i, j, k)).re == sum.0 && r.at(i, j, k).im == sum.1
                },
{
    let g = &cfg.simulation_geometry;
    let counts = cell_counts_exec(g);
    let n0: usize = (counts.0 + 2) as usize;
    let n1: usize = (counts.1 + 2) as usize;
    let n2: usize = (counts.2 + 2) as usize;
    let nt: usize = cfg.transducers.len();
    let mut data: Vec<Vec<Vec<Complex>>> = Vec::new();
    let mut i: usize = 0;
    while i < n0
        invariant
            i <= n0,
            data@.len() == i,
            forall |a: int| 0 <= a < i ==> (#[trigger] data@[a])@.len() == n1,
            forall |a: int, b: int| 0 <= a < i && 0 <= b < n1
                ==> (#[trigger] data@[a]@[b])@.len() == n2,
            forall |a: int, b: int, c: int| 0 <= a < i && 0 <= b < n1 && 0 <= c < n2
                ==> {
                    let sum = cell_pressure(
                        cfg.transducers@,
                        position_at(*g, a, b, c),
                        outs@[a]@[b]@[c]@,
                        nt as int,
                    );
                    (#[trigger] data@[a]@[b]@[c]).re == sum.0 && data@[a]@[b]@[c].im == sum.1
                        && -PRESSURE_CAP <= data@[a]@[b]@[c].re <= PRESSURE_CAP
                        && -PRESSURE_CAP <= data@[a]@[b]@[c].im <= PRESSURE_CAP
                },
        decreases n0 - i,
    {
        let mut sheet: Vec<Vec<Complex>> = Vec::new();
        let mut j: usize = 0;
        while j < n1
            invariant
                j <= n1,
                sheet@.len() == j,
                forall |b: int| 0 <= b < j ==> (#[trigger] sheet@[b])@.len() == n2,
                forall |b: int, c: int| 0 <= b < j && 0 <= c < n2
                    ==> {
                        let sum = cell_pressure(
                            cfg.transducers@,
                            position_at(*g, i as int, b, c),
                            outs@[i as int]@[b]@[c]@,
                            nt as int,
                        );
                        (#[trigger] sheet@[b]@[c]).re == sum.0 && sheet@[b]@[c].im == sum.1
                            && -PRESSURE_CAP <= sheet@[b]@[c].re <= PRESSURE_CAP
                            && -PRESSURE_CAP <= sheet@[b]@[c].im <= PRESSURE_CAP
                    },
            decreases n1 - j,
        {
            let mut row: Vec<Complex> = Vec::new();
            let mut k: usize = 0;
            while k < n2
                invariant
                    k <= n2,
                    row@.len() == k,
                    forall |c: int| 0 <= c < k
                        ==> {
                            let sum = cell_pressure(
                                cfg.transducers@,
                                position_at(*g, i as int, j as int, c),
                                outs@[i as int]@[j as int]@[c]@,
                                nt as int,
                            );
                            (#[trigger] row@[c]).re == sum.0 && row@[c].im == sum.1
                                && -PRESSURE_CAP <= row@[c].re <= PRESSURE_CAP
                                && -PRESSURE_CAP <= row@[c].im <= PRESSURE_CAP
                        },
                decreases n2 - k,
            {
                let cell_inputs = &inputs[i][j][k];
                let cell_outs = &outs[i][j][k];
                let mut acc_re: i64 = 0;
                let mut acc_im: i64 = 0;
                let mut t: usize = 0;
                while t < nt
                    invariant
                        t <= nt,
                        ({
                            let sum = cell_pressure(
                                cfg.transducers@,
                                position_at(*g, i as int, j as int, k as int),
                                outs@[i as int]@[j as int]@[k as int]@,
                                t as int,
                            );
                            acc_re == sum.0 && acc_im == sum.1
                        }),
                        -(t as int) * AMP_CAP <= acc_re <= (t as int) * AMP_CAP,
                        -(t as int) * AMP_CAP <= acc_im <= (t as int) * AMP_CAP,
                    decreases nt - t,
                {
                    let c = compute_contribution(&cell_inputs[t], &cell_outs[t]);
                    proof {
                        assert((t as int + 1) * AMP_CAP == t as int * AMP_CAP + AMP_CAP)
                            by (nonlinear_arith);
                    }
                    acc_re = acc_re + c.re;
                    acc_im = acc_im + c.im;
                    t = t + 1;
                }
                proof {
                    assert(nt as int * AMP_CAP <= 1024 * AMP_CAP) by (nonlinear_arith)
                        requires
                            nt <= 1024;
                }
                row.push(Complex { re: acc_re, im: acc_im });
                k = k + 1;
            }
            sheet.push(row);
            proof {
                assert forall |b: int, c: int| 0 <= b < j + 1 && 0 <= c < n2 implies
                    ({
                        let sum = cell_pressure(
                            cfg.transducers@,
                            position_at(*g, i as int, b, c),
                            outs@[i as int]@[b]@[c]@,
                            nt as int,
                        );
                        (#[trigger] sheet@[b]@[c]).re == sum.0 && sheet@[b]@[c].im == sum.1
                            && -PRESSURE_CAP <= sheet@[b]@[c].re <= PRESSURE_CAP
                            && -PRESSURE_CAP <= sheet@[b]@[c].im <= PRESSURE_CAP
                    }) by {
                    if b == j as int {
                        assert(sheet@[b]@[c] == row@[c]);
                    }
                }
            }
            j = j + 1;
        }
        data.push(sheet);
        proof {
            assert forall |a: int, b: int, c: int|
                0 <= a < i + 1 && 0 <= b < n1 && 0 <= c < n2 implies
                ({
                    let sum = cell_pressure(
                        cfg.transducers@,
                        position_at(*g, a, b, c),
                        outs@[a]@[b]@[c]@,
                        nt as int,
                    );
                    (#[trigger] data@[a]@[b]@[c]).re == sum.0 && data@[a]@[b]@[c].im == sum.1
                        && -PRESSURE_CAP <= data@[a]@[b]@[c].re <= PRESSURE_CAP
                        && -PRESSURE_CAP <= data@[a]@[b]@[c].im <= PRESSURE_CAP
                }) by {
                if a == i as int {
                    assert(data@[a]@[b]@[c] == sheet@[b]@[c]);
                }
            }
        }
        i = i + 1;
    }
    PressureField { data, count0: n0, count1: n1, count2: n2 }
}

} // verus!
