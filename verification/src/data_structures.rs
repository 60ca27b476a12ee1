//! Configuration data: transducers, the sampled geometry, and validation.
//!
//! All physical quantities are fixed-point numbers counting multiples of
//! `1 / SCALE` of the physical unit (`SCALE` stands for `1.0`), so that a
//! configuration is validated, and the field is later computed, by exact
//! integer arithmetic.

use vstd::prelude::*;

verus! {

use crate::geometry::Point3;
use crate::math::{floor_div, mul_div_floor, SCALE};
use crate::plane::Plane;
use crate::sampling::COORD_LIMIT;

/// Largest number of transducers in one configuration.
pub const MAX_TRANSDUCERS: usize = 1024;

/// Largest number of cells along one axis of the sampled grid.
pub const MAX_AXIS_CELLS: i64 = 65_534;

/// Largest magnitude of a transducer phase shift (radians, fixed-point).
pub const PHASE_LIMIT: i64 = 1_000_000_000_000;

/// Largest magnitude of the two potential-formula constants (fixed-point).
pub const POTENTIAL_CONST_LIMIT: i64 = 1_000_000_000_000;

/// One circular piston transducer: where it sits, where it aims, and how it
/// is driven.  Immutable once handed to the engine.
#[derive(Debug)]
pub struct Transducer {
    /// Caller-chosen identifier; uniqueness is the caller's concern.
    pub id: String,
    /// Position of the radiating surface's center.
    pub position: Point3,
    /// A point the transducer aims at; the acoustic axis runs from
    /// `position` toward `target`.
    pub target: Point3,
    /// Aperture radius, positive.
    pub radius: i64,
    /// Phase shift in radians.
    pub phase_shift: i64,
    /// Loss factor in `[0, 1]` (`SCALE` stands for `1`).
    pub loss_factor: i64,
    /// Output power in `[0, 1]` (`SCALE` stands for `1`).
    pub output_power: i64,
    /// Wavelength of the emitted sound, positive.
    pub wavelength: i64,
}

/// How the bounding box is cut into cells: either an explicit per-axis
/// division count, or one uniform cell size for all axes.
#[derive(Clone, Copy, Debug, PartialEq, Eq, Structural)]
pub enum Discretization {
    /// Cell counts per physical axis, each at least one.
    Divisions(i64, i64, i64),
    /// Uniform cell edge length, positive; the count per axis follows from
    /// the bounding box.  Only this variant supports the potential field,
    /// which needs a uniform step for its finite differences.
    CellSize(i64),
}

/// The sampled region: a viewing plane, a bounding box, a discretization,
/// and the two constants of the potential formula.
#[derive(Clone, Copy, Debug)]
pub struct SimulationGeometry {
    /// Which physical axis is the depth axis of the exported slices.
    pub plane: Plane,
    /// One corner of the sampled bounding box.
    pub begin: Point3,
    /// The opposite corner of the sampled bounding box.
    pub end: Point3,
    /// How the box is cut into cells.
    pub discretization: Discretization,
    /// Monopole weight of the potential formula.
    pub potential_const_1: i64,
    /// Dipole weight of the potential formula.
    pub potential_const_2: i64,
}

/// A full engine configuration: the transducer array plus the geometry.
#[derive(Debug)]
pub struct ConfigPacket {
    pub transducers: Vec<Transducer>,
    pub simulation_geometry: SimulationGeometry,
}

/// Absolute span of one axis of the bounding box.
pub open spec fn axis_span(b: int, e: int) -> int {
    if e >= b {
        e - b
    } else {
        b - e
    }
}

/// Number of cells along one physical axis, before any padding: the
/// configured division count, or the box span divided by the cell size
/// plus one.
pub open spec fn axis_cells(g: SimulationGeometry, b: int, e: int, divisions: int) -> int {
    match g.discretization {
        Discretization::Divisions(_, _, _) => divisions,
        Discretization::CellSize(h) => floor_div(axis_span(b, e), h as int) + 1,
    }
}

/// The three per-physical-axis cell counts of the geometry.
pub open spec fn cell_counts(g: SimulationGeometry) -> (int, int, int) {
    let d = match g.discretization {
        Discretization::Divisions(d0, d1, d2) => (d0 as int, d1 as int, d2 as int),
        Discretization::CellSize(_) => (0, 0, 0),
    };
    (
        axis_cells(g, g.begin.x as int, g.end.x as int, d.0),
        axis_cells(g, g.begin.y as int, g.end.y as int, d.1),
        axis_cells(g, g.begin.z as int, g.end.z as int, d.2),
    )
}

/// A point lies within the coordinate range a configuration may use.
pub open spec fn point_in_config_bounds(p: Point3) -> bool {
    &&& -COORD_LIMIT <= p.x <= COORD_LIMIT
    &&& -COORD_LIMIT <= p.y <= COORD_LIMIT
    &&& -COORD_LIMIT <= p.z <= COORD_LIMIT
}

/// One transducer is acceptable: its acoustic axis is not degenerate, its
/// aperture and wavelength are positive, its loss factor and output power
/// lie in `[0, 1]`, and its coordinates and phase lie in the fixed-point
/// range the engine's exact arithmetic supports.
pub open spec fn transducer_valid(t: Transducer) -> bool {
    &&& t.position != t.target
    &&& point_in_config_bounds(t.position)
    &&& point_in_config_bounds(t.target)
    &&& 1 <= t.radius <= COORD_LIMIT
    &&& 1 <= t.wavelength <= COORD_LIMIT
    &&& 0 <= t.loss_factor <= SCALE
    &&& 0 <= t.output_power <= SCALE
    &&& -PHASE_LIMIT <= t.phase_shift <= PHASE_LIMIT
}

/// The geometry is acceptable: corners in range, every axis cut into at
/// least one and at most `MAX_AXIS_CELLS` cells, constants in range.
pub open spec fn geometry_valid(g: SimulationGeometry) -> bool {
    &&& point_in_config_bounds(g.begin)
    &&& point_in_config_bounds(g.end)
    &&& (match g.discretization {
        Discretization::Divisions(d0, d1, d2) => {
            &&& 1 <= d0 <= MAX_AXIS_CELLS
            &&& 1 <= d1 <= MAX_AXIS_CELLS
            &&& 1 <= d2 <= MAX_AXIS_CELLS
        },
        Discretization::CellSize(h) => {
            &&& 1 <= h
            &&& cell_counts(g).0 <= MAX_AXIS_CELLS as int
            &&& cell_counts(g).1 <= MAX_AXIS_CELLS as int
            &&& cell_counts(g).2 <= MAX_AXIS_CELLS as int
        },
    })
    &&& -POTENTIAL_CONST_LIMIT <= g.potential_const_1 <= POTENTIAL_CONST_LIMIT
    &&& -POTENTIAL_CONST_LIMIT <= g.potential_const_2 <= POTENTIAL_CONST_LIMIT
}

/// A configuration packet may reach the field builder only when this
/// holds: valid geometry, a bounded number of transducers, and every
/// transducer valid.
pub open spec fn config_valid(c: ConfigPacket) -> bool {
    &&& geometry_valid(c.simulation_geometry)
    &&& c.transducers@.len() <= MAX_TRANSDUCERS
    &&& forall |i: int| 0 <= i < c.transducers@.len() ==> transducer_valid(#[trigger] c.transducers@[i])
}

impl ConfigPacket {
    /// An empty, valid default configuration: no transducers, a one-cell
    /// box at the origin viewed along plane X, unit potential constants.
    pub fn new() -> (r: ConfigPacket)
        ensures
            r.transducers@.len() == 0,
            r.simulation_geometry.plane == Plane::X,
            r.simulation_geometry.begin == (Point3 { x: 0, y: 0, z: 0 }),
            r.simulation_geometry.end == (Point3 { x: 0, y: 0, z: 0 }),
            r.simulation_geometry.discretization == Discretization::Divisions(1, 1, 1),
            r.simulation_geometry.potential_const_1 == SCALE,
            r.simulation_geometry.potential_const_2 == SCALE,
            config_valid(r),
    {
        ConfigPacket {
            transducers: Vec::new(),
            simulation_geometry: SimulationGeometry {
                plane: Plane::X,
                begin: Point3 { x: 0, y: 0, z: 0 },
                end: Point3 { x: 0, y: 0, z: 0 },
                discretization: Discretization::Divisions(1, 1, 1),
                potential_const_1: SCALE,
                potential_const_2: SCALE,
            },
        }
    }

    /// Decides exactly whether this packet may reach the field builder.
    pub fn validate(&self) -> (r: bool)
        ensures
            r == config_valid(*self),
    {
        let g = &self.simulation_geometry;
        if !point_bounds_ok(&g.begin) || !point_bounds_ok(&g.end) {
            return false;
        }
        let counts_ok: bool = match g.discretization {
            Discretization::Divisions(d0, d1, d2) => {
                1 <= d0 && d0 <= MAX_AXIS_CELLS && 1 <= d1 && d1 <= MAX_AXIS_CELLS && 1 <= d2
                    && d2 <= MAX_AXIS_CELLS
            },
            Discretization::CellSize(h) => {
                if h < 1 {
                    false
                } else {
                    let cx = axis_cells_of(g.begin.x, g.end.x, h);
                    let cy = axis_cells_of(g.begin.y, g.end.y, h);
                    let cz = axis_cells_of(g.begin.z, g.end.z, h);
                    cx <= MAX_AXIS_CELLS && cy <= MAX_AXIS_CELLS && cz <= MAX_AXIS_CELLS
                }
            },
        };
        if !counts_ok {
            return false;
        }
        if g.potential_const_1 < -POTENTIAL_CONST_LIMIT || g.potential_const_1 > POTENTIAL_CONST_LIMIT
            || g.potential_const_2 < -POTENTIAL_CONST_LIMIT
            || g.potential_const_2 > POTENTIAL_CONST_LIMIT {
            return false;
        }
        if self.transducers.len() > MAX_TRANSDUCERS {
            return false;
        }
        let mut i: usize = 0;
        while i < self.transducers.len()
            invariant
                0 <= i <= self.transducers@.len(),
                forall |j: int| 0 <= j < i ==> transducer_valid(#[trigger] self.transducers@[j]),
            decreases self.transducers@.len() - i,
        {
            let t = &self.transducers[i];
            let ok: bool = !(t.position.x == t.target.x && t.position.y == t.target.y
                && t.position.z == t.target.z) && point_bounds_ok(&t.position)
                && point_bounds_ok(&t.target) && 1 <= t.radius && t.radius <= COORD_LIMIT
                && 1 <= t.wavelength && t.wavelength <= COORD_LIMIT && 0 <= t.loss_factor
                && t.loss_factor <= SCALE && 0 <= t.output_power && t.output_power <= SCALE
                && -PHASE_LIMIT <= t.phase_shift && t.phase_shift <= PHASE_LIMIT;
            if !ok {
                return false;
            }
            i = i + 1;
        }
        true
    }
}

/// Checks that a point lies in the configuration coordinate range.
fn point_bounds_ok(p: &Point3) -> (r: bool)
    ensures
        r == point_in_config_bounds(*p),
{
    -COORD_LIMIT <= p.x && p.x <= COORD_LIMIT && -COORD_LIMIT <= p.y && p.y <= COORD_LIMIT
        && -COORD_LIMIT <= p.z && p.z <= COORD_LIMIT
}

/// Number of cells along one axis in the uniform-cell-size discretization:
/// the axis span divided by the cell size, plus one.
pub fn axis_cells_of(b: i64, e: i64, h: i64) -> (r: i64)
    requires
        1 <= h,
        -COORD_LIMIT <= b <= COORD_LIMIT,
        -COORD_LIMIT <= e <= COORD_LIMIT,
    ensures
        r == floor_div(axis_span(b as int, e as int), h as int) + 1,
{
    let span: i64 = if e >= b {
        e - b
    } else {
        b - e
    };
    proof {
        crate::math::lemma_div_in_range(span as int, h as int);
    }
    mul_div_floor(span, 1, h) + 1
}

/// A packet holding a transducer whose position coincides with its target
/// never validates: its acoustic axis would be undefined.
pub proof fn lemma_validate_rejects_degenerate_axis(c: ConfigPacket, i: int)
    requires
        0 <= i < c.transducers@.len(),
        c.transducers@[i].position == c.transducers@[i].target,
    ensures
        !config_valid(c),
{
}

/// A packet holding a transducer whose loss factor or output power falls
/// outside `[0, 1]` never validates.
pub proof fn lemma_validate_rejects_out_of_range_drive(c: ConfigPacket, i: int)
    requires
        0 <= i < c.transducers@.len(),
        c.transducers@[i].loss_factor > SCALE || c.transducers@[i].loss_factor < 0
            || c.transducers@[i].output_power > SCALE || c.transducers@[i].output_power < 0,
    ensures
        !config_valid(c),
{
}

} // verus!
