//! The viewing plane and the canonical axis order it induces.
//!
//! Every field computation runs in a canonical (depth, cross-1, cross-2)
//! axis order.  The chosen plane selects which physical axis is the depth
//! axis: plane X keeps the physical order, plane Y swaps the first two
//! axes, and plane Z swaps the first and last.  Both swaps are their own
//! inverses, so the same mapping carries indices back to physical order.

use vstd::prelude::*;

verus! {

/// The viewing plane: which physical axis plays the depth role.
#[derive(Clone, Copy, Debug, PartialEq, Eq, Structural)]
pub enum Plane {
    X,
    Y,
    Z,
}

/// The canonical (depth, cross-1, cross-2) reordering of a physical
/// (x, y, z) triple for the given plane.
pub open spec fn canonical_triple_spec<T>(plane: Plane, t: (T, T, T)) -> (T, T, T) {
    match plane {
        Plane::X => (t.0, t.1, t.2),
        Plane::Y => (t.1, t.0, t.2),
        Plane::Z => (t.2, t.1, t.0),
    }
}

/// Applying the reordering twice gives back the original triple: the same
/// mapping converts physical order to canonical order and back.
pub proof fn lemma_canonical_triple_involution<T>(plane: Plane, t: (T, T, T))
    ensures
        canonical_triple_spec(plane, canonical_triple_spec(plane, t)) == t,
{
}

/// Reorders a triple of machine integers into canonical axis order.
pub fn canonical_triple_i64(plane: Plane, t: (i64, i64, i64)) -> (r: (i64, i64, i64))
    ensures
        r == canonical_triple_spec(plane, t),
{
    match plane {
        Plane::X => (t.0, t.1, t.2),
        Plane::Y => (t.1, t.0, t.2),
        Plane::Z => (t.2, t.1, t.0),
    }
}

/// Reorders a triple of indices into canonical axis order; the same call
/// maps canonical indices back to physical array indices.
pub fn canonical_triple_usize(plane: Plane, t: (usize, usize, usize)) -> (r: (usize, usize, usize))
    ensures
        r == canonical_triple_spec(plane, t),
{
    match plane {
        Plane::X => (t.0, t.1, t.2),
        Plane::Y => (t.1, t.0, t.2),
        Plane::Z => (t.2, t.1, t.0),
    }
}

/// The single-letter tag of the plane, as it appears in output file names
/// and headers.
pub fn plane_letter(plane: Plane) -> (r: u8)
    ensures
        r == plane_letter_spec(plane),
{
    match plane {
        Plane::X => 88u8,
        Plane::Y => 89u8,
        Plane::Z => 90u8,
    }
}

/// ASCII letter of the plane: `X`, `Y` or `Z`.
pub open spec fn plane_letter_spec(plane: Plane) -> u8 {
    match plane {
        Plane::X => 88u8,
        Plane::Y => 89u8,
        Plane::Z => 90u8,
    }
}

/// ASCII labels of the two cross-section axes of the plane, in row-column
/// order: `Y-Z` for plane X, `X-Z` for plane Y, `Y-X` for plane Z.
pub open spec fn cross_axis_labels_spec(plane: Plane) -> (u8, u8) {
    match plane {
        Plane::X => (89u8, 90u8),
        Plane::Y => (88u8, 90u8),
        Plane::Z => (89u8, 88u8),
    }
}

/// The two cross-axis letters of the plane, row axis first.
pub fn cross_axis_labels(plane: Plane) -> (r: (u8, u8))
    ensures
        r == cross_axis_labels_spec(plane),
{
    match plane {
        Plane::X => (89u8, 90u8),
        Plane::Y => (88u8, 90u8),
        Plane::Z => (89u8, 88u8),
    }
}

} // verus!
