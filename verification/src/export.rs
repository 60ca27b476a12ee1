//! The slice exporter: cross-sections of the computed fields, their file
//! names and headers, and their delimited-text rendering.
//!
//! One output file covers one depth index of the viewing plane and one
//! field kind.  Its name embeds the kind tag, a per-run random identifier,
//! the plane letter and the depth index; its first line names the field
//! kind, the plane and the cross-section axis labels; each following line
//! holds one row of comma-terminated fixed-point decimal values.

use vstd::prelude::*;

verus! {

use vstd::string::StringSliceAdditionalSpecFns;

use crate::data_structures::{cell_counts, geometry_valid, SimulationGeometry, Discretization};
use crate::field::{cell_counts_exec, PressureField};
use crate::geometry::{
    isqrt_u128,
    lemma_sqrt_floor_bound,
    lemma_sqrt_floor_unique,
    lemma_sqrt_floor_val,
    sqrt_floor_val,
};
use crate::math::SCALE;
use crate::plane::{
    canonical_triple_spec,
    canonical_triple_usize,
    cross_axis_labels,
    cross_axis_labels_spec,
    plane_letter,
    plane_letter_spec,
    Plane,
};
use crate::potential::{abs_sq, PotentialField};

/// Decimal digits of a non-negative number, most significant first, as
/// ASCII bytes.
pub open spec fn dec_digits(n: nat) -> Seq<u8>
    decreases n,
{
    if n < 10 {
        seq![(48 + n) as u8]
    } else {
        dec_digits(n / 10) + seq![(48 + n % 10) as u8]
    }
}

/// Appends the decimal digits of `n`.
pub fn push_decimal(out: &mut Vec<u8>, n: u128)
    ensures
        final(out)@ == old(out)@ + dec_digits(n as nat),
    decreases n,
{
    if n < 10 {
        out.push(48 + n as u8);
        proof {
            assert(out@ =~= old(out)@ + dec_digits(n as nat));
        }
    } else {
        push_decimal(out, n / 10);
        out.push(48 + (n % 10) as u8);
        proof {
            assert(out@ =~= old(out)@ + dec_digits(n as nat));
        }
    }
}

/// Appends the bytes of a string slice.
pub fn push_bytes(out: &mut Vec<u8>, s: &[u8])
    ensures
        final(out)@ == old(out)@ + s@,
{
    let mut i: usize = 0;
    while i < s.len()
        invariant
            i <= s@.len(),
            out@ == old(out)@ + s@.subrange(0, i as int),
        decreases s@.len() - i,
    {
        let b = s[i];
        out.push(b);
        proof {
            assert(out@ =~= old(out)@ + s@.subrange(0, i + 1));
        }
        i = i + 1;
    }
    proof {
        assert(out@ =~= old(out)@ + s@);
    }
}

/// The six fixed fractional digits of a fixed-point value, zero padded, as
/// ASCII bytes.
pub open spec fn frac_digits(f: int) -> Seq<u8> {
    seq![
        (48 + (f / 100_000) % 10) as u8,
        (48 + (f / 10_000) % 10) as u8,
        (48 + (f / 1_000) % 10) as u8,
        (48 + (f / 100) % 10) as u8,
        (48 + (f / 10) % 10) as u8,
        (48 + f % 10) as u8,
    ]
}

/// A fixed-point value rendered as a decimal: an optional minus sign, the
/// integer part, a point, and exactly six fractional digits.
pub open spec fn fixed_decimal(v: int) -> Seq<u8> {
    let m = if v < 0 {
        -v
    } else {
        v
    };
    let sign: Seq<u8> = if v < 0 {
        seq![45u8]
    } else {
        seq![]
    };
    sign + dec_digits((m / SCALE as int) as nat) + seq![46u8] + frac_digits(m % SCALE as int)
}

/// Appends the fixed-point decimal rendering of `v`.
pub fn push_fixed_decimal(out: &mut Vec<u8>, v: i128)
    requires
        v > i128::MIN,
    ensures
        final(out)@ == old(out)@ + fixed_decimal(v as int),
{
    let m: u128 = if v < 0 {
        out.push(45u8);
        (-v) as u128
    } else {
        v as u128
    };
    let ip: u128 = m / (SCALE as u128);
    let fr: u128 = m % (SCALE as u128);
    push_decimal(out, ip);
    out.push(46u8);
    let f: u64 = fr as u64;
    out.push(48 + ((f / 100_000) % 10) as u8);
    out.push(48 + ((f / 10_000) % 10) as u8);
    out.push(48 + ((f / 1_000) % 10) as u8);
    out.push(48 + ((f / 100) % 10) as u8);
    out.push(48 + ((f / 10) % 10) as u8);
    out.push(48 + (f % 10) as u8);
    proof {
        assert(out@ =~= old(out)@ + fixed_decimal(v as int));
    }
}

/// The kinds of exported field values.
#[derive(Clone, Copy, Debug, PartialEq, Eq, Structural)]
pub enum FieldKind {
    /// Magnitude of the complex pressure.
    PressureAbs,
    /// Real part of the complex pressure.
    PressureReal,
    /// Imaginary part of the complex pressure.
    PressureImag,
    /// The scalar radiation potential.
    Potential,
}

/// The kinds one export run writes: the pressure magnitude alone for the
/// explicit-divisions discretization, all four kinds when the uniform cell
/// size (and with it the potential stage) is configured.
pub open spec fn export_kinds(g: SimulationGeometry) -> Seq<FieldKind> {
    match g.discretization {
        Discretization::Divisions(_, _, _) => seq![FieldKind::PressureAbs],
        Discretization::CellSize(_) => seq![
            FieldKind::PressureAbs,
            FieldKind::PressureReal,
            FieldKind::PressureImag,
            FieldKind::Potential,
        ],
    }
}

/// File-name tag of a field kind.
pub open spec fn kind_tag(kind: FieldKind) -> Seq<u8> {
    match kind {
        FieldKind::PressureAbs => "abs".spec_bytes(),
        FieldKind::PressureReal => "real".spec_bytes(),
        FieldKind::PressureImag => "imag".spec_bytes(),
        FieldKind::Potential => "potential".spec_bytes(),
    }
}

/// Header title of a field kind.
pub open spec fn kind_title(kind: FieldKind) -> Seq<u8> {
    match kind {
        FieldKind::PressureAbs => "Pressure Complex Amplitude Value Output".spec_bytes(),
        FieldKind::PressureReal => "Pressure Complex Real Value Output".spec_bytes(),
        FieldKind::PressureImag => "Pressure Complex Imaginary Value Output".spec_bytes(),
        FieldKind::Potential => "Potential Field Value Output".spec_bytes(),
    }
}

/// Name of one output file: the kind tag, the run identifier, the plane
/// letter and the depth index.
pub open spec fn file_name_spec(kind: FieldKind, run_id: u16, plane: Plane, depth: int) -> Seq<u8> {
    "output".spec_bytes() + kind_tag(kind) + dec_digits(run_id as nat) + "_".spec_bytes()
        + seq![plane_letter_spec(plane)] + dec_digits(depth as nat) + ".csv".spec_bytes()
}

/// Header line of one output file: the kind title, the plane letter, and
/// the two cross-section axis letters in row-column order.
pub open spec fn header_spec(kind: FieldKind, plane: Plane) -> Seq<u8> {
    let labels = cross_axis_labels_spec(plane);
    kind_title(kind) + ",Plane ".spec_bytes() + seq![plane_letter_spec(plane)]
        + ", Row-Column Axis: ".spec_bytes() + seq![labels.0, 45u8, labels.1]
}

/// Builds the name of one output file.
pub fn build_file_name(kind: FieldKind, run_id: u16, plane: Plane, depth: usize) -> (r: Vec<u8>)
    ensures
        r@ == file_name_spec(kind, run_id, plane, depth as int),
{
    let mut out: Vec<u8> = Vec::new();
    push_bytes(&mut out, "output".as_bytes());
    match kind {
        FieldKind::PressureAbs => push_bytes(&mut out, "abs".as_bytes()),
        FieldKind::PressureReal => push_bytes(&mut out, "real".as_bytes()),
        FieldKind::PressureImag => push_bytes(&mut out, "imag".as_bytes()),
        FieldKind::Potential => push_bytes(&mut out, "potential".as_bytes()),
    }
    push_decimal(&mut out, run_id as u128);
    push_bytes(&mut out, "_".as_bytes());
    let letter = plane_letter(plane);
    out.push(letter);
    push_decimal(&mut out, depth as u128);
    push_bytes(&mut out, ".csv".as_bytes());
    proof {
        assert(out@ =~= file_name_spec(kind, run_id, plane, depth as int));
    }
    out
}

/// Builds the header line of one output file.
pub fn build_header(kind: FieldKind, plane: Plane) -> (r: Vec<u8>)
    ensures
        r@ == header_spec(kind, plane),
{
    let mut out: Vec<u8> = Vec::new();
    match kind {
        FieldKind::PressureAbs => push_bytes(&mut out, "Pressure Complex Amplitude Value Output".as_bytes()),
        FieldKind::PressureReal => push_bytes(&mut out, "Pressure Complex Real Value Output".as_bytes()),
        FieldKind::PressureImag => push_bytes(&mut out, "Pressure Complex Imaginary Value Output".as_bytes()),
        FieldKind::Potential => push_bytes(&mut out, "Potential Field Value Output".as_bytes()),
    }
    push_bytes(&mut out, ",Plane ".as_bytes());
    out.push(plane_letter(plane));
    push_bytes(&mut out, ", Row-Column Axis: ".as_bytes());
    let labels = cross_axis_labels(plane);
    out.push(labels.0);
    out.push(45u8);
    out.push(labels.1);
    proof {
        assert(out@ =~= header_spec(kind, plane));
    }
    out
}

/// Non-padded cell counts of a padded field, in the canonical (depth,
/// cross-1, cross-2) order of the plane.
pub open spec fn canonical_cells(plane: Plane, n0: int, n1: int, n2: int) -> (int, int, int) {
    canonical_triple_spec(plane, (n0 - 2, n1 - 2, n2 - 2))
}

/// The pressure value of the given kind at one padded physical index.
pub open spec fn pressure_sample(f: PressureField, kind: FieldKind, i: int, j: int, k: int) -> int {
    match kind {
        FieldKind::PressureAbs => sqrt_floor_val(abs_sq(f.at(i, j, k))),
        FieldKind::PressureReal => f.at(i, j, k).re as int,
        FieldKind::PressureImag => f.at(i, j, k).im as int,
        FieldKind::Potential => 0,
    }
}

/// Extracts the 2D cross-section of the pressure field at one depth index
/// of the viewing plane, in row-column order over the non-padded nominal
/// range; canonical (depth, row, column) indices are carried back to the
/// physical array axes by the plane's own mapping.
#[verifier::loop_isolation(false)]
pub fn extract_pressure_slice(f: &PressureField, plane: Plane, kind: FieldKind, depth: usize) -> (r: Vec<Vec<i128>>)
    requires
        f.wf(),
        kind != FieldKind::Potential,
        f.count0 >= 3,
        f.count1 >= 3,
        f.count2 >= 3,
        1 <= depth,
        depth as int <= canonical_cells(plane, f.count0 as int, f.count1 as int, f.count2 as int).0,
    ensures
        ({
            let cc = canonical_cells(plane, f.count0 as int, f.count1 as int, f.count2 as int);
            &&& r@.len() == cc.1
            &&& forall |b: int| 0 <= b < cc.1 ==> (#[trigger] r@[b])@.len() == cc.2
            &&& forall |b: int, c: int| 0 <= b < cc.1 && 0 <= c < cc.2 ==> {
                let phys = canonical_triple_spec(plane, (depth as int, b + 1, c + 1));
                (#[trigger] r@[b]@[c]) as int == pressure_sample(*f, kind, phys.0, phys.1, phys.2)
                    && -4_000_000_000_000 <= r@[b]@[c] <= 4_000_000_000_000
            }
        }),
{
    let cc = canonical_triple_usize(plane, (f.count0 - 2, f.count1 - 2, f.count2 - 2));
    let mut rows: Vec<Vec<i128>> = Vec::new();
    let mut b: usize = 1;
    while b <= cc.1
        invariant
            1 <= b <= cc.1 + 1,
            rows@.len() == b - 1,
            forall |bb: int| 0 <= bb < b - 1 ==> (#[trigger] rows@[bb])@.len() == cc.2,
            forall |bb: int, c: int| 0 <= bb < b - 1 && 0 <= c < cc.2 ==> {
                let phys = canonical_triple_spec(plane, (depth as int, bb + 1, c + 1));
                (#[trigger] rows@[bb]@[c]) as int == pressure_sample(*f, kind, phys.0, phys.1, phys.2)
                    && -4_000_000_000_000 <= rows@[bb]@[c] <= 4_000_000_000_000
            },
        decreases cc.1 + 1 - b,
    {
        let mut row: Vec<i128> = Vec::new();
        let mut c: usize = 1;
        while c <= cc.2
            invariant
                1 <= c <= cc.2 + 1,
                row@.len() == c - 1,
                forall |c2: int| 0 <= c2 < c - 1 ==> {
                    let phys = canonical_triple_spec(plane, (depth as int, b as int, c2 + 1));
                    (#[trigger] row@[c2]) as int == pressure_sample(*f, kind, phys.0, phys.1, phys.2)
                        && -4_000_000_000_000 <= row@[c2] <= 4_000_000_000_000
                },
            decreases cc.2 + 1 - c,
        {
            let idx = canonical_triple_usize(plane, (depth, b, c));
            let v = f.get(idx.0, idx.1, idx.2);
            let val: i128 = match kind {
                FieldKind::PressureAbs => {
                    proof {
                        crate::math::lemma_mul_bounds(
                            v.re as int,
                            v.re as int,
                            crate::field::PRESSURE_CAP as int,
                            crate::field::PRESSURE_CAP as int,
                        );
                        crate::math::lemma_mul_bounds(
                            v.im as int,
                            v.im as int,
                            crate::field::PRESSURE_CAP as int,
                            crate::field::PRESSURE_CAP as int,
                        );
                    }
                    proof {
                        assert(0 <= (v.re as int) * (v.re as int) && 0 <= (v.im as int) * (v.im as int))
                            by (nonlinear_arith);
                    }
                    let pa: i128 = (v.re as i128) * (v.re as i128) + (v.im as i128) * (v.im as i128);
                    let root = isqrt_u128(pa as u128);
                    proof {
                        lemma_sqrt_floor_bound(pa as int, root as int, 4_000_000_000_000);
                        lemma_sqrt_floor_val(pa as int);
                        lemma_sqrt_floor_unique(pa as int, root as int, sqrt_floor_val(pa as int));
                    }
                    root as i128
                },
                FieldKind::PressureReal => v.re as i128,
                FieldKind::PressureImag => v.im as i128,
                FieldKind::Potential => 0,
            };
            row.push(val);
            c = c + 1;
        }
        rows.push(row);
        proof {
            assert forall |bb: int, c2: int| 0 <= bb < b && 0 <= c2 < cc.2 implies
                ({
                    let phys = canonical_triple_spec(plane, (depth as int, bb + 1, c2 + 1));
                    (#[trigger] rows@[bb]@[c2]) as int == pressure_sample(*f, kind, phys.0, phys.1, phys.2)
                        && -4_000_000_000_000 <= rows@[bb]@[c2] <= 4_000_000_000_000
                }) by {
                if bb == b - 1 {
                    assert(rows@[bb]@[c2] == row@[c2]);
                }
            }
        }
        b = b + 1;
    }
    rows
}

/// Extracts the 2D cross-section of the potential field at one depth index
/// of the viewing plane, like the pressure slices.
#[verifier::loop_isolation(false)]
pub fn extract_potential_slice(p: &PotentialField, plane: Plane, depth: usize) -> (r: Vec<Vec<i128>>)
    requires
        p.wf(),
        p.count0 >= 3,
        p.count1 >= 3,
        p.count2 >= 3,
        1 <= depth,
        depth as int <= canonical_cells(plane, p.count0 as int, p.count1 as int, p.count2 as int).0,
    ensures
        ({
            let cc = canonical_cells(plane, p.count0 as int, p.count1 as int, p.count2 as int);
            &&& r@.len() == cc.1
            &&& forall |b: int| 0 <= b < cc.1 ==> (#[trigger] r@[b])@.len() == cc.2
            &&& forall |b: int, c: int| 0 <= b < cc.1 && 0 <= c < cc.2 ==> {
                let phys = canonical_triple_spec(plane, (depth as int, b + 1, c + 1));
                (#[trigger] r@[b]@[c]) as int == p.at(phys.0, phys.1, phys.2)
                    && -crate::potential::POTENTIAL_CAP <= r@[b]@[c] <= crate::potential::POTENTIAL_CAP
            }
        }),
{
    let cc = canonical_triple_usize(plane, (p.count0 - 2, p.count1 - 2, p.count2 - 2));
    let mut rows: Vec<Vec<i128>> = Vec::new();
    let mut b: usize = 1;
    while b <= cc.1
        invariant
            1 <= b <= cc.1 + 1,
            rows@.len() == b - 1,
            forall |bb: int| 0 <= bb < b - 1 ==> (#[trigger] rows@[bb])@.len() == cc.2,
            forall |bb: int, c: int| 0 <= bb < b - 1 && 0 <= c < cc.2 ==> {
                let phys = canonical_triple_spec(plane, (depth as int, bb + 1, c + 1));
                (#[trigger] rows@[bb]@[c]) as int == p.at(phys.0, phys.1, phys.2)
                    && -crate::potential::POTENTIAL_CAP <= rows@[bb]@[c] <= crate::potential::POTENTIAL_CAP
            },
        decreases cc.1 + 1 - b,
    {
        let mut row: Vec<i128> = Vec::new();
        let mut c: usize = 1;
        while c <= cc.2
            invariant
                1 <= c <= cc.2 + 1,
                row@.len() == c - 1,
                forall |c2: int| 0 <= c2 < c - 1 ==> {
                    let phys = canonical_triple_spec(plane, (depth as int, b as int, c2 + 1));
                    (#[trigger] row@[c2]) as int == p.at(phys.0, phys.1, phys.2)
                        && -crate::potential::POTENTIAL_CAP <= row@[c2] <= crate::potential::POTENTIAL_CAP
                },
            decreases cc.2 + 1 - c,
        {
            let idx = canonical_triple_usize(plane, (depth, b, c));
            let v = p.get(idx.0, idx.1, idx.2);
            row.push(v);
            c = c + 1;
        }
        rows.push(row);
        proof {
            assert forall |bb: int, c2: int| 0 <= bb < b && 0 <= c2 < cc.2 implies
                ({
                    let phys = canonical_triple_spec(plane, (depth as int, bb + 1, c2 + 1));
                    (#[trigger] rows@[bb]@[c2]) as int == p.at(phys.0, phys.1, phys.2)
                        && -crate::potential::POTENTIAL_CAP <= rows@[bb]@[c2] <= crate::potential::POTENTIAL_CAP
                }) by {
                if bb == b - 1 {
                    assert(rows@[bb]@[c2] == row@[c2]);
                }
            }
        }
        b = b + 1;
    }
    rows
}

/// One row of comma-terminated fixed-point decimal values (a trailing
/// comma closes every row).
pub open spec fn row_csv(row: Seq<i128>, n: int) -> Seq<u8>
    decreases n,
{
    if n <= 0 {
        Seq::empty()
    } else {
        row_csv(row, n - 1) + fixed_decimal(row[n - 1] as int) + seq![44u8]
    }
}

/// The rendered rows of one slice, each closed by a newline.
pub open spec fn rows_csv(rows: Seq<Vec<i128>>, n: int) -> Seq<u8>
    decreases n,
{
    if n <= 0 {
        Seq::empty()
    } else {
        rows_csv(rows, n - 1) + row_csv(rows[n - 1]@, rows[n - 1]@.len() as int) + seq![10u8]
    }
}

/// The whole text of one output file: the header line, then the rows.
pub open spec fn slice_document(kind: FieldKind, plane: Plane, rows: Seq<Vec<i128>>) -> Seq<u8> {
    header_spec(kind, plane) + seq![10u8] + rows_csv(rows, rows.len() as int)
}

/// Renders one slice as delimited text: the header line, then one line per
/// row with its values comma-terminated.
#[verifier::loop_isolation(false)]
pub fn render_slice(kind: FieldKind, plane: Plane, rows: &Vec<Vec<i128>>) -> (r: Vec<u8>)
    requires
        forall |b: int, c: int| 0 <= b < rows@.len() && 0 <= c < rows@[b]@.len()
            ==> #[trigger] rows@[b]@[c] > i128::MIN,
    ensures
        r@ == slice_document(kind, plane, rows@),
{
    let mut out = build_header(kind, plane);
    out.push(10u8);
    let mut b: usize = 0;
    while b < rows.len()
        invariant
            b <= rows@.len(),
            out@ == header_spec(kind, plane) + seq![10u8] + rows_csv(rows@, b as int),
        decreases rows@.len() - b,
    {
        let row = &rows[b];
        let mut c: usize = 0;
        while c < row.len()
            invariant
                c <= row@.len(),
                out@ == header_spec(kind, plane) + seq![10u8] + rows_csv(rows@, b as int)
                    + row_csv(row@, c as int),
            decreases row@.len() - c,
        {
            push_fixed_decimal(&mut out, row[c]);
            out.push(44u8);
            proof {
                assert(out@ =~= header_spec(kind, plane) + seq![10u8] + rows_csv(rows@, b as int)
                    + row_csv(row@, c + 1));
            }
            c = c + 1;
        }
        out.push(10u8);
        proof {
            assert(out@ =~= header_spec(kind, plane) + seq![10u8] + rows_csv(rows@, b + 1));
        }
        b = b + 1;
    }
    out
}

/// Relies on rand::random for a fresh pseudo-random run identifier that is
/// embedded in every output file name; nothing is assumed of its value.
/// First use seeds the thread-local generator, which can abort the process
/// if the operating system's entropy source fails.
#[verifier::external_body]
fn random_run_id() -> u16 {
    rand::random::<u16>()
}

/// One output file to write: which field kind, at which depth index of the
/// viewing plane, under which name.
#[derive(Debug)]
pub struct SliceJob {
    /// The field kind this file holds.
    pub kind: FieldKind,
    /// The depth index of the slice, in `1..=depth_count`.
    pub depth: usize,
    /// The file name, with the kind tag, run identifier, plane letter and
    /// depth index embedded.
    pub file_name: Vec<u8>,
}

/// The jobs of one export run, depth-major and kind-minor, named with the
/// given run identifier.
pub open spec fn export_plan_matches(jobs: Seq<SliceJob>, g: SimulationGeometry, run_id: u16) -> bool {
    let cc = canonical_triple_spec(g.plane, cell_counts(g));
    let kinds = export_kinds(g);
    &&& jobs.len() == cc.0 * kinds.len()
    &&& forall |m: int| 0 <= m < jobs.len() ==> {
        let d = m / kinds.len() as int;
        let ki = m % kinds.len() as int;
        &&& (#[trigger] jobs[m]).kind == kinds[ki]
        &&& jobs[m].depth == d + 1
        &&& jobs[m].file_name@ == file_name_spec(kinds[ki], run_id, g.plane, d + 1)
    }
}

/// Plans one export run under the given run identifier: one job per depth
/// index of the viewing plane and per exported field kind.
#[verifier::loop_isolation(false)]
pub fn plan_export_with_id(g: &SimulationGeometry, run_id: u16) -> (r: Vec<SliceJob>)
    requires
        geometry_valid(*g),
    ensures
        export_plan_matches(r@, *g, run_id),
        r@.len() == canonical_triple_spec(g.plane, cell_counts(*g)).0 * export_kinds(*g).len(),
{
    let counts = cell_counts_exec(g);
    let cc = match g.plane {
        Plane::X => (counts.0, counts.1, counts.2),
        Plane::Y => (counts.1, counts.0, counts.2),
        Plane::Z => (counts.2, counts.1, counts.0),
    };
    let mut jobs: Vec<SliceJob> = Vec::new();
    let four_kinds: bool = match g.discretization {
        Discretization::Divisions(_, _, _) => false,
        Discretization::CellSize(_) => true,
    };
    let mut d: i64 = 0;
    if four_kinds {
        while d < cc.0
            invariant
                0 <= d <= cc.0,
                jobs@.len() == 4 * d,
                forall |m: int| 0 <= m < jobs@.len() ==> {
                    let dd = m / 4;
                    let ki = m % 4;
                    &&& (#[trigger] jobs@[m]).kind == export_kinds(*g)[ki]
                    &&& jobs@[m].depth == dd + 1
                    &&& jobs@[m].file_name@ == file_name_spec(export_kinds(*g)[ki], run_id, g.plane, dd + 1)
                },
            decreases cc.0 - d,
        {
            let depth = (d + 1) as usize;
            jobs.push(SliceJob {
                kind: FieldKind::PressureAbs,
                depth,
                file_name: build_file_name(FieldKind::PressureAbs, run_id, g.plane, depth),
            });
            jobs.push(SliceJob {
                kind: FieldKind::PressureReal,
                depth,
                file_name: build_file_name(FieldKind::PressureReal, run_id, g.plane, depth),
            });
            jobs.push(SliceJob {
                kind: FieldKind::PressureImag,
                depth,
                file_name: build_file_name(FieldKind::PressureImag, run_id, g.plane, depth),
            });
            jobs.push(SliceJob {
                kind: FieldKind::Potential,
                depth,
                file_name: build_file_name(FieldKind::Potential, run_id, g.plane, depth),
            });
            proof {
                assert forall |m: int| 0 <= m < jobs@.len() implies {
                    let dd = m / 4;
                    let ki = m % 4;
                    &&& (#[trigger] jobs@[m]).kind == export_kinds(*g)[ki]
                    &&& jobs@[m].depth == dd + 1
                    &&& jobs@[m].file_name@ == file_name_spec(export_kinds(*g)[ki], run_id, g.plane, dd + 1)
                } by {
                    if m >= 4 * d {
                        lemma_fundamental_div_mod_converse_wrap(m, 4, d as int, m - 4 * d);
                    }
                }
            }
            d = d + 1;
        }
        proof {
            assert(4 * cc.0 as int == cc.0 as int * export_kinds(*g).len()) by (nonlinear_arith)
                requires
                    export_kinds(*g).len() == 4;
        }
    } else {
        while d < cc.0
            invariant
                0 <= d <= cc.0,
                jobs@.len() == d,
                forall |m: int| 0 <= m < jobs@.len() ==> {
                    &&& (#[trigger] jobs@[m]).kind == FieldKind::PressureAbs
                    &&& jobs@[m].depth == m + 1
                    &&& jobs@[m].file_name@ == file_name_spec(FieldKind::PressureAbs, run_id, g.plane, m + 1)
                },
            decreases cc.0 - d,
        {
            let depth = (d + 1) as usize;
            jobs.push(SliceJob {
                kind: FieldKind::PressureAbs,
                depth,
                file_name: build_file_name(FieldKind::PressureAbs, run_id, g.plane, depth),
            });
            d = d + 1;
        }
        proof {
            assert(cc.0 as int * export_kinds(*g).len() == cc.0 as int) by (nonlinear_arith)
                requires
                    export_kinds(*g).len() == 1;
            assert forall |m: int| 0 <= m < jobs@.len() implies {
                let dd = m / export_kinds(*g).len() as int;
                let ki = m % export_kinds(*g).len() as int;
                &&& (#[trigger] jobs@[m]).kind == export_kinds(*g)[ki]
                &&& jobs@[m].depth == dd + 1
                &&& jobs@[m].file_name@ == file_name_spec(export_kinds(*g)[ki], run_id, g.plane, dd + 1)
            } by {
                lemma_fundamental_div_mod_converse_wrap(m, 1, m, 0);
            }
        }
    }
    jobs
}

/// Plans one export run under a fresh random run identifier.
pub fn plan_export(g: &SimulationGeometry) -> (r: Vec<SliceJob>)
    requires
        geometry_valid(*g),
    ensures
        exists |run_id: u16| export_plan_matches(r@, *g, run_id),
        r@.len() == canonical_triple_spec(g.plane, cell_counts(*g)).0 * export_kinds(*g).len(),
{
    let run_id = random_run_id();
    let r = plan_export_with_id(g, run_id);
    proof {
        assert(export_plan_matches(r@, *g, run_id));
    }
    r
}

/// The converse of division with remainder, at the exact shape the export
/// plan needs.
proof fn lemma_fundamental_div_mod_converse_wrap(x: int, d: int, q: int, r: int)
    requires
        d >= 1,
        0 <= r < d,
        x == q * d + r,
    ensures
        x / d == q,
        x % d == r,
{
    vstd::arithmetic::div_mod::lemma_fundamental_div_mod_converse(x, d, q, r);
}

} // verus!
