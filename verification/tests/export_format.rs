//! Output naming, headers, and delimited-text rendering.

use acoustic_field::export::{
    build_file_name, build_header, extract_pressure_slice, plan_export_with_id, render_slice,
    FieldKind,
};
use acoustic_field::data_structures::{Discretization, SimulationGeometry};
use acoustic_field::engine::Complex;
use acoustic_field::field::PressureField;
use acoustic_field::geometry::Point3;
use acoustic_field::plane::Plane;

#[test]
fn file_names_embed_tag_id_plane_and_depth() {
    assert_eq!(
        build_file_name(FieldKind::PressureAbs, 42, Plane::Z, 3),
        b"outputabs42_Z3.csv".to_vec()
    );
    assert_eq!(
        build_file_name(FieldKind::PressureReal, 0, Plane::X, 1),
        b"outputreal0_X1.csv".to_vec()
    );
    assert_eq!(
        build_file_name(FieldKind::PressureImag, 65535, Plane::Y, 12),
        b"outputimag65535_Y12.csv".to_vec()
    );
    assert_eq!(
        build_file_name(FieldKind::Potential, 7, Plane::Z, 10),
        b"outputpotential7_Z10.csv".to_vec()
    );
}

#[test]
fn headers_name_kind_plane_and_axes() {
    assert_eq!(
        build_header(FieldKind::PressureAbs, Plane::Z),
        b"Pressure Complex Amplitude Value Output,Plane Z, Row-Column Axis: Y-X".to_vec()
    );
    assert_eq!(
        build_header(FieldKind::PressureReal, Plane::X),
        b"Pressure Complex Real Value Output,Plane X, Row-Column Axis: Y-Z".to_vec()
    );
    assert_eq!(
        build_header(FieldKind::PressureImag, Plane::Y),
        b"Pressure Complex Imaginary Value Output,Plane Y, Row-Column Axis: X-Z".to_vec()
    );
    assert_eq!(
        build_header(FieldKind::Potential, Plane::Y),
        b"Potential Field Value Output,Plane Y, Row-Column Axis: X-Z".to_vec()
    );
}

#[test]
fn rendered_slice_is_comma_terminated_rows() {
    let rows = vec![vec![1_500_000i128, 0], vec![-1, 2_000_000]];
    let text = render_slice(FieldKind::PressureAbs, Plane::X, &rows);
    let expected = b"Pressure Complex Amplitude Value Output,Plane X, Row-Column Axis: Y-Z\n\
1.500000,0.000000,\n-0.000001,2.000000,\n"
        .to_vec();
    assert_eq!(text, expected);
}

#[test]
fn slice_extraction_inverts_the_axis_order() {
    // A 3x3x3 padded field (one cell per axis) whose values encode their
    // own physical indices.
    let n = 3usize;
    let mut data = Vec::new();
    for i in 0..n {
        let mut sheet = Vec::new();
        for j in 0..n {
            let mut row = Vec::new();
            for k in 0..n {
                row.push(Complex { re: (100 * i + 10 * j + k) as i64, im: 0 });
            }
            sheet.push(row);
        }
        data.push(sheet);
    }
    let f = PressureField { data, count0: n, count1: n, count2: n };
    // Plane X reads physical (depth, row, column) directly.
    let s = extract_pressure_slice(&f, Plane::X, FieldKind::PressureReal, 1);
    assert_eq!(s, vec![vec![111]]);
    // Plane Y swaps depth with the first physical axis: canonical
    // (1, row, column) addresses physical (row, 1, column).
    let s = extract_pressure_slice(&f, Plane::Y, FieldKind::PressureReal, 1);
    assert_eq!(s, vec![vec![111]]);
    // Plane Z swaps depth with the last physical axis.
    let s = extract_pressure_slice(&f, Plane::Z, FieldKind::PressureImag, 1);
    assert_eq!(s, vec![vec![0]]);
    // The magnitude kind takes the floor square root of |p|^2.
    let s = extract_pressure_slice(&f, Plane::X, FieldKind::PressureAbs, 1);
    assert_eq!(s, vec![vec![111]]);
}

#[test]
fn plan_covers_every_depth_and_kind() {
    let g = SimulationGeometry {
        plane: Plane::Z,
        begin: Point3 { x: -10_000, y: -10_000, z: 40_000 },
        end: Point3 { x: 10_000, y: 10_000, z: 60_000 },
        discretization: Discretization::CellSize(10_000),
        potential_const_1: 1_000_000,
        potential_const_2: 1_000_000,
    };
    // Three depth samples along plane Z, four field kinds.
    let jobs = plan_export_with_id(&g, 7);
    assert_eq!(jobs.len(), 12);
    assert_eq!(jobs[0].file_name, b"outputabs7_Z1.csv".to_vec());
    assert_eq!(jobs[0].depth, 1);
    assert_eq!(jobs[3].file_name, b"outputpotential7_Z1.csv".to_vec());
    assert_eq!(jobs[4].file_name, b"outputabs7_Z2.csv".to_vec());
    assert_eq!(jobs[11].file_name, b"outputpotential7_Z3.csv".to_vec());
    assert_eq!(jobs[11].depth, 3);

    // The divisions variant exports only the magnitude.
    let g = SimulationGeometry { discretization: Discretization::Divisions(2, 3, 4), ..g };
    let jobs = plan_export_with_id(&g, 9);
    // Plane Z: the depth axis is the physical z axis with four samples.
    assert_eq!(jobs.len(), 4);
    assert_eq!(jobs[0].file_name, b"outputabs9_Z1.csv".to_vec());
    assert_eq!(jobs[3].file_name, b"outputabs9_Z4.csv".to_vec());
}
