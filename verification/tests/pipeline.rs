//! End-to-end field computation: kernel inputs, outside evaluations done
//! here in floating point, assembly, potential, slices.

use acoustic_field::data_structures::{
    ConfigPacket, Discretization, SimulationGeometry, Transducer,
};
use acoustic_field::engine::{KernelInput, KernelOutput};
use acoustic_field::export::{extract_potential_slice, extract_pressure_slice, FieldKind};
use acoustic_field::field::{assemble_field, compute_kernel_inputs};
use acoustic_field::geometry::Point3;
use acoustic_field::plane::Plane;
use acoustic_field::potential::compute_potential_field;

const SCALE_F: f64 = 1_000_000.0;

/// First-order Bessel function of the first kind over its first lobe
/// (series expansion; ample for the small arguments these grids produce).
fn bessel_j1(x: f64) -> f64 {
    let half = x / 2.0;
    let mut term = half;
    let mut sum = term;
    for m in 1..25 {
        term *= -(half * half) / (m as f64 * (m as f64 + 1.0));
        sum += term;
    }
    sum
}

fn to_fixed_unit(v: f64) -> i64 {
    let r = (v * SCALE_F).round() as i64;
    r.clamp(-1_000_000, 1_000_000)
}

/// The three transcendental evaluations for one kernel input.
fn evaluate(inp: &KernelInput) -> KernelOutput {
    let directivity = if inp.on_axis {
        0
    } else {
        let x = inp.bessel_arg as f64 / SCALE_F;
        to_fixed_unit(2.0 * bessel_j1(x) / x)
    };
    let phase = inp.phase as f64 / SCALE_F;
    KernelOutput {
        directivity,
        phase_cos: to_fixed_unit(phase.cos()),
        phase_sin: to_fixed_unit(phase.sin()),
    }
}

fn evaluate_grid(inputs: &Vec<Vec<Vec<Vec<KernelInput>>>>) -> Vec<Vec<Vec<Vec<KernelOutput>>>> {
    inputs
        .iter()
        .map(|sheet| {
            sheet
                .iter()
                .map(|row| row.iter().map(|cell| cell.iter().map(evaluate).collect()).collect())
                .collect()
        })
        .collect()
}

fn single_transducer_config(output_power: i64) -> ConfigPacket {
    ConfigPacket {
        transducers: vec![Transducer {
            id: String::from("t0"),
            position: Point3 { x: 0, y: 0, z: 0 },
            target: Point3 { x: 0, y: 0, z: 1_000_000 },
            radius: 5_000,
            phase_shift: 0,
            loss_factor: 1_000_000,
            output_power,
            wavelength: 8_600,
        }],
        simulation_geometry: SimulationGeometry {
            plane: Plane::Z,
            begin: Point3 { x: -10_000, y: -10_000, z: 40_000 },
            end: Point3 { x: 10_000, y: 10_000, z: 60_000 },
            discretization: Discretization::CellSize(10_000),
            potential_const_1: 1_000_000,
            potential_const_2: 1_000_000,
        },
    }
}

#[test]
fn field_magnitude_rolls_off_and_decays() {
    let cfg = single_transducer_config(1_000_000);
    assert!(cfg.validate());
    let inputs = compute_kernel_inputs(&cfg).unwrap();
    let outs = evaluate_grid(&inputs);
    let field = assemble_field(&cfg, &inputs, &outs);
    // Three cells per axis plus one padding sample on each side.
    assert_eq!(field.count0, 5);
    assert_eq!(field.count1, 5);
    assert_eq!(field.count2, 5);

    let mut centers = Vec::new();
    for depth in 1..=3usize {
        let slice = extract_pressure_slice(&field, Plane::Z, FieldKind::PressureAbs, depth);
        assert_eq!(slice.len(), 3);
        assert_eq!(slice[0].len(), 3);
        // Directivity rolloff: on the cross-section the on-axis center is
        // the strongest sample.
        for b in 0..3 {
            for c in 0..3 {
                if (b, c) != (1, 1) {
                    assert!(slice[1][1] > slice[b][c]);
                }
            }
        }
        centers.push(slice[1][1]);
    }
    // Far-field falloff: the on-axis magnitude follows 1/d over depth.
    assert!(centers[0] > centers[1]);
    assert!(centers[1] > centers[2]);
}

#[test]
fn potential_is_finite_and_vanishes_without_power() {
    let cfg = single_transducer_config(1_000_000);
    let inputs = compute_kernel_inputs(&cfg).unwrap();
    let outs = evaluate_grid(&inputs);
    let field = assemble_field(&cfg, &inputs, &outs);
    let h = match cfg.simulation_geometry.discretization {
        Discretization::CellSize(h) => h,
        Discretization::Divisions(_, _, _) => unreachable!(),
    };
    let pot = compute_potential_field(&field, h, 1_000_000, 1_000_000);
    for i in 0..5 {
        for j in 0..5 {
            for k in 0..5 {
                let v = pot.get(i, j, k);
                assert!(v.abs() <= acoustic_field::potential::POTENTIAL_CAP);
            }
        }
    }
    // Some interior value is actually populated.
    assert!(pot.get(2, 2, 2) != 0);

    // With the transducer driven at zero power, pressure and potential
    // vanish identically, whatever the evaluations returned.
    let cfg = single_transducer_config(0);
    let inputs = compute_kernel_inputs(&cfg).unwrap();
    let outs = evaluate_grid(&inputs);
    let field = assemble_field(&cfg, &inputs, &outs);
    for i in 0..5 {
        for j in 0..5 {
            for k in 0..5 {
                let v = field.get(i, j, k);
                assert_eq!(v.re, 0);
                assert_eq!(v.im, 0);
            }
        }
    }
    let pot = compute_potential_field(&field, h, 1_000_000, 1_000_000);
    for i in 0..5 {
        for j in 0..5 {
            for k in 0..5 {
                assert_eq!(pot.get(i, j, k), 0);
            }
        }
    }
    let slice = extract_potential_slice(&pot, Plane::Z, 2);
    assert!(slice.iter().all(|row| row.iter().all(|v| *v == 0)));
}

#[test]
fn coincident_sample_point_fails_computation() {
    // A transducer sitting exactly on a grid sample: the computation is
    // refused with a message instead of dividing by zero.
    let mut cfg = single_transducer_config(1_000_000);
    cfg.transducers[0].position = Point3 { x: 0, y: 0, z: 50_000 };
    cfg.transducers[0].target = Point3 { x: 0, y: 0, z: 1_000_000 };
    assert!(cfg.validate());
    let r = compute_kernel_inputs(&cfg);
    assert!(r.is_err());
    assert!(!r.err().unwrap().message().is_empty());
}
