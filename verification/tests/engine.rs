//! Kernel, contribution, and potential-stage checks.

use acoustic_field::engine::{
    compute_contribution, compute_kernel_input, compute_point_pressure, Complex, KernelOutput,
};
use acoustic_field::field::PressureField;
use acoustic_field::geometry::Point3;
use acoustic_field::data_structures::Transducer;
use acoustic_field::potential::{compute_diff_quot, compute_potential_field};

fn transducer_at_origin() -> Transducer {
    Transducer {
        id: String::from("t0"),
        position: Point3 { x: 0, y: 0, z: 0 },
        target: Point3 { x: 0, y: 0, z: 1_000_000 },
        radius: 5_000,
        phase_shift: 0,
        loss_factor: 1_000_000,
        output_power: 1_000_000,
        wavelength: 8_600,
    }
}

#[test]
fn on_axis_point_is_flagged() {
    let t = transducer_at_origin();
    // A point on the acoustic axis, ahead of and behind the target.
    for z in [500_000i64, 1_000_000, 50_000_000, -3_000_000] {
        let inp = compute_kernel_input(&t, &Point3 { x: 0, y: 0, z }).unwrap();
        assert!(inp.on_axis);
        assert_eq!(inp.bessel_arg, 0);
    }
    // A point well off the axis is not.
    let inp = compute_kernel_input(&t, &Point3 { x: 50_000, y: 0, z: 50_000 }).unwrap();
    assert!(!inp.on_axis);
    assert!(inp.bessel_arg > 0);
}

#[test]
fn coincident_point_is_refused() {
    let t = transducer_at_origin();
    assert!(compute_kernel_input(&t, &Point3 { x: 0, y: 0, z: 0 }).is_none());
    // So close that the 1/d amplitude overflows the fixed-point range: also
    // refused.
    assert!(compute_kernel_input(&t, &Point3 { x: 1, y: 0, z: 0 }).is_none());
    assert!(compute_kernel_input(&t, &Point3 { x: 1_000, y: 0, z: 0 }).is_some());
}

#[test]
fn on_axis_directivity_is_one_exactly() {
    let t = transducer_at_origin();
    let inp = compute_kernel_input(&t, &Point3 { x: 0, y: 0, z: 50_000 }).unwrap();
    assert!(inp.on_axis);
    // Whatever directivity value is supplied, on axis the factor is one:
    // with a phase cosine of one the real part is the amplitude itself.
    for garbage in [-1_000_000i64, 0, 123, 1_000_000] {
        let out = KernelOutput { directivity: garbage, phase_cos: 1_000_000, phase_sin: 0 };
        let c = compute_contribution(&inp, &out);
        assert_eq!(c.re, inp.amplitude);
        assert_eq!(c.im, 0);
    }
}

#[test]
fn zero_power_contribution_is_zero() {
    let mut t = transducer_at_origin();
    t.output_power = 0;
    let inp = compute_kernel_input(&t, &Point3 { x: 7_000, y: -9_000, z: 44_000 }).unwrap();
    assert_eq!(inp.amplitude, 0);
    let out = KernelOutput { directivity: 999_999, phase_cos: -888_888, phase_sin: 777_777 };
    let c = compute_contribution(&inp, &out);
    assert_eq!(c.re, 0);
    assert_eq!(c.im, 0);
}

#[test]
fn point_pressure_composes_kernel_and_contribution() {
    let t = transducer_at_origin();
    let point = Point3 { x: 0, y: 0, z: 50_000 };
    // On axis with cosine one and sine zero the pressure is the bare
    // amplitude: 1 / 0.05 = 20 units.
    let out = KernelOutput { directivity: 0, phase_cos: 1_000_000, phase_sin: 0 };
    let c = compute_point_pressure(&point, &t, &out).unwrap();
    assert_eq!(c, Complex { re: 20_000_000, im: 0 });
    // A coincident point yields nothing.
    assert!(compute_point_pressure(&Point3 { x: 0, y: 0, z: 0 }, &t, &out).is_none());
}

#[test]
fn amplitude_follows_inverse_distance() {
    let t = transducer_at_origin();
    // 1 / d, fixed-point and floored: at d = 0.05 units the amplitude of a
    // fully driven transducer is 20.
    let inp = compute_kernel_input(&t, &Point3 { x: 0, y: 0, z: 50_000 }).unwrap();
    assert_eq!(inp.amplitude, 20_000_000);
    let far = compute_kernel_input(&t, &Point3 { x: 0, y: 0, z: 100_000 }).unwrap();
    assert_eq!(far.amplitude, 10_000_000);
    assert!(far.amplitude < inp.amplitude);
}

#[test]
fn diff_quot_is_exact() {
    // (9 - 3) / (2 * 1.5) = 2, all in fixed-point units.
    assert_eq!(compute_diff_quot(3_000_000, 9_000_000, 1_500_000), 2_000_000);
    assert_eq!(compute_diff_quot(9_000_000, 3_000_000, 1_500_000), -2_000_000);
    // Truncates toward zero, so swapping the samples negates the quotient
    // exactly, also where the quotient is not a whole step.
    assert_eq!(compute_diff_quot(0, 1, 1_000_000), 0);
    assert_eq!(compute_diff_quot(1, 0, 1_000_000), 0);
    assert_eq!(compute_diff_quot(0, 3_000_000, 1_000_000), 1_500_000);
    assert_eq!(compute_diff_quot(3_000_000, 0, 1_000_000), -1_500_000);
    // Equal samples give a zero quotient.
    assert_eq!(compute_diff_quot(7_000_000, 7_000_000, 2_000_000), 0);
}

fn constant_field(re: i64, im: i64, n: usize) -> PressureField {
    let data = vec![vec![vec![Complex { re, im }; n]; n]; n];
    PressureField { data, count0: n, count1: n, count2: n }
}

#[test]
fn potential_of_constant_field() {
    // A constant field of magnitude one: every derivative vanishes and the
    // potential is 2 * C1 * |p|^2 = 2.
    let f = constant_field(1_000_000, 0, 3);
    let p = compute_potential_field(&f, 10_000, 1_000_000, 1_000_000);
    assert_eq!(p.get(1, 1, 1), 2_000_000);
    // The padding border stays zero.
    assert_eq!(p.get(0, 1, 1), 0);
    assert_eq!(p.get(2, 2, 2), 0);
}

#[test]
fn potential_gradient_term_subtracts() {
    // A field rising linearly along one axis: the derivative term pulls
    // the potential down.
    let n = 3usize;
    let mut data = Vec::new();
    for i in 0..n {
        let re = (i as i64) * 1_000_000;
        data.push(vec![vec![Complex { re, im: 0 }; n]; n]);
    }
    let f = PressureField { data, count0: n, count1: n, count2: n };
    // Step 1.0: d|p|/dx = (2 - 0) / 2 = 1; center |p|^2 = 1.
    let p = compute_potential_field(&f, 1_000_000, 1_000_000, 1_000_000);
    // 2 * 1 * 1 - 2 * 1 * 1 = 0.
    assert_eq!(p.get(1, 1, 1), 0);
    // With a heavier dipole weight the potential turns negative.
    let p = compute_potential_field(&f, 1_000_000, 1_000_000, 2_000_000);
    assert_eq!(p.get(1, 1, 1), -2_000_000);
}
