//! The radiation model: what one transducer contributes at one point.
//!
//! A transducer is a circular piston radiator.  At a sample point the
//! engine derives, by exact fixed-point arithmetic, everything the
//! radiation formula needs except three transcendental evaluations — the
//! first-order Bessel function for the off-axis directivity and the cosine
//! and sine of the phase angle.  Those three values the caller evaluates
//! outside and hands back; the engine then forms the complex contribution
//!
//! `output_power * loss_factor * directivity / distance * exp(i * (wave_number * distance + phase_shift))`
//!
//! exactly as specified here, with every rounding step pinned down.

use vstd::prelude::*;

verus! {

use crate::data_structures::Transducer;
use crate::data_structures::transducer_valid;
use crate::geometry::{
    angle_cosine_spec,
    collinear_from,
    compute_angle_cosine,
    compute_distance_between,
    dist_sq,
    is_sqrt_floor,
    isqrt_u128,
    lemma_dist_sq_zero_iff_equal,
    lemma_sqrt_floor_bound,
    lemma_sqrt_floor_unique,
    lemma_sqrt_floor_val,
    lemma_sqrt_floor_zero,
    sqrt_floor_val,
    Point3,
};
use crate::math::{
    div_floor_i128,
    floor_div,
    fx_mul,
    lemma_div_in_range,
    lemma_div_magnitude,
    lemma_mul_bounds,
    mod_euclid,
    mul_div_floor,
    SCALE,
};

/// The engine's fixed-point value of pi.
pub const PI_FIXED: i64 = 3_141_593;

/// The engine's fixed-point value of two pi: the wave number is
/// `TWO_PI_FIXED / wavelength`, and phases are reduced into
/// `[0, TWO_PI_FIXED)`.
pub const TWO_PI_FIXED: i64 = 2 * PI_FIXED;

/// Largest admissible contribution amplitude (`1000` physical units,
/// fixed-point).  A sample point so close to a transducer that the `1/d`
/// amplitude exceeds this cap is refused instead of silently overflowing.
pub const AMP_CAP: i64 = 1_000_000_000;

/// A complex number, both parts fixed-point.
#[derive(Clone, Copy, Debug, PartialEq, Eq, Structural)]
pub struct Complex {
    pub re: i64,
    pub im: i64,
}

/// What the engine derives exactly for one (transducer, point) pair: the
/// inputs of the three transcendental evaluations done outside.
#[derive(Clone, Copy, Debug, PartialEq, Eq, Structural)]
pub struct KernelInput {
    /// The directivity argument vanished: the directivity factor is one
    /// exactly and no Bessel evaluation is wanted.
    pub on_axis: bool,
    /// Argument of the off-axis directivity factor
    /// `2 * J1(bessel_arg) / bessel_arg`: wave number times aperture radius
    /// times the sine of the off-axis angle.
    pub bessel_arg: i64,
    /// Phase angle `wave_number * distance + phase_shift`, reduced into
    /// `[0, TWO_PI_FIXED)` (radians, fixed-point).
    pub phase: i64,
    /// Amplitude `output_power * loss_factor / distance` (fixed-point).
    pub amplitude: i64,
}

impl KernelInput {
    /// The field ranges every kernel input the engine hands out satisfies.
    pub open spec fn wf(self) -> bool {
        &&& 0 <= self.amplitude <= AMP_CAP
        &&& 0 <= self.phase < TWO_PI_FIXED
        &&& 0 <= self.bessel_arg
    }
}

/// The three transcendental values evaluated outside for one kernel input:
/// the directivity factor and the cosine and sine of the phase angle, all
/// fixed-point in `[-SCALE, SCALE]`.
#[derive(Clone, Copy, Debug, PartialEq, Eq, Structural)]
pub struct KernelOutput {
    /// `2 * J1(bessel_arg) / bessel_arg`, or anything when `on_axis` (the
    /// engine then uses one exactly).
    pub directivity: i64,
    /// Cosine of the phase angle.
    pub phase_cos: i64,
    /// Sine of the phase angle.
    pub phase_sin: i64,
}

impl KernelOutput {
    /// The ranges a caller must respect: a true directivity factor, cosine
    /// and sine all lie in `[-1, 1]`.
    pub open spec fn wf(self) -> bool {
        &&& -SCALE <= self.directivity <= SCALE
        &&& -SCALE <= self.phase_cos <= SCALE
        &&& -SCALE <= self.phase_sin <= SCALE
    }
}

/// Fixed-point wave number `2 * pi / wavelength`.
pub open spec fn wave_number_spec(wavelength: int) -> int {
    floor_div(TWO_PI_FIXED as int * SCALE as int, wavelength)
}

/// Fixed-point sine of the angle at the transducer between its acoustic
/// axis and the direction toward `p`: zero exactly when the three points
/// are collinear, else `sqrt(1 - cos^2)` over the scaled angle cosine.
pub open spec fn sin_theta_spec(t: Transducer, p: Point3) -> int {
    if collinear_from(t.position, t.target, p) {
        0
    } else {
        let c = angle_cosine_spec(t.position, t.target, p);
        sqrt_floor_val(SCALE as int * SCALE as int - c * c)
    }
}

/// Argument of the directivity factor: wave number times aperture radius
/// times the sine of the off-axis angle, all fixed-point.
pub open spec fn bessel_arg_spec(t: Transducer, p: Point3) -> int {
    fx_mul(fx_mul(wave_number_spec(t.wavelength as int), t.radius as int), sin_theta_spec(t, p))
}

/// Fixed-point distance from the transducer to the point.
pub open spec fn distance_spec(t: Transducer, p: Point3) -> int {
    sqrt_floor_val(dist_sq(t.position, p))
}

/// Contribution amplitude `output_power * loss_factor / distance`.
pub open spec fn amplitude_spec(t: Transducer, p: Point3) -> int {
    floor_div(fx_mul(t.output_power as int, t.loss_factor as int) * SCALE as int, distance_spec(t, p))
}

/// Phase angle `wave_number * distance + phase_shift`, reduced into
/// `[0, TWO_PI_FIXED)`.
pub open spec fn phase_spec(t: Transducer, p: Point3) -> int {
    (floor_div(wave_number_spec(t.wavelength as int) * distance_spec(t, p), SCALE as int)
        + t.phase_shift as int) % (TWO_PI_FIXED as int)
}

/// The kernel input the engine derives for one (transducer, point) pair.
pub open spec fn kernel_input_spec(t: Transducer, p: Point3) -> KernelInput {
    KernelInput {
        on_axis: bessel_arg_spec(t, p) == 0,
        bessel_arg: bessel_arg_spec(t, p) as i64,
        phase: phase_spec(t, p) as i64,
        amplitude: amplitude_spec(t, p) as i64,
    }
}

/// The pair is admissible: the point does not coincide with the transducer
/// and the `1/d` amplitude stays within the fixed-point range.
pub open spec fn kernel_admissible(t: Transducer, p: Point3) -> bool {
    p != t.position && amplitude_spec(t, p) <= AMP_CAP as int
}

/// Derives the kernel input for one transducer at one sample point, or
/// nothing exactly when the pair is inadmissible (the point sits on the
/// transducer, or so close that the amplitude overflows).
pub fn compute_kernel_input(t: &Transducer, p: &Point3) -> (r: Option<KernelInput>)
    requires
        transducer_valid(*t),
        p.in_bounds(),
    ensures
        r is Some <==> kernel_admissible(*t, *p),
        r is Some ==> r->Some_0 == kernel_input_spec(*t, *p) && r->Some_0.wf(),
{
    if p.x == t.position.x && p.y == t.position.y && p.z == t.position.z {
        return None;
    }
    proof {
        lemma_dist_sq_zero_iff_equal(t.position, *p);
    }
    let d = compute_distance_between(&t.position, p);
    proof {
        lemma_sqrt_floor_zero(dist_sq(t.position, *p), d as int);
        lemma_mul_bounds(t.output_power as int, t.loss_factor as int, SCALE as int, SCALE as int);
        lemma_div_magnitude(t.output_power as int * t.loss_factor as int, SCALE as int, SCALE as int);
    }
    let pl = mul_div_floor(t.output_power, t.loss_factor, SCALE);
    proof {
        lemma_div_in_range(t.output_power as int * t.loss_factor as int, SCALE as int);
        lemma_mul_bounds(pl as int, SCALE as int, SCALE as int, SCALE as int);
        lemma_div_in_range(pl as int * SCALE as int, d as int);
    }
    let amp = mul_div_floor(pl, SCALE, d);
    if amp > AMP_CAP {
        return None;
    }
    let ux = t.target.x - t.position.x;
    let uy = t.target.y - t.position.y;
    let uz = t.target.z - t.position.z;
    let vx = p.x - t.position.x;
    let vy = p.y - t.position.y;
    let vz = p.z - t.position.z;
    proof {
        lemma_mul_bounds(uy as int, vz as int, 2_000_000_000, 9_000_000_000);
        lemma_mul_bounds(uz as int, vy as int, 2_000_000_000, 9_000_000_000);
        lemma_mul_bounds(uz as int, vx as int, 2_000_000_000, 9_000_000_000);
        lemma_mul_bounds(ux as int, vz as int, 2_000_000_000, 9_000_000_000);
        lemma_mul_bounds(ux as int, vy as int, 2_000_000_000, 9_000_000_000);
        lemma_mul_bounds(uy as int, vx as int, 2_000_000_000, 9_000_000_000);
    }
    let cx: i128 = (uy as i128) * (vz as i128) - (uz as i128) * (vy as i128);
    let cy: i128 = (uz as i128) * (vx as i128) - (ux as i128) * (vz as i128);
    let cz: i128 = (ux as i128) * (vy as i128) - (uy as i128) * (vx as i128);
    let s: i64 = if cx == 0 && cy == 0 && cz == 0 {
        0
    } else {
        let c = compute_angle_cosine(&t.position, &t.target, p);
        proof {
            lemma_mul_bounds(c as int, c as int, SCALE as int, SCALE as int);
            assert((c as int) * (c as int) <= SCALE as int * SCALE as int) by (nonlinear_arith)
                requires
                    -SCALE <= c <= SCALE;
        }
        let sq: i128 = (SCALE as i128) * (SCALE as i128) - (c as i128) * (c as i128);
        let root = isqrt_u128(sq as u128);
        proof {
            assert(0 <= (c as int) * (c as int)) by (nonlinear_arith);
            lemma_sqrt_floor_bound(sq as int, root as int, SCALE as int);
            lemma_sqrt_floor_val(sq as int);
            lemma_sqrt_floor_unique(sq as int, root as int, sqrt_floor_val(sq as int));
        }
        root as i64
    };
    proof {
        assert(s as int == sin_theta_spec(*t, *p));
    }
    proof {
        lemma_div_in_range(TWO_PI_FIXED as int * SCALE as int, t.wavelength as int);
    }
    let k = mul_div_floor(TWO_PI_FIXED, SCALE, t.wavelength);
    proof {
        lemma_mul_bounds(k as int, t.radius as int, 6_283_186_000_000, 1_000_000_000);
        lemma_div_magnitude(k as int * t.radius as int, SCALE as int, 6_283_186_000_000_000);
    }
    let kr = mul_div_floor(k, t.radius, SCALE);
    proof {
        lemma_mul_bounds(kr as int, s as int, 6_283_186_000_000_000, SCALE as int);
        lemma_div_magnitude(kr as int * s as int, SCALE as int, 6_283_186_000_000_000);
    }
    let x = mul_div_floor(kr, s, SCALE);
    proof {
        lemma_mul_bounds(k as int, d as int, 6_283_186_000_000, 32_000_000_000);
        lemma_div_magnitude(k as int * d as int, SCALE as int, 201_061_952_000_000_000);
    }
    let kd128: i128 = (k as i128) * (d as i128);
    let kd = div_floor_i128(kd128, SCALE as i128);
    let ph = mod_euclid((kd as i64) + t.phase_shift, TWO_PI_FIXED);
    Some(KernelInput { on_axis: x == 0, bessel_arg: x, phase: ph, amplitude: amp })
}

/// The directivity factor the contribution uses: one exactly on axis, else
/// the supplied off-axis value.
pub open spec fn dir_used_spec(inp: KernelInput, out: KernelOutput) -> int {
    if inp.on_axis {
        SCALE as int
    } else {
        out.directivity as int
    }
}

/// Real part of the complex contribution: amplitude times directivity
/// times the cosine of the phase angle, fixed-point.
pub open spec fn contrib_re_spec(inp: KernelInput, out: KernelOutput) -> int {
    fx_mul(fx_mul(inp.amplitude as int, dir_used_spec(inp, out)), out.phase_cos as int)
}

/// Imaginary part of the complex contribution: amplitude times directivity
/// times the sine of the phase angle, fixed-point.
pub open spec fn contrib_im_spec(inp: KernelInput, out: KernelOutput) -> int {
    fx_mul(fx_mul(inp.amplitude as int, dir_used_spec(inp, out)), out.phase_sin as int)
}

/// Forms the complex pressure contribution of one transducer at one point
/// from its kernel input and the three outside evaluations.
pub fn compute_contribution(inp: &KernelInput, out: &KernelOutput) -> (r: Complex)
    requires
        inp.wf(),
        out.wf(),
    ensures
        r.re == contrib_re_spec(*inp, *out),
        r.im == contrib_im_spec(*inp, *out),
        -AMP_CAP <= r.re <= AMP_CAP,
        -AMP_CAP <= r.im <= AMP_CAP,
{
    let dir: i64 = if inp.on_axis {
        SCALE
    } else {
        out.directivity
    };
    proof {
        lemma_mul_bounds(inp.amplitude as int, dir as int, AMP_CAP as int, SCALE as int);
        lemma_div_magnitude(inp.amplitude as int * dir as int, SCALE as int, AMP_CAP as int);
    }
    let base = mul_div_floor(inp.amplitude, dir, SCALE);
    proof {
        lemma_mul_bounds(base as int, out.phase_cos as int, AMP_CAP as int, SCALE as int);
        lemma_div_magnitude(base as int * out.phase_cos as int, SCALE as int, AMP_CAP as int);
        lemma_mul_bounds(base as int, out.phase_sin as int, AMP_CAP as int, SCALE as int);
        lemma_div_magnitude(base as int * out.phase_sin as int, SCALE as int, AMP_CAP as int);
    }
    let re = mul_div_floor(base, out.phase_cos, SCALE);
    let im = mul_div_floor(base, out.phase_sin, SCALE);
    Complex { re, im }
}

/// The complex pressure contribution of one transducer at one point,
/// given the three outside evaluations for the pair: the kernel derivation
/// and the contribution formula in one step.  Nothing exactly when the
/// pair is inadmissible.
pub fn compute_point_pressure(point: &Point3, transducer: &Transducer, out: &KernelOutput) -> (r: Option<Complex>)
    requires
        transducer_valid(*transducer),
        point.in_bounds(),
        out.wf(),
    ensures
        r is Some <==> kernel_admissible(*transducer, *point),
        r is Some ==> {
            let inp = kernel_input_spec(*transducer, *point);
            r->Some_0.re == contrib_re_spec(inp, *out) && r->Some_0.im == contrib_im_spec(inp, *out)
        },
{
    match compute_kernel_input(transducer, point) {
        Some(inp) => Some(compute_contribution(&inp, out)),
        None => None,
    }
}

/// A point on the acoustic axis gives a vanishing directivity argument, so
/// the kernel input is flagged on-axis.
pub proof fn lemma_collinear_is_on_axis(t: Transducer, p: Point3)
    requires
        collinear_from(t.position, t.target, p),
    ensures
        sin_theta_spec(t, p) == 0,
        bessel_arg_spec(t, p) == 0,
        kernel_input_spec(t, p).on_axis,
{
    let kr = fx_mul(wave_number_spec(t.wavelength as int), t.radius as int);
    assert(kr * 0 == 0) by (nonlinear_arith);
    vstd::arithmetic::div_mod::lemma_div_of0(SCALE as int);
}

/// On axis the directivity factor is one exactly: the contribution is the
/// amplitude times the phase factor, independent of aperture and
/// wavelength, and untouched by the directivity multiplication.
pub proof fn lemma_on_axis_directivity_is_one(inp: KernelInput, out: KernelOutput)
    requires
        inp.on_axis,
    ensures
        dir_used_spec(inp, out) == SCALE as int,
        contrib_re_spec(inp, out) == fx_mul(inp.amplitude as int, out.phase_cos as int),
        contrib_im_spec(inp, out) == fx_mul(inp.amplitude as int, out.phase_sin as int),
{
    vstd::arithmetic::div_mod::lemma_div_multiples_vanish(inp.amplitude as int, SCALE as int);
    assert(inp.amplitude as int * SCALE as int == SCALE as int * inp.amplitude as int)
        by (nonlinear_arith);
}

/// A transducer driven with zero output power contributes exactly nothing,
/// whatever the outside evaluations returned.
pub proof fn lemma_zero_power_zero_contribution(t: Transducer, p: Point3, out: KernelOutput)
    requires
        t.output_power == 0,
        p != t.position,
    ensures
        amplitude_spec(t, p) == 0,
        kernel_input_spec(t, p).amplitude == 0,
        contrib_re_spec(kernel_input_spec(t, p), out) == 0,
        contrib_im_spec(kernel_input_spec(t, p), out) == 0,
{
    assert(0 * t.loss_factor as int == 0) by (nonlinear_arith);
    vstd::arithmetic::div_mod::lemma_div_of0(SCALE as int);
    assert(fx_mul(0, t.loss_factor as int) == 0);
    let d = distance_spec(t, p);
    assert(floor_div(0 * SCALE as int, d) == 0) by {
        lemma_dist_sq_zero_iff_equal(t.position, p);
        lemma_sqrt_floor_val(dist_sq(t.position, p));
        lemma_sqrt_floor_zero(dist_sq(t.position, p), d);
        assert(0 * SCALE as int == 0) by (nonlinear_arith);
        vstd::arithmetic::div_mod::lemma_div_of0(d);
    }
    let inp = kernel_input_spec(t, p);
    assert(inp.amplitude as int * dir_used_spec(inp, out) == 0) by (nonlinear_arith)
        requires
            inp.amplitude == 0;
    assert(fx_mul(0, out.phase_cos as int) == 0) by {
        assert(0 * out.phase_cos as int == 0) by (nonlinear_arith);
    }
    assert(fx_mul(0, out.phase_sin as int) == 0) by {
        assert(0 * out.phase_sin as int == 0) by (nonlinear_arith);
    }
}

} // verus!
