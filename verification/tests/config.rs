//! Validation checks for configuration packets.

use acoustic_field::data_structures::{
    ConfigPacket, Discretization, SimulationGeometry, Transducer,
};
use acoustic_field::geometry::Point3;
use acoustic_field::plane::Plane;

fn sample_transducer() -> Transducer {
    Transducer {
        id: String::from("t0"),
        position: Point3 { x: 0, y: 0, z: 0 },
        target: Point3 { x: 0, y: 0, z: 1_000_000 },
        radius: 5_000,
        phase_shift: 0,
        loss_factor: 1_000_000,
        output_power: 1_000_000,
        wavelength: 8_600,
    }
}

fn sample_geometry() -> SimulationGeometry {
    SimulationGeometry {
        plane: Plane::Z,
        begin: Point3 { x: -10_000, y: -10_000, z: 40_000 },
        end: Point3 { x: 10_000, y: 10_000, z: 60_000 },
        discretization: Discretization::CellSize(10_000),
        potential_const_1: 1_000_000,
        potential_const_2: 1_000_000,
    }
}

fn sample_config() -> ConfigPacket {
    ConfigPacket {
        transducers: vec![sample_transducer()],
        simulation_geometry: sample_geometry(),
    }
}

#[test]
fn default_packet_is_valid() {
    let c = ConfigPacket::new();
    assert!(c.validate());
    assert!(c.transducers.is_empty());
}

#[test]
fn sample_config_is_valid() {
    assert!(sample_config().validate());
}

#[test]
fn degenerate_axis_fails_validation() {
    let mut c = sample_config();
    c.transducers[0].target = c.transducers[0].position;
    assert!(!c.validate());
}

#[test]
fn out_of_range_loss_factor_fails_validation() {
    // A loss factor of 1.5.
    let mut c = sample_config();
    c.transducers[0].loss_factor = 1_500_000;
    assert!(!c.validate());
    let mut c = sample_config();
    c.transducers[0].loss_factor = -1;
    assert!(!c.validate());
}

#[test]
fn out_of_range_output_power_fails_validation() {
    // An output power of -0.1.
    let mut c = sample_config();
    c.transducers[0].output_power = -100_000;
    assert!(!c.validate());
    let mut c = sample_config();
    c.transducers[0].output_power = 1_000_001;
    assert!(!c.validate());
}

#[test]
fn non_positive_discretization_fails_validation() {
    let mut c = sample_config();
    c.simulation_geometry.discretization = Discretization::CellSize(0);
    assert!(!c.validate());
    let mut c = sample_config();
    c.simulation_geometry.discretization = Discretization::Divisions(3, 0, 3);
    assert!(!c.validate());
    let mut c = sample_config();
    c.simulation_geometry.discretization = Discretization::Divisions(1, 1, 1);
    assert!(c.validate());
}

#[test]
fn zero_radius_or_wavelength_fails_validation() {
    let mut c = sample_config();
    c.transducers[0].radius = 0;
    assert!(!c.validate());
    let mut c = sample_config();
    c.transducers[0].wavelength = 0;
    assert!(!c.validate());
}
