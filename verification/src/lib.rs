//! An acoustic radiation-field engine for arrays of ultrasonic piston
//! transducers: grid sampling, the per-transducer radiation and directivity
//! model, superposition into a dense complex pressure field, a
//! finite-difference radiation-potential stage, and plane-slice extraction
//! with delimited-text rendering for export.
//!
//! Every physical quantity is carried as a fixed-point integer counting
//! millionths of its physical unit, so the whole pipeline is exact integer
//! arithmetic with pinned-down floor rounding — except three transcendental
//! factors per (cell, transducer) pair (the Bessel directivity factor and
//! the phase cosine and sine), which the engine derives the arguments for
//! and receives back as plain values from its caller.

pub mod data_structures;
pub mod engine;
pub mod export;
pub mod field;
pub mod geometry;
pub mod laws;
pub mod math;
pub mod plane;
pub mod potential;
pub mod sampling;
