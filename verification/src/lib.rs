//! Verified decision core of the PhotonLayer optical simulator.
//!
//! The numerical transforms of the simulator (complex FFTs, transfer kernels,
//! phase gradients, the optimiser) work on floating-point fields; they are run
//! by the embedding program. This crate holds, and proves, everything those
//! transforms are organised by: the power-of-two grid rule, the validation of
//! requests against a propagator's grid, the order of transforms that make up
//! each propagation operator and its adjoint, the FFT bin layout, and the
//! deterministic minibatch schedule of gradient training.
use vstd::prelude::*;

pub mod cascade;
pub mod error;
pub mod grid;
pub mod propagate;
pub mod schedule;

verus! {

} // verus!
