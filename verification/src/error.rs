//! Errors reported by the propagation core.
use vstd::prelude::*;

verus! {

/// Why a propagation request was refused.
#[derive(Debug, PartialEq, Eq)]
pub enum PhotonError {
    /// A grid dimension is not a power of two (the FFT needs one).
    NotPowerOfTwo(usize),
    /// A field does not have the number of samples the operator expects.
    DimensionMismatch { expected: usize, got: usize },
    /// The configuration asks for an operator the core does not provide.
    InvalidConfig(String),
}

} // verus!
