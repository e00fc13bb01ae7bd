//! Errors that the fee configuration reports to its callers.

use vstd::prelude::*;

verus! {

/// Why a fee configuration was turned down.
#[derive(Clone, Copy, Debug, PartialEq, Eq, Structural)]
pub enum SwapError {
    /// The fee rate is above one: its numerator exceeds its denominator.
    InvalidFee,
}

/// Why a byte buffer could not be read as a stored record.
#[derive(Clone, Copy, Debug, PartialEq, Eq, Structural)]
pub enum UnpackError {
    /// The buffer does not have the exact length of the packed record.
    InvalidLength,
}

} // verus!
