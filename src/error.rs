//! The ways in which a sharing operation can be refused.
use vstd::prelude::*;

verus! {

/// Why a sharing operation returned no result.
#[derive(Clone, Copy, Debug, PartialEq, Eq, Structural)]
pub enum SharingError {
    /// The secret is negative or not below the prime modulus.
    InvalidSecret,
    /// Fewer than one share was asked for.
    InvalidShareCount,
    /// Commitments were asked for on a polynomial with no coefficients.
    EmptyPolynomial,
    /// Fewer shares were supplied than the threshold.
    InsufficientShares,
}

} // verus!
