//! Threshold secret sharing over arbitrary-precision integers, with
//! Feldman-style commitments that let a holder check a share.
pub mod bignum;
pub mod error;
pub mod secret_reconstruction;
pub mod secret_share_verification;
pub mod secret_splitting;
pub mod sss;
pub mod vss;

pub use bignum::BigNum;
pub use error::SharingError;
pub use secret_reconstruction::{reconstruct_secret, Fraction};
pub use secret_share_verification::Commitments;
pub use secret_splitting::{LagrangePolynomial, Share, Shares};
