//! One dealing of plain secret sharing: split, evaluate, and reconstruct from
//! the first three shares.
use crate::bignum::BigNum;
use crate::error::SharingError;
use crate::secret_reconstruction::{distinct_upto, interpolate_at_zero, lemma_round_trip_three_shares, reconstruct_secret, xs_of, ys_of};
use crate::secret_splitting::{poly_eval, LagrangePolynomial, Shares};
use vstd::prelude::*;

verus! {

/// The number of shares that a dealing reconstructs from.
pub const K_SHARES: usize = 3;

/// The inputs of one dealing.
pub struct SharingDetails {
    pub secret: BigNum,
    pub no_of_shares: BigNum,
    pub threshold: BigNum,
}

/// What one dealing produced.
pub struct SharingRun {
    pub polynomial: LagrangePolynomial,
    pub shares: Shares,
    pub reconstructed: BigNum,
}

/// The shares of a dealing are the polynomial's values at `1, 2, ..., n`.
pub open spec fn dealt(polynomial: &LagrangePolynomial, shares: &Shares, n: int) -> bool {
    &&& shares.shares.len() == n
    &&& forall|i: int|
        0 <= i < n ==> {
            &&& (#[trigger] shares.shares[i]).x@ == i + 1
            &&& shares.shares[i].y@ == poly_eval(polynomial@, i + 1)
        }
}

/// The x-coordinates of a dealing's shares are pairwise distinct.
pub proof fn lemma_dealt_distinct(polynomial: &LagrangePolynomial, shares: &Shares, n: int)
    requires
        dealt(polynomial, shares, n),
    ensures
        distinct_upto(xs_of(shares.shares@), n),
{
    assert forall|a: int, b: int| 0 <= a < n && 0 <= b < n && a != b implies xs_of(
        shares.shares@,
    )[a] != xs_of(shares.shares@)[b] by {
        assert(shares.shares[a].x@ == a + 1);
        assert(shares.shares[b].x@ == b + 1);
    }
}

/// A dealing of at least three shares from a polynomial of at most three
/// coefficients is reconstructed from its first three shares.
pub proof fn lemma_dealing_round_trips(polynomial: &LagrangePolynomial, shares: &Shares, n: int)
    requires
        dealt(polynomial, shares, n),
        n >= K_SHARES,
        1 <= polynomial@.len() <= K_SHARES,
    ensures
        interpolate_at_zero(xs_of(shares.shares@), ys_of(shares.shares@), K_SHARES as nat)
            == polynomial@[0],
{
    let xs = xs_of(shares.shares@);
    let ys = ys_of(shares.shares@);
    assert forall|i: int| 0 <= i < 3 implies #[trigger] xs[i] == i + 1 && ys[i] == poly_eval(
        polynomial@,
        xs[i],
    ) by {
        assert(shares.shares[i].x@ == i + 1);
    }
    assert(xs[0] == 1 && xs[1] == 2 && xs[2] == 3);
    lemma_round_trip_three_shares(polynomial@, xs, ys);
}

/// A polynomial of `threshold` coefficients for `secret`, whose other
/// coefficients lie in `[1, p)`.
pub open spec fn secret_polynomial(polynomial: &LagrangePolynomial, secret: int, threshold: int, p: int) -> bool {
    &&& polynomial@.len() == threshold
    &&& polynomial@[0] == secret
    &&& forall|i: int| 1 <= i < polynomial@.len() ==> 1 <= #[trigger] polynomial@[i] < p
}

/// Deals `secret` into `no_of_shares` shares with the given threshold and
/// reconstructs it from the first three of them.
pub fn shamir_secret_sharing(
    secret: BigNum,
    no_of_shares: BigNum,
    threshold: BigNum,
    prime_modulus: i32,
) -> (r: Result<SharingRun, SharingError>)
    requires
        threshold@ >= 1,
        prime_modulus > 1,
        no_of_shares@ >= 1 && threshold@ <= K_SHARES ==> no_of_shares@ >= K_SHARES,
    ensures
        !(0 <= secret@ < prime_modulus) ==> r == Err::<SharingRun, SharingError>(
            SharingError::InvalidSecret,
        ),
        0 <= secret@ < prime_modulus && no_of_shares@ < 1 ==> r == Err::<SharingRun, SharingError>(
            SharingError::InvalidShareCount,
        ),
        0 <= secret@ < prime_modulus && no_of_shares@ >= 1 && threshold@ > K_SHARES ==> r == Err::<
            SharingRun,
            SharingError,
        >(SharingError::InsufficientShares),
        r is Ok <==> 0 <= secret@ < prime_modulus && no_of_shares@ >= 1 && threshold@ <= K_SHARES,
        r matches Ok(run) ==> {
            &&& secret_polynomial(&run.polynomial, secret@, threshold@, prime_modulus as int)
            &&& dealt(&run.polynomial, &run.shares, no_of_shares@)
            &&& run.reconstructed@ == interpolate_at_zero(
                xs_of(run.shares.shares@),
                ys_of(run.shares.shares@),
                K_SHARES as nat,
            )
            &&& run.reconstructed@ == secret@
        },
{
    let ghost s = secret@;
    let polynomial = match LagrangePolynomial::generate_polynomial(secret, threshold.copy(), prime_modulus) {
        Ok(p) => p,
        Err(e) => return Err(e),
    };
    let shares = match Shares::generate_n_shares(&polynomial, no_of_shares) {
        Ok(s) => s,
        Err(e) => return Err(e),
    };
    proof {
        lemma_dealt_distinct(&polynomial, &shares, no_of_shares@);
    }
    let reconstructed = match reconstruct_secret(&shares.shares, K_SHARES, threshold) {
        Ok(v) => v,
        Err(e) => return Err(e),
    };
    proof {
        lemma_dealing_round_trips(&polynomial, &shares, no_of_shares@);
    }
    Ok(SharingRun { polynomial, shares, reconstructed })
}

} // verus!
