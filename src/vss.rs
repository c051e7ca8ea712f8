//! One dealing of verifiable secret sharing: split, commit, check every
//! share, and reconstruct from the first three shares.
use crate::bignum::BigNum;
use crate::error::SharingError;
use crate::secret_reconstruction::{interpolate_at_zero, reconstruct_secret, xs_of, ys_of};
use crate::secret_share_verification::{
    commitment_values, lemma_genuine_share_verifies, share_is_valid, Commitments,
};
use vstd::arithmetic::power::pow;
use crate::secret_splitting::{LagrangePolynomial, Shares};
use crate::sss::{
    dealt, lemma_dealing_round_trips, lemma_dealt_distinct, secret_polynomial, K_SHARES,
};
use vstd::prelude::*;

verus! {

/// The public base that a dealing commits with.
pub const GENERATOR: i64 = 5;

/// A power grows with its base.
proof fn lemma_pow_base_monotone(x: int, n: int, e: nat)
    requires
        1 <= x <= n,
    ensures
        1 <= pow(x, e) <= pow(n, e),
    decreases e,
{
    reveal(pow);
    if e > 0 {
        lemma_pow_base_monotone(x, n, (e - 1) as nat);
        let (a, b) = (pow(x, (e - 1) as nat), pow(n, (e - 1) as nat));
        assert(1 <= x * a <= n * b) by (nonlinear_arith)
            requires 1 <= x <= n, 1 <= a <= b;
    }
}

/// What one verifiable dealing produced.
pub struct VerifiableRun {
    pub polynomial: LagrangePolynomial,
    pub shares: Shares,
    pub commitments: Commitments,
    /// Whether each share passed the check, in the order of the shares.
    pub validations: Vec<bool>,
    pub reconstructed: BigNum,
}

/// Deals `secret` into `no_of_shares` shares, commits to the polynomial,
/// checks every share against the commitments, and reconstructs the secret
/// from the first three shares.
pub fn verifiable_secret_sharing(
    secret: BigNum,
    no_of_shares: BigNum,
    threshold: BigNum,
    prime_modulus: i32,
) -> (r: Result<VerifiableRun, SharingError>)
    requires
        threshold@ >= 1,
        prime_modulus > 1,
        no_of_shares@ >= 1 && threshold@ <= K_SHARES ==> no_of_shares@ >= K_SHARES,
    ensures
        !(0 <= secret@ < prime_modulus) ==> r == Err::<VerifiableRun, SharingError>(
            SharingError::InvalidSecret,
        ),
        0 <= secret@ < prime_modulus && no_of_shares@ < 1 ==> r == Err::<VerifiableRun, SharingError>(
            SharingError::InvalidShareCount,
        ),
        0 <= secret@ < prime_modulus && no_of_shares@ >= 1 && threshold@ > K_SHARES ==> r == Err::<
            VerifiableRun,
            SharingError,
        >(SharingError::InsufficientShares),
        r is Ok <==> 0 <= secret@ < prime_modulus && no_of_shares@ >= 1 && threshold@ <= K_SHARES,
        r matches Ok(run) ==> {
            &&& secret_polynomial(&run.polynomial, secret@, threshold@, prime_modulus as int)
            &&& dealt(&run.polynomial, &run.shares, no_of_shares@)
            &&& run.commitments@ == commitment_values(
                GENERATOR as int,
                run.polynomial@,
                prime_modulus as int,
            )
            &&& run.validations.len() == run.shares.shares.len()
            &&& forall|i: int|
                0 <= i < run.validations.len() ==> #[trigger] run.validations[i] == share_is_valid(
                    run.shares.shares[i].x@,
                    run.shares.shares[i].y@,
                    GENERATOR as int,
                    run.commitments@,
                    prime_modulus as int,
                )
            &&& run.reconstructed@ == interpolate_at_zero(
                xs_of(run.shares.shares@),
                ys_of(run.shares.shares@),
                K_SHARES as nat,
            )
            &&& run.reconstructed@ == secret@
            &&& pow(no_of_shares@, (threshold@ - 1) as nat) < prime_modulus ==> forall|i: int|
                0 <= i < run.validations.len() ==> #[trigger] run.validations[i]
        },
{
    let generator = BigNum::from_i64(GENERATOR);
    let polynomial = match LagrangePolynomial::generate_polynomial(secret, threshold.copy(), prime_modulus) {
        Ok(p) => p,
        Err(e) => return Err(e),
    };
    let shares = match Shares::generate_n_shares(&polynomial, no_of_shares) {
        Ok(s) => s,
        Err(e) => return Err(e),
    };
    let commitments = match Commitments::generate_commitments(&generator, &polynomial, prime_modulus) {
        Ok(c) => c,
        Err(e) => return Err(e),
    };
    let mut validations: Vec<bool> = Vec::new();
    let mut k: usize = 0;
    while k < shares.shares.len()
        invariant
            k <= shares.shares.len(),
            prime_modulus > 1,
            generator@ == GENERATOR,
            validations.len() == k,
            forall|i: int|
                0 <= i < k ==> #[trigger] validations[i] == share_is_valid(
                    shares.shares[i].x@,
                    shares.shares[i].y@,
                    GENERATOR as int,
                    commitments@,
                    prime_modulus as int,
                ),
        decreases shares.shares.len() - k,
    {
        let share = &shares.shares[k];
        validations.push(
            Commitments::verify_share(&share.x, &share.y, &generator, &commitments, prime_modulus),
        );
        k = k + 1;
    }
    proof {
        lemma_dealt_distinct(&polynomial, &shares, no_of_shares@);
        if pow(no_of_shares@, (threshold@ - 1) as nat) < prime_modulus {
            assert forall|i: int| 0 <= i < validations.len() implies #[trigger] validations[i] by {
                let x = shares.shares[i].x@;
                lemma_pow_base_monotone(x, no_of_shares@, (threshold@ - 1) as nat);
                lemma_genuine_share_verifies(GENERATOR as int, polynomial@, prime_modulus as int, x);
            }
        }
    }
    let reconstructed = match reconstruct_secret(&shares.shares, K_SHARES, threshold) {
        Ok(v) => v,
        Err(e) => return Err(e),
    };
    proof {
        lemma_dealing_round_trips(&polynomial, &shares, no_of_shares@);
    }
    Ok(VerifiableRun { polynomial, shares, commitments, validations, reconstructed })
}

} // verus!
