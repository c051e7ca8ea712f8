use secret_sharing::{reconstruct_secret, BigNum, Commitments, LagrangePolynomial, Shares};

const PRIME_MODULUS: i32 = 997;

#[test]
fn test_verify_share() {
    let secret = BigNum::from_i64(123);
    let threshold = BigNum::from_i64(3);
    let polynomial =
        LagrangePolynomial::generate_polynomial(secret, threshold, PRIME_MODULUS).unwrap();

    let no_of_shares = BigNum::from_i64(5);

    let shares = Shares::generate_n_shares(&polynomial, no_of_shares.clone()).unwrap();

    let generator = BigNum::from_i64(2);

    let commitments =
        Commitments::generate_commitments(&generator, &polynomial, PRIME_MODULUS).unwrap();

    for share in &shares.shares {
        let is_valid =
            Commitments::verify_share(&share.x, &share.y, &generator, &commitments, PRIME_MODULUS);
        assert!(is_valid);
    }
}

#[test]
fn test_reconstruct_secret() {
    let secret = BigNum::from_i64(123);
    let threshold = BigNum::from_i64(3);
    let polynomial =
        LagrangePolynomial::generate_polynomial(secret.clone(), threshold.clone(), PRIME_MODULUS)
            .unwrap();

    let no_of_shares = BigNum::from_i64(5);
    let shares = Shares::generate_n_shares(&polynomial, no_of_shares.clone()).unwrap();

    // reconstruct from the first `threshold` shares
    let reconstructed_secret = reconstruct_secret(&shares.shares, 3, threshold).unwrap();

    assert_eq!(reconstructed_secret, secret);
}

#[test]
fn test_invalid_share_verification() {
    let secret = BigNum::from_i64(123);
    let threshold = BigNum::from_i64(3);
    let polynomial =
        LagrangePolynomial::generate_polynomial(secret, threshold, PRIME_MODULUS).unwrap();

    let no_of_shares = BigNum::from_i64(5);
    let mut shares = Shares::generate_n_shares(&polynomial, no_of_shares.clone()).unwrap();

    let generator = BigNum::from_i64(2);
    let commitments =
        Commitments::generate_commitments(&generator, &polynomial, PRIME_MODULUS).unwrap();

    // corrupt the first share
    shares.shares[0].y = shares.shares[0].y.add(&BigNum::from_i64(1));

    let is_valid = Commitments::verify_share(
        &shares.shares[0].x,
        &shares.shares[0].y,
        &generator,
        &commitments,
        PRIME_MODULUS,
    );

    assert!(!is_valid);
}
