use secret_sharing::sss::shamir_secret_sharing;
use secret_sharing::vss::verifiable_secret_sharing;
use secret_sharing::{
    reconstruct_secret, BigNum, Commitments, Fraction, LagrangePolynomial, Share, SharingError,
    Shares,
};

fn n(v: i64) -> BigNum {
    BigNum::from_i64(v)
}

fn fixed_polynomial() -> LagrangePolynomial {
    // 65 + 2x + 3x^2
    LagrangePolynomial::with_coefficients(n(65), &vec![2, 3], 97).unwrap()
}

fn share(x: i64, y: i64) -> Share {
    Share { x: n(x), y: n(y) }
}

#[test]
fn bignum_arithmetic_is_exact() {
    assert_eq!(n(40).add(&n(2)), n(42));
    assert_eq!(n(40).sub(&n(42)), n(-2));
    assert_eq!(n(-6).mul(&n(7)), n(-42));
    assert_eq!(n(i64::MAX).add(&n(1)).sub(&n(1)), n(i64::MAX));
    assert_eq!(BigNum::from_u64(u64::MAX).sub(&n(1)), BigNum::from_u64(u64::MAX - 1));
}

#[test]
fn bignum_division_rounds_toward_zero() {
    assert_eq!(n(-7).div(&n(2)), n(-3));
    assert_eq!(n(7).div(&n(-2)), n(-3));
    assert_eq!(n(-7).rem(&n(2)), n(-1));
    assert_eq!(n(7).rem(&n(-2)), n(1));
}

#[test]
fn bignum_modpow_and_comparisons() {
    assert_eq!(n(3).modpow(&n(4), &n(5)), n(1));
    assert_eq!(n(-2).modpow(&n(3), &n(5)), n(2));
    assert_eq!(n(2).modpow(&n(0), &n(7)), n(1));
    assert!(n(-1).less_than(&n(0)));
    assert!(!n(3).less_than(&n(3)));
    assert!(n(3).equals(&n(3)));
    assert!(!n(3).equals(&n(4)));
    assert_eq!(n(9).copy(), n(9));
}

#[test]
fn secret_equal_to_modulus_is_rejected() {
    let r = LagrangePolynomial::generate_polynomial(n(97), n(3), 97);
    assert_eq!(r.unwrap_err(), SharingError::InvalidSecret);
}

#[test]
fn negative_secret_is_rejected() {
    let r = LagrangePolynomial::generate_polynomial(n(-1), n(3), 97);
    assert_eq!(r.unwrap_err(), SharingError::InvalidSecret);
}

#[test]
fn generated_polynomial_has_threshold_coefficients() {
    let p = LagrangePolynomial::generate_polynomial(n(96), n(4), 97).unwrap();
    assert_eq!(p.poly.len(), 4);
    assert_eq!(p.poly[0], n(96));
    for c in &p.poly[1..] {
        assert!(!c.less_than(&n(1)));
        assert!(c.less_than(&n(97)));
    }
    let single = LagrangePolynomial::generate_polynomial(n(0), n(1), 97).unwrap();
    assert_eq!(single.poly, vec![n(0)]);
}

#[test]
fn polynomial_from_given_coefficients() {
    let p = fixed_polynomial();
    assert_eq!(p.poly, vec![n(65), n(2), n(3)]);
    let bad = LagrangePolynomial::with_coefficients(n(100), &vec![2, 3], 97);
    assert_eq!(bad.unwrap_err(), SharingError::InvalidSecret);
}

#[test]
fn shares_are_unreduced_polynomial_values() {
    let shares = Shares::generate_n_shares(&fixed_polynomial(), n(5)).unwrap();
    let expected = [70, 81, 98, 121, 150];
    assert_eq!(shares.shares.len(), 5);
    for (i, s) in shares.shares.iter().enumerate() {
        assert_eq!(s.x, n(i as i64 + 1));
        assert_eq!(s.y, n(expected[i]));
    }
}

#[test]
fn zero_shares_is_an_invalid_count() {
    let r = Shares::generate_n_shares(&fixed_polynomial(), n(0));
    assert_eq!(r.unwrap_err(), SharingError::InvalidShareCount);
}

#[test]
fn reconstruct_from_points_one_to_three() {
    let shares = vec![share(1, 70), share(2, 81), share(3, 98)];
    assert_eq!(reconstruct_secret(&shares, 3, n(3)).unwrap(), n(65));
}

#[test]
fn reconstruct_in_another_order() {
    let shares = vec![share(3, 98), share(1, 70), share(2, 81)];
    assert_eq!(reconstruct_secret(&shares, 3, n(3)).unwrap(), n(65));
}

#[test]
fn reconstruct_uses_only_the_first_k_shares() {
    let shares = vec![share(1, 70), share(2, 81), share(3, 98), share(4, 0)];
    assert_eq!(reconstruct_secret(&shares, 3, n(3)).unwrap(), n(65));
}

#[test]
fn reconstruct_truncates_each_basis_value() {
    // the basis values at 2, 4, 5 are 20/6, 10/-2 and 8/3, cut to 3, -5 and 2
    let shares = vec![share(2, 81), share(4, 121), share(5, 150)];
    assert_eq!(reconstruct_secret(&shares, 3, n(3)).unwrap(), n(-62));
}

#[test]
fn reconstruct_with_fewer_than_threshold_fails() {
    let shares = vec![share(1, 70), share(2, 81)];
    assert_eq!(
        reconstruct_secret(&shares, 2, n(3)).unwrap_err(),
        SharingError::InsufficientShares
    );
}

#[test]
fn corrupted_share_changes_the_secret() {
    let shares = vec![share(1, 71), share(2, 81), share(3, 98)];
    assert_eq!(reconstruct_secret(&shares, 3, n(3)).unwrap(), n(68));
}

#[test]
fn fraction_multiplies_termwise() {
    let a = Fraction::new(n(2), n(3));
    let b = Fraction::new(n(-5), n(7));
    let c = a.multiply(&b);
    assert_eq!(c.num, n(-10));
    assert_eq!(c.den, n(21));
}

#[test]
fn commitments_have_exact_values() {
    let p = LagrangePolynomial::with_coefficients(n(3), &vec![1], 7).unwrap();
    let c = Commitments::generate_commitments(&n(2), &p, 7).unwrap();
    assert_eq!(c.coefficients(), &vec![n(1), n(2)]);
    // 2^4 = 16 = 2 mod 7, and 1^1 * 2^1 = 2
    assert!(Commitments::verify_share(&n(1), &n(4), &n(2), &c, 7));
    assert!(!Commitments::verify_share(&n(1), &n(5), &n(2), &c, 7));
}

#[test]
fn commitments_of_empty_polynomial_fail() {
    let p = LagrangePolynomial { poly: vec![] };
    let r = Commitments::generate_commitments(&n(2), &p, 97);
    assert_eq!(r.unwrap_err(), SharingError::EmptyPolynomial);
}

#[test]
fn commitments_are_deterministic() {
    let p = fixed_polynomial();
    let a = Commitments::generate_commitments(&n(5), &p, 997).unwrap();
    let b = Commitments::generate_commitments(&n(5), &p, 997).unwrap();
    assert_eq!(a.coefficients(), b.coefficients());
    assert_eq!(a.coefficients().len(), 3);
}

#[test]
fn every_genuine_share_verifies() {
    let p = fixed_polynomial();
    let c = Commitments::generate_commitments(&n(2), &p, 997).unwrap();
    let shares = Shares::generate_n_shares(&p, n(5)).unwrap();
    for s in &shares.shares {
        assert!(Commitments::verify_share(&s.x, &s.y, &n(2), &c, 997));
    }
}

#[test]
fn corrupted_share_fails_verification() {
    let p = fixed_polynomial();
    let c = Commitments::generate_commitments(&n(2), &p, 997).unwrap();
    assert!(Commitments::verify_share(&n(2), &n(81), &n(2), &c, 997));
    assert!(!Commitments::verify_share(&n(2), &n(82), &n(2), &c, 997));
}

#[test]
fn negative_coordinates_never_verify() {
    let p = fixed_polynomial();
    let c = Commitments::generate_commitments(&n(2), &p, 997).unwrap();
    assert!(!Commitments::verify_share(&n(1), &n(-70), &n(2), &c, 997));
    assert!(!Commitments::verify_share(&n(-1), &n(66), &n(2), &c, 997));
}

#[test]
fn plain_dealing_round_trips() {
    let run = shamir_secret_sharing(n(65), n(5), n(3), 97).unwrap();
    assert_eq!(run.reconstructed, n(65));
    assert_eq!(run.shares.shares.len(), 5);
    assert_eq!(run.polynomial.poly.len(), 3);
}

#[test]
fn plain_dealing_errors() {
    assert_eq!(
        shamir_secret_sharing(n(97), n(5), n(3), 97).err(),
        Some(SharingError::InvalidSecret)
    );
    assert_eq!(
        shamir_secret_sharing(n(65), n(0), n(3), 97).err(),
        Some(SharingError::InvalidShareCount)
    );
    assert_eq!(
        shamir_secret_sharing(n(65), n(5), n(4), 97).err(),
        Some(SharingError::InsufficientShares)
    );
}

#[test]
fn verifiable_dealing_checks_every_share() {
    let run = verifiable_secret_sharing(n(65), n(5), n(3), 97).unwrap();
    assert_eq!(run.validations, vec![true; 5]);
    assert_eq!(run.reconstructed, n(65));
    assert_eq!(run.commitments.coefficients()[0], n(5).modpow(&n(65), &n(97)));
}

#[test]
fn bytes_are_read_in_twos_complement() {
    assert_eq!(BigNum::from_signed_bytes_le(vec![65, 0, 0]), n(65));
    assert_eq!(BigNum::from_signed_bytes_le(vec![0xff, 0xff]), n(-1));
    assert_eq!(BigNum::from_signed_bytes_le(vec![]), n(0));
    assert_eq!(BigNum::from_signed_bytes_le(vec![0x80]), n(-128));
    assert_eq!(n(-1).to_signed_bytes_le(), vec![0xff]);
    assert_eq!(n(128).to_signed_bytes_le(), vec![0x80, 0]);
}

#[test]
fn tampering_with_any_of_three_shares_misses_the_secret() {
    let genuine = [(1, 70), (2, 81), (3, 98)];
    for i in 0..3 {
        let shares: Vec<Share> = genuine
            .iter()
            .enumerate()
            .map(|(j, &(x, y))| share(x, if i == j { y - 2 } else { y }))
            .collect();
        let r = reconstruct_secret(&shares, 3, n(3)).unwrap();
        assert_ne!(r, n(65));
    }
}

#[test]
fn verifiable_dealing_rejects_a_secret_at_the_modulus() {
    assert_eq!(
        verifiable_secret_sharing(n(97), n(5), n(3), 97).err(),
        Some(SharingError::InvalidSecret)
    );
}
