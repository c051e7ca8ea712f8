//! Feldman-style commitments to the coefficients of a secret polynomial,
//! and the check of one share against them.
use crate::bignum::{mod_pow, BigNum};
use crate::error::SharingError;
use crate::secret_splitting::{eval_upto, poly_eval, LagrangePolynomial};
use vstd::arithmetic::div_mod::{lemma_mul_mod_noop_general, lemma_small_mod};
use vstd::arithmetic::power::{
    lemma_pow_adds, lemma_pow_increases, lemma_pow_mod_noop, lemma_pow_multiplies,
    lemma_pow_positive, pow,
};
use vstd::prelude::*;

verus! {

/// `generator^a mod p` for each coefficient `a`, in order.
pub open spec fn commitment_values(generator: int, coefficients: Seq<int>, p: int) -> Seq<int> {
    coefficients.map_values(|a: int| mod_pow(generator, a, p))
}

/// The exponent that the check raises the i-th commitment to: `x^i`,
/// reduced modulo `p` from the second step on.
pub open spec fn reduced_power(x: int, p: int, i: nat) -> int
    decreases i,
{
    if i == 0 {
        1
    } else {
        (reduced_power(x, p, (i - 1) as nat) * x) % p
    }
}

/// The product of the first `m` commitments, the i-th raised to
/// `reduced_power(x, p, i)`, reduced modulo `p` at each step.
pub open spec fn committed_value(cs: Seq<int>, x: int, p: int, m: nat) -> int
    decreases m,
{
    if m == 0 || m > cs.len() {
        1
    } else {
        let i = (m - 1) as nat;
        (committed_value(cs, x, p, i) * mod_pow(cs[i as int], reduced_power(x, p, i), p)) % p
    }
}

/// The share `(x, y)` is consistent with the commitments `cs`:
/// `generator^y` agrees with the commitments' product at `x`, modulo `p`.
pub open spec fn share_is_valid(x: int, y: int, generator: int, cs: Seq<int>, p: int) -> bool {
    &&& x >= 0
    &&& y >= 0
    &&& mod_pow(generator, y, p) == committed_value(cs, x, p, cs.len())
}

/// The public commitments to a polynomial's coefficients.
#[derive(Debug)]
pub struct Commitments {
    coefficients: Vec<BigNum>,
}

impl View for Commitments {
    type V = Seq<int>;

    closed spec fn view(&self) -> Seq<int> {
        self.coefficients@.map_values(|c: BigNum| c@)
    }
}

impl Commitments {
    /// The commitments, one for each coefficient, in order.
    pub fn coefficients(&self) -> (r: &Vec<BigNum>)
        ensures
            r@.map_values(|c: BigNum| c@) == self@,
    {
        &self.coefficients
    }

    /// `generator^a mod prime_modulus` for each coefficient `a` of the polynomial.
    pub fn generate_commitments(
        generator: &BigNum,
        polynomial: &LagrangePolynomial,
        prime_modulus: i32,
    ) -> (r: Result<Self, SharingError>)
        requires
            prime_modulus > 0,
            forall|i: int| 0 <= i < polynomial@.len() ==> #[trigger] polynomial@[i] >= 0,
        ensures
            r is Err <==> polynomial@.len() == 0,
            r is Err ==> r == Err::<Self, SharingError>(SharingError::EmptyPolynomial),
            r matches Ok(c) ==> c@ == commitment_values(generator@, polynomial@, prime_modulus as int),
    {
        if polynomial.poly.len() == 0 {
            return Err(SharingError::EmptyPolynomial);
        }
        let modulus = BigNum::from_i64(prime_modulus as i64);
        let mut coefficients: Vec<BigNum> = Vec::new();
        let mut k: usize = 0;
        while k < polynomial.poly.len()
            invariant
                k <= polynomial.poly.len(),
                modulus@ == prime_modulus,
                prime_modulus > 0,
                forall|i: int| 0 <= i < polynomial@.len() ==> #[trigger] polynomial@[i] >= 0,
                coefficients.len() == k,
                forall|i: int|
                    0 <= i < k ==> (#[trigger] coefficients[i])@ == mod_pow(
                        generator@,
                        polynomial@[i],
                        prime_modulus as int,
                    ),
            decreases polynomial.poly.len() - k,
        {
            assert(polynomial.poly[k as int]@ == polynomial@[k as int]);
            coefficients.push(generator.modpow(&polynomial.poly[k], &modulus));
            k = k + 1;
        }
        let c = Commitments { coefficients };
        assert(c@ =~= commitment_values(generator@, polynomial@, prime_modulus as int));
        Ok(c)
    }

    /// Whether the share `(x, y)` lies on the committed polynomial, as far as
    /// the commitments can tell: a negative coordinate is never valid.
    pub fn verify_share(
        x: &BigNum,
        y: &BigNum,
        generator: &BigNum,
        commitments: &Commitments,
        prime_modulus: i32,
    ) -> (r: bool)
        requires
            prime_modulus > 0,
        ensures
            r == share_is_valid(x@, y@, generator@, commitments@, prime_modulus as int),
    {
        let zero = BigNum::from_i64(0);
        if x.less_than(&zero) || y.less_than(&zero) {
            return false;
        }
        let modulus = BigNum::from_i64(prime_modulus as i64);
        let ghost p = prime_modulus as int;
        let ghost cs = commitments@;
        let mut computed = BigNum::from_i64(1);
        let mut power_of_x = BigNum::from_i64(1);
        let mut k: usize = 0;
        while k < commitments.coefficients.len()
            invariant
                k <= commitments.coefficients.len(),
                cs == commitments@,
                modulus@ == p,
                p > 0,
                x@ >= 0,
                computed@ == committed_value(cs, x@, p, k as nat),
                computed@ >= 0,
                power_of_x@ == reduced_power(x@, p, k as nat),
                power_of_x@ >= 0,
            decreases commitments.coefficients.len() - k,
        {
            assert(commitments.coefficients[k as int]@ == cs[k as int]);
            let factor = commitments.coefficients[k].modpow(&power_of_x, &modulus);
            let ghost (c0, f0) = (computed@, factor@);
            computed = computed.mul(&factor).rem(&modulus);
            assert(c0 * f0 >= 0) by (nonlinear_arith)
                requires c0 >= 0, f0 >= 0;
            let ghost px = power_of_x@;
            power_of_x = power_of_x.mul(x).rem(&modulus);
            assert(px * x@ >= 0) by (nonlinear_arith)
                requires px >= 0, x@ >= 0;
            k = k + 1;
        }
        let lhs = generator.modpow(y, &modulus);
        lhs.equals(&computed)
    }
}

/// Commitments carry no randomness: any two made from the same generator,
/// coefficients and modulus are equal.
pub proof fn lemma_commitments_deterministic(
    generator: int,
    coefficients: Seq<int>,
    p: int,
    first: &Commitments,
    second: &Commitments,
)
    requires
        first@ == commitment_values(generator, coefficients, p),
        second@ == commitment_values(generator, coefficients, p),
    ensures
        first@ == second@,
{
}

/// With no reduction before `x^(n-1)`, the exponents of the check are the
/// plain powers of `x`.
proof fn lemma_reduced_power_exact(x: int, p: int, i: nat, n: nat)
    requires
        x >= 1,
        p > 1,
        i < n,
        pow(x, (n - 1) as nat) < p,
    ensures
        reduced_power(x, p, i) == pow(x, i),
    decreases i,
{
    reveal(pow);
    if i > 0 {
        lemma_reduced_power_exact(x, p, (i - 1) as nat, n);
        lemma_pow_increases(x as nat, i, (n - 1) as nat);
        lemma_pow_positive(x, i);
        assert(pow(x, i) == x * pow(x, (i - 1) as nat));
        assert(pow(x, (i - 1) as nat) * x == pow(x, i)) by (nonlinear_arith)
            requires pow(x, i) == x * pow(x, (i - 1) as nat);
        lemma_small_mod(pow(x, i) as nat, p as nat);
    }
}

/// A polynomial with non-negative coefficients has a non-negative value at a
/// positive point.
proof fn lemma_eval_nonnegative(a: Seq<int>, x: int, m: nat)
    requires
        x >= 1,
        forall|i: int| 0 <= i < a.len() ==> #[trigger] a[i] >= 0,
    ensures
        eval_upto(a, x, m) >= 0,
    decreases m,
{
    if m > 0 && m <= a.len() {
        lemma_eval_nonnegative(a, x, (m - 1) as nat);
        lemma_pow_positive(x, (m - 1) as nat);
        let (c, e) = (a[m - 1], pow(x, (m - 1) as nat));
        assert(c * e >= 0) by (nonlinear_arith)
            requires c >= 0, e > 0;
    }
}

/// The commitments' product over the first `m` coefficients is `generator`
/// raised to the first `m` terms of the polynomial at `x`.
proof fn lemma_committed_value_is_power(generator: int, a: Seq<int>, p: int, x: int, m: nat)
    requires
        x >= 1,
        p > 1,
        m <= a.len(),
        forall|i: int| 0 <= i < a.len() ==> #[trigger] a[i] >= 0,
        pow(x, (a.len() - 1) as nat) < p,
    ensures
        committed_value(commitment_values(generator, a, p), x, p, m) == pow(
            generator,
            eval_upto(a, x, m) as nat,
        ) % p,
    decreases m,
{
    let cs = commitment_values(generator, a, p);
    reveal(pow);
    if m == 0 {
        assert(1int % p == 1) by (nonlinear_arith)
            requires p > 1;
    } else {
        let i = (m - 1) as nat;
        lemma_committed_value_is_power(generator, a, p, x, i);
        lemma_reduced_power_exact(x, p, i, a.len());
        lemma_eval_nonnegative(a, x, i);
        lemma_pow_positive(x, i);
        let e = pow(x, i);
        let ai = a[i as int];
        let prev = eval_upto(a, x, i);
        assert(ai * e >= 0) by (nonlinear_arith)
            requires ai >= 0, e > 0;
        // the i-th factor is generator^(a[i] * x^i)
        assert(cs[i as int] == pow(generator, ai as nat) % p);
        lemma_pow_mod_noop(pow(generator, ai as nat), e as nat, p);
        lemma_pow_multiplies(generator, ai as nat, e as nat);
        assert(mod_pow(cs[i as int], reduced_power(x, p, i), p) == pow(generator, (ai * e) as nat)
            % p);
        // multiplying the two reduced powers adds the exponents
        lemma_mul_mod_noop_general(
            pow(generator, prev as nat),
            pow(generator, (ai * e) as nat),
            p,
        );
        lemma_pow_adds(generator, prev as nat, (ai * e) as nat);
        assert(eval_upto(a, x, m) == prev + ai * e);
    }
}

/// Every share that the evaluator hands out passes the check against the
/// commitments of its polynomial, provided that the coefficients are
/// non-negative and no power of `x` below the polynomial's degree reaches
/// the modulus.
pub proof fn lemma_genuine_share_verifies(generator: int, a: Seq<int>, p: int, x: int)
    requires
        x >= 1,
        p > 1,
        a.len() >= 1,
        forall|i: int| 0 <= i < a.len() ==> #[trigger] a[i] >= 0,
        pow(x, (a.len() - 1) as nat) < p,
    ensures
        share_is_valid(x, poly_eval(a, x), generator, commitment_values(generator, a, p), p),
{
    lemma_committed_value_is_power(generator, a, p, x, a.len());
    lemma_eval_nonnegative(a, x, a.len());
}

} // verus!
