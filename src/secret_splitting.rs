//! Building the secret polynomial and evaluating it into shares.
use crate::bignum::BigNum;
use crate::error::SharingError;
use rand::Rng;
use vstd::arithmetic::power::pow;
use vstd::prelude::*;

verus! {

/// `c[0] + c[1]*x + ... + c[n-1]*x^(n-1)`: the first `n` terms of the
/// polynomial with coefficients `c`, at `x`.
pub open spec fn eval_upto(c: Seq<int>, x: int, n: nat) -> int
    decreases n,
{
    if n == 0 || n > c.len() {
        0
    } else {
        eval_upto(c, x, (n - 1) as nat) + c[n - 1] * pow(x, (n - 1) as nat)
    }
}

/// The value of the polynomial with coefficients `c` (lowest degree first) at `x`.
pub open spec fn poly_eval(c: Seq<int>, x: int) -> int {
    eval_upto(c, x, c.len())
}

/// The coefficients of a secret polynomial, constant term first.
#[derive(Debug)]
pub struct LagrangePolynomial {
    pub poly: Vec<BigNum>,
}

impl View for LagrangePolynomial {
    type V = Seq<int>;

    open spec fn view(&self) -> Seq<int> {
        self.poly@.map_values(|c: BigNum| c@)
    }
}

/// One participant's point on the polynomial.
#[derive(Debug)]
pub struct Share {
    pub x: BigNum,
    pub y: BigNum,
}

/// The shares of one dealing, in the order of their `x`.
#[derive(Debug)]
pub struct Shares {
    pub shares: Vec<Share>,
}

/// Relies on `rand::Rng::gen_range` over `thread_rng`: a draw from
/// `[1, prime_modulus)`; the range must not be empty.
#[verifier::external_body]
fn random_coefficient(prime_modulus: i32) -> (r: i32)
    requires
        prime_modulus > 1,
    ensures
        1 <= r < prime_modulus,
{
    rand::thread_rng().gen_range(1..prime_modulus)
}

impl LagrangePolynomial {
    /// The polynomial whose constant term is `secret` and whose other
    /// coefficients are `draws`, in order.
    pub fn with_coefficients(secret: BigNum, draws: &Vec<i32>, prime_modulus: i32) -> (r: Result<
        LagrangePolynomial,
        SharingError,
    >)
        requires
            forall|i: int| 0 <= i < draws.len() ==> 1 <= #[trigger] draws[i] < prime_modulus,
        ensures
            r is Err <==> !(0 <= secret@ < prime_modulus),
            r is Err ==> r == Err::<LagrangePolynomial, SharingError>(SharingError::InvalidSecret),
            r matches Ok(p) ==> p@ == seq![secret@].add(draws@.map_values(|d: i32| d as int)),
    {
        let zero = BigNum::from_i64(0);
        let modulus = BigNum::from_i64(prime_modulus as i64);
        if secret.less_than(&zero) || !secret.less_than(&modulus) {
            return Err(SharingError::InvalidSecret);
        }
        let ghost s = secret@;
        let mut poly: Vec<BigNum> = Vec::new();
        poly.push(secret);
        let mut i: usize = 0;
        while i < draws.len()
            invariant
                i <= draws.len(),
                poly.len() == i + 1,
                poly[0]@ == s,
                forall|j: int| 0 <= j < i ==> (#[trigger] poly[j + 1])@ == draws[j] as int,
            decreases draws.len() - i,
        {
            poly.push(BigNum::from_i64(draws[i] as i64));
            i = i + 1;
        }
        assert(poly@.map_values(|c: BigNum| c@) =~= seq![s].add(
            draws@.map_values(|d: i32| d as int),
        )) by {
            assert forall|j: int| 1 <= j < poly.len() implies poly[j]@ == draws[j - 1] as int by {
                assert(poly[(j - 1) + 1]@ == draws[j - 1] as int);
            }
        }
        Ok(LagrangePolynomial { poly })
    }

    /// A polynomial of `threshold` coefficients for `secret`: the constant term
    /// is the secret, the others are drawn at random from `[1, prime_modulus)`.
    pub fn generate_polynomial(secret: BigNum, threshold: BigNum, prime_modulus: i32) -> (r: Result<
        LagrangePolynomial,
        SharingError,
    >)
        requires
            threshold@ >= 1,
            prime_modulus > 1,
        ensures
            r is Err <==> !(0 <= secret@ < prime_modulus),
            r is Err ==> r == Err::<LagrangePolynomial, SharingError>(SharingError::InvalidSecret),
            r matches Ok(p) ==> {
                &&& p@.len() == threshold@
                &&& p@[0] == secret@
                &&& forall|i: int| 1 <= i < p@.len() ==> 1 <= #[trigger] p@[i] < prime_modulus
            },
    {
        let zero = BigNum::from_i64(0);
        let modulus = BigNum::from_i64(prime_modulus as i64);
        if secret.less_than(&zero) || !secret.less_than(&modulus) {
            return Err(SharingError::InvalidSecret);
        }
        let one = BigNum::from_i64(1);
        let mut draws: Vec<i32> = Vec::new();
        let mut i = BigNum::from_i64(1);
        while i.less_than(&threshold)
            invariant
                1 <= i@ <= threshold@,
                draws.len() == i@ - 1,
                forall|j: int| 0 <= j < draws.len() ==> 1 <= #[trigger] draws[j] < prime_modulus,
                one@ == 1,
                prime_modulus > 1,
            decreases threshold@ - i@,
        {
            draws.push(random_coefficient(prime_modulus));
            i = i.add(&one);
        }
        let r = Self::with_coefficients(secret, &draws, prime_modulus);
        assert(r matches Ok(p) ==> forall|i: int| 1 <= i < p@.len() ==> p@[i] == draws@[i - 1]);
        r
    }
}

impl Shares {
    /// The shares at `x = 1, 2, ..., no_of_shares`, each with the polynomial's
    /// value there, computed over the integers.
    pub fn generate_n_shares(polynomial: &LagrangePolynomial, no_of_shares: BigNum) -> (r: Result<
        Shares,
        SharingError,
    >)
        ensures
            r is Err <==> no_of_shares@ < 1,
            r is Err ==> r == Err::<Shares, SharingError>(SharingError::InvalidShareCount),
            r matches Ok(s) ==> {
                &&& s.shares.len() == no_of_shares@
                &&& forall|i: int|
                    0 <= i < s.shares.len() ==> {
                        &&& (#[trigger] s.shares[i]).x@ == i + 1
                        &&& s.shares[i].y@ == poly_eval(polynomial@, i + 1)
                    }
            },
    {
        let one = BigNum::from_i64(1);
        if no_of_shares.less_than(&one) {
            return Err(SharingError::InvalidShareCount);
        }
        let mut shares: Vec<Share> = Vec::new();
        let mut i = BigNum::from_i64(1);
        while !no_of_shares.less_than(&i)
            invariant
                1 <= i@ <= no_of_shares@ + 1,
                shares.len() == i@ - 1,
                one@ == 1,
                forall|j: int|
                    0 <= j < shares.len() ==> {
                        &&& (#[trigger] shares[j]).x@ == j + 1
                        &&& shares[j].y@ == poly_eval(polynomial@, j + 1)
                    },
            decreases no_of_shares@ + 1 - i@,
        {
            let x = i.copy();
            let y = Self::generate_y_point(polynomial, &x);
            shares.push(Share { x, y });
            i = i.add(&one);
        }
        Ok(Shares { shares })
    }

    fn generate_y_point(polynomial: &LagrangePolynomial, x: &BigNum) -> (r: BigNum)
        ensures
            r@ == poly_eval(polynomial@, x@),
    {
        let mut y = BigNum::from_i64(0);
        let mut temp = BigNum::from_i64(1);
        let mut k: usize = 0;
        proof {
            reveal(pow);
        }
        while k < polynomial.poly.len()
            invariant
                k <= polynomial.poly.len(),
                y@ == eval_upto(polynomial@, x@, k as nat),
                temp@ == pow(x@, k as nat),
            decreases polynomial.poly.len() - k,
        {
            let term = polynomial.poly[k].mul(&temp);
            y = y.add(&term);
            let ghost t = temp@;
            proof {
                reveal(pow);
            }
            temp = temp.mul(x);
            assert(temp@ == x@ * t) by (nonlinear_arith)
                requires temp@ == t * x@;
            k = k + 1;
        }
        y
    }
}

} // verus!
