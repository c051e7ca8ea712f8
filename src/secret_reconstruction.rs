//! Recovering the secret from shares by Lagrange interpolation at zero,
//! with exact fractions.
use crate::bignum::{trunc_div, BigNum};
use crate::error::SharingError;
use crate::secret_splitting::{eval_upto, poly_eval, Share};
use vstd::arithmetic::power::pow;
use vstd::math::abs;
use vstd::prelude::*;

verus! {

/// The x-coordinates of the shares, in order.
pub open spec fn xs_of(shares: Seq<Share>) -> Seq<int> {
    shares.map_values(|s: Share| s.x@)
}

/// The y-coordinates of the shares, in order.
pub open spec fn ys_of(shares: Seq<Share>) -> Seq<int> {
    shares.map_values(|s: Share| s.y@)
}

/// No two of the first `k` x-coordinates are equal.
pub open spec fn distinct_upto(xs: Seq<int>, k: int) -> bool {
    forall|a: int, b: int| 0 <= a < k && 0 <= b < k && a != b ==> xs[a] != xs[b]
}

/// The product of `-xs[j]` over `j < m`, `j != i`: the numerator of the
/// i-th Lagrange basis polynomial at zero.
pub open spec fn basis_num(xs: Seq<int>, i: int, m: nat) -> int
    decreases m,
{
    if m == 0 {
        1
    } else if m - 1 == i {
        basis_num(xs, i, (m - 1) as nat)
    } else {
        basis_num(xs, i, (m - 1) as nat) * -xs[m - 1]
    }
}

/// The product of `xs[i] - xs[j]` over `j < m`, `j != i`: the denominator
/// of the i-th Lagrange basis polynomial.
pub open spec fn basis_den(xs: Seq<int>, i: int, m: nat) -> int
    decreases m,
{
    if m == 0 {
        1
    } else if m - 1 == i {
        basis_den(xs, i, (m - 1) as nat)
    } else {
        basis_den(xs, i, (m - 1) as nat) * (xs[i] - xs[m - 1])
    }
}

/// The sum over `i < m` of `ys[i]` times the i-th basis value over the first
/// `k` points, each basis value cut to an integer by division toward zero.
pub open spec fn interpolate_upto(xs: Seq<int>, ys: Seq<int>, k: nat, m: nat) -> int
    decreases m,
{
    if m == 0 {
        0
    } else {
        let i = m - 1;
        interpolate_upto(xs, ys, k, (m - 1) as nat) + trunc_div(basis_num(xs, i, k), basis_den(xs, i, k))
            * ys[i]
    }
}

/// The secret that the first `k` points give.
pub open spec fn interpolate_at_zero(xs: Seq<int>, ys: Seq<int>, k: nat) -> int {
    interpolate_upto(xs, ys, k, k)
}

/// An exact rational number.
#[derive(Debug, Clone)]
pub struct Fraction {
    pub num: BigNum,
    pub den: BigNum,
}

impl Fraction {
    /// The fraction `num / den`; the denominator must not be zero.
    pub fn new(num: BigNum, den: BigNum) -> (r: Fraction)
        requires
            den@ != 0,
        ensures
            r.num@ == num@,
            r.den@ == den@,
    {
        Fraction { num, den }
    }

    /// The product, numerator by numerator and denominator by denominator.
    pub fn multiply(&self, other: &Fraction) -> (r: Fraction)
        requires
            self.den@ != 0,
            other.den@ != 0,
        ensures
            r.num@ == self.num@ * other.num@,
            r.den@ == self.den@ * other.den@,
            r.den@ != 0,
    {
        let num = self.num.mul(&other.num);
        let den = self.den.mul(&other.den);
        let ghost a = self.den@;
        let ghost b = other.den@;
        assert(a * b != 0) by (nonlinear_arith)
            requires a != 0, b != 0;
        Fraction::new(num, den)
    }
}

/// The secret that the first `k_shares` shares give, by Lagrange
/// interpolation at zero; fails when they are fewer than `threshold`.
pub fn reconstruct_secret(shares: &Vec<Share>, k_shares: usize, threshold: BigNum) -> (r: Result<
    BigNum,
    SharingError,
>)
    requires
        threshold@ <= k_shares ==> k_shares <= shares.len() && distinct_upto(
            xs_of(shares@),
            k_shares as int,
        ),
    ensures
        r is Err <==> k_shares < threshold@,
        r is Err ==> r == Err::<BigNum, SharingError>(SharingError::InsufficientShares),
        r matches Ok(s) ==> s@ == interpolate_at_zero(xs_of(shares@), ys_of(shares@), k_shares as nat),
{
    let k = BigNum::from_u64(k_shares as u64);
    if k.less_than(&threshold) {
        return Err(SharingError::InsufficientShares);
    }
    let ghost xs = xs_of(shares@);
    let ghost ys = ys_of(shares@);
    let minus_one = BigNum::from_i64(-1);
    let mut secret = BigNum::from_i64(0);
    let mut i: usize = 0;
    while i < k_shares
        invariant
            i <= k_shares <= shares.len(),
            distinct_upto(xs, k_shares as int),
            xs == xs_of(shares@),
            ys == ys_of(shares@),
            minus_one@ == -1,
            secret@ == interpolate_upto(xs, ys, k_shares as nat, i as nat),
        decreases k_shares - i,
    {
        let xi = &shares[i].x;
        let yi = &shares[i].y;
        let mut lagrange = Fraction::new(BigNum::from_i64(1), BigNum::from_i64(1));
        let mut j: usize = 0;
        while j < k_shares
            invariant
                i < k_shares <= shares.len(),
                j <= k_shares,
                distinct_upto(xs, k_shares as int),
                xs == xs_of(shares@),
                xi@ == xs[i as int],
                minus_one@ == -1,
                lagrange.num@ == basis_num(xs, i as int, j as nat),
                lagrange.den@ == basis_den(xs, i as int, j as nat),
                lagrange.den@ != 0,
            decreases k_shares - j,
        {
            if i != j {
                let xj = &shares[j].x;
                assert(xs[j as int] == xj@);
                let numerator = minus_one.mul(xj);
                let denominator = xi.sub(xj);
                let temp = Fraction::new(numerator, denominator);
                lagrange = lagrange.multiply(&temp);
            }
            j = j + 1;
        }
        let result = lagrange.num.div(&lagrange.den).mul(yi);
        assert(ys[i as int] == yi@);
        secret = secret.add(&result);
        i = i + 1;
    }
    Ok(secret)
}

/// `xs` begins with 1, 2 and 3 in some order.
pub open spec fn first_three_are_one_two_three(xs: Seq<int>) -> bool {
    &&& xs.len() >= 3
    &&& forall|i: int| 0 <= i < 3 ==> 1 <= #[trigger] xs[i] <= 3
    &&& xs[0] != xs[1] && xs[0] != xs[2] && xs[1] != xs[2]
}

/// The Lagrange basis value at zero of the point `x` among the points 1, 2, 3.
pub open spec fn weight_among_three(x: int) -> int {
    if x == 1 {
        3
    } else if x == 2 {
        -3
    } else {
        1
    }
}

/// The basis value of `a` among `a`, `b`, `c`, where these are 1, 2, 3 in
/// some order, divides exactly.
proof fn lemma_basis_weight(a: int, b: int, c: int)
    requires
        1 <= a <= 3,
        1 <= b <= 3,
        1 <= c <= 3,
        a != b && a != c && b != c,
    ensures
        trunc_div((1 * -b) * -c, (1 * (a - b)) * (a - c)) == weight_among_three(a),
{
    if a == 1 {
        assert((1 * -b) * -c == 6 && (1 * (a - b)) * (a - c) == 2) by (nonlinear_arith)
            requires a == 1, (b == 2 && c == 3) || (b == 3 && c == 2);
        assert(abs(6) == 6 && abs(2) == 2 && 6int / 2int == 3);
    } else if a == 2 {
        assert((1 * -b) * -c == 3 && (1 * (a - b)) * (a - c) == -1) by (nonlinear_arith)
            requires a == 2, (b == 1 && c == 3) || (b == 3 && c == 1);
        assert(abs(3) == 3 && abs(-1) == 1 && 3int / 1int == 3);
    } else {
        assert((1 * -b) * -c == 2 && (1 * (a - b)) * (a - c) == 2) by (nonlinear_arith)
            requires a == 3, (b == 1 && c == 2) || (b == 2 && c == 1);
        assert(abs(2) == 2 && 2int / 2int == 1);
    }
}

/// At the points 1, 2, 3, in any order, the reconstruction weighs each
/// y-value by the basis value of its point.
proof fn lemma_three_point_formula(xs: Seq<int>, ys: Seq<int>)
    requires
        first_three_are_one_two_three(xs),
        ys.len() >= 3,
    ensures
        interpolate_at_zero(xs, ys, 3) == weight_among_three(xs[0]) * ys[0] + weight_among_three(
            xs[1],
        ) * ys[1] + weight_among_three(xs[2]) * ys[2],
{
    reveal_with_fuel(basis_num, 4);
    reveal_with_fuel(basis_den, 4);
    reveal_with_fuel(interpolate_upto, 4);
    assert(xs[0] >= 1 && xs[1] >= 1 && xs[2] >= 1);
    assert(basis_num(xs, 0, 3) == (1 * -xs[1]) * -xs[2]);
    assert(basis_den(xs, 0, 3) == (1 * (xs[0] - xs[1])) * (xs[0] - xs[2]));
    assert(basis_num(xs, 1, 1) == 1 * -xs[0] && basis_den(xs, 1, 1) == 1 * (xs[1] - xs[0]));
    assert(basis_num(xs, 1, 3) == (1 * -xs[0]) * -xs[2]);
    assert(basis_den(xs, 1, 3) == (1 * (xs[1] - xs[0])) * (xs[1] - xs[2]));
    assert(basis_num(xs, 2, 3) == (1 * -xs[0]) * -xs[1]);
    assert(basis_den(xs, 2, 3) == (1 * (xs[2] - xs[0])) * (xs[2] - xs[1]));
    lemma_basis_weight(xs[0], xs[1], xs[2]);
    lemma_basis_weight(xs[1], xs[0], xs[2]);
    lemma_basis_weight(xs[2], xs[0], xs[1]);
}

/// A polynomial of at most three coefficients at `m`, with the missing
/// coefficients taken as zero.
proof fn lemma_eval_quadratic(a: Seq<int>, m: int)
    requires
        1 <= a.len() <= 3,
    ensures
        poly_eval(a, m) == a[0] + (if a.len() > 1 {
            a[1]
        } else {
            0
        }) * m + (if a.len() > 2 {
            a[2]
        } else {
            0
        }) * (m * m),
{
    reveal(pow);
    reveal_with_fuel(eval_upto, 4);
    assert(pow(m, 0) == 1);
    assert(pow(m, 1) == m * pow(m, 0));
    assert(pow(m, 2) == m * pow(m, 1));
}

/// The shares at `x = 1, 2, 3` of the polynomial `a`, in some order.
pub open spec fn first_three_shares(a: Seq<int>, xs: Seq<int>, ys: Seq<int>) -> bool {
    &&& first_three_are_one_two_three(xs)
    &&& ys.len() >= 3
    &&& forall|i: int| 0 <= i < 3 ==> #[trigger] ys[i] == poly_eval(a, xs[i])
}

/// Reconstructing from the shares at `x = 1, 2, 3`, in any order, of a
/// polynomial with at most three coefficients gives back its constant term,
/// the secret.
pub proof fn lemma_round_trip_three_shares(a: Seq<int>, xs: Seq<int>, ys: Seq<int>)
    requires
        1 <= a.len() <= 3,
        first_three_shares(a, xs, ys),
    ensures
        interpolate_at_zero(xs, ys, 3) == a[0],
{
    assert(ys[0] == poly_eval(a, xs[0]) && ys[1] == poly_eval(a, xs[1]) && ys[2] == poly_eval(
        a,
        xs[2],
    ));
    assert(1 <= xs[0] <= 3 && 1 <= xs[1] <= 3 && 1 <= xs[2] <= 3);
    lemma_three_point_formula(xs, ys);
    lemma_eval_quadratic(a, 1);
    lemma_eval_quadratic(a, 2);
    lemma_eval_quadratic(a, 3);
}

/// Changing the y-value of one of the shares at `x = 1, 2, 3` of a
/// polynomial with at most three coefficients, by any non-zero amount,
/// makes the reconstruction from them miss the secret.
pub proof fn lemma_tampered_share_misses_secret(
    a: Seq<int>,
    xs: Seq<int>,
    ys: Seq<int>,
    i: int,
    delta: int,
)
    requires
        1 <= a.len() <= 3,
        first_three_shares(a, xs, ys),
        0 <= i < 3,
        delta != 0,
    ensures
        interpolate_at_zero(xs, ys.update(i, ys[i] + delta), 3) != a[0],
{
    lemma_round_trip_three_shares(a, xs, ys);
    lemma_three_point_formula(xs, ys);
    lemma_three_point_formula(xs, ys.update(i, ys[i] + delta));
    assert(1 <= xs[i] <= 3);
    let w = weight_among_three(xs[i]);
    assert(w * (ys[i] + delta) == w * ys[i] + w * delta) by (nonlinear_arith);
    assert(w * delta != 0) by (nonlinear_arith)
        requires w != 0, delta != 0;
}

} // verus!
