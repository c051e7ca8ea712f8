//! Arbitrary-precision signed integers, held as two's-complement bytes.
//!
//! Every operation on them is carried out by `num_bigint::BigInt`; the
//! library states what each one computes over the integer that a value
//! stands for.
use num_bigint::BigInt;
use vstd::arithmetic::power::pow;
use vstd::math::abs;
use vstd::prelude::*;

verus! {

/// The value of little-endian bytes read as an unsigned number.
pub open spec fn unsigned_le(b: Seq<u8>) -> nat
    decreases b.len(),
{
    if b.len() == 0 {
        0
    } else {
        b[0] as nat + 256 * unsigned_le(b.drop_first())
    }
}

/// The value of little-endian bytes read in two's complement; no bytes is zero.
pub open spec fn signed_le(b: Seq<u8>) -> int {
    if b.len() == 0 {
        0
    } else if b.last() >= 128 {
        unsigned_le(b) - pow(256, b.len())
    } else {
        unsigned_le(b) as int
    }
}

/// Integer division that rounds toward zero, as Rust's `/` does.
pub open spec fn trunc_div(a: int, b: int) -> int {
    let q: int = abs(a) as int / abs(b) as int;
    if (a < 0) != (b < 0) {
        -q
    } else {
        q
    }
}

/// The remainder that goes with `trunc_div`: it takes the sign of `a`.
pub open spec fn trunc_rem(a: int, b: int) -> int {
    if a < 0 {
        -((abs(a) % abs(b)) as int)
    } else {
        (abs(a) % abs(b)) as int
    }
}

/// `base` to the power `exp`, reduced into `[0, modulus)`.
pub open spec fn mod_pow(base: int, exp: int, modulus: int) -> int {
    pow(base, exp as nat) % modulus
}

/// A signed integer of any size.
///
/// Every value holds the shortest bytes that `num_bigint` writes for its
/// integer, so `==` on two values is equality of the integers.
#[derive(Clone, Debug, PartialEq, Eq)]
pub struct BigNum {
    bytes: Vec<u8>,
}

impl View for BigNum {
    type V = int;

    closed spec fn view(&self) -> int {
        signed_le(self.bytes@)
    }
}

/// Relies on `BigInt::from_signed_bytes_le`: the two's-complement reading
/// of the bytes, stored in the shortest form.
#[verifier::external_body]
fn big_from_bytes(bytes: &Vec<u8>) -> (r: BigNum)
    ensures
        r@ == signed_le(bytes@),
{
    BigNum { bytes: BigInt::from_signed_bytes_le(bytes).to_signed_bytes_le() }
}

/// Relies on `BigInt::from(i64)`: the value is kept.
#[verifier::external_body]
fn big_from_i64(v: i64) -> (r: BigNum)
    ensures
        r@ == v as int,
{
    BigNum { bytes: BigInt::from(v).to_signed_bytes_le() }
}

/// Relies on `BigInt::from(u64)`: the value is kept.
#[verifier::external_body]
fn big_from_u64(v: u64) -> (r: BigNum)
    ensures
        r@ == v as int,
{
    BigNum { bytes: BigInt::from(v).to_signed_bytes_le() }
}

/// Relies on `BigInt + BigInt`: the exact sum.
#[verifier::external_body]
fn big_add(a: &BigNum, b: &BigNum) -> (r: BigNum)
    ensures
        r@ == a@ + b@,
{
    let s = BigInt::from_signed_bytes_le(&a.bytes) + BigInt::from_signed_bytes_le(&b.bytes);
    BigNum { bytes: s.to_signed_bytes_le() }
}

/// Relies on `BigInt - BigInt`: the exact difference.
#[verifier::external_body]
fn big_sub(a: &BigNum, b: &BigNum) -> (r: BigNum)
    ensures
        r@ == a@ - b@,
{
    let d = BigInt::from_signed_bytes_le(&a.bytes) - BigInt::from_signed_bytes_le(&b.bytes);
    BigNum { bytes: d.to_signed_bytes_le() }
}

/// Relies on `BigInt * BigInt`: the exact product.
#[verifier::external_body]
fn big_mul(a: &BigNum, b: &BigNum) -> (r: BigNum)
    ensures
        r@ == a@ * b@,
{
    let p = BigInt::from_signed_bytes_le(&a.bytes) * BigInt::from_signed_bytes_le(&b.bytes);
    BigNum { bytes: p.to_signed_bytes_le() }
}

/// Relies on `BigInt / BigInt`: the quotient rounded toward zero; it panics
/// on a zero divisor.
#[verifier::external_body]
fn big_div(a: &BigNum, b: &BigNum) -> (r: BigNum)
    requires
        b@ != 0,
    ensures
        r@ == trunc_div(a@, b@),
{
    let q = BigInt::from_signed_bytes_le(&a.bytes) / BigInt::from_signed_bytes_le(&b.bytes);
    BigNum { bytes: q.to_signed_bytes_le() }
}

/// Relies on `BigInt % BigInt`: the remainder with the sign of the dividend;
/// it panics on a zero divisor.
#[verifier::external_body]
fn big_rem(a: &BigNum, b: &BigNum) -> (r: BigNum)
    requires
        b@ != 0,
    ensures
        r@ == trunc_rem(a@, b@),
{
    let m = BigInt::from_signed_bytes_le(&a.bytes) % BigInt::from_signed_bytes_le(&b.bytes);
    BigNum { bytes: m.to_signed_bytes_le() }
}

/// Relies on `BigInt::modpow`: for a positive modulus the power reduced into
/// `[0, modulus)`; it panics on a negative exponent or a zero modulus.
#[verifier::external_body]
fn big_modpow(base: &BigNum, exp: &BigNum, modulus: &BigNum) -> (r: BigNum)
    requires
        exp@ >= 0,
        modulus@ > 0,
    ensures
        r@ == mod_pow(base@, exp@, modulus@),
{
    let b = BigInt::from_signed_bytes_le(&base.bytes);
    let e = BigInt::from_signed_bytes_le(&exp.bytes);
    let m = BigInt::from_signed_bytes_le(&modulus.bytes);
    BigNum { bytes: b.modpow(&e, &m).to_signed_bytes_le() }
}

/// Relies on `BigInt < BigInt`: the order of the integers.
#[verifier::external_body]
fn big_lt(a: &BigNum, b: &BigNum) -> (r: bool)
    ensures
        r == (a@ < b@),
{
    BigInt::from_signed_bytes_le(&a.bytes) < BigInt::from_signed_bytes_le(&b.bytes)
}

/// Relies on `BigInt == BigInt`: equality of the integers.
#[verifier::external_body]
fn big_eq(a: &BigNum, b: &BigNum) -> (r: bool)
    ensures
        r == (a@ == b@),
{
    BigInt::from_signed_bytes_le(&a.bytes) == BigInt::from_signed_bytes_le(&b.bytes)
}

impl BigNum {
    /// The integer `v`.
    pub fn from_i64(v: i64) -> (r: BigNum)
        ensures
            r@ == v as int,
    {
        big_from_i64(v)
    }

    /// The integer `v`.
    pub fn from_u64(v: u64) -> (r: BigNum)
        ensures
            r@ == v as int,
    {
        big_from_u64(v)
    }

    /// The integer that `bytes` gives in two's complement, least significant
    /// byte first.
    pub fn from_signed_bytes_le(bytes: Vec<u8>) -> (r: BigNum)
        ensures
            r@ == signed_le(bytes@),
    {
        big_from_bytes(&bytes)
    }

    /// Two's-complement bytes of the integer, least significant byte first.
    pub fn to_signed_bytes_le(&self) -> (r: Vec<u8>)
        ensures
            signed_le(r@) == self@,
    {
        self.bytes.clone()
    }

    /// The same integer, in a value of its own.
    pub fn copy(&self) -> (r: BigNum)
        ensures
            r@ == self@,
    {
        BigNum { bytes: self.bytes.clone() }
    }

    pub fn add(&self, other: &BigNum) -> (r: BigNum)
        ensures
            r@ == self@ + other@,
    {
        big_add(self, other)
    }

    pub fn sub(&self, other: &BigNum) -> (r: BigNum)
        ensures
            r@ == self@ - other@,
    {
        big_sub(self, other)
    }

    pub fn mul(&self, other: &BigNum) -> (r: BigNum)
        ensures
            r@ == self@ * other@,
    {
        big_mul(self, other)
    }

    /// The quotient, rounded toward zero.
    pub fn div(&self, other: &BigNum) -> (r: BigNum)
        requires
            other@ != 0,
        ensures
            r@ == trunc_div(self@, other@),
    {
        big_div(self, other)
    }

    /// The remainder of `div`, with the sign of `self`.
    pub fn rem(&self, other: &BigNum) -> (r: BigNum)
        requires
            other@ != 0,
        ensures
            r@ == trunc_rem(self@, other@),
    {
        big_rem(self, other)
    }

    /// `self` to the power `exp`, reduced into `[0, modulus)`.
    pub fn modpow(&self, exp: &BigNum, modulus: &BigNum) -> (r: BigNum)
        requires
            exp@ >= 0,
            modulus@ > 0,
        ensures
            r@ == mod_pow(self@, exp@, modulus@),
            0 <= r@ < modulus@,
    {
        let r = big_modpow(self, exp, modulus);
        assert(0 <= r@ < modulus@);
        r
    }

    pub fn less_than(&self, other: &BigNum) -> (r: bool)
        ensures
            r == (self@ < other@),
    {
        big_lt(self, other)
    }

    pub fn equals(&self, other: &BigNum) -> (r: bool)
        ensures
            r == (self@ == other@),
    {
        big_eq(self, other)
    }
}

} // verus!
