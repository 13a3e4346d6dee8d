//! Signed integers of any size, held as a sign and big-endian magnitude bytes.

use vstd::prelude::*;
use vstd::arithmetic::power::pow;
use vstd::arithmetic::power2::pow2;
use vstd::arithmetic::div_mod::{lemma_mul_mod_noop_left, lemma_mul_mod_noop_right, lemma_small_mod};
use crate::hd::be_value;
use num_bigint::{RandBigInt, Sign};

verus! {

/// An integer: `-m` or `m` for the big-endian magnitude `m`. Leading zero bytes are allowed.
#[derive(Clone, Debug)]
pub struct BigNum {
    pub negative: bool,
    pub magnitude: Vec<u8>,
}

/// The shortest big-endian bytes of `v`; zero is one zero byte.
pub open spec fn mag_bytes(v: nat) -> Seq<u8>
    decreases v,
{
    if v < 256 {
        seq![v as u8]
    } else {
        mag_bytes(v / 256).push((v % 256) as u8)
    }
}

/// `|v|`.
pub open spec fn abs(v: int) -> nat {
    if v < 0 {
        (-v) as nat
    } else {
        v as nat
    }
}

/// `b^e mod m`, in `[0, m)` for `m > 0`.
pub open spec fn pow_mod(b: int, e: nat, m: int) -> int {
    pow(b, e) % m
}

/// Whether `x` is the inverse of `b` modulo `m`, in `[0, m)`.
pub open spec fn is_inverse(x: int, b: int, m: int) -> bool {
    0 <= x < m && (b * x) % m == 1int % m
}

/// Whether `b` has an inverse modulo `m`.
pub open spec fn has_inverse(b: int, m: int) -> bool {
    exists|x: int| is_inverse(x, b, m)
}

/// The inverse of `b` modulo `m`, where there is one.
pub open spec fn inverse(b: int, m: int) -> int {
    choose|x: int| is_inverse(x, b, m)
}

/// `b^e mod m` for any integer exponent: a negative one raises the inverse of `b`.
pub open spec fn pow_mod_int(b: int, e: int, m: int) -> int {
    if e >= 0 {
        pow_mod(b, e as nat, m)
    } else {
        pow_mod(inverse(b, m), (-e) as nat, m)
    }
}

/// Whether `b^e mod m` is defined: the exponent is not negative, or `b` has an inverse.
pub open spec fn pow_defined(b: int, e: int, m: int) -> bool {
    e >= 0 || has_inverse(b, m)
}

/// An inverse modulo `m` is unique.
pub proof fn lemma_inverse_unique(x1: int, x2: int, b: int, m: int)
    requires
        m > 0,
        is_inverse(x1, b, m),
        is_inverse(x2, b, m),
    ensures
        x1 == x2,
{
    lemma_mul_mod_noop_right(x1, b * x2, m);
    lemma_mul_mod_noop_left(x1 * b, x2, m);
    lemma_mul_mod_noop_right(x1, 1, m);
    lemma_mul_mod_noop_left(1, x2, m);
    assert(x1 * (b * x2) == (x1 * b) * x2) by (nonlinear_arith);
    assert(x1 * b == b * x1) by (nonlinear_arith);
    lemma_small_mod(x1 as nat, m as nat);
    lemma_small_mod(x2 as nat, m as nat);
}

/// The remainder of `a / m` rounded toward zero: it has the sign of `a`.
pub open spec fn rem_trunc(a: int, m: int) -> int {
    if a >= 0 {
        a % abs(m) as int
    } else {
        -((-a) % abs(m) as int)
    }
}

/// Whether `r` is the integer square root of `n`: the largest `r` with `r·r <= n`.
pub open spec fn is_isqrt(r: nat, n: nat) -> bool {
    r * r <= n < (r + 1) * (r + 1)
}

/// The integer square root of `n`.
pub open spec fn isqrt(n: nat) -> nat {
    choose|r: nat| is_isqrt(r, n)
}

impl BigNum {
    pub open spec fn value(&self) -> int {
        if self.negative {
            -(be_value(self.magnitude@) as int)
        } else {
            be_value(self.magnitude@) as int
        }
    }
}

#[verifier::external_type_specification]
#[verifier::external_body]
pub struct ExBigInt(num_bigint::BigInt);

/// Relies on num-bigint's `BigInt::from_bytes_be`: the integer with that sign and magnitude.
#[verifier::external_body]
fn to_num(a: &BigNum) -> num_bigint::BigInt {
    let sign = if a.negative { Sign::Minus } else { Sign::Plus };
    num_bigint::BigInt::from_bytes_be(sign, &a.magnitude)
}

/// Relies on num-bigint's `BigInt::to_bytes_be`: the sign and the shortest magnitude.
#[verifier::external_body]
fn from_num(x: num_bigint::BigInt) -> BigNum {
    let (sign, magnitude) = x.to_bytes_be();
    BigNum { negative: sign == Sign::Minus, magnitude }
}

/// Relies on num-bigint's `BigInt::from(u64)`.
#[verifier::external_body]
pub(crate) fn big_from_u64(v: u64) -> (r: BigNum)
    ensures
        r.value() == v,
{
    from_num(num_bigint::BigInt::from(v))
}

/// Relies on num-bigint's `BigInt::to_bytes_be`: the shortest big-endian magnitude.
#[verifier::external_body]
pub(crate) fn big_to_bytes(a: &BigNum) -> (r: Vec<u8>)
    ensures
        r@ == mag_bytes(abs(a.value())),
{
    to_num(a).to_bytes_be().1
}

/// Relies on num-bigint's `BigInt::from_bytes_be` with a plus sign.
#[verifier::external_body]
pub(crate) fn big_from_bytes(b: &[u8]) -> (r: BigNum)
    ensures
        r.value() == be_value(b@),
{
    from_num(num_bigint::BigInt::from_bytes_be(Sign::Plus, b))
}

/// Relies on num-bigint's `Add` for `BigInt`.
#[verifier::external_body]
pub(crate) fn big_add(a: &BigNum, b: &BigNum) -> (r: BigNum)
    ensures
        r.value() == a.value() + b.value(),
{
    from_num(to_num(a) + to_num(b))
}

/// Relies on num-bigint's `Sub` for `BigInt`.
#[verifier::external_body]
pub(crate) fn big_sub(a: &BigNum, b: &BigNum) -> (r: BigNum)
    ensures
        r.value() == a.value() - b.value(),
{
    from_num(to_num(a) - to_num(b))
}

/// Relies on num-bigint's `Mul` for `BigInt`.
#[verifier::external_body]
pub(crate) fn big_mul(a: &BigNum, b: &BigNum) -> (r: BigNum)
    ensures
        r.value() == a.value() * b.value(),
{
    from_num(to_num(a) * to_num(b))
}

/// Relies on num-bigint's `Rem` for `BigInt`: the remainder has the sign of `a`.
#[verifier::external_body]
pub(crate) fn big_rem(a: &BigNum, m: &BigNum) -> (r: BigNum)
    requires
        m.value() != 0,
    ensures
        r.value() == rem_trunc(a.value(), m.value()),
{
    from_num(to_num(a) % to_num(m))
}

/// Relies on num-bigint's `Shl<usize>` for `BigInt`.
#[verifier::external_body]
pub(crate) fn big_shl(a: &BigNum, k: usize) -> (r: BigNum)
    ensures
        r.value() == a.value() * pow2(k as nat),
{
    from_num(to_num(a) << k)
}

/// Relies on num-bigint's `BigInt::sqrt`, which panics on a negative number.
#[verifier::external_body]
pub(crate) fn big_sqrt(a: &BigNum) -> (r: BigNum)
    requires
        a.value() >= 0,
    ensures
        r.value() == isqrt(a.value() as nat),
{
    from_num(to_num(a).sqrt())
}

/// Relies on num-bigint's `BigInt::modpow`, which panics on a negative exponent or a zero
/// modulus, and rounds like `mod_floor`.
#[verifier::external_body]
pub(crate) fn big_mod_pow(b: &BigNum, e: &BigNum, m: &BigNum) -> (r: BigNum)
    requires
        e.value() >= 0,
        m.value() > 0,
    ensures
        r.value() == pow_mod(b.value(), e.value() as nat, m.value()),
{
    from_num(to_num(b).modpow(&to_num(e), &to_num(m)))
}

/// Relies on num-bigint's `BigInt::modinv`: the inverse in `[0, m)`, which exists if and only
/// if `a` and `m` are coprime.
#[verifier::external_body]
pub(crate) fn big_mod_inv(a: &BigNum, m: &BigNum) -> (r: Option<BigNum>)
    requires
        m.value() > 1,
    ensures
        r is None <==> !has_inverse(a.value(), m.value()),
        r matches Some(x) ==> is_inverse(x.value(), a.value(), m.value()),
{
    to_num(a).modinv(&to_num(m)).map(from_num)
}

/// `b^e mod m` for any integer exponent; `None` where the exponent is negative and `b` has
/// no inverse.
pub(crate) fn big_mod_pow_int(b: &BigNum, e: &BigNum, m: &BigNum) -> (r: Option<BigNum>)
    requires
        m.value() > 1,
    ensures
        r is None <==> !pow_defined(b.value(), e.value(), m.value()),
        r matches Some(x) ==> x.value() == pow_mod_int(b.value(), e.value(), m.value()),
{
    let zero = big_from_u64(0);
    if !big_lt(e, &zero) {
        return Some(big_mod_pow(b, e, m));
    }
    match big_mod_inv(b, m) {
        None => None,
        Some(inv) => {
            proof {
                let x = inverse(b.value(), m.value());
                assert(is_inverse(x, b.value(), m.value()));
                lemma_inverse_unique(inv.value(), x, b.value(), m.value());
            }
            let neg = big_sub(&zero, e);
            Some(big_mod_pow(&inv, &neg, m))
        },
    }
}

/// Relies on num-bigint's `PartialOrd` for `BigInt`.
#[verifier::external_body]
pub(crate) fn big_lt(a: &BigNum, b: &BigNum) -> (r: bool)
    ensures
        r == (a.value() < b.value()),
{
    to_num(a) < to_num(b)
}

/// Relies on num-bigint's `PartialEq` for `BigInt`.
#[verifier::external_body]
pub(crate) fn big_eq(a: &BigNum, b: &BigNum) -> (r: bool)
    ensures
        r == (a.value() == b.value()),
{
    to_num(a) == to_num(b)
}

/// Relies on num-bigint's `RandBigInt::gen_bigint_range` over the thread's generator, which
/// panics unless the bound is positive: a number drawn from `[0, upper)`.
#[verifier::external_body]
pub(crate) fn big_sample_below(upper: &BigNum) -> (r: BigNum)
    requires
        upper.value() > 0,
    ensures
        0 <= r.value() < upper.value(),
{
    let zero = num_bigint::BigInt::from(0u8);
    from_num(rand::thread_rng().gen_bigint_range(&zero, &to_num(upper)))
}

} // verus!
