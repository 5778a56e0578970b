//! Arbitrary-precision integers, the exact scalar every predicate is built on.
use num_bigint::BigInt;
use vstd::prelude::*;

verus! {

#[verifier::external_type_specification]
#[verifier::external_body]
pub struct ExBigInt(BigInt);

/// The mathematical integer that a `BigInt` holds.
pub uninterp spec fn big_value(b: BigInt) -> int;

/// Relies on `From<usize> for BigInt`: the conversion is exact.
#[verifier::external_body]
pub(crate) fn big_from_usize(v: usize) -> (r: BigInt)
    ensures
        big_value(r) == v as int,
{
    BigInt::from(v)
}

/// Relies on `Clone for BigInt`: the copy holds the same integer.
#[verifier::external_body]
pub(crate) fn big_clone(a: &BigInt) -> (r: BigInt)
    ensures
        big_value(r) == big_value(*a),
{
    a.clone()
}

/// Relies on `Add<&BigInt> for &BigInt`: exact addition.
#[verifier::external_body]
pub(crate) fn big_add(a: &BigInt, b: &BigInt) -> (r: BigInt)
    ensures
        big_value(r) == big_value(*a) + big_value(*b),
{
    a + b
}

/// Relies on `Sub<&BigInt> for &BigInt`: exact subtraction.
#[verifier::external_body]
pub(crate) fn big_sub(a: &BigInt, b: &BigInt) -> (r: BigInt)
    ensures
        big_value(r) == big_value(*a) - big_value(*b),
{
    a - b
}

/// Relies on `Mul<&BigInt> for &BigInt`: exact multiplication.
#[verifier::external_body]
pub(crate) fn big_mul(a: &BigInt, b: &BigInt) -> (r: BigInt)
    ensures
        big_value(r) == big_value(*a) * big_value(*b),
{
    a * b
}

/// The sign of an integer as -1, 0 or 1.
pub open spec fn sign_of(v: int) -> int {
    if v < 0 {
        -1
    } else if v == 0 {
        0
    } else {
        1
    }
}

/// Relies on `BigInt::sign`: `Minus`, `NoSign` and `Plus` for negative,
/// zero and positive values.
#[verifier::external_body]
pub(crate) fn big_sign(a: &BigInt) -> (r: i8)
    ensures
        r as int == sign_of(big_value(*a)),
{
    match a.sign() {
        num_bigint::Sign::Minus => -1,
        num_bigint::Sign::NoSign => 0,
        num_bigint::Sign::Plus => 1,
    }
}

} // verus!
