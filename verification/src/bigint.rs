//! Trusted boundary to the arbitrary-precision integers of `num_bigint`.
//!
//! `bigint_of` names the integer value that a `BigInt` carries; each wrapper
//! states over that name what the operation it calls does.

use vstd::prelude::*;
use crate::arith::gcd_int;

verus! {

#[verifier::external_type_specification]
#[verifier::external_body]
pub struct ExBigInt(num_bigint::BigInt);

/// The integer value that a `BigInt` holds.
pub uninterp spec fn bigint_of(b: num_bigint::BigInt) -> int;

/// Relies on `BigInt: From<isize>`: the conversion keeps the value.
#[verifier::external_body]
pub(crate) fn big_from_isize(x: isize) -> (r: num_bigint::BigInt)
    ensures
        bigint_of(r) == x as int,
{
    num_bigint::BigInt::from(x)
}

/// Relies on `BigInt: Clone`: the copy holds the same value.
#[verifier::external_body]
pub(crate) fn big_clone(a: &num_bigint::BigInt) -> (r: num_bigint::BigInt)
    ensures
        bigint_of(r) == bigint_of(*a),
{
    a.clone()
}

/// Relies on `BigInt: PartialEq`: two values compare equal exactly when they
/// hold the same integer.
#[verifier::external_body]
pub(crate) fn big_eq(a: &num_bigint::BigInt, b: &num_bigint::BigInt) -> (r: bool)
    ensures
        r == (bigint_of(*a) == bigint_of(*b)),
{
    a == b
}

/// Relies on `Add for &BigInt`: exact integer addition.
#[verifier::external_body]
pub(crate) fn big_add(a: &num_bigint::BigInt, b: &num_bigint::BigInt) -> (r: num_bigint::BigInt)
    ensures
        bigint_of(r) == bigint_of(*a) + bigint_of(*b),
{
    a + b
}

/// Relies on `Sub for &BigInt`: exact integer subtraction.
#[verifier::external_body]
pub(crate) fn big_sub(a: &num_bigint::BigInt, b: &num_bigint::BigInt) -> (r: num_bigint::BigInt)
    ensures
        bigint_of(r) == bigint_of(*a) - bigint_of(*b),
{
    a - b
}

/// Relies on `Mul for &BigInt`: exact integer multiplication.
#[verifier::external_body]
pub(crate) fn big_mul(a: &num_bigint::BigInt, b: &num_bigint::BigInt) -> (r: num_bigint::BigInt)
    ensures
        bigint_of(r) == bigint_of(*a) * bigint_of(*b),
{
    a * b
}

/// Relies on `Rem for &BigInt`: the remainder of truncated division, which
/// is congruent to the dividend, smaller than the divisor in magnitude, and
/// never negative for a non-negative dividend.
#[verifier::external_body]
pub(crate) fn big_rem(a: &num_bigint::BigInt, m: &num_bigint::BigInt) -> (r: num_bigint::BigInt)
    requires
        bigint_of(*m) > 0,
    ensures
        bigint_of(r) % bigint_of(*m) == bigint_of(*a) % bigint_of(*m),
        -bigint_of(*m) < bigint_of(r) < bigint_of(*m),
        bigint_of(*a) >= 0 ==> bigint_of(r) >= 0,
{
    a % m
}

/// Relies on `Integer::gcd` for `BigInt`: the greatest common divisor of the
/// two magnitudes, never negative.
#[verifier::external_body]
pub(crate) fn big_gcd(a: &num_bigint::BigInt, b: &num_bigint::BigInt) -> (r: num_bigint::BigInt)
    ensures
        bigint_of(r) == gcd_int(bigint_of(*a), bigint_of(*b)),
{
    num::Integer::gcd(a, b)
}

/// Relies on `Integer::extended_gcd` for `BigInt`: it returns the
/// non-negative greatest common divisor `g` of the two arguments together
/// with Bezout coefficients `x` and `y` such that `a * x + b * y == g`.
#[verifier::external_body]
pub(crate) fn big_egcd(
    a: &num_bigint::BigInt,
    b: &num_bigint::BigInt,
) -> (r: (num_bigint::BigInt, num_bigint::BigInt, num_bigint::BigInt))
    ensures
        bigint_of(r.0) == gcd_int(bigint_of(*a), bigint_of(*b)),
        bigint_of(*a) * bigint_of(r.1) + bigint_of(*b) * bigint_of(r.2) == bigint_of(r.0),
{
    let e = num::Integer::extended_gcd(a, b);
    (e.gcd, e.x, e.y)
}

} // verus!
