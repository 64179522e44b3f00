//! The unbounded natural numbers of `num-bigint`, and the few operations on
//! them that the rest of the library calls.
use num_bigint::BigUint;
use num_traits::{One, ToPrimitive, Zero};
use vstd::arithmetic::power::pow;
use vstd::prelude::*;

verus! {

#[verifier::external_type_specification]
#[verifier::external_body]
pub struct ExBigUint(BigUint);

/// The natural number that a `BigUint` stands for.
pub uninterp spec fn value(b: BigUint) -> nat;

/// Relies on `From<u32> for BigUint`: the same number, unbounded.
#[verifier::external_body]
pub(crate) fn from_u32(x: u32) -> (r: BigUint)
    ensures
        value(r) == x,
{
    BigUint::from(x)
}

/// Relies on `Clone for BigUint`: a copy of the same number.
#[verifier::external_body]
pub(crate) fn copy_of(a: &BigUint) -> (r: BigUint)
    ensures
        value(r) == value(*a),
{
    a.clone()
}

/// Relies on `Zero::is_zero for BigUint`.
#[verifier::external_body]
pub(crate) fn is_zero(a: &BigUint) -> (r: bool)
    ensures
        r == (value(*a) == 0),
{
    a.is_zero()
}

/// Relies on `One::is_one for BigUint`.
#[verifier::external_body]
pub(crate) fn is_one(a: &BigUint) -> (r: bool)
    ensures
        r == (value(*a) == 1),
{
    a.is_one()
}

/// Relies on `PartialEq for BigUint`: equal numbers.
#[verifier::external_body]
pub(crate) fn equal(a: &BigUint, b: &BigUint) -> (r: bool)
    ensures
        r == (value(*a) == value(*b)),
{
    a == b
}

/// Relies on `BigUint::bit` at position 0: whether the number is odd.
#[verifier::external_body]
pub(crate) fn is_odd(a: &BigUint) -> (r: bool)
    ensures
        r == (value(*a) % 2 == 1),
{
    a.bit(0)
}

/// Relies on `Add<&BigUint> for &BigUint`: the exact sum.
#[verifier::external_body]
pub(crate) fn plus(a: &BigUint, b: &BigUint) -> (r: BigUint)
    ensures
        value(r) == value(*a) + value(*b),
{
    a + b
}

/// Relies on `Sub<&BigUint> for &BigUint`, which panics when `b` exceeds `a`.
#[verifier::external_body]
pub(crate) fn minus(a: &BigUint, b: &BigUint) -> (r: BigUint)
    requires
        value(*b) <= value(*a),
    ensures
        value(r) == value(*a) - value(*b),
{
    a - b
}

/// Relies on `Mul<&BigUint> for &BigUint`: the exact product.
#[verifier::external_body]
pub(crate) fn times(a: &BigUint, b: &BigUint) -> (r: BigUint)
    ensures
        value(r) == value(*a) * value(*b),
{
    a * b
}

/// Relies on `Shr<u32> for &BigUint` by one place: halving, rounded down.
#[verifier::external_body]
pub(crate) fn half(a: &BigUint) -> (r: BigUint)
    ensures
        value(r) == value(*a) / 2,
{
    a >> 1u32
}

/// Relies on `BigUint::pow` with a `u32` exponent: `b` to the power `e`.
#[verifier::external_body]
pub(crate) fn pow_u32(b: &BigUint, e: u32) -> (r: BigUint)
    ensures
        value(r) == pow(value(*b) as int, e as nat),
{
    b.pow(e)
}

/// Relies on `ToPrimitive::to_u32 for BigUint`: `Some` exactly when the
/// number fits in a `u32`.
#[verifier::external_body]
pub(crate) fn to_u32(a: &BigUint) -> (r: Option<u32>)
    ensures
        value(*a) <= u32::MAX ==> r == Some(value(*a) as u32),
        value(*a) > u32::MAX ==> r is None,
{
    a.to_u32()
}

} // verus!
