//! `base ^ exp` over unbounded natural numbers: a machine-word path that hands
//! the exponent to `num-bigint`, and exponentiation by squaring for exponents
//! beyond it.
use crate::big::{copy_of, from_u32, is_odd, is_one, is_zero, half, pow_u32, times, to_u32, value};
use num_bigint::BigUint;
use vstd::arithmetic::power::{
    lemma0_pow, lemma1_pow, lemma_pow0, lemma_pow1, lemma_pow_adds, lemma_pow_multiplies,
    lemma_pow_positive, lemma_square_is_pow2, pow,
};
use vstd::prelude::*;

verus! {

/// A natural number raised to a natural power is a natural number.
pub proof fn lemma_pow_nat(b: nat, e: nat)
    ensures
        pow(b as int, e) >= 0,
{
    if b > 0 {
        lemma_pow_positive(b as int, e);
    } else if e > 0 {
        lemma0_pow(e);
    } else {
        lemma_pow0(b as int);
    }
}

/// The step of exponentiation by squaring: halve the exponent, square the
/// base, and keep one factor back when the exponent is odd.
proof fn lemma_pow_halving(b: int, e: nat)
    ensures
        pow(b, e) == if e % 2 == 1 {
            b * pow(b * b, e / 2)
        } else {
            pow(b * b, e / 2)
        },
{
    let h: nat = e / 2;
    lemma_pow_multiplies(b, 2, h);
    lemma_square_is_pow2(b);
    if e % 2 == 1 {
        lemma_pow_adds(b, 2 * h, 1);
        lemma_pow1(b);
        assert(pow(b, e) == pow(b, 2 * h) * b);
    } else {
        assert(e == 2 * h);
    }
}

/// The fast path: the exponent fits in a machine word and `num-bigint`
/// computes the power.
pub fn pow_word(base: &BigUint, exp: u32) -> (r: BigUint)
    ensures
        value(r) == pow(value(*base) as int, exp as nat),
{
    pow_u32(base, exp)
}

/// `base ^ exp` by repeated squaring, for any exponent.
pub fn pow_by_squaring(base: BigUint, exp: &BigUint) -> (r: BigUint)
    ensures
        value(r) == pow(value(base) as int, value(*exp)),
{
    let ghost whole = pow(value(base) as int, value(*exp));
    if is_zero(exp) {
        proof {
            lemma_pow0(value(base) as int);
        }
        return from_u32(1);
    }
    let mut b = base;
    let mut e = copy_of(exp);
    let mut out = from_u32(1);
    while !is_one(&e)
        invariant
            value(e) >= 1,
            value(out) * pow(value(b) as int, value(e)) == whole,
        decreases value(e),
    {
        proof {
            lemma_pow_halving(value(b) as int, value(e));
        }
        if is_odd(&e) {
            let ghost o = value(out);
            let ghost v = value(b) as int;
            let ghost q = pow(v * v, value(e) / 2);
            out = times(&out, &b);
            proof {
                assert(o * (v * q) == (o * v) * q) by (nonlinear_arith);
            }
        }
        e = half(&e);
        b = times(&b, &b);
    }
    proof {
        lemma_pow1(value(b) as int);
    }
    times(&out, &b)
}

/// Where an exponent fits in a machine word, the machine-word path and
/// exponentiation by squaring give the same power.
pub proof fn lemma_paths_agree(base: BigUint, word: u32, exp: BigUint)
    requires
        value(exp) == word,
    ensures
        pow(value(base) as int, word as nat) == pow(value(base) as int, value(exp)),
{
}

/// `base ^ exp` for any exponent: the machine-word path where the exponent
/// fits in a `u32`, exponentiation by squaring beyond it.
pub fn big_pow(base: BigUint, exp: &BigUint) -> (r: BigUint)
    ensures
        value(r) == pow(value(base) as int, value(*exp)),
{
    match to_u32(exp) {
        Some(e) => pow_word(&base, e),
        None => {
            if is_zero(&base) || is_one(&base) {
                proof {
                    lemma0_pow(value(*exp));
                    lemma1_pow(value(*exp));
                }
                base
            } else {
                pow_by_squaring(base, exp)
            }
        },
    }
}

} // verus!
