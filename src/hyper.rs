//! The hyperoperation hierarchy: successor, addition, multiplication,
//! exponentiation, and beyond by right recursion on the exponent.
use crate::big::{
    copy_of, equal, from_u32, is_odd, is_one, is_zero, minus, plus, times, to_u32, value,
};
use crate::power::{big_pow, lemma_pow_nat};
use num_bigint::BigUint;
use vstd::arithmetic::power::{
    lemma0_pow, lemma1_pow, lemma_pow0, lemma_pow1, lemma_pow_adds, lemma_square_is_pow2, pow,
};
use vstd::prelude::*;

verus! {

/// `H(order, a, b)`: `b + 1` at order 0, `a + b` at order 1, `a * b` at
/// order 2, `a ^ b` at order 3, and above that `H(order, a, 0) = 1` and
/// `H(order, a, b) = H(order - 1, a, H(order, a, b - 1))`.
pub open spec fn hyper(order: nat, a: nat, b: nat) -> nat
    decreases order, b,
{
    if order == 0 {
        b + 1
    } else if order == 1 {
        a + b
    } else if order == 2 {
        a * b
    } else if order == 3 {
        pow(a as int, b) as nat
    } else if b == 0 {
        1
    } else {
        hyper((order - 1) as nat, a, hyper(order, a, (b - 1) as nat))
    }
}

/// The three lowest orders are successor, addition and multiplication.
pub proof fn lemma_low_orders(a: nat, b: nat)
    ensures
        hyper(0, a, b) == b + 1,
        hyper(1, a, b) == a + b,
        hyper(2, a, b) == a * b,
{
}

/// Order 3 is exponentiation, the repeated multiplication `a * a * ... * a`.
pub proof fn lemma_order_three(a: nat, b: nat)
    ensures
        hyper(3, a, b) == pow(a as int, b),
{
    lemma_pow_nat(a, b);
}

/// From order 3 up, every hyperoperation at exponent 0 is 1.
pub proof fn lemma_exp_zero(order: nat, a: nat)
    requires
        order >= 3,
    ensures
        hyper(order, a, 0) == 1,
{
    lemma_pow0(a as int);
}

/// From order 3 up, every hyperoperation at exponent 1 is its base.
pub proof fn lemma_exp_one(order: nat, a: nat)
    requires
        order >= 3,
    ensures
        hyper(order, a, 1) == a,
    decreases order,
{
    if order == 3 {
        lemma_pow1(a as int);
    } else {
        lemma_exp_zero(order, a);
        lemma_exp_one((order - 1) as nat, a);
    }
}

/// From order 3 up, every hyperoperation on base 1 is 1.
pub proof fn lemma_base_one(order: nat, b: nat)
    requires
        order >= 3,
    ensures
        hyper(order, 1, b) == 1,
    decreases order, b,
{
    if order == 3 {
        lemma1_pow(b);
    } else if b > 0 {
        lemma_base_one(order, (b - 1) as nat);
        lemma_base_one((order - 1) as nat, 1);
    }
}

/// From order 4 up, a hyperoperation on base 0 alternates with the parity of
/// the exponent: 1 at even exponents, 0 at odd ones.
pub proof fn lemma_base_zero(order: nat, b: nat)
    requires
        order >= 4,
    ensures
        hyper(order, 0, b) == (if b % 2 == 0 { 1nat } else { 0nat }),
    decreases order, b,
{
    if b > 0 {
        let prev: nat = (b - 1) as nat;
        lemma_base_zero(order, prev);
        let inner = hyper(order, 0, prev);
        assert(hyper(order, 0, b) == hyper((order - 1) as nat, 0, inner));
        assert(inner == 0 <==> b % 2 == 0);
        if order == 4 {
            if inner == 0 {
                lemma_pow0(0);
            } else {
                lemma0_pow(1);
            }
        } else {
            lemma_base_zero((order - 1) as nat, inner);
        }
    }
}

/// From order 3 up, `H(order, 2, 2) = 4`.
pub proof fn lemma_two_two(order: nat)
    requires
        order >= 3,
    ensures
        hyper(order, 2, 2) == 4,
    decreases order,
{
    if order == 3 {
        lemma_square_is_pow2(2);
    } else {
        lemma_exp_one(order, 2);
        lemma_two_two((order - 1) as nat);
    }
}

/// Every order from 1 up is the previous order iterated on the exponent:
/// `H(order, a, b + 1) = H(order - 1, a, H(order, a, b))`.
pub proof fn lemma_step(order: nat, a: nat, b: nat)
    requires
        order >= 1,
    ensures
        hyper(order, a, b + 1) == hyper((order - 1) as nat, a, hyper(order, a, b)),
{
    if order == 2 {
        assert(a * (b + 1) == a + a * b) by (nonlinear_arith);
    } else if order == 3 {
        lemma_pow_adds(a as int, b, 1);
        lemma_pow1(a as int);
        lemma_pow_nat(a, b);
        assert(pow(a as int, b + 1) == a * pow(a as int, b)) by (nonlinear_arith)
            requires
                pow(a as int, b + 1) == pow(a as int, b) * pow(a as int, 1),
                pow(a as int, 1) == a,
        ;
    }
}

/// Computes the hyperoperation of order `n` on `base` and `exp`.
///
/// Above order 3 the exponent is walked down in a loop, so the depth of
/// recursion is the order, not the exponent.
#[allow(non_snake_case)]
pub fn H(n: &BigUint, base: BigUint, exp: &BigUint) -> (r: BigUint)
    ensures
        value(r) == hyper(value(*n), value(base), value(*exp)),
    decreases value(*n),
{
    let ghost order = value(*n);
    let ghost a = value(base);
    let ghost b = value(*exp);
    let one = from_u32(1);
    if is_zero(n) {
        return plus(exp, &one);
    }
    if is_one(n) {
        return plus(&base, exp);
    }
    let two = from_u32(2);
    if equal(n, &two) {
        return times(&base, exp);
    }
    if equal(n, &from_u32(3)) {
        let r = big_pow(base, exp);
        proof {
            lemma_pow_nat(a, b);
        }
        return r;
    }
    if is_zero(&base) {
        proof {
            lemma_base_zero(order, b);
        }
        return if is_odd(exp) {
            from_u32(0)
        } else {
            one
        };
    }
    if is_one(&base) {
        proof {
            lemma_base_one(order, b);
        }
        return one;
    }
    if is_zero(exp) {
        return one;
    }
    if is_one(exp) {
        proof {
            lemma_exp_one(order, a);
        }
        return base;
    }
    if equal(&base, &two) && equal(exp, &two) {
        proof {
            lemma_two_two(order);
        }
        return from_u32(4);
    }
    let lower = minus(n, &one);
    let mut e = minus(exp, &one);
    let mut out = copy_of(&base);
    proof {
        lemma_exp_one(order, a);
    }
    while !is_zero(&e)
        invariant
            order >= 4,
            value(*n) == order,
            value(lower) == order - 1,
            value(one) == 1,
            value(base) == a,
            b >= 1,
            value(e) < b,
            value(out) == hyper(order, a, (b - value(e)) as nat),
        decreases value(e),
    {
        let ghost k: nat = (b - value(e)) as nat;
        out = H(&lower, copy_of(&base), &out);
        e = minus(&e, &one);
        proof {
            assert(hyper(order, a, k + 1) == hyper((order - 1) as nat, a, hyper(order, a, k)));
            assert((b - value(e)) as nat == k + 1);
        }
    }
    out
}

/// The hyperoperation with its recursion depth guarded: `H` recurses once per
/// order, so an order above `max_order` is refused with `None` before any work
/// is done, and every other input gets its exact result.
pub fn hyper_checked(n: &BigUint, base: BigUint, exp: &BigUint, max_order: u32) -> (r: Option<
    BigUint,
>)
    ensures
        r is Some <==> value(*n) <= max_order,
        r matches Some(v) ==> value(v) == hyper(value(*n), value(base), value(*exp)),
{
    match to_u32(n) {
        Some(order) => {
            if order <= max_order {
                Some(H(n, base, exp))
            } else {
                None
            }
        },
        None => None,
    }
}

} // verus!
