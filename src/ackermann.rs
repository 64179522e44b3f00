//! The Ackermann-Péter function, computed as one hyperoperation at base 2.
use crate::big::{from_u32, minus, plus, value};
use crate::hyper::{hyper, lemma_step, lemma_two_two, H};
use crate::power::lemma_pow_nat;
use num_bigint::BigUint;
use vstd::arithmetic::power::pow;
use vstd::prelude::*;

verus! {

/// The Ackermann-Péter function by its classical double recursion.
pub open spec fn ackermann(m: nat, n: nat) -> nat
    decreases m, n,
{
    if m == 0 {
        n + 1
    } else if n == 0 {
        ackermann((m - 1) as nat, 1)
    } else {
        ackermann((m - 1) as nat, ackermann(m, (n - 1) as nat))
    }
}

/// `A(m, n) = H(m, 2, n + 3) - 3`; in particular the hyperoperation there is
/// never below 3, so the subtraction never goes under zero.
pub proof fn lemma_ackermann_is_hyper(m: nat, n: nat)
    ensures
        ackermann(m, n) + 3 == hyper(m, 2, n + 3),
    decreases m, n,
{
    if m > 0 {
        if n == 0 {
            if m >= 3 {
                lemma_two_two(m);
            }
            lemma_step(m, 2, 2);
            lemma_ackermann_is_hyper((m - 1) as nat, 1);
        } else {
            let prev: nat = (n - 1) as nat;
            lemma_ackermann_is_hyper(m, prev);
            lemma_ackermann_is_hyper((m - 1) as nat, ackermann(m, prev));
            lemma_step(m, 2, n + 2);
        }
    }
}

/// The first four rows of the Ackermann-Péter function in closed form.
pub proof fn lemma_ackermann_low_rows(n: nat)
    ensures
        ackermann(0, n) == n + 1,
        ackermann(1, n) == n + 2,
        ackermann(2, n) == 2 * n + 3,
        ackermann(3, n) + 3 == pow(2, n + 3),
{
    lemma_ackermann_is_hyper(1, n);
    lemma_ackermann_is_hyper(2, n);
    lemma_ackermann_is_hyper(3, n);
    lemma_pow_nat(2, n + 3);
}

/// Computes the Ackermann-Péter function `A(m, n)`.
#[allow(non_snake_case)]
pub fn A(m: BigUint, n: BigUint) -> (r: BigUint)
    ensures
        value(r) == ackermann(value(m), value(n)),
{
    let three = from_u32(3);
    let h = H(&m, from_u32(2), &plus(&n, &three));
    proof {
        lemma_ackermann_is_hyper(value(m), value(n));
    }
    minus(&h, &three)
}

} // verus!
