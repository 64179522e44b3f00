//! Graham-style towers: the hyperoperation applied at orders that come out of
//! its own previous results.
use crate::big::{copy_of, from_u32, is_zero, minus, plus, value};
use crate::hyper::{hyper, H};
use num_bigint::BigUint;
use vstd::prelude::*;

verus! {

/// The tower after `k` rounds: 4 at first, then each round replaces `x` by
/// `H(x + 2, 3, 3)`.
pub open spec fn graham(k: nat) -> nat
    decreases k,
{
    if k == 0 {
        4
    } else {
        hyper(graham((k - 1) as nat) + 2, 3, 3)
    }
}

/// Computes the tower after `n` rounds.
#[allow(non_snake_case)]
pub fn Graham(n: BigUint) -> (r: BigUint)
    ensures
        value(r) == graham(value(n)),
{
    let ghost rounds = value(n);
    let one = from_u32(1);
    let two = from_u32(2);
    let three = from_u32(3);
    let mut left = n;
    let mut x = from_u32(4);
    while !is_zero(&left)
        invariant
            value(one) == 1,
            value(two) == 2,
            value(three) == 3,
            value(left) <= rounds,
            value(x) == graham((rounds - value(left)) as nat),
        decreases value(left),
    {
        left = minus(&left, &one);
        x = H(&plus(&x, &two), copy_of(&three), &three);
    }
    x
}

} // verus!
