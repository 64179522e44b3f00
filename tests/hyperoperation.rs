use hyper_op::hyper::{hyper_checked, H};
use num_bigint::BigUint;
use num_traits::{One, Zero};

fn big(x: u64) -> BigUint {
    BigUint::from(x)
}

fn h(n: u64, a: u64, b: u64) -> BigUint {
    H(&big(n), big(a), &big(b))
}

#[test]
fn order_zero_is_successor() {
    assert_eq!(h(0, 7, 0), big(1));
    assert_eq!(h(0, 7, 41), big(42));
    assert_eq!(h(0, 0, 1000), big(1001));
}

#[test]
fn order_one_is_addition() {
    assert_eq!(h(1, 0, 0), big(0));
    assert_eq!(h(1, 5, 9), big(14));
    let x = BigUint::one() << 200u32;
    assert_eq!(H(&big(1), x.clone(), &x), BigUint::one() << 201u32);
}

#[test]
fn order_two_is_multiplication() {
    assert_eq!(h(2, 6, 7), big(42));
    assert_eq!(h(2, 123, 0), big(0));
    assert_eq!(h(2, 0, 9), big(0));
}

#[test]
fn order_three_matches_repeated_multiplication() {
    for a in 0..6u64 {
        for b in 1..12u64 {
            let mut naive = BigUint::one();
            for _ in 0..b {
                naive *= big(a);
            }
            assert_eq!(h(3, a, b), naive);
        }
    }
    assert_eq!(h(3, 10, 30), BigUint::from(10u8).pow(30));
}

#[test]
fn exponent_zero_from_order_three_up() {
    for order in 3..8u64 {
        for base in 0..5u64 {
            assert_eq!(h(order, base, 0), big(1));
        }
    }
}

#[test]
fn exponent_zero_at_order_two_is_a_product() {
    assert_eq!(h(2, 5, 0), big(0));
}

#[test]
fn tetration_values() {
    assert_eq!(h(4, 2, 3), big(16));
    assert_eq!(h(4, 2, 4), big(65536));
    assert_eq!(h(4, 3, 2), big(27));
    assert_eq!(h(4, 3, 3), big(7_625_597_484_987));
    assert_eq!(h(4, 5, 1), big(5));
}

#[test]
fn pentation_and_beyond_small_values() {
    assert_eq!(h(5, 2, 3), big(65536));
    assert_eq!(h(6, 2, 2), big(4));
    assert_eq!(h(9, 2, 2), big(4));
    assert_eq!(h(7, 9, 1), big(9));
}

#[test]
fn base_one_stays_one() {
    for order in 3..9u64 {
        assert_eq!(h(order, 1, 0), big(1));
        assert_eq!(h(order, 1, 17), big(1));
    }
}

#[test]
fn base_zero_alternates_with_parity() {
    for order in 4..8u64 {
        for exp in 0..6u64 {
            let expected = if exp % 2 == 0 { 1 } else { 0 };
            assert_eq!(h(order, 0, exp), big(expected));
        }
    }
    assert!(h(4, 0, 7).is_zero());
}

#[test]
fn hyperoperation_with_huge_order_and_small_arguments() {
    let order = BigUint::one() << 80u32;
    assert_eq!(H(&order, big(2), &big(2)), big(4));
    assert_eq!(H(&order, big(1), &big(5)), big(1));
    assert_eq!(H(&order, big(0), &big(3)), big(0));
}

#[test]
fn checked_hyperoperation_refuses_orders_above_the_limit() {
    assert_eq!(hyper_checked(&big(4), big(2), &big(3), 4), Some(big(16)));
    assert_eq!(hyper_checked(&big(5), big(2), &big(3), 4), None);
    assert_eq!(hyper_checked(&big(0), big(2), &big(3), 0), Some(big(4)));
    let huge = BigUint::one() << 40u32;
    assert_eq!(hyper_checked(&huge, big(2), &big(2), u32::MAX), None);
}
