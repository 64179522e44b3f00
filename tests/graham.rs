use hyper_op::graham::Graham;
use num_bigint::BigUint;
use num_traits::Zero;

#[test]
fn graham_before_any_round_is_four() {
    assert_eq!(Graham(BigUint::zero()), BigUint::from(4u8));
}
