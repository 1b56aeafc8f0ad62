use eth_gateway::amount::Amount;
use eth_gateway::convert::parse_u256;
use ethers_core::types::U256;

const MAX_256: &str = "115792089237316195423570985008687907853269984665640564039457584007913129639935";

#[test]
fn zero_is_zero() {
    let z = Amount::zero();
    assert!(z.is_zero());
    assert_eq!(z.to_dec_string(), "0");
}

#[test]
fn from_u64_renders_decimal_digits() {
    assert_eq!(Amount::from_u64(0).to_dec_string(), "0");
    assert_eq!(Amount::from_u64(7).to_dec_string(), "7");
    assert_eq!(Amount::from_u64(1050).to_dec_string(), "1050");
    assert_eq!(Amount::from_u64(u64::MAX).to_dec_string(), "18446744073709551615");
}

#[test]
fn comparison_is_by_value() {
    let a = Amount::from_u64(99);
    let b = Amount::from_u64(100);
    assert!(a.lt(&b));
    assert!(!b.lt(&a));
    assert!(a.le(&b));
    assert!(a.le(&a));
    assert!(!b.le(&a));
}

#[test]
fn addition_is_exact() {
    let a = Amount::from_u64(u64::MAX);
    let b = Amount::from_u64(1);
    let sum = a.checked_add(&b).unwrap();
    assert_eq!(sum.to_dec_string(), "18446744073709551616");
}

#[test]
fn addition_beyond_256_bits_fails() {
    let max = parse_u256(MAX_256, 0).unwrap();
    let one = Amount::from_u64(1);
    assert!(max.checked_add(&one).is_none());
    let zero = Amount::zero();
    assert_eq!(max.checked_add(&zero).unwrap().to_dec_string(), MAX_256);
}

#[test]
fn largest_amount_matches_the_256_bit_range() {
    assert_eq!(U256::from_dec_str(MAX_256).unwrap(), U256::MAX);
    let too_big = "115792089237316195423570985008687907853269984665640564039457584007913129639936";
    assert!(U256::from_dec_str(too_big).is_err());
}

#[test]
fn clone_preserves_value() {
    let a = Amount::from_u64(42);
    let b = a.clone();
    assert_eq!(b.to_dec_string(), "42");
}
