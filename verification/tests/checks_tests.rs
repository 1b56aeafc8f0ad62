use eth_gateway::amount::Amount;
use eth_gateway::checks::{
    check_allowance, check_balance, check_percentages, check_token_balance, percent_sum,
    total_amount,
};
use eth_gateway::convert::parse_u256;
use eth_gateway::errors::GuardError;

const MAX_256: &str = "115792089237316195423570985008687907853269984665640564039457584007913129639935";

#[test]
fn balance_below_required_is_insufficient() {
    let balance = Amount::from_u64(99);
    let required = Amount::from_u64(100);
    assert_eq!(check_balance(&balance, &required), Err(GuardError::InsufficientBalance));
}

#[test]
fn balance_equal_to_required_passes() {
    let balance = Amount::from_u64(100);
    let required = Amount::from_u64(100);
    assert_eq!(check_balance(&balance, &required), Ok(()));
}

#[test]
fn balance_above_required_passes() {
    let balance = Amount::from_u64(101);
    let required = Amount::from_u64(100);
    assert_eq!(check_balance(&balance, &required), Ok(()));
}

#[test]
fn token_balance_guard_names_its_error() {
    let balance = Amount::from_u64(0);
    let required = Amount::from_u64(1);
    assert_eq!(
        check_token_balance(&balance, &required),
        Err(GuardError::InsufficientTokenBalance)
    );
    assert_eq!(check_token_balance(&required, &required), Ok(()));
}

#[test]
fn allowance_guard_names_its_error() {
    let allowance = Amount::from_u64(5);
    let required = Amount::from_u64(6);
    assert_eq!(check_allowance(&allowance, &required), Err(GuardError::InsufficientAllowance));
    assert_eq!(check_allowance(&required, &required), Ok(()));
}

#[test]
fn percent_sum_adds_all_entries() {
    assert_eq!(percent_sum(&vec![]), 0);
    assert_eq!(percent_sum(&vec![30, 30, 40]), 100);
    assert_eq!(percent_sum(&vec![255, 255]), 510);
}

#[test]
fn percentages_up_to_one_hundred_pass() {
    assert_eq!(check_percentages(&vec![60, 40]), Ok(()));
    assert_eq!(check_percentages(&vec![100]), Ok(()));
    assert_eq!(check_percentages(&vec![]), Ok(()));
}

#[test]
fn percentages_beyond_one_hundred_fail() {
    assert_eq!(check_percentages(&vec![60, 41]), Err(GuardError::PercentSumTooLarge));
    assert_eq!(check_percentages(&vec![101]), Err(GuardError::PercentSumTooLarge));
}

#[test]
fn totals_are_exact() {
    let values = vec![Amount::from_u64(1), Amount::from_u64(2), Amount::from_u64(3)];
    assert_eq!(total_amount(&values).unwrap().to_dec_string(), "6");
    assert_eq!(total_amount(&vec![]).unwrap().to_dec_string(), "0");
}

#[test]
fn totals_beyond_256_bits_fail() {
    let max = parse_u256(MAX_256, 0).unwrap();
    let values = vec![max, Amount::from_u64(1)];
    assert!(total_amount(&values).is_none());
}
