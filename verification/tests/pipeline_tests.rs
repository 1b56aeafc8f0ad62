use eth_gateway::address::Address;
use eth_gateway::amount::Amount;
use eth_gateway::convert::parse_u256;
use eth_gateway::disperse_collect::DisperseCollect;
use eth_gateway::erc20::ERC20;
use eth_gateway::errors::GuardError;
use eth_gateway::pipeline::{
    plan_collect_ether, plan_collect_token, plan_disperse_ether, plan_disperse_ether_by_percent,
    plan_disperse_token, plan_disperse_token_by_percent, plan_transfer, plan_transfer_from,
};

const MAX_256: &str = "115792089237316195423570985008687907853269984665640564039457584007913129639935";

fn addr(byte: u8) -> Address {
    Address::from_bytes(vec![byte; 20]).unwrap()
}

#[test]
fn transfer_needs_a_covering_balance() {
    let erc20 = ERC20::new(addr(0xaa));
    let ok = plan_transfer(&erc20, &addr(1), &addr(2), &Amount::from_u64(5), &Amount::from_u64(5));
    assert!(ok.is_ok());
    let short = plan_transfer(
        &erc20,
        &addr(1),
        &addr(2),
        &Amount::from_u64(5),
        &Amount::from_u64(4),
    );
    assert!(matches!(short, Err(GuardError::InsufficientTokenBalance)));
}

#[test]
fn transfer_from_checks_balance_before_allowance() {
    let erc20 = ERC20::new(addr(0xaa));
    let amount = Amount::from_u64(10);
    let no_balance = plan_transfer_from(
        &erc20,
        &addr(1),
        &addr(2),
        &addr(3),
        &amount,
        &Amount::from_u64(9),
        &Amount::from_u64(0),
    );
    assert!(matches!(no_balance, Err(GuardError::InsufficientTokenBalance)));
    let no_allowance = plan_transfer_from(
        &erc20,
        &addr(1),
        &addr(2),
        &addr(3),
        &amount,
        &Amount::from_u64(10),
        &Amount::from_u64(9),
    );
    assert!(matches!(no_allowance, Err(GuardError::InsufficientAllowance)));
    let ok = plan_transfer_from(
        &erc20,
        &addr(1),
        &addr(2),
        &addr(3),
        &amount,
        &Amount::from_u64(10),
        &Amount::from_u64(10),
    );
    assert!(ok.is_ok());
}

#[test]
fn disperse_ether_checks_the_attached_value() {
    let dc = DisperseCollect::new(addr(0xcc));
    let short = plan_disperse_ether(
        &dc,
        &addr(1),
        &vec![addr(2)],
        &vec![Amount::from_u64(5)],
        &Amount::from_u64(5),
        &Amount::from_u64(4),
    );
    assert!(matches!(short, Err(GuardError::InsufficientBalance)));
    let ok = plan_disperse_ether(
        &dc,
        &addr(1),
        &vec![addr(2)],
        &vec![Amount::from_u64(5)],
        &Amount::from_u64(5),
        &Amount::from_u64(5),
    );
    assert!(ok.is_ok());
}

#[test]
fn percent_sums_beyond_one_hundred_build_no_ether_dispersal() {
    let dc = DisperseCollect::new(addr(0xcc));
    let r = plan_disperse_ether_by_percent(
        &dc,
        &addr(1),
        &vec![addr(2), addr(3)],
        &vec![70, 31],
        &Amount::from_u64(100),
        &Amount::from_u64(100),
    );
    assert!(matches!(r, Err(GuardError::PercentSumTooLarge)));
    let ok = plan_disperse_ether_by_percent(
        &dc,
        &addr(1),
        &vec![addr(2), addr(3)],
        &vec![70, 30],
        &Amount::from_u64(100),
        &Amount::from_u64(100),
    );
    assert!(ok.is_ok());
}

#[test]
fn disperse_token_sums_values_and_checks_balance_then_allowance() {
    let dc = DisperseCollect::new(addr(0xcc));
    let values = vec![Amount::from_u64(3), Amount::from_u64(4)];
    let no_balance = plan_disperse_token(
        &dc,
        &addr(1),
        &addr(0xbb),
        &vec![addr(2), addr(3)],
        &values,
        &Amount::from_u64(6),
        &Amount::from_u64(100),
    );
    assert!(matches!(no_balance, Err(GuardError::InsufficientTokenBalance)));
    let no_allowance = plan_disperse_token(
        &dc,
        &addr(1),
        &addr(0xbb),
        &vec![addr(2), addr(3)],
        &values,
        &Amount::from_u64(7),
        &Amount::from_u64(6),
    );
    assert!(matches!(no_allowance, Err(GuardError::InsufficientAllowance)));
    let ok = plan_disperse_token(
        &dc,
        &addr(1),
        &addr(0xbb),
        &vec![addr(2), addr(3)],
        &values,
        &Amount::from_u64(7),
        &Amount::from_u64(7),
    );
    assert!(ok.is_ok());
}

#[test]
fn disperse_token_rejects_totals_beyond_256_bits() {
    let dc = DisperseCollect::new(addr(0xcc));
    let max = parse_u256(MAX_256, 0).unwrap();
    let r = plan_disperse_token(
        &dc,
        &addr(1),
        &addr(0xbb),
        &vec![addr(2), addr(3)],
        &vec![max, Amount::from_u64(1)],
        &Amount::from_u64(7),
        &Amount::from_u64(7),
    );
    assert!(matches!(r, Err(GuardError::TotalOverflow)));
}

#[test]
fn percent_token_dispersal_rejects_in_order() {
    let dc = DisperseCollect::new(addr(0xcc));
    let recipients = vec![addr(2), addr(3)];
    let zero_allowance = plan_disperse_token_by_percent(
        &dc,
        &addr(1),
        &addr(0xbb),
        &recipients,
        &vec![70, 31],
        &Amount::zero(),
        &Amount::from_u64(100),
    );
    assert!(matches!(zero_allowance, Err(GuardError::ZeroAllowance)));
    let over_percent = plan_disperse_token_by_percent(
        &dc,
        &addr(1),
        &addr(0xbb),
        &recipients,
        &vec![70, 31],
        &Amount::from_u64(50),
        &Amount::from_u64(100),
    );
    assert!(matches!(over_percent, Err(GuardError::PercentSumTooLarge)));
    let no_balance = plan_disperse_token_by_percent(
        &dc,
        &addr(1),
        &addr(0xbb),
        &recipients,
        &vec![70, 30],
        &Amount::from_u64(50),
        &Amount::from_u64(49),
    );
    assert!(matches!(no_balance, Err(GuardError::InsufficientTokenBalance)));
    let ok = plan_disperse_token_by_percent(
        &dc,
        &addr(1),
        &addr(0xbb),
        &recipients,
        &vec![70, 30],
        &Amount::from_u64(50),
        &Amount::from_u64(50),
    );
    assert!(ok.is_ok());
}

#[test]
fn collect_ether_checks_the_attached_value() {
    let dc = DisperseCollect::new(addr(0xcc));
    let short = plan_collect_ether(
        &dc,
        &addr(1),
        &addr(2),
        &Amount::from_u64(5),
        &Amount::from_u64(4),
    );
    assert!(matches!(short, Err(GuardError::InsufficientBalance)));
    let ok =
        plan_collect_ether(&dc, &addr(1), &addr(2), &Amount::from_u64(5), &Amount::from_u64(5));
    assert!(ok.is_ok());
}

#[test]
fn collect_token_checks_each_contributor_in_order() {
    let dc = DisperseCollect::new(addr(0xcc));
    let contributors = vec![addr(2), addr(3)];
    let values = vec![Amount::from_u64(5), Amount::from_u64(6)];
    let first_balance_short = plan_collect_token(
        &dc,
        &addr(1),
        &addr(0xbb),
        &addr(9),
        &contributors,
        &values,
        &vec![Amount::from_u64(4), Amount::from_u64(6)],
        &vec![Amount::from_u64(5), Amount::from_u64(6)],
    );
    assert!(matches!(first_balance_short, Err(GuardError::InsufficientTokenBalance)));
    let second_allowance_short = plan_collect_token(
        &dc,
        &addr(1),
        &addr(0xbb),
        &addr(9),
        &contributors,
        &values,
        &vec![Amount::from_u64(5), Amount::from_u64(6)],
        &vec![Amount::from_u64(5), Amount::from_u64(5)],
    );
    assert!(matches!(second_allowance_short, Err(GuardError::InsufficientAllowance)));
    let ok = plan_collect_token(
        &dc,
        &addr(1),
        &addr(0xbb),
        &addr(9),
        &contributors,
        &values,
        &vec![Amount::from_u64(5), Amount::from_u64(6)],
        &vec![Amount::from_u64(5), Amount::from_u64(6)],
    );
    assert!(ok.is_ok());
}
