use eth_gateway::amount::Amount;
use eth_gateway::convert::{ether_to_string, parse_amounts, parse_ether, parse_u256, u256_to_string};
use eth_gateway::errors::ParseAmountError;

const MAX_256: &str = "115792089237316195423570985008687907853269984665640564039457584007913129639935";

#[test]
fn parses_integer_with_fraction() {
    let a = parse_u256("1.5", 2).unwrap();
    assert_eq!(a.to_dec_string(), "150");
}

#[test]
fn parses_plain_integer_without_decimals() {
    let a = parse_u256("1", 0).unwrap();
    assert_eq!(a.to_dec_string(), "1");
}

#[test]
fn parses_small_fraction_with_many_decimals() {
    let a = parse_u256("0.001", 18).unwrap();
    assert_eq!(a.to_dec_string(), "1000000000000000");
}

#[test]
fn rejects_two_points() {
    assert!(matches!(parse_u256("1.2.3", 2), Err(ParseAmountError::MalformedAmount)));
}

#[test]
fn rejects_letters() {
    assert!(matches!(parse_u256("abc", 2), Err(ParseAmountError::MalformedAmount)));
}

#[test]
fn rejects_empty_text() {
    assert!(matches!(parse_u256("", 2), Err(ParseAmountError::MalformedAmount)));
}

#[test]
fn rejects_missing_integer_part() {
    assert!(matches!(parse_u256(".5", 2), Err(ParseAmountError::MalformedAmount)));
}

#[test]
fn accepts_trailing_point_as_zero_fraction() {
    let a = parse_u256("7.", 3).unwrap();
    assert_eq!(a.to_dec_string(), "7000");
}

#[test]
fn rejects_fraction_longer_than_decimals() {
    assert!(matches!(parse_u256("0.123", 2), Err(ParseAmountError::MalformedAmount)));
}

#[test]
fn accepts_largest_256_bit_value() {
    let a = parse_u256(MAX_256, 0).unwrap();
    assert_eq!(a.to_dec_string(), MAX_256);
}

#[test]
fn rejects_value_beyond_256_bits() {
    let too_big = "115792089237316195423570985008687907853269984665640564039457584007913129639936";
    assert!(matches!(parse_u256(too_big, 0), Err(ParseAmountError::AmountOverflow)));
}

#[test]
fn renders_one_token_from_smallest_unit() {
    let a = parse_u256("1000000000000000000", 0).unwrap();
    assert_eq!(u256_to_string(&a, 18), "1");
}

#[test]
fn renders_fraction_and_strips_trailing_zeros() {
    let a = parse_u256("1500000", 0).unwrap();
    assert_eq!(u256_to_string(&a, 6), "1.5");
}

#[test]
fn renders_zero_for_every_decimal_count() {
    let z = Amount::zero();
    assert_eq!(u256_to_string(&z, 0), "0");
    assert_eq!(u256_to_string(&z, 2), "0");
    assert_eq!(u256_to_string(&z, 18), "0");
}

#[test]
fn renders_leading_zeros_of_fraction() {
    let a = Amount::from_u64(1);
    assert_eq!(u256_to_string(&a, 18), "0.000000000000000001");
}

#[test]
fn round_trips_values_exactly() {
    for (text, decimals) in [("0", 7usize), ("1", 0), ("12345", 4), ("900000", 6)] {
        let a = parse_u256(text, 0).unwrap();
        let rendered = u256_to_string(&a, decimals);
        let b = parse_u256(&rendered, decimals).unwrap();
        assert_eq!(u256_to_string(&b, decimals), rendered);
        assert_eq!(b.to_dec_string(), a.to_dec_string());
    }
}

#[test]
fn ether_uses_eighteen_decimals() {
    let a = parse_ether("2.5").unwrap();
    assert_eq!(a.to_dec_string(), "2500000000000000000");
    assert_eq!(ether_to_string(&a), "2.5");
}

#[test]
fn parses_amount_lists_and_reports_first_failure() {
    let texts = vec!["1".to_string(), "2.5".to_string()];
    let parsed = parse_amounts(&texts, 1).unwrap();
    assert_eq!(parsed.len(), 2);
    assert_eq!(parsed[0].to_dec_string(), "10");
    assert_eq!(parsed[1].to_dec_string(), "25");
    let bad = vec!["1".to_string(), "x".to_string()];
    assert!(matches!(parse_amounts(&bad, 1), Err(ParseAmountError::MalformedAmount)));
}

#[test]
fn canonicalizes_leading_zeros() {
    let a = parse_u256("007.10", 3).unwrap();
    assert_eq!(a.to_dec_string(), "7100");
    assert_eq!(u256_to_string(&a, 3), "7.1");
}
