use eth_gateway::errors::HexDecodeError;
use eth_gateway::hexutil::{decode_hex, encode_hex};

#[test]
fn encodes_lowercase_without_prefix() {
    assert_eq!(encode_hex(&vec![]), "");
    assert_eq!(encode_hex(&vec![0x00]), "00");
    assert_eq!(encode_hex(&vec![0xde, 0xad, 0xbe, 0xef]), "deadbeef");
    assert_eq!(encode_hex(&vec![0x01, 0x0f, 0xf0]), "010ff0");
}

#[test]
fn decodes_plain_digits() {
    assert_eq!(decode_hex("deadbeef").unwrap(), vec![0xde, 0xad, 0xbe, 0xef]);
    assert_eq!(decode_hex("00ff").unwrap(), vec![0x00, 0xff]);
}

#[test]
fn decodes_uppercase_digits_and_prefix() {
    assert_eq!(decode_hex("DEAD").unwrap(), vec![0xde, 0xad]);
    assert_eq!(decode_hex("0xdead").unwrap(), vec![0xde, 0xad]);
    assert_eq!(decode_hex("0Xdead").unwrap(), vec![0xde, 0xad]);
}

#[test]
fn decodes_empty_texts() {
    assert_eq!(decode_hex("").unwrap(), Vec::<u8>::new());
    assert_eq!(decode_hex("0x").unwrap(), Vec::<u8>::new());
}

#[test]
fn rejects_odd_length_counting_the_prefix() {
    assert_eq!(decode_hex("abc"), Err(HexDecodeError::OddLength));
    assert_eq!(decode_hex("0xa"), Err(HexDecodeError::OddLength));
    assert_eq!(decode_hex("0xabc"), Err(HexDecodeError::OddLength));
}

#[test]
fn rejects_non_hex_characters() {
    assert_eq!(decode_hex("zz"), Err(HexDecodeError::InvalidCharacter));
    assert_eq!(decode_hex("0xgg"), Err(HexDecodeError::InvalidCharacter));
}

#[test]
fn round_trips_bytes() {
    let bytes = vec![0u8, 1, 2, 3, 127, 128, 255];
    assert_eq!(decode_hex(&encode_hex(&bytes)).unwrap(), bytes);
}
