use eth_gateway::address::Address;
use eth_gateway::amount::Amount;
use eth_gateway::errors::{SignError, UpstreamError};
use eth_gateway::hexutil::decode_hex;
use eth_gateway::tx::{
    create_hex_tx, create_hex_tx_from_signed, prepare_tx, sign_transaction, sign_transaction_hex,
    UnsignedTransaction,
};

fn addr(byte: u8) -> Address {
    Address::from_bytes(vec![byte; 20]).unwrap()
}

fn bare_tx() -> UnsignedTransaction {
    UnsignedTransaction {
        to: addr(0x11),
        data: Vec::new(),
        value: Amount::zero(),
        from: None,
        gas: None,
        nonce: None,
        gas_price: None,
    }
}

fn upstream(message: &str) -> Result<Amount, UpstreamError> {
    Err(UpstreamError { message: message.to_string() })
}

#[test]
fn address_needs_twenty_bytes() {
    assert!(Address::from_bytes(vec![0; 20]).is_some());
    assert!(Address::from_bytes(vec![0; 19]).is_none());
    assert!(Address::from_bytes(vec![0; 21]).is_none());
}

#[test]
fn prepare_populates_gas_nonce_and_gas_price() {
    let tx = prepare_tx(
        bare_tx(),
        Ok(Amount::from_u64(21000)),
        Ok(Amount::from_u64(7)),
        Ok(Amount::from_u64(1000000000)),
    )
    .unwrap();
    assert_eq!(tx.gas.unwrap().to_dec_string(), "21000");
    assert_eq!(tx.nonce.unwrap().to_dec_string(), "7");
    assert_eq!(tx.gas_price.unwrap().to_dec_string(), "1000000000");
}

#[test]
fn prepare_fails_whole_when_gas_query_fails() {
    let r = prepare_tx(
        bare_tx(),
        upstream("gas boom"),
        Ok(Amount::from_u64(7)),
        Ok(Amount::from_u64(9)),
    );
    assert_eq!(r.err().unwrap().message, "gas boom");
}

#[test]
fn prepare_fails_whole_when_nonce_query_fails() {
    let r = prepare_tx(
        bare_tx(),
        Ok(Amount::from_u64(21000)),
        upstream("nonce boom"),
        Ok(Amount::from_u64(9)),
    );
    assert_eq!(r.err().unwrap().message, "nonce boom");
}

#[test]
fn prepare_fails_whole_when_gas_price_query_fails() {
    let r = prepare_tx(
        bare_tx(),
        Ok(Amount::from_u64(21000)),
        Ok(Amount::from_u64(7)),
        upstream("price boom"),
    );
    assert_eq!(r.err().unwrap().message, "price boom");
}

#[test]
fn prepare_reports_the_first_failure() {
    let r = prepare_tx(bare_tx(), upstream("first"), upstream("second"), upstream("third"));
    assert_eq!(r.err().unwrap().message, "first");
}

#[test]
fn hex_tx_is_the_expected_rlp_encoding() {
    // A bare legacy transaction without a chain id: the six-item list of
    // nonce, gas price, gas (each absent, so the empty string 0x80), the
    // twenty-byte recipient (0x94 then the bytes), value zero (0x80) and
    // empty call data (0x80); 26 payload bytes give the list header 0xda.
    let expected = format!("0xda80808094{}8080", "11".repeat(20));
    assert_eq!(create_hex_tx(&bare_tx()), expected);
}

#[test]
fn signing_rejects_an_unparsable_key() {
    assert!(matches!(sign_transaction(&bare_tx(), "xyz"), Err(SignError::InvalidKey)));
    assert!(matches!(sign_transaction_hex(&bare_tx(), "0x12"), Err(SignError::InvalidKey)));
}

#[test]
fn signing_yields_sixty_five_bytes() {
    let key = "0x0000000000000000000000000000000000000000000000000000000000000001";
    let sig = sign_transaction(&bare_tx(), key).unwrap();
    assert_eq!(sig.len(), 65);
    let again = sign_transaction(&bare_tx(), key).unwrap();
    assert_eq!(sig, again);
}

#[test]
fn signed_hex_tx_decodes_and_embeds_the_signature() {
    let key = "0x0000000000000000000000000000000000000000000000000000000000000001";
    let sig = sign_transaction(&bare_tx(), key).unwrap();
    let hex = create_hex_tx_from_signed(&bare_tx(), &sig);
    assert!(hex.starts_with("0x"));
    let bytes = decode_hex(&hex).unwrap();
    // The signed list holds the 32-byte r and s values behind 0xa0 headers.
    assert!(bytes.len() > 65);
    let hex2 = sign_transaction_hex(&bare_tx(), key).unwrap();
    assert_eq!(hex, hex2);
}
