use eth_gateway::address::Address;
use eth_gateway::amount::Amount;
use eth_gateway::disperse_collect::DisperseCollect;
use eth_gateway::erc20::ERC20;

fn addr(byte: u8) -> Address {
    Address::from_bytes(vec![byte; 20]).unwrap()
}

fn word(tail: &[u8]) -> Vec<u8> {
    let mut w = vec![0u8; 32 - tail.len()];
    w.extend_from_slice(tail);
    w
}

#[test]
fn transfer_data_is_selector_and_padded_arguments() {
    let erc20 = ERC20::new(addr(0xaa));
    let tx = erc20.create_transfer_tx(&addr(0x01), &addr(0x02), &Amount::from_u64(5));
    let mut expected = vec![0xa9u8, 0x05, 0x9c, 0xbb];
    expected.extend(word(&[0x02; 20]));
    expected.extend(word(&[5]));
    assert_eq!(tx.data, expected);
    assert_eq!(tx.to.byte_vec(), &vec![0xaa; 20]);
    assert_eq!(tx.from.as_ref().unwrap().byte_vec(), &vec![0x01; 20]);
    assert_eq!(tx.value.to_dec_string(), "0");
    assert!(tx.gas.is_none() && tx.nonce.is_none() && tx.gas_price.is_none());
}

#[test]
fn approve_data_uses_the_approve_selector() {
    let erc20 = ERC20::new(addr(0xaa));
    let tx = erc20.create_approve_tx(&addr(0x01), &addr(0x03), &Amount::from_u64(255));
    let mut expected = vec![0x09u8, 0x5e, 0xa7, 0xb3];
    expected.extend(word(&[0x03; 20]));
    expected.extend(word(&[255]));
    assert_eq!(tx.data, expected);
}

#[test]
fn transfer_from_data_orders_owner_then_recipient() {
    let erc20 = ERC20::new(addr(0xaa));
    let tx = erc20.create_transfer_from_tx(&addr(0x01), &addr(0x04), &addr(0x05), &Amount::from_u64(1));
    let mut expected = vec![0x23u8, 0xb8, 0x72, 0xdd];
    expected.extend(word(&[0x04; 20]));
    expected.extend(word(&[0x05; 20]));
    expected.extend(word(&[1]));
    assert_eq!(tx.data, expected);
}

#[test]
fn balance_of_data_is_selector_and_owner() {
    let erc20 = ERC20::new(addr(0xaa));
    let tx = erc20.create_balance_of_tx(&addr(0x06));
    let mut expected = vec![0x70u8, 0xa0, 0x82, 0x31];
    expected.extend(word(&[0x06; 20]));
    assert_eq!(tx.data, expected);
    assert!(tx.from.is_none());
}

#[test]
fn allowance_data_is_selector_owner_and_spender() {
    let erc20 = ERC20::new(addr(0xaa));
    let tx = erc20.create_allowance_tx(&addr(0x06), &addr(0x07));
    let mut expected = vec![0xddu8, 0x62, 0xed, 0x3e];
    expected.extend(word(&[0x06; 20]));
    expected.extend(word(&[0x07; 20]));
    assert_eq!(tx.data, expected);
}

#[test]
fn supply_and_decimals_queries_are_bare_selectors() {
    let erc20 = ERC20::new(addr(0xaa));
    assert_eq!(erc20.create_total_supply_tx().data, vec![0x18u8, 0x16, 0x0d, 0xdd]);
    assert_eq!(erc20.create_decimals_tx().data, vec![0x31u8, 0x3c, 0xe5, 0x67]);
}

#[test]
fn disperse_ether_data_encodes_both_arrays() {
    let dc = DisperseCollect::new(addr(0xcc));
    let tx = dc.create_disperse_ether_tx(
        &addr(0x01),
        &vec![addr(0x02)],
        &vec![Amount::from_u64(9)],
        &Amount::from_u64(9),
    );
    // Behind the four-byte selector: two offsets (0x40 and 0x80), then each
    // array as its length and one padded element.
    let mut tail: Vec<u8> = Vec::new();
    tail.extend(word(&[0x40]));
    tail.extend(word(&[0x80]));
    tail.extend(word(&[1]));
    tail.extend(word(&[0x02; 20]));
    tail.extend(word(&[1]));
    tail.extend(word(&[9]));
    assert_eq!(tx.data.len(), 4 + tail.len());
    assert_eq!(&tx.data[4..], &tail[..]);
    assert_eq!(tx.value.to_dec_string(), "9");
    assert_eq!(tx.to.byte_vec(), &vec![0xcc; 20]);
}

#[test]
fn disperse_token_data_leads_with_the_token() {
    let dc = DisperseCollect::new(addr(0xcc));
    let tx = dc.create_disperse_token_tx(
        &addr(0x01),
        &addr(0xbb),
        &vec![addr(0x02)],
        &vec![Amount::from_u64(3)],
    );
    let mut tail: Vec<u8> = Vec::new();
    tail.extend(word(&[0xbb; 20]));
    tail.extend(word(&[0x60]));
    tail.extend(word(&[0xa0]));
    tail.extend(word(&[1]));
    tail.extend(word(&[0x02; 20]));
    tail.extend(word(&[1]));
    tail.extend(word(&[3]));
    assert_eq!(tx.data.len(), 4 + tail.len());
    assert_eq!(&tx.data[4..], &tail[..]);
    assert_eq!(tx.value.to_dec_string(), "0");
}

#[test]
fn collect_ether_data_is_selector_and_recipient() {
    let dc = DisperseCollect::new(addr(0xcc));
    let tx = dc.create_collect_ether_tx(&addr(0x01), &addr(0x08), &Amount::from_u64(4));
    assert_eq!(tx.data.len(), 4 + 32);
    assert_eq!(&tx.data[4..], &word(&[0x08; 20])[..]);
    assert_eq!(tx.value.to_dec_string(), "4");
}

#[test]
fn by_percent_data_encodes_percentages_as_words() {
    let dc = DisperseCollect::new(addr(0xcc));
    let tx = dc.create_disperse_ether_by_percent_tx(
        &addr(0x01),
        &vec![addr(0x02), addr(0x03)],
        &vec![60, 40],
        &Amount::from_u64(100),
    );
    let mut tail: Vec<u8> = Vec::new();
    tail.extend(word(&[0x40]));
    tail.extend(word(&[0xa0]));
    tail.extend(word(&[2]));
    tail.extend(word(&[0x02; 20]));
    tail.extend(word(&[0x03; 20]));
    tail.extend(word(&[2]));
    tail.extend(word(&[60]));
    tail.extend(word(&[40]));
    assert_eq!(tx.data.len(), 4 + tail.len());
    assert_eq!(&tx.data[4..], &tail[..]);
}

#[test]
fn collect_token_data_holds_token_recipient_and_arrays() {
    let dc = DisperseCollect::new(addr(0xcc));
    let tx = dc.create_collect_token_tx(
        &addr(0x01),
        &addr(0xbb),
        &addr(0x09),
        &vec![addr(0x02)],
        &vec![Amount::from_u64(8)],
    );
    let mut tail: Vec<u8> = Vec::new();
    tail.extend(word(&[0xbb; 20]));
    tail.extend(word(&[0x09; 20]));
    tail.extend(word(&[0x80]));
    tail.extend(word(&[0xc0]));
    tail.extend(word(&[1]));
    tail.extend(word(&[0x02; 20]));
    tail.extend(word(&[1]));
    tail.extend(word(&[8]));
    assert_eq!(tx.data.len(), 4 + tail.len());
    assert_eq!(&tx.data[4..], &tail[..]);
}
