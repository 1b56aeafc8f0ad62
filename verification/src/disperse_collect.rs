//! Builders of calls into the disperse/collect helper contract: multi
//! recipient dispersal of ether or tokens, by fixed amounts or by
//! percentages of a prior allowance, and collection from contributors.
use vstd::prelude::*;
use crate::address::{addr_views, all_addrs_wf, Address};
use crate::amount::{amount_views, Amount};
use crate::checks::all_amounts_wf;
use crate::tx::UnsignedTransaction;
use ethers_core::abi::Token;
use ethers_core::types::{H160, U256};

verus! {

/// ABI call data of disperseEther(address[],uint256[]).
pub uninterp spec fn disperse_ether_call_data(recipients: Seq<Seq<u8>>, values: Seq<nat>) -> Seq<
    u8,
>;

/// ABI call data of disperseEtherByPercent(address[],uint256[]).
pub uninterp spec fn disperse_ether_by_percent_call_data(
    recipients: Seq<Seq<u8>>,
    percentages: Seq<u8>,
) -> Seq<u8>;

/// ABI call data of disperseToken(address,address[],uint256[]).
pub uninterp spec fn disperse_token_call_data(
    token: Seq<u8>,
    recipients: Seq<Seq<u8>>,
    values: Seq<nat>,
) -> Seq<u8>;

/// ABI call data of disperseTokenByPercent(address,address[],uint256[]).
pub uninterp spec fn disperse_token_by_percent_call_data(
    token: Seq<u8>,
    recipients: Seq<Seq<u8>>,
    percentages: Seq<u8>,
) -> Seq<u8>;

/// ABI call data of collectEther(address).
pub uninterp spec fn collect_ether_call_data(recipient: Seq<u8>) -> Seq<u8>;

/// ABI call data of collectToken(address,address,address[],uint256[]).
pub uninterp spec fn collect_token_call_data(
    token: Seq<u8>,
    recipient: Seq<u8>,
    contributors: Seq<Seq<u8>>,
    values: Seq<nat>,
) -> Seq<u8>;

/// Relies on ethers_core::utils::id and ethers_core::abi::encode: the call
/// data of disperseEther(address[],uint256[]) is the selector followed by
/// the ABI encoding of the two arrays, a function of the arguments alone.
#[verifier::external_body]
fn encode_disperse_ether(recipients: &Vec<Address>, values: &Vec<Amount>) -> (r: Vec<u8>)
    requires
        all_addrs_wf(recipients@),
        all_amounts_wf(values@),
    ensures
        r@ == disperse_ether_call_data(addr_views(recipients@), amount_views(values@)),
{
    let rs: Vec<Token> =
        recipients.iter().map(|a| Token::Address(H160::from_slice(a.byte_vec()))).collect();
    let vs: Vec<Token> =
        values.iter().map(|v| Token::Uint(U256::from_dec_str(&v.to_dec_string()).unwrap())).collect();
    let mut d = ethers_core::utils::id("disperseEther(address[],uint256[])").to_vec();
    d.extend(ethers_core::abi::encode(&[Token::Array(rs), Token::Array(vs)]));
    d
}

/// Relies on ethers_core::utils::id and ethers_core::abi::encode, as the
/// disperseEther encoder does, for disperseEtherByPercent(address[],uint256[]).
#[verifier::external_body]
fn encode_disperse_ether_by_percent(recipients: &Vec<Address>, percentages: &Vec<u8>) -> (r: Vec<
    u8,
>)
    requires
        all_addrs_wf(recipients@),
    ensures
        r@ == disperse_ether_by_percent_call_data(addr_views(recipients@), percentages@),
{
    let rs: Vec<Token> =
        recipients.iter().map(|a| Token::Address(H160::from_slice(a.byte_vec()))).collect();
    let ps: Vec<Token> = percentages.iter().map(|p| Token::Uint(U256::from(*p))).collect();
    let mut d = ethers_core::utils::id("disperseEtherByPercent(address[],uint256[])").to_vec();
    d.extend(ethers_core::abi::encode(&[Token::Array(rs), Token::Array(ps)]));
    d
}

/// Relies on ethers_core::utils::id and ethers_core::abi::encode, as the
/// disperseEther encoder does, for disperseToken(address,address[],uint256[]).
#[verifier::external_body]
fn encode_disperse_token(token: &Address, recipients: &Vec<Address>, values: &Vec<Amount>) -> (r:
    Vec<u8>)
    requires
        token.wf(),
        all_addrs_wf(recipients@),
        all_amounts_wf(values@),
    ensures
        r@ == disperse_token_call_data(token@, addr_views(recipients@), amount_views(values@)),
{
    let rs: Vec<Token> =
        recipients.iter().map(|a| Token::Address(H160::from_slice(a.byte_vec()))).collect();
    let vs: Vec<Token> =
        values.iter().map(|v| Token::Uint(U256::from_dec_str(&v.to_dec_string()).unwrap())).collect();
    let mut d = ethers_core::utils::id("disperseToken(address,address[],uint256[])").to_vec();
    d.extend(ethers_core::abi::encode(&[
        Token::Address(H160::from_slice(token.byte_vec())),
        Token::Array(rs),
        Token::Array(vs),
    ]));
    d
}

/// Relies on ethers_core::utils::id and ethers_core::abi::encode, as the
/// disperseEther encoder does, for
/// disperseTokenByPercent(address,address[],uint256[]).
#[verifier::external_body]
fn encode_disperse_token_by_percent(
    token: &Address,
    recipients: &Vec<Address>,
    percentages: &Vec<u8>,
) -> (r: Vec<u8>)
    requires
        token.wf(),
        all_addrs_wf(recipients@),
    ensures
        r@ == disperse_token_by_percent_call_data(token@, addr_views(recipients@), percentages@),
{
    let rs: Vec<Token> =
        recipients.iter().map(|a| Token::Address(H160::from_slice(a.byte_vec()))).collect();
    let ps: Vec<Token> = percentages.iter().map(|p| Token::Uint(U256::from(*p))).collect();
    let mut d =
        ethers_core::utils::id("disperseTokenByPercent(address,address[],uint256[])").to_vec();
    d.extend(ethers_core::abi::encode(&[
        Token::Address(H160::from_slice(token.byte_vec())),
        Token::Array(rs),
        Token::Array(ps),
    ]));
    d
}

/// Relies on ethers_core::utils::id and ethers_core::abi::encode, as the
/// disperseEther encoder does, for collectEther(address).
#[verifier::external_body]
fn encode_collect_ether(recipient: &Address) -> (r: Vec<u8>)
    requires
        recipient.wf(),
    ensures
        r@ == collect_ether_call_data(recipient@),
{
    let mut d = ethers_core::utils::id("collectEther(address)").to_vec();
    d.extend(ethers_core::abi::encode(&[Token::Address(H160::from_slice(recipient.byte_vec()))]));
    d
}

/// Relies on ethers_core::utils::id and ethers_core::abi::encode, as the
/// disperseEther encoder does, for
/// collectToken(address,address,address[],uint256[]).
#[verifier::external_body]
fn encode_collect_token(
    token: &Address,
    recipient: &Address,
    contributors: &Vec<Address>,
    values: &Vec<Amount>,
) -> (r: Vec<u8>)
    requires
        token.wf(),
        recipient.wf(),
        all_addrs_wf(contributors@),
        all_amounts_wf(values@),
    ensures
        r@ == collect_token_call_data(
            token@,
            recipient@,
            addr_views(contributors@),
            amount_views(values@),
        ),
{
    let cs: Vec<Token> =
        contributors.iter().map(|a| Token::Address(H160::from_slice(a.byte_vec()))).collect();
    let vs: Vec<Token> =
        values.iter().map(|v| Token::Uint(U256::from_dec_str(&v.to_dec_string()).unwrap())).collect();
    let mut d =
        ethers_core::utils::id("collectToken(address,address,address[],uint256[])").to_vec();
    d.extend(ethers_core::abi::encode(&[
        Token::Address(H160::from_slice(token.byte_vec())),
        Token::Address(H160::from_slice(recipient.byte_vec())),
        Token::Array(cs),
        Token::Array(vs),
    ]));
    d
}

/// A binding to the disperse/collect helper contract.
pub struct DisperseCollect {
    pub address: Address,
}

impl DisperseCollect {
    pub open spec fn wf(&self) -> bool {
        self.address.wf()
    }

    pub fn new(address: Address) -> (r: DisperseCollect)
        ensures
            r.address == address,
    {
        DisperseCollect { address }
    }

    /// Dispersal of the attached `value` of ether to `recipients`, one fixed
    /// amount each.
    pub fn create_disperse_ether_tx(
        &self,
        sender: &Address,
        recipients: &Vec<Address>,
        values: &Vec<Amount>,
        value: &Amount,
    ) -> (tx: UnsignedTransaction)
        requires
            self.wf(),
            sender.wf(),
            all_addrs_wf(recipients@),
            all_amounts_wf(values@),
            value.wf(),
        ensures
            tx.wf(),
            tx.to@ == self.address@,
            tx.data@ == disperse_ether_call_data(addr_views(recipients@), amount_views(values@)),
            tx.value@ == value@,
            tx.from matches Some(a) && a@ == sender@,
            tx.gas is None && tx.nonce is None && tx.gas_price is None,
    {
        UnsignedTransaction {
            to: self.address.clone(),
            data: encode_disperse_ether(recipients, values),
            value: value.clone(),
            from: Some(sender.clone()),
            gas: None,
            nonce: None,
            gas_price: None,
        }
    }

    /// Dispersal of the attached `value` of ether to `recipients` by
    /// percentages.
    pub fn create_disperse_ether_by_percent_tx(
        &self,
        sender: &Address,
        recipients: &Vec<Address>,
        percentages: &Vec<u8>,
        value: &Amount,
    ) -> (tx: UnsignedTransaction)
        requires
            self.wf(),
            sender.wf(),
            all_addrs_wf(recipients@),
            value.wf(),
        ensures
            tx.wf(),
            tx.to@ == self.address@,
            tx.data@ == disperse_ether_by_percent_call_data(addr_views(recipients@), percentages@),
            tx.value@ == value@,
            tx.from matches Some(a) && a@ == sender@,
            tx.gas is None && tx.nonce is None && tx.gas_price is None,
    {
        UnsignedTransaction {
            to: self.address.clone(),
            data: encode_disperse_ether_by_percent(recipients, percentages),
            value: value.clone(),
            from: Some(sender.clone()),
            gas: None,
            nonce: None,
            gas_price: None,
        }
    }

    /// Dispersal of a token to `recipients`, one fixed amount each, under a
    /// prior allowance.
    pub fn create_disperse_token_tx(
        &self,
        sender: &Address,
        token: &Address,
        recipients: &Vec<Address>,
        values: &Vec<Amount>,
    ) -> (tx: UnsignedTransaction)
        requires
            self.wf(),
            sender.wf(),
            token.wf(),
            all_addrs_wf(recipients@),
            all_amounts_wf(values@),
        ensures
            tx.wf(),
            tx.to@ == self.address@,
            tx.data@ == disperse_token_call_data(
                token@,
                addr_views(recipients@),
                amount_views(values@),
            ),
            tx.value@ == 0,
            tx.from matches Some(a) && a@ == sender@,
            tx.gas is None && tx.nonce is None && tx.gas_price is None,
    {
        UnsignedTransaction {
            to: self.address.clone(),
            data: encode_disperse_token(token, recipients, values),
            value: Amount::zero(),
            from: Some(sender.clone()),
            gas: None,
            nonce: None,
            gas_price: None,
        }
    }

    /// Dispersal of a token to `recipients` by percentages of the prior
    /// allowance.
    pub fn create_disperse_token_by_percent_tx(
        &self,
        sender: &Address,
        token: &Address,
        recipients: &Vec<Address>,
        percentages: &Vec<u8>,
    ) -> (tx: UnsignedTransaction)
        requires
            self.wf(),
            sender.wf(),
            token.wf(),
            all_addrs_wf(recipients@),
        ensures
            tx.wf(),
            tx.to@ == self.address@,
            tx.data@ == disperse_token_by_percent_call_data(
                token@,
                addr_views(recipients@),
                percentages@,
            ),
            tx.value@ == 0,
            tx.from matches Some(a) && a@ == sender@,
            tx.gas is None && tx.nonce is None && tx.gas_price is None,
    {
        UnsignedTransaction {
            to: self.address.clone(),
            data: encode_disperse_token_by_percent(token, recipients, percentages),
            value: Amount::zero(),
            from: Some(sender.clone()),
            gas: None,
            nonce: None,
            gas_price: None,
        }
    }

    /// Collection of the attached `value` of ether for `recipient`.
    pub fn create_collect_ether_tx(&self, sender: &Address, recipient: &Address, value: &Amount) -> (tx:
        UnsignedTransaction)
        requires
            self.wf(),
            sender.wf(),
            recipient.wf(),
            value.wf(),
        ensures
            tx.wf(),
            tx.to@ == self.address@,
            tx.data@ == collect_ether_call_data(recipient@),
            tx.value@ == value@,
            tx.from matches Some(a) && a@ == sender@,
            tx.gas is None && tx.nonce is None && tx.gas_price is None,
    {
        UnsignedTransaction {
            to: self.address.clone(),
            data: encode_collect_ether(recipient),
            value: value.clone(),
            from: Some(sender.clone()),
            gas: None,
            nonce: None,
            gas_price: None,
        }
    }

    /// Collection of a token from `contributors` into `recipient`, one fixed
    /// amount each, under prior allowances.
    pub fn create_collect_token_tx(
        &self,
        sender: &Address,
        token: &Address,
        recipient: &Address,
        contributors: &Vec<Address>,
        values: &Vec<Amount>,
    ) -> (tx: UnsignedTransaction)
        requires
            self.wf(),
            sender.wf(),
            token.wf(),
            recipient.wf(),
            all_addrs_wf(contributors@),
            all_amounts_wf(values@),
        ensures
            tx.wf(),
            tx.to@ == self.address@,
            tx.data@ == collect_token_call_data(
                token@,
                recipient@,
                addr_views(contributors@),
                amount_views(values@),
            ),
            tx.value@ == 0,
            tx.from matches Some(a) && a@ == sender@,
            tx.gas is None && tx.nonce is None && tx.gas_price is None,
    {
        UnsignedTransaction {
            to: self.address.clone(),
            data: encode_collect_token(token, recipient, contributors, values),
            value: Amount::zero(),
            from: Some(sender.clone()),
            gas: None,
            nonce: None,
            gas_price: None,
        }
    }
}

} // verus!
