//! Builders of ERC-20 token calls: each encodes the call's arguments into
//! call data through the external ABI encoder and assembles an unsigned
//! transaction addressed to the token contract.
use vstd::prelude::*;
use crate::address::Address;
use crate::amount::Amount;
use crate::tx::UnsignedTransaction;
use ethers_core::abi::Token;
use ethers_core::types::{H160, U256};

verus! {

/// ABI call data of transfer(address,uint256).
pub uninterp spec fn transfer_call_data(recipient: Seq<u8>, amount: nat) -> Seq<u8>;

/// ABI call data of approve(address,uint256).
pub uninterp spec fn approve_call_data(spender: Seq<u8>, amount: nat) -> Seq<u8>;

/// ABI call data of transferFrom(address,address,uint256).
pub uninterp spec fn transfer_from_call_data(from: Seq<u8>, to: Seq<u8>, amount: nat) -> Seq<u8>;

/// ABI call data of balanceOf(address).
pub uninterp spec fn balance_of_call_data(owner: Seq<u8>) -> Seq<u8>;

/// ABI call data of allowance(address,address).
pub uninterp spec fn allowance_call_data(owner: Seq<u8>, spender: Seq<u8>) -> Seq<u8>;

/// The four-byte ABI selector of a function signature.
pub uninterp spec fn selector_of(signature: Seq<char>) -> Seq<u8>;

/// Relies on ethers_core::utils::id: the four-byte selector is the start of
/// the Keccak-256 hash of the signature text, a function of that text alone.
#[verifier::external_body]
fn encode_selector(signature: &str) -> (r: Vec<u8>)
    ensures
        r@ == selector_of(signature@),
        r@.len() == 4,
{
    ethers_core::utils::id(signature).to_vec()
}

/// Relies on ethers_core::utils::id and ethers_core::abi::encode: the call
/// data of transfer(address,uint256) is the selector followed by the ABI
/// encoding of recipient and amount, a function of those arguments alone.
#[verifier::external_body]
fn encode_transfer(recipient: &Address, amount: &Amount) -> (r: Vec<u8>)
    requires
        recipient.wf(),
        amount.wf(),
    ensures
        r@ == transfer_call_data(recipient@, amount@),
{
    let mut d = ethers_core::utils::id("transfer(address,uint256)").to_vec();
    d.extend(ethers_core::abi::encode(&[
        Token::Address(H160::from_slice(recipient.byte_vec())),
        Token::Uint(U256::from_dec_str(&amount.to_dec_string()).unwrap()),
    ]));
    d
}

/// Relies on ethers_core::utils::id and ethers_core::abi::encode, as the
/// transfer encoder does, for approve(address,uint256).
#[verifier::external_body]
fn encode_approve(spender: &Address, amount: &Amount) -> (r: Vec<u8>)
    requires
        spender.wf(),
        amount.wf(),
    ensures
        r@ == approve_call_data(spender@, amount@),
{
    let mut d = ethers_core::utils::id("approve(address,uint256)").to_vec();
    d.extend(ethers_core::abi::encode(&[
        Token::Address(H160::from_slice(spender.byte_vec())),
        Token::Uint(U256::from_dec_str(&amount.to_dec_string()).unwrap()),
    ]));
    d
}

/// Relies on ethers_core::utils::id and ethers_core::abi::encode, as the
/// transfer encoder does, for transferFrom(address,address,uint256).
#[verifier::external_body]
fn encode_transfer_from(from: &Address, to: &Address, amount: &Amount) -> (r: Vec<u8>)
    requires
        from.wf(),
        to.wf(),
        amount.wf(),
    ensures
        r@ == transfer_from_call_data(from@, to@, amount@),
{
    let mut d = ethers_core::utils::id("transferFrom(address,address,uint256)").to_vec();
    d.extend(ethers_core::abi::encode(&[
        Token::Address(H160::from_slice(from.byte_vec())),
        Token::Address(H160::from_slice(to.byte_vec())),
        Token::Uint(U256::from_dec_str(&amount.to_dec_string()).unwrap()),
    ]));
    d
}

/// Relies on ethers_core::utils::id and ethers_core::abi::encode, as the
/// transfer encoder does, for balanceOf(address).
#[verifier::external_body]
fn encode_balance_of(owner: &Address) -> (r: Vec<u8>)
    requires
        owner.wf(),
    ensures
        r@ == balance_of_call_data(owner@),
{
    let mut d = ethers_core::utils::id("balanceOf(address)").to_vec();
    d.extend(ethers_core::abi::encode(&[Token::Address(H160::from_slice(owner.byte_vec()))]));
    d
}

/// Relies on ethers_core::utils::id and ethers_core::abi::encode, as the
/// transfer encoder does, for allowance(address,address).
#[verifier::external_body]
fn encode_allowance(owner: &Address, spender: &Address) -> (r: Vec<u8>)
    requires
        owner.wf(),
        spender.wf(),
    ensures
        r@ == allowance_call_data(owner@, spender@),
{
    let mut d = ethers_core::utils::id("allowance(address,address)").to_vec();
    d.extend(ethers_core::abi::encode(&[
        Token::Address(H160::from_slice(owner.byte_vec())),
        Token::Address(H160::from_slice(spender.byte_vec())),
    ]));
    d
}

/// A binding to one ERC-20 token contract.
pub struct ERC20 {
    pub token: Address,
}

impl ERC20 {
    pub open spec fn wf(&self) -> bool {
        self.token.wf()
    }

    pub fn new(token: Address) -> (r: ERC20)
        ensures
            r.token == token,
    {
        ERC20 { token }
    }

    /// A transfer of `amount` to `recipient`, sent by `sender`.
    pub fn create_transfer_tx(&self, sender: &Address, recipient: &Address, amount: &Amount) -> (tx:
        UnsignedTransaction)
        requires
            self.wf(),
            sender.wf(),
            recipient.wf(),
            amount.wf(),
        ensures
            tx.wf(),
            tx.to@ == self.token@,
            tx.data@ == transfer_call_data(recipient@, amount@),
            tx.value@ == 0,
            tx.from matches Some(a) && a@ == sender@,
            tx.gas is None && tx.nonce is None && tx.gas_price is None,
    {
        UnsignedTransaction {
            to: self.token.clone(),
            data: encode_transfer(recipient, amount),
            value: Amount::zero(),
            from: Some(sender.clone()),
            gas: None,
            nonce: None,
            gas_price: None,
        }
    }

    /// An approval of `amount` for `spender`, sent by `sender`.
    pub fn create_approve_tx(&self, sender: &Address, spender: &Address, amount: &Amount) -> (tx:
        UnsignedTransaction)
        requires
            self.wf(),
            sender.wf(),
            spender.wf(),
            amount.wf(),
        ensures
            tx.wf(),
            tx.to@ == self.token@,
            tx.data@ == approve_call_data(spender@, amount@),
            tx.value@ == 0,
            tx.from matches Some(a) && a@ == sender@,
            tx.gas is None && tx.nonce is None && tx.gas_price is None,
    {
        UnsignedTransaction {
            to: self.token.clone(),
            data: encode_approve(spender, amount),
            value: Amount::zero(),
            from: Some(sender.clone()),
            gas: None,
            nonce: None,
            gas_price: None,
        }
    }

    /// A transfer of `amount` from `from` to `to`, sent by `sender` under a
    /// prior allowance.
    pub fn create_transfer_from_tx(
        &self,
        sender: &Address,
        from: &Address,
        to: &Address,
        amount: &Amount,
    ) -> (tx: UnsignedTransaction)
        requires
            self.wf(),
            sender.wf(),
            from.wf(),
            to.wf(),
            amount.wf(),
        ensures
            tx.wf(),
            tx.to@ == self.token@,
            tx.data@ == transfer_from_call_data(from@, to@, amount@),
            tx.value@ == 0,
            tx.from matches Some(a) && a@ == sender@,
            tx.gas is None && tx.nonce is None && tx.gas_price is None,
    {
        UnsignedTransaction {
            to: self.token.clone(),
            data: encode_transfer_from(from, to, amount),
            value: Amount::zero(),
            from: Some(sender.clone()),
            gas: None,
            nonce: None,
            gas_price: None,
        }
    }

    /// A read-only balance query for `owner`.
    pub fn create_balance_of_tx(&self, owner: &Address) -> (tx: UnsignedTransaction)
        requires
            self.wf(),
            owner.wf(),
        ensures
            tx.wf(),
            tx.to@ == self.token@,
            tx.data@ == balance_of_call_data(owner@),
            tx.value@ == 0,
            tx.from is None,
            tx.gas is None && tx.nonce is None && tx.gas_price is None,
    {
        UnsignedTransaction {
            to: self.token.clone(),
            data: encode_balance_of(owner),
            value: Amount::zero(),
            from: None,
            gas: None,
            nonce: None,
            gas_price: None,
        }
    }

    /// A read-only allowance query for `owner` and `spender`.
    pub fn create_allowance_tx(&self, owner: &Address, spender: &Address) -> (tx:
        UnsignedTransaction)
        requires
            self.wf(),
            owner.wf(),
            spender.wf(),
        ensures
            tx.wf(),
            tx.to@ == self.token@,
            tx.data@ == allowance_call_data(owner@, spender@),
            tx.value@ == 0,
            tx.from is None,
            tx.gas is None && tx.nonce is None && tx.gas_price is None,
    {
        UnsignedTransaction {
            to: self.token.clone(),
            data: encode_allowance(owner, spender),
            value: Amount::zero(),
            from: None,
            gas: None,
            nonce: None,
            gas_price: None,
        }
    }

    /// A read-only total-supply query.
    pub fn create_total_supply_tx(&self) -> (tx: UnsignedTransaction)
        requires
            self.wf(),
        ensures
            tx.wf(),
            tx.to@ == self.token@,
            tx.data@ == selector_of("totalSupply()"@),
            tx.value@ == 0,
            tx.from is None,
            tx.gas is None && tx.nonce is None && tx.gas_price is None,
    {
        UnsignedTransaction {
            to: self.token.clone(),
            data: encode_selector("totalSupply()"),
            value: Amount::zero(),
            from: None,
            gas: None,
            nonce: None,
            gas_price: None,
        }
    }

    /// A read-only decimals query.
    pub fn create_decimals_tx(&self) -> (tx: UnsignedTransaction)
        requires
            self.wf(),
        ensures
            tx.wf(),
            tx.to@ == self.token@,
            tx.data@ == selector_of("decimals()"@),
            tx.value@ == 0,
            tx.from is None,
            tx.gas is None && tx.nonce is None && tx.gas_price is None,
    {
        UnsignedTransaction {
            to: self.token.clone(),
            data: encode_selector("decimals()"),
            value: Amount::zero(),
            from: None,
            gas: None,
            nonce: None,
            gas_price: None,
        }
    }
}

} // verus!
