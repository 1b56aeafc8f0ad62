//! The transaction envelope, its preparation, and its wire encodings.
//!
//! An unsigned transaction carries recipient, call data, attached value and
//! sender; the preparer fills gas, nonce and gas price from three upstream
//! query results, failing as a whole when any query failed. RLP encoding and
//! signing are the external library's work, behind trusted wrappers whose
//! results are named functions of the transaction's fields.
use vstd::prelude::*;
use crate::address::Address;
use crate::amount::Amount;
use crate::errors::{SignError, UpstreamError};
use crate::hexutil::{encode_hex, hex_of};
use crate::chars::push_char;
use ethers_core::types::transaction::eip2718::TypedTransaction;
use ethers_core::types::{Bytes, TransactionRequest, H160, U256};
use ethers_core::k256::ecdsa::SigningKey;
use ethers_signers::Wallet;

verus! {

/// A transfer-of-value instruction before cryptographic authorization.
/// Only the preparer fills the three optional fields.
pub struct UnsignedTransaction {
    pub to: Address,
    pub data: Vec<u8>,
    pub value: Amount,
    pub from: Option<Address>,
    pub gas: Option<Amount>,
    pub nonce: Option<Amount>,
    pub gas_price: Option<Amount>,
}

pub open spec fn opt_amount_view(o: Option<Amount>) -> Option<nat> {
    match o {
        Some(a) => Some(a@),
        None => None,
    }
}

pub open spec fn opt_addr_view(o: Option<Address>) -> Option<Seq<u8>> {
    match o {
        Some(a) => Some(a@),
        None => None,
    }
}

impl UnsignedTransaction {
    pub open spec fn wf(&self) -> bool {
        &&& self.to.wf()
        &&& self.value.wf()
        &&& (self.from matches Some(a) ==> a.wf())
        &&& (self.gas matches Some(g) ==> g.wf())
        &&& (self.nonce matches Some(x) ==> x.wf())
        &&& (self.gas_price matches Some(p) ==> p.wf())
    }

    /// Gas, nonce and gas price are all populated.
    pub open spec fn prepared(&self) -> bool {
        self.gas is Some && self.nonce is Some && self.gas_price is Some
    }

    /// The same call: recipient, call data, attached value and sender agree.
    pub open spec fn same_call(&self, other: &Self) -> bool {
        &&& self.to@ == other.to@
        &&& self.data@ == other.data@
        &&& self.value@ == other.value@
        &&& opt_addr_view(self.from) == opt_addr_view(other.from)
    }
}

/// Fills gas, nonce and gas price of a transaction from the three upstream
/// query results. If any query failed, the whole preparation fails with the
/// first failure, in the order gas, nonce, gas price, and no partially
/// prepared transaction is returned.
pub fn prepare_tx(
    tx: UnsignedTransaction,
    gas: Result<Amount, UpstreamError>,
    nonce: Result<Amount, UpstreamError>,
    gas_price: Result<Amount, UpstreamError>,
) -> (r: Result<UnsignedTransaction, UpstreamError>)
    requires
        tx.wf(),
        gas matches Ok(g) ==> g.wf(),
        nonce matches Ok(x) ==> x.wf(),
        gas_price matches Ok(p) ==> p.wf(),
    ensures
        r is Ok <==> (gas is Ok && nonce is Ok && gas_price is Ok),
        r matches Ok(t) ==> ({
            &&& t.wf()
            &&& t.same_call(&tx)
            &&& t.prepared()
            &&& opt_amount_view(t.gas) == Some(gas->Ok_0@)
            &&& opt_amount_view(t.nonce) == Some(nonce->Ok_0@)
            &&& opt_amount_view(t.gas_price) == Some(gas_price->Ok_0@)
        }),
        gas matches Err(e) ==> (r matches Err(e2) && e2 == e),
        gas is Ok ==> (nonce matches Err(e) ==> (r matches Err(e2) && e2 == e)),
        gas is Ok && nonce is Ok ==> (gas_price matches Err(e) ==> (r matches Err(e2) && e2 == e)),
{
    let g = match gas {
        Ok(g) => g,
        Err(e) => return Err(e),
    };
    let x = match nonce {
        Ok(x) => x,
        Err(e) => return Err(e),
    };
    let p = match gas_price {
        Ok(p) => p,
        Err(e) => return Err(e),
    };
    Ok(
        UnsignedTransaction {
            to: tx.to,
            data: tx.data,
            value: tx.value,
            from: tx.from,
            gas: Some(g),
            nonce: Some(x),
            gas_price: Some(p),
        },
    )
}

/// The RLP encoding of an unprotected legacy transaction, a function of
/// nonce, gas price, gas, recipient, value and call data alone.
pub uninterp spec fn rlp_unsigned_of(
    to: Seq<u8>,
    data: Seq<u8>,
    value: nat,
    gas: Option<nat>,
    nonce: Option<nat>,
    gas_price: Option<nat>,
) -> Seq<u8>;

/// The RLP encoding of a legacy transaction with its signature appended.
pub uninterp spec fn rlp_signed_of(
    to: Seq<u8>,
    data: Seq<u8>,
    value: nat,
    gas: Option<nat>,
    nonce: Option<nat>,
    gas_price: Option<nat>,
    sig: Seq<u8>,
) -> Seq<u8>;

/// Whether the external signer parses this text as a private key.
pub uninterp spec fn private_key_ok(key: Seq<char>) -> bool;

/// Whether the external signer, given a parseable key, produces a signature
/// for this transaction. Signing is deterministic, so its outcome is a
/// function of the transaction's fields and the key alone.
pub uninterp spec fn sign_succeeds(
    to: Seq<u8>,
    data: Seq<u8>,
    value: nat,
    gas: Option<nat>,
    nonce: Option<nat>,
    gas_price: Option<nat>,
    key: Seq<char>,
) -> bool;

/// The deterministic signature of a legacy transaction under a private key,
/// as the 65 bytes r, s, v.
pub uninterp spec fn signature_of(
    to: Seq<u8>,
    data: Seq<u8>,
    value: nat,
    gas: Option<nat>,
    nonce: Option<nat>,
    gas_price: Option<nat>,
    key: Seq<char>,
) -> Seq<u8>;

/// The RLP encoding of a transaction, over its field views.
pub open spec fn rlp_unsigned_view(tx: &UnsignedTransaction) -> Seq<u8> {
    rlp_unsigned_of(
        tx.to@,
        tx.data@,
        tx.value@,
        opt_amount_view(tx.gas),
        opt_amount_view(tx.nonce),
        opt_amount_view(tx.gas_price),
    )
}

/// The signed RLP encoding of a transaction, over its field views.
pub open spec fn rlp_signed_view(tx: &UnsignedTransaction, sig: Seq<u8>) -> Seq<u8> {
    rlp_signed_of(
        tx.to@,
        tx.data@,
        tx.value@,
        opt_amount_view(tx.gas),
        opt_amount_view(tx.nonce),
        opt_amount_view(tx.gas_price),
        sig,
    )
}

/// The signature of a transaction under a key, over its field views.
pub open spec fn signature_view(tx: &UnsignedTransaction, key: Seq<char>) -> Seq<u8> {
    signature_of(
        tx.to@,
        tx.data@,
        tx.value@,
        opt_amount_view(tx.gas),
        opt_amount_view(tx.nonce),
        opt_amount_view(tx.gas_price),
        key,
    )
}

/// Whether signing a transaction under a key succeeds, over its field views.
pub open spec fn signing_view(tx: &UnsignedTransaction, key: Seq<char>) -> bool {
    sign_succeeds(
        tx.to@,
        tx.data@,
        tx.value@,
        opt_amount_view(tx.gas),
        opt_amount_view(tx.nonce),
        opt_amount_view(tx.gas_price),
        key,
    )
}

#[verifier::external_type_specification]
#[verifier::external_body]
pub struct ExU256(U256);

/// Relies on U256::from_dec_str: the canonical decimal text of a well-formed
/// amount is in range, so the conversion returns its value.
#[verifier::external_body]
fn u256_of(a: &Amount) -> (r: U256)
    requires
        a.wf(),
{
    U256::from_dec_str(&a.to_dec_string()).unwrap()
}

/// Relies on ethers_core::types::TransactionRequest::rlp: without a chain
/// id, the RLP encoding is the six-item list of nonce, gas price, gas,
/// recipient, value and call data, a function of those fields alone.
#[verifier::external_body]
fn rlp_unsigned(tx: &UnsignedTransaction) -> (r: Vec<u8>)
    requires
        tx.wf(),
    ensures
        r@ == rlp_unsigned_of(
            tx.to@,
            tx.data@,
            tx.value@,
            opt_amount_view(tx.gas),
            opt_amount_view(tx.nonce),
            opt_amount_view(tx.gas_price),
        ),
{
    let q = TransactionRequest {
        from: None, to: Some(H160::from_slice(tx.to.byte_vec()).into()),
        gas: tx.gas.as_ref().map(u256_of), gas_price: tx.gas_price.as_ref().map(u256_of),
        value: Some(u256_of(&tx.value)), data: Some(Bytes::from(tx.data.clone())),
        nonce: tx.nonce.as_ref().map(u256_of), chain_id: None,
    };
    q.rlp().to_vec()
}

/// Relies on ethers_core::types::TransactionRequest::rlp_signed and
/// ethers_core::types::Signature::try_from over 65 bytes: the encoding is
/// the nine-item list of the six fields and v, r, s, a function of the
/// fields and the signature alone.
#[verifier::external_body]
fn rlp_signed(tx: &UnsignedTransaction, sig: &Vec<u8>) -> (r: Vec<u8>)
    requires
        tx.wf(),
        sig@.len() == 65,
    ensures
        r@ == rlp_signed_of(
            tx.to@,
            tx.data@,
            tx.value@,
            opt_amount_view(tx.gas),
            opt_amount_view(tx.nonce),
            opt_amount_view(tx.gas_price),
            sig@,
        ),
{
    let q = TransactionRequest {
        from: None, to: Some(H160::from_slice(tx.to.byte_vec()).into()),
        gas: tx.gas.as_ref().map(u256_of), gas_price: tx.gas_price.as_ref().map(u256_of),
        value: Some(u256_of(&tx.value)), data: Some(Bytes::from(tx.data.clone())),
        nonce: tx.nonce.as_ref().map(u256_of), chain_id: None,
    };
    let s = ethers_core::types::Signature::try_from(sig.as_slice()).unwrap();
    q.rlp_signed(&s).to_vec()
}

/// Relies on ethers_signers::Wallet::from_str (hex private key, chain id 1)
/// and Wallet::sign_transaction_sync (deterministic ECDSA over the
/// transaction's signing hash): parsing fails exactly when the key is
/// invalid, and whether signing succeeds, like the signature itself, is a
/// function of the transaction's fields and the key alone.
#[verifier::external_body]
pub fn sign_transaction(tx: &UnsignedTransaction, private_key: &str) -> (r: Result<
    Vec<u8>,
    SignError,
>)
    requires
        tx.wf(),
    ensures
        r is Ok <==> (private_key_ok(private_key@) && sign_succeeds(
            tx.to@,
            tx.data@,
            tx.value@,
            opt_amount_view(tx.gas),
            opt_amount_view(tx.nonce),
            opt_amount_view(tx.gas_price),
            private_key@,
        )),
        r matches Ok(s) ==> s@.len() == 65 && s@ == signature_of(
            tx.to@,
            tx.data@,
            tx.value@,
            opt_amount_view(tx.gas),
            opt_amount_view(tx.nonce),
            opt_amount_view(tx.gas_price),
            private_key@,
        ),
        r matches Err(e) ==> ((e is InvalidKey) <==> !private_key_ok(private_key@)),
{
    let wallet: Wallet<SigningKey> = match private_key.parse() {
        Ok(w) => w, Err(_) => return Err(SignError::InvalidKey),
    };
    let q = TransactionRequest {
        from: None, to: Some(H160::from_slice(tx.to.byte_vec()).into()),
        gas: tx.gas.as_ref().map(u256_of), gas_price: tx.gas_price.as_ref().map(u256_of),
        value: Some(u256_of(&tx.value)), data: Some(Bytes::from(tx.data.clone())),
        nonce: tx.nonce.as_ref().map(u256_of), chain_id: None,
    };
    match wallet.sign_transaction_sync(&TypedTransaction::Legacy(q)) {
        Ok(sig) => Ok(sig.to_vec()), Err(_) => Err(SignError::SigningFailed),
    }
}

/// The "0x"-prefixed lowercase hexadecimal text of a transaction's RLP
/// encoding, as handed back to callers.
pub fn create_hex_tx(tx: &UnsignedTransaction) -> (r: String)
    requires
        tx.wf(),
    ensures
        r@ == seq!['0', 'x'] + hex_of(rlp_unsigned_view(tx)),
{
    let rlp = rlp_unsigned(tx);
    let body = encode_hex(&rlp);
    let mut out = String::new();
    push_char(&mut out, '0');
    push_char(&mut out, 'x');
    out.append(body.as_str());
    proof {
        assert(out@ =~= seq!['0', 'x'] + hex_of(rlp_unsigned_view(tx)));
    }
    out
}

/// The "0x"-prefixed lowercase hexadecimal text of a transaction's RLP
/// encoding with a 65-byte signature.
pub fn create_hex_tx_from_signed(tx: &UnsignedTransaction, sig: &Vec<u8>) -> (r: String)
    requires
        tx.wf(),
        sig@.len() == 65,
    ensures
        r@ == seq!['0', 'x'] + hex_of(rlp_signed_view(tx, sig@)),
{
    let rlp = rlp_signed(tx, sig);
    let body = encode_hex(&rlp);
    let mut out = String::new();
    push_char(&mut out, '0');
    push_char(&mut out, 'x');
    out.append(body.as_str());
    proof {
        assert(out@ =~= seq!['0', 'x'] + hex_of(rlp_signed_view(tx, sig@)));
    }
    out
}

/// Signs a transaction with a private key and returns the signed
/// transaction as "0x"-prefixed hexadecimal text.
pub fn sign_transaction_hex(tx: &UnsignedTransaction, private_key: &str) -> (r: Result<
    String,
    SignError,
>)
    requires
        tx.wf(),
    ensures
        r is Ok <==> (private_key_ok(private_key@) && signing_view(tx, private_key@)),
        r matches Ok(h) ==> h@ == seq!['0', 'x'] + hex_of(
            rlp_signed_view(tx, signature_view(tx, private_key@)),
        ),
        r matches Err(e) ==> ((e is InvalidKey) <==> !private_key_ok(private_key@)),
{
    let sig = match sign_transaction(tx, private_key) {
        Ok(s) => s,
        Err(e) => return Err(e),
    };
    Ok(create_hex_tx_from_signed(tx, &sig))
}

} // verus!
