//! Twenty-byte account and contract addresses.
use vstd::prelude::*;

verus! {

/// An Ethereum address: exactly twenty bytes.
pub struct Address {
    bytes: Vec<u8>,
}

impl View for Address {
    type V = Seq<u8>;

    /// The bytes of the address.
    closed spec fn view(&self) -> Seq<u8> {
        self.bytes@
    }
}

impl Address {
    pub open spec fn wf(&self) -> bool {
        self@.len() == 20
    }

    /// Wraps twenty bytes as an address; `None` for any other length.
    pub fn from_bytes(bytes: Vec<u8>) -> (r: Option<Address>)
        ensures
            r is Some <==> bytes@.len() == 20,
            r matches Some(a) ==> a.wf() && a@ == bytes@,
    {
        if bytes.len() == 20 {
            Some(Address { bytes })
        } else {
            None
        }
    }

    /// The bytes of the address.
    pub fn byte_vec(&self) -> (r: &Vec<u8>)
        ensures
            r@ == self@,
    {
        &self.bytes
    }
}

/// The byte views of a list of addresses.
pub open spec fn addr_views(s: Seq<Address>) -> Seq<Seq<u8>> {
    s.map_values(|a: Address| a@)
}

/// Every address of the list is well formed.
pub open spec fn all_addrs_wf(s: Seq<Address>) -> bool {
    forall|i: int| 0 <= i < s.len() ==> s[i].wf()
}

impl Clone for Address {
    /// Clones preserve the bytes.
    fn clone(&self) -> (r: Self)
        ensures
            r@ == self@,
            r.wf() == self.wf(),
    {
        Address { bytes: crate::digits::copy_bytes(&self.bytes) }
    }
}

} // verus!
