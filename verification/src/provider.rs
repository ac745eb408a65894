//! Chain endpoints and the assembly of price-update transactions.

use vstd::prelude::*;

use crate::encoding::{be_word, function_selector_bytes, selector_of};

verus! {

/// A JSON-RPC chain endpoint: which chain, and where to reach it.
#[derive(Debug)]
pub struct Provider {
    pub chain_id: u64,
    pub hostname: String,
}

pub ghost struct ProviderView {
    pub chain_id: u64,
    pub hostname: Seq<char>,
}

impl View for Provider {
    type V = ProviderView;

    open spec fn view(&self) -> ProviderView {
        ProviderView { chain_id: self.chain_id, hostname: self.hostname@ }
    }
}

impl Clone for Provider {
    fn clone(&self) -> (r: Self)
        ensures
            r@ == self@,
    {
        Provider { chain_id: self.chain_id, hostname: self.hostname.clone() }
    }
}

impl PartialEq for Provider {
    fn eq(&self, other: &Self) -> (r: bool) {
        self.chain_id == other.chain_id && self.hostname == other.hostname
    }
}

impl vstd::std_specs::cmp::PartialEqSpecImpl for Provider {
    open spec fn obeys_eq_spec() -> bool {
        true
    }

    open spec fn eq_spec(&self, other: &Self) -> bool {
        self@ == other@
    }
}

/// The signature text of the destination contract's price-update method.
pub open spec fn update_price_signature() -> Seq<char> {
    "updatePrice(int256)"@
}

/// The call data that writes `price` to a destination contract: the selector
/// of its update method followed by the price as one big-endian word.
pub open spec fn update_price_data(price: u64) -> Seq<u8> {
    selector_of(update_price_signature()) + be_word(price)
}

/// Builds the call data of a price update.
pub fn encode_update_price(price: u64) -> (r: Vec<u8>)
    ensures
        r@ == update_price_data(price),
{
    let selector = function_selector_bytes("updatePrice(int256)");
    crate::encoding::encode_call_u64(selector.as_slice(), price)
}

/// The call data of a read-only call to a price method with no arguments:
/// the selector of `method()` and nothing more.
pub open spec fn read_call_data(method: Seq<char>) -> Seq<u8> {
    selector_of(method + "()"@)
}

/// Builds the call data of a read-only price query.
pub fn encode_read_call(method: &str) -> (r: Vec<u8>)
    ensures
        r@ == read_call_data(method@),
{
    let mut signature = method.to_owned();
    signature.append("()");
    function_selector_bytes(signature.as_str())
}

/// A transaction envelope assembled for signing and broadcast. Building it
/// is a stateless orchestration: the nonce and prices are read from the
/// chain, the signature comes from the signer capability, and nothing
/// durable is touched.
#[derive(Debug)]
pub struct Transaction {
    pub from: crate::types::H160,
    pub to: Option<crate::types::H160>,
    pub nonce: u128,
    pub value: u128,
    pub gas: u128,
    pub gas_price: u128,
    pub input: Vec<u8>,
    pub chain_id: u64,
    /// Signature recovery value; zero until signed.
    pub v: u64,
    /// Signature `r` component; empty until signed.
    pub r: Vec<u8>,
    /// Signature `s` component; empty until signed.
    pub s: Vec<u8>,
    /// The final transaction hash; empty until signed.
    pub hash: Vec<u8>,
}

impl Transaction {
    /// Assembles the unsigned envelope from the values read off the chain.
    pub fn assemble(
        from: crate::types::H160,
        to: Option<crate::types::H160>,
        nonce: u128,
        value: u128,
        gas: u128,
        gas_price: u128,
        input: Vec<u8>,
        chain_id: u64,
    ) -> (t: Transaction)
        ensures
            t.from == from,
            t.to == to,
            t.nonce == nonce,
            t.value == value,
            t.gas == gas,
            t.gas_price == gas_price,
            t.input == input,
            t.chain_id == chain_id,
            t.v == 0,
            t.r@.len() == 0,
            t.s@.len() == 0,
            t.hash@.len() == 0,
    {
        Transaction {
            from,
            to,
            nonce,
            value,
            gas,
            gas_price,
            input,
            chain_id,
            v: 0,
            r: Vec::new(),
            s: Vec::new(),
            hash: Vec::new(),
        }
    }

    /// Fills in the signature the signer produced and the resulting hash;
    /// everything else is kept.
    pub fn with_signature(self, v: u64, r: Vec<u8>, s: Vec<u8>, hash: Vec<u8>) -> (t: Transaction)
        ensures
            t.from == self.from,
            t.to == self.to,
            t.nonce == self.nonce,
            t.value == self.value,
            t.gas == self.gas,
            t.gas_price == self.gas_price,
            t.input == self.input,
            t.chain_id == self.chain_id,
            t.v == v,
            t.r == r,
            t.s == s,
            t.hash == hash,
    {
        Transaction {
            from: self.from,
            to: self.to,
            nonce: self.nonce,
            value: self.value,
            gas: self.gas,
            gas_price: self.gas_price,
            input: self.input,
            chain_id: self.chain_id,
            v,
            r,
            s,
            hash,
        }
    }
}

} // verus!
