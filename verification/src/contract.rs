//! The aggregator-contract service: callbacks persisted for transactions it
//! broadcasts, and the verified pieces of its two flows. The broadcast
//! itself and the signing are asynchronous chain calls made by the runtime
//! around this crate; what is decided here is what to send and what to
//! persist.

use vstd::prelude::*;

use crate::provider::update_price_data;
use crate::state::pair_storage::{pair_id_of, Pair, PairStorage};
use crate::types::{H160, H256};

verus! {

/// Persisted by the pair-feed creation flow: when the creation transaction
/// is processed, the deployed feed's address is recorded for this pair.
#[derive(Debug)]
pub struct PriceFeedCreationCallback {
    pub pair_id: String,
}

impl PriceFeedCreationCallback {
    pub fn new(pair_id: String) -> (r: Self)
        ensures
            r.pair_id@ == pair_id@,
    {
        Self { pair_id }
    }
}

impl Clone for PriceFeedCreationCallback {
    fn clone(&self) -> (r: Self)
        ensures
            r.pair_id@ == self.pair_id@,
    {
        PriceFeedCreationCallback { pair_id: self.pair_id.clone() }
    }
}

/// Persisted by the address-reservation flow: when its transaction is
/// processed, the reserved address is recorded for the pair.
#[derive(Debug)]
pub struct ReserveAddressCallback {
    pub pair_id: String,
    pub address: H160,
}

impl Clone for ReserveAddressCallback {
    fn clone(&self) -> (r: Self)
        ensures
            r.pair_id@ == self.pair_id@,
            r.address@ == self.address@,
    {
        ReserveAddressCallback { pair_id: self.pair_id.clone(), address: self.address.clone() }
    }
}

/// Builds and broadcasts aggregator-contract transactions.
#[derive(Debug)]
pub struct ContractService;

impl ContractService {
    /// The callback persisted when a feed-creation transaction for `pair`
    /// was broadcast under `tx_hash`; registering it is atomic with
    /// broadcast success.
    pub fn register_creation(
        &self,
        processor: &mut crate::processor::EvmTransactionProcessorImpl,
        tx_hash: H256,
        pair: &Pair,
    )
        requires
            old(processor).wf(),
        ensures
            final(processor).wf(),
            final(processor)@ == old(processor)@.insert(
                tx_hash@,
                crate::processor::TxCallbackView::PriceFeedCreation(pair_id_of(pair@)),
            ),
    {
        let callback = PriceFeedCreationCallback::new(pair.id());
        processor.register_transaction(
            tx_hash,
            crate::processor::TxCallback::PriceFeedCreation(callback),
        );
    }

    /// The call data of a price update to a feed contract.
    pub fn update_price_call_data(&self, price: u64) -> (r: Vec<u8>)
        ensures
            r@ == update_price_data(price),
    {
        crate::provider::encode_update_price(price)
    }

    /// Records the published price of a stored pair once its update
    /// transaction went out; rejected when the pair is unknown.
    pub fn record_pair_price(
        &self,
        pairs: &mut PairStorage,
        id: &String,
        price: u64,
        timestamp: u64,
    ) -> (r: Result<(), crate::error::Error>)
        requires
            old(pairs).wf(),
        ensures
            final(pairs).wf(),
            match r {
                Ok(()) => old(pairs)@.pairs.contains_key(id@) && final(pairs)@.pairs == old(
                    pairs,
                )@.pairs.insert(
                    id@,
                    crate::state::pair_storage::PairDataView {
                        pair: old(pairs)@.pairs[id@].pair,
                        price,
                        timestamp,
                    },
                ) && final(pairs)@.addresses == old(pairs)@.addresses,
                Err(crate::error::Error::PairNotFound) => !old(pairs)@.pairs.contains_key(id@)
                    && final(pairs)@ == old(pairs)@,
                Err(_) => false,
            },
    {
        pairs.update_pair(id, price, timestamp)
    }
}

} // verus!
