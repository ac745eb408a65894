//! The context handed to the scheduler and the processor: the engine state
//! and the pending-transaction registry, reached by explicit reference
//! rather than captured ambiently.

use vstd::prelude::*;

use crate::processor::EvmTransactionProcessorImpl;
use crate::state::State;

verus! {

/// Owns the engine state and the pending-transaction registry.
#[derive(Debug)]
pub struct ContextImpl {
    pub state: State,
    pub tx_processor: EvmTransactionProcessorImpl,
}

impl ContextImpl {
    pub open spec fn wf(&self) -> bool {
        self.state.wf() && self.tx_processor.wf()
    }

    /// A fresh context under the given settings.
    pub fn init(settings: crate::state::settings::Settings) -> (r: Self)
        ensures
            r.wf(),
            r.state.settings@ == settings@,
            r.state.oracle_storage@ =~= Map::<
                Seq<u8>,
                Map<Seq<u8>, crate::state::oracle_storage::StorableOracleMetadataView>,
            >::empty(),
            r.tx_processor@ == Map::<Seq<u8>, crate::processor::TxCallbackView>::empty(),
    {
        ContextImpl { state: State::init(settings), tx_processor: EvmTransactionProcessorImpl::new() }
    }

    pub fn get_state(&self) -> (r: &State)
        ensures
            *r == self.state,
    {
        &self.state
    }

    pub fn mut_state(&mut self) -> (r: &mut State)
        ensures
            *r == old(self).state,
            final(self).state == *final(r),
            final(self).tx_processor == old(self).tx_processor,
    {
        &mut self.state
    }

    pub fn get_tx_processor(&self) -> (r: &EvmTransactionProcessorImpl)
        ensures
            *r == self.tx_processor,
    {
        &self.tx_processor
    }

    pub fn mut_tx_processor(&mut self) -> (r: &mut EvmTransactionProcessorImpl)
        ensures
            *r == old(self).tx_processor,
            final(self).tx_processor == *final(r),
            final(self).state == old(self).state,
    {
        &mut self.tx_processor
    }
}

} // verus!
