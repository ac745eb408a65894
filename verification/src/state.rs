//! Engine state: the settings, the signer descriptor and the durable
//! stores.

pub mod oracle_storage;
pub mod pair_storage;
pub mod settings;
pub mod signer;

use vstd::prelude::*;

use self::oracle_storage::OracleStorage;
use self::pair_storage::PairStorage;
use self::settings::Settings;
use self::signer::SignerInfo;
use crate::types::Principal;

verus! {

/// The whole durable state of the engine.
#[derive(Debug)]
pub struct State {
    /// Transaction signing info.
    pub signer: SignerInfo,
    /// The oracle registry.
    pub oracle_storage: OracleStorage,
    /// The currency-pair store.
    pub pair_storage: PairStorage,
    /// The settings cell.
    pub settings: Settings,
}

impl State {
    pub open spec fn wf(&self) -> bool {
        self.oracle_storage.wf() && self.pair_storage.wf()
    }

    /// A fresh state under the given settings.
    pub fn init(settings: Settings) -> (r: Self)
        ensures
            r.wf(),
            r.settings@ == settings@,
            r.oracle_storage@ =~= Map::<
                Seq<u8>,
                Map<Seq<u8>, oracle_storage::StorableOracleMetadataView>,
            >::empty(),
    {
        State {
            signer: SignerInfo,
            oracle_storage: OracleStorage::new(),
            pair_storage: PairStorage::new(),
            settings,
        }
    }

    /// Replaces the settings and clears the oracle registry.
    pub fn reset(&mut self, settings: Settings)
        requires
            old(self).pair_storage.wf(),
        ensures
            final(self).wf(),
            final(self).settings@ == settings@,
            final(self).oracle_storage@ =~= Map::<
                Seq<u8>,
                Map<Seq<u8>, oracle_storage::StorableOracleMetadataView>,
            >::empty(),
            final(self).pair_storage == old(self).pair_storage,
    {
        self.settings = settings;
        self.oracle_storage.clear();
    }

    /// The principal allowed to administer the engine.
    pub fn owner(&self) -> (r: Principal)
        ensures
            r@ == self.settings@.owner,
    {
        self.settings.owner.clone()
    }

    pub fn set_owner(&mut self, owner: Principal)
        ensures
            final(self).settings@.owner == owner@,
            final(self).settings@.ic_eth == old(self).settings@.ic_eth,
            final(self).oracle_storage == old(self).oracle_storage,
            final(self).pair_storage == old(self).pair_storage,
    {
        self.settings.owner = owner;
    }

    pub fn mut_oracle_storage(&mut self) -> (r: &mut OracleStorage)
        ensures
            *r == old(self).oracle_storage,
            final(self).oracle_storage == *final(r),
            final(self).pair_storage == old(self).pair_storage,
            final(self).settings == old(self).settings,
            final(self).signer == old(self).signer,
    {
        &mut self.oracle_storage
    }

    pub fn oracle_storage(&self) -> (r: &OracleStorage)
        ensures
            *r == self.oracle_storage,
    {
        &self.oracle_storage
    }

    pub fn signer(&self) -> (r: &SignerInfo)
        ensures
            *r == self.signer,
    {
        &self.signer
    }
}

} // verus!
