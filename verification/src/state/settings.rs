//! The settings cell: who owns the engine, and which principal speaks for
//! the chain gateway.

use vstd::prelude::*;

use crate::types::Principal;

verus! {

/// Durable engine settings.
#[derive(Debug)]
pub struct Settings {
    /// The principal allowed to administer the engine.
    pub owner: Principal,
    /// The principal of the chain gateway.
    pub ic_eth: Principal,
}

pub ghost struct SettingsView {
    pub owner: Seq<u8>,
    pub ic_eth: Seq<u8>,
}

impl View for Settings {
    type V = SettingsView;

    open spec fn view(&self) -> SettingsView {
        SettingsView { owner: self.owner@, ic_eth: self.ic_eth@ }
    }
}

impl Settings {
    pub fn new(owner: Principal, ic_eth: Principal) -> (r: Self)
        ensures
            r@.owner == owner@,
            r@.ic_eth == ic_eth@,
    {
        Self { owner, ic_eth }
    }
}

impl Clone for Settings {
    fn clone(&self) -> (r: Self)
        ensures
            r@ == self@,
    {
        Settings { owner: self.owner.clone(), ic_eth: self.ic_eth.clone() }
    }
}

impl Default for Settings {
    /// Both principals start as the management principal.
    fn default() -> (r: Self)
        ensures
            r@.owner == Seq::<u8>::empty(),
            r@.ic_eth == Seq::<u8>::empty(),
    {
        Settings {
            owner: Principal::management_canister(),
            ic_eth: Principal::management_canister(),
        }
    }
}

} // verus!
