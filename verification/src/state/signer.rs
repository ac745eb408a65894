//! The signer descriptor: which key and derivation path sign for a user.
//! The signing calls themselves are asynchronous capabilities of the actor
//! runtime and live outside this crate.

use vstd::prelude::*;

use crate::types::H160;

verus! {

/// Which managed key the runtime signs with.
#[derive(Debug, Clone, Copy, PartialEq, Eq, Structural)]
pub enum SigningKeyId {
    /// The local development key.
    Dfx,
}

/// A component that hands out the signer descriptor for a user.
#[derive(Debug)]
pub struct SignerInfo;

/// The signer descriptor of one user: the managed key, and a derivation
/// path holding the user's address.
#[derive(Debug)]
pub struct OracleSigner {
    pub key_id: SigningKeyId,
    pub derivation_path: Vec<Vec<u8>>,
}

impl OracleSigner {
    fn new(address: H160) -> (r: Self)
        ensures
            r.key_id is Dfx,
            r.derivation_path@.len() == 1,
            r.derivation_path@[0]@ == address@,
    {
        let mut derivation_path: Vec<Vec<u8>> = Vec::new();
        derivation_path.push(address.bytes);
        Self { key_id: SigningKeyId::Dfx, derivation_path }
    }
}

impl SignerInfo {
    /// The signer that speaks for `user_address`: the development key,
    /// derived along the user's address bytes.
    pub fn get_oracle_signer(&self, user_address: H160) -> (r: OracleSigner)
        ensures
            r.key_id is Dfx,
            r.derivation_path@.len() == 1,
            r.derivation_path@[0]@ == user_address@,
    {
        OracleSigner::new(user_address)
    }
}

} // verus!
