//! Descriptors of chain RPC sources, as callers name them.

use vstd::prelude::*;

verus! {

/// How a caller names the RPC endpoint to use.
#[derive(Debug)]
pub enum Source {
    /// A full URL.
    Url(String),
    /// A registered provider, by number.
    Provider(u64),
    /// A chain, by id.
    Chain(u64),
    /// A service, by hostname and optional chain id.
    Service { hostname: String, chain_id: Option<u64> },
}

/// An endpoint registered at process start.
#[derive(Debug)]
pub struct InitProvider {
    pub chain_id: u64,
    pub hostname: String,
    pub credential_path: String,
}

} // verus!
