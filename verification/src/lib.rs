//! A price-oracle engine: user-owned recurring jobs ("oracles") that fetch a
//! price from an HTTP endpoint or another chain and republish it to a
//! destination contract, together with a transaction-lifecycle processor that
//! tracks broadcast transactions to a terminal state and dispatches each
//! registered callback at most once.

pub mod assoc;
pub mod canister;
pub mod constants;
pub mod context;
pub mod contract;
pub mod encoding;
pub mod eth_rpc;
pub mod http;
pub mod error;
pub mod parser;
pub mod price;
pub mod processor;
pub mod provider;
pub mod state;
pub mod types;
