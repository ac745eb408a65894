//! Cost constants of the actor runtime's outbound HTTP calls.

use vstd::prelude::*;

verus! {

pub const INGRESS_OVERHEAD_BYTES: u128 = 100;

pub const INGRESS_MESSAGE_RECEIVED_COST: u128 = 1_200_000;

pub const INGRESS_MESSAGE_BYTE_RECEIVED_COST: u128 = 2_000;

pub const HTTP_OUTCALL_REQUEST_COST: u128 = 400_000_000;

pub const HTTP_OUTCALL_BYTE_RECEIVED_COST: u128 = 100_000;

pub const DEFAULT_NODES_IN_SUBNET: u32 = 13;

} // verus!
