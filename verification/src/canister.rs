//! The engine's caller-facing surface: oracle origins and destinations, the
//! timer scheduler, and the operations that create, update, query and delete
//! oracles.

use std::str::FromStr;

use vstd::prelude::*;

use crate::assoc::{
    assoc_view, keys_unique, lemma_assoc_contains, lemma_assoc_push, lemma_assoc_remove,
};
use crate::provider::{Provider, ProviderView};
use crate::types::{H160, TimerId};

verus! {

/// The scheduler's set of armed recurring timers, each with its interval in
/// seconds. Handles are never reused: each armed timer gets a fresh one.
#[derive(Debug)]
pub struct TimerScheduler {
    /// The next handle to hand out.
    pub next_id: u64,
    /// The armed timers: handle and interval.
    pub armed: Vec<(TimerId, u64)>,
}

impl View for TimerScheduler {
    type V = Map<u64, u64>;

    open spec fn view(&self) -> Map<u64, u64> {
        assoc_view(self.armed@)
    }
}

impl TimerScheduler {
    pub open spec fn wf(&self) -> bool {
        &&& keys_unique(self.armed@)
        &&& forall|i: int| 0 <= i < self.armed@.len() ==> (#[trigger] self.armed@[i]).0.0
            < self.next_id
    }

    /// No timer armed, no handle spent.
    pub fn new() -> (r: Self)
        ensures
            r.wf(),
            r@ == Map::<u64, u64>::empty(),
            r.next_id == 0,
    {
        TimerScheduler { next_id: 0, armed: Vec::new() }
    }

    fn find(&self, id: TimerId) -> (r: Option<usize>)
        ensures
            match r {
                Some(i) => i < self.armed@.len() && self.armed@[i as int].0.0 == id.0,
                None => forall|i: int| 0 <= i < self.armed@.len() ==> self.armed@[i].0.0 != id.0,
            },
    {
        let mut i: usize = 0;
        while i < self.armed.len()
            invariant
                i <= self.armed@.len(),
                forall|t: int| 0 <= t < i ==> self.armed@[t].0.0 != id.0,
            decreases self.armed@.len() - i,
        {
            if self.armed[i].0.0 == id.0 {
                return Some(i);
            }
            i = i + 1;
        }
        None
    }

    /// Arms a recurring timer at `interval_secs` under a fresh handle;
    /// fails only when the handles are exhausted.
    pub fn arm(&mut self, interval_secs: u64) -> (r: Result<TimerId, crate::error::Error>)
        requires
            old(self).wf(),
        ensures
            final(self).wf(),
            match r {
                Ok(t) => old(self).next_id < u64::MAX && t.0 == old(self).next_id && !old(
                    self,
                )@.contains_key(t.0) && final(self)@ == old(self)@.insert(t.0, interval_secs)
                    && final(self).next_id == old(self).next_id + 1,
                Err(crate::error::Error::Internal(m)) => old(self).next_id == u64::MAX && m@
                    == "timer handles exhausted"@ && *final(self) == *old(self),
                Err(_) => false,
            },
    {
        if self.next_id == u64::MAX {
            return Err(crate::error::Error::Internal("timer handles exhausted".to_owned()));
        }
        let id = TimerId(self.next_id);
        self.next_id = self.next_id + 1;
        proof {
            lemma_assoc_contains(self.armed@, id.0);
        }
        let ghost mid = self.armed@;
        self.armed.push((id, interval_secs));
        proof {
            assert(self.armed@.drop_last() =~= mid);
            lemma_assoc_push(self.armed@);
        }
        Ok(id)
    }

    /// Cancels the timer under `id`; future fires stop, and cancelling a
    /// handle that is not armed does nothing.
    pub fn cancel(&mut self, id: TimerId)
        requires
            old(self).wf(),
        ensures
            final(self).wf(),
            final(self)@ == old(self)@.remove(id.0),
            final(self).next_id == old(self).next_id,
    {
        match self.find(id) {
            Some(i) => {
                proof {
                    lemma_assoc_remove(self.armed@, i as int);
                }
                self.armed.remove(i);
            },
            None => {
                proof {
                    lemma_assoc_contains(self.armed@, id.0);
                    assert(assoc_view(self.armed@) =~= assoc_view(self.armed@).remove(id.0));
                }
            },
        }
    }

    /// Whether a handle refers to a currently armed timer.
    pub fn is_armed(&self, id: TimerId) -> (r: bool)
        ensures
            r == self@.contains_key(id.0),
    {
        proof {
            lemma_assoc_contains(self.armed@, id.0);
        }
        match self.find(id) {
            Some(_) => true,
            None => false,
        }
    }
}

/// Where an oracle reads its price from.
#[derive(Debug)]
pub enum Origin {
    /// A read-only call to a contract on another chain.
    Evm(EvmOrigin),
    /// An HTTP endpoint serving JSON.
    Http(HttpOrigin),
}

/// On-chain origin data.
#[derive(Debug)]
pub struct EvmOrigin {
    /// The endpoint used to fetch the data.
    pub provider: Provider,
    /// The contract that serves the price.
    pub target_address: H160,
    /// The method called on the contract.
    pub method: String,
}

/// HTTP origin data.
#[derive(Debug)]
pub struct HttpOrigin {
    /// The URL fetched.
    pub url: String,
    /// The dot-separated path to the price inside the JSON response.
    pub json_path: String,
}

/// Where an oracle writes its price to.
#[derive(Debug)]
pub struct EvmDestination {
    /// The contract that receives the update.
    pub contract: H160,
    /// The endpoint used to send it.
    pub provider: Provider,
}

pub ghost enum OriginView {
    Evm(EvmOriginView),
    Http(HttpOriginView),
}

pub ghost struct EvmOriginView {
    pub provider: ProviderView,
    pub target_address: Seq<u8>,
    pub method: Seq<char>,
}

pub ghost struct HttpOriginView {
    pub url: Seq<char>,
    pub json_path: Seq<char>,
}

pub ghost struct EvmDestinationView {
    pub contract: Seq<u8>,
    pub provider: ProviderView,
}

impl View for EvmOrigin {
    type V = EvmOriginView;

    open spec fn view(&self) -> EvmOriginView {
        EvmOriginView {
            provider: self.provider@,
            target_address: self.target_address@,
            method: self.method@,
        }
    }
}

impl View for HttpOrigin {
    type V = HttpOriginView;

    open spec fn view(&self) -> HttpOriginView {
        HttpOriginView { url: self.url@, json_path: self.json_path@ }
    }
}

impl View for Origin {
    type V = OriginView;

    open spec fn view(&self) -> OriginView {
        match self {
            Origin::Evm(o) => OriginView::Evm(o@),
            Origin::Http(o) => OriginView::Http(o@),
        }
    }
}

impl View for EvmDestination {
    type V = EvmDestinationView;

    open spec fn view(&self) -> EvmDestinationView {
        EvmDestinationView { contract: self.contract@, provider: self.provider@ }
    }
}

impl Clone for EvmOrigin {
    fn clone(&self) -> (r: Self)
        ensures
            r@ == self@,
    {
        EvmOrigin {
            provider: self.provider.clone(),
            target_address: self.target_address.clone(),
            method: self.method.clone(),
        }
    }
}

impl Clone for HttpOrigin {
    fn clone(&self) -> (r: Self)
        ensures
            r@ == self@,
    {
        HttpOrigin { url: self.url.clone(), json_path: self.json_path.clone() }
    }
}

impl Clone for Origin {
    fn clone(&self) -> (r: Self)
        ensures
            r@ == self@,
    {
        match self {
            Origin::Evm(o) => Origin::Evm(o.clone()),
            Origin::Http(o) => Origin::Http(o.clone()),
        }
    }
}

impl Clone for EvmDestination {
    fn clone(&self) -> (r: Self)
        ensures
            r@ == self@,
    {
        EvmDestination { contract: self.contract.clone(), provider: self.provider.clone() }
    }
}

impl PartialEq for EvmOrigin {
    fn eq(&self, other: &Self) -> (r: bool) {
        self.provider == other.provider && self.target_address == other.target_address
            && self.method == other.method
    }
}

impl vstd::std_specs::cmp::PartialEqSpecImpl for EvmOrigin {
    open spec fn obeys_eq_spec() -> bool {
        true
    }

    open spec fn eq_spec(&self, other: &Self) -> bool {
        self@ == other@
    }
}

impl PartialEq for HttpOrigin {
    fn eq(&self, other: &Self) -> (r: bool) {
        self.url == other.url && self.json_path == other.json_path
    }
}

impl vstd::std_specs::cmp::PartialEqSpecImpl for HttpOrigin {
    open spec fn obeys_eq_spec() -> bool {
        true
    }

    open spec fn eq_spec(&self, other: &Self) -> bool {
        self@ == other@
    }
}

impl PartialEq for Origin {
    fn eq(&self, other: &Self) -> (r: bool) {
        match (self, other) {
            (Origin::Evm(a), Origin::Evm(b)) => *a == *b,
            (Origin::Http(a), Origin::Http(b)) => *a == *b,
            _ => false,
        }
    }
}

impl vstd::std_specs::cmp::PartialEqSpecImpl for Origin {
    open spec fn obeys_eq_spec() -> bool {
        true
    }

    open spec fn eq_spec(&self, other: &Self) -> bool {
        self@ == other@
    }
}

impl PartialEq for EvmDestination {
    fn eq(&self, other: &Self) -> (r: bool) {
        self.contract == other.contract && self.provider == other.provider
    }
}

impl vstd::std_specs::cmp::PartialEqSpecImpl for EvmDestination {
    open spec fn obeys_eq_spec() -> bool {
        true
    }

    open spec fn eq_spec(&self, other: &Self) -> bool {
        self@ == other@
    }
}

/// The data the engine starts from.
#[derive(Debug)]
pub struct InitData {
    /// The owner of the engine.
    pub owner: crate::types::Principal,
}

/// Rejects the anonymous principal wherever an owner is expected.
pub fn check_anonymous_principal(principal: &crate::types::Principal) -> (r: Result<
    (),
    crate::error::Error,
>)
    ensures
        match r {
            Ok(()) => principal@ != crate::types::anonymous_bytes(),
            Err(crate::error::Error::Internal(m)) => principal@ == crate::types::anonymous_bytes()
                && m@ == "Principal is anonymous"@,
            Err(_) => false,
        },
{
    if principal.is_anonymous() {
        return Err(crate::error::Error::Internal("Principal is anonymous".to_owned()));
    }
    Ok(())
}

/// Holds the context the engine works over.
#[derive(Debug)]
pub struct ContextWrapper(pub crate::context::ContextImpl);

/// The oracle engine: its durable context and its timer scheduler.
#[derive(Debug)]
pub struct Oracular {
    /// The engine's own principal.
    pub id: crate::types::Principal,
    /// The durable state and the pending-transaction registry.
    pub context: ContextWrapper,
    /// The armed recurring timers.
    pub timers: TimerScheduler,
}

impl Oracular {
    /// The oracle registry's view.
    pub open spec fn storage_view(self) -> Map<
        Seq<u8>,
        Map<Seq<u8>, crate::state::oracle_storage::StorableOracleMetadataView>,
    > {
        self.context.0.state.oracle_storage@
    }

    /// Whether an oracle is stored for `(u, c)`.
    pub open spec fn oracle_present(self, u: Seq<u8>, c: Seq<u8>) -> bool {
        self.storage_view().contains_key(u) && self.storage_view()[u].contains_key(c)
    }

    /// The stored record of the oracle at `(u, c)`.
    pub open spec fn md_at(self, u: Seq<u8>, c: Seq<u8>)
        -> crate::state::oracle_storage::StorableOracleMetadataView {
        self.storage_view()[u][c]
    }

    /// Every stored oracle names its owner key, and its timer handle is
    /// armed at its own interval and below the scheduler's watermark.
    pub open spec fn timers_linked(self) -> bool {
        forall|u: Seq<u8>, c: Seq<u8>|
            self.storage_view().contains_key(u) && #[trigger] self.storage_view()[u].contains_key(
                c,
            ) ==> self.md_at(u, c).owner == u && self.timers@.contains_key(self.md_at(u, c).timer_id)
                && self.timers@[self.md_at(u, c).timer_id] == self.md_at(u, c).timer_interval
                && self.md_at(u, c).timer_id < self.timers.next_id
    }

    /// No two stored oracles share a timer handle.
    pub open spec fn timers_injective(self) -> bool {
        forall|u1: Seq<u8>, c1: Seq<u8>, u2: Seq<u8>, c2: Seq<u8>|
            #![trigger self.storage_view()[u1].contains_key(c1), self.storage_view()[u2].contains_key(c2)]
            self.storage_view().contains_key(u1) && self.storage_view()[u1].contains_key(c1)
                && self.storage_view().contains_key(u2) && self.storage_view()[u2].contains_key(c2)
                && (u1 != u2 || c1 != c2) ==> self.md_at(u1, c1).timer_id != self.md_at(
                u2,
                c2,
            ).timer_id
    }

    /// Every armed timer belongs to some stored oracle: no orphan fires.
    pub open spec fn timers_covered(self) -> bool {
        forall|tid: u64| #[trigger]
            self.timers@.contains_key(tid) ==> exists|u: Seq<u8>, c: Seq<u8>|
                self.storage_view().contains_key(u) && #[trigger] self.storage_view()[
                    u
                ].contains_key(c) && self.md_at(u, c).timer_id == tid
    }

    /// The engine invariant: well-formed stores, and a one-to-one
    /// correspondence between stored oracles and armed timers.
    pub open spec fn wf(self) -> bool {
        &&& self.context.0.wf()
        &&& self.timers.wf()
        &&& self.timers_linked()
        &&& self.timers_injective()
        &&& self.timers_covered()
    }

    /// A fresh engine: no oracles, no timers, no pending transactions.
    pub fn from_principal(id: crate::types::Principal, settings: crate::state::settings::Settings)
        -> (r: Self)
        ensures
            r.wf(),
            r.storage_view() =~= Map::<
                Seq<u8>,
                Map<Seq<u8>, crate::state::oracle_storage::StorableOracleMetadataView>,
            >::empty(),
            r.timers@ =~= Map::<u64, u64>::empty(),
            r.context.0.state.settings@ == settings@,
            r.id@ == id@,
    {
        Oracular {
            id,
            context: ContextWrapper(crate::context::ContextImpl::init(settings)),
            timers: TimerScheduler::new(),
        }
    }

    /// The record stored for a newly created oracle.
    pub open spec fn new_md(
        user: Seq<u8>,
        origin: OriginView,
        timestamp: u64,
        tid: u64,
        evm: EvmDestinationView,
    ) -> crate::state::oracle_storage::StorableOracleMetadataView {
        crate::state::oracle_storage::StorableOracleMetadataView {
            owner: user,
            origin,
            timer_interval: timestamp,
            timer_id: tid,
            evm,
        }
    }

    /// Creates an oracle for `(user_address, destination.contract)`: a
    /// fresh recurring timer is armed at `timestamp` seconds and the
    /// metadata is stored under the pair, replacing (and disarming) any
    /// oracle already stored there — never duplicating it.
    pub fn create_oracle(
        &mut self,
        user_address: H160,
        origin: Origin,
        timestamp: u64,
        destination: EvmDestination,
    ) -> (r: Result<(), crate::error::Error>)
        requires
            old(self).wf(),
        ensures
            final(self).wf(),
            final(self).id == old(self).id,
            final(self).context.0.state.settings == old(self).context.0.state.settings,
            final(self).context.0.state.pair_storage == old(self).context.0.state.pair_storage,
            final(self).context.0.tx_processor == old(self).context.0.tx_processor,
            match r {
                Ok(()) => {
                    &&& old(self).timers.next_id < u64::MAX
                    &&& final(self).storage_view() == old(self).storage_view().insert(
                        user_address@,
                        old(self).context.0.state.oracle_storage.user_map_after_add(
                            user_address@,
                            destination.contract@,
                            Self::new_md(
                                user_address@,
                                origin@,
                                timestamp,
                                old(self).timers.next_id,
                                destination@,
                            ),
                        ),
                    )
                    &&& final(self).timers@ == (if old(self).oracle_present(
                        user_address@,
                        destination.contract@,
                    ) {
                        old(self).timers@.remove(
                            old(self).md_at(user_address@, destination.contract@).timer_id,
                        )
                    } else {
                        old(self).timers@
                    }).insert(old(self).timers.next_id, timestamp)
                    &&& final(self).timers.next_id == old(self).timers.next_id + 1
                },
                Err(crate::error::Error::Internal(m)) => old(self).timers.next_id == u64::MAX && m@
                    == "timer handles exhausted"@ && *final(self) == *old(self),
                Err(_) => false,
            },
    {
        let ghost this0 = *self;
        let timer_id = match self.timers.arm(timestamp) {
            Ok(t) => t,
            Err(e) => {
                return Err(e);
            },
        };
        // Disarm the timer of any oracle this one replaces.
        match self.context.0.state.oracle_storage.get_timer_id_by_address(
            user_address.clone(),
            destination.contract.clone(),
        ) {
            Ok(prev) => {
                self.timers.cancel(prev);
            },
            Err(_) => {
            },
        }
        self.context.0.state.oracle_storage.add_oracle(
            user_address,
            origin,
            timestamp,
            timer_id,
            destination,
        );
        proof {
            let u = user_address@;
            let c = destination.contract@;
            let n0 = this0.timers.next_id;
            let md_new = Self::new_md(u, origin@, timestamp, n0, destination@);
            let s0 = this0.storage_view();
            let s1 = self.storage_view();
            let t0 = this0.timers@;
            let t2 = self.timers@;
            assert(s1 == s0.insert(
                u,
                this0.context.0.state.oracle_storage.user_map_after_add(u, c, md_new),
            ));
            if this0.oracle_present(u, c) {
                let prev = this0.md_at(u, c).timer_id;
                assert(prev < n0);
                assert(t2 =~= t0.remove(prev).insert(n0, timestamp));
            } else {
                assert(t2 =~= t0.insert(n0, timestamp));
            }
            // The invariant holds of the new state.
            assert forall|u1: Seq<u8>, c1: Seq<u8>|
                s1.contains_key(u1) && #[trigger] s1[u1].contains_key(c1) implies self.md_at(
                u1,
                c1,
            ).owner == u1 && t2.contains_key(self.md_at(u1, c1).timer_id) && t2[self.md_at(
                u1,
                c1,
            ).timer_id] == self.md_at(u1, c1).timer_interval && self.md_at(u1, c1).timer_id
                < self.timers.next_id by {
                if u1 == u && c1 == c {
                } else {
                    assert(s0.contains_key(u1) && s0[u1].contains_key(c1) && self.md_at(u1, c1)
                        == this0.md_at(u1, c1));
                    assert(this0.md_at(u1, c1).timer_id != n0);
                    if this0.oracle_present(u, c) && (u1 != u || c1 != c) {
                        assert(this0.md_at(u1, c1).timer_id != this0.md_at(u, c).timer_id);
                    }
                }
            }
            assert forall|u1: Seq<u8>, c1: Seq<u8>, u2: Seq<u8>, c2: Seq<u8>|
                #![trigger s1[u1].contains_key(c1), s1[u2].contains_key(c2)]
                s1.contains_key(u1) && s1[u1].contains_key(c1) && s1.contains_key(u2)
                    && s1[u2].contains_key(c2) && (u1 != u2 || c1 != c2) implies self.md_at(
                u1,
                c1,
            ).timer_id != self.md_at(u2, c2).timer_id by {
                if u1 == u && c1 == c {
                    assert(s0.contains_key(u2) && s0[u2].contains_key(c2) && self.md_at(u2, c2)
                        == this0.md_at(u2, c2));
                } else if u2 == u && c2 == c {
                    assert(s0.contains_key(u1) && s0[u1].contains_key(c1) && self.md_at(u1, c1)
                        == this0.md_at(u1, c1));
                } else {
                    assert(s0.contains_key(u1) && s0[u1].contains_key(c1) && self.md_at(u1, c1)
                        == this0.md_at(u1, c1));
                    assert(s0.contains_key(u2) && s0[u2].contains_key(c2) && self.md_at(u2, c2)
                        == this0.md_at(u2, c2));
                }
            }
            assert forall|tid: u64| #[trigger] t2.contains_key(tid) implies exists|
                u1: Seq<u8>,
                c1: Seq<u8>,
            |
                s1.contains_key(u1) && #[trigger] s1[u1].contains_key(c1) && self.md_at(
                    u1,
                    c1,
                ).timer_id == tid by {
                if tid == n0 {
                    assert(s1[u].contains_key(c) && self.md_at(u, c).timer_id == tid);
                } else {
                    assert(t0.contains_key(tid));
                    let (u1, c1) = choose|u1: Seq<u8>, c1: Seq<u8>|
                        s0.contains_key(u1) && #[trigger] s0[u1].contains_key(c1) && this0.md_at(
                            u1,
                            c1,
                        ).timer_id == tid;
                    assert(!(u1 == u && c1 == c));
                    assert(s1.contains_key(u1) && s1[u1].contains_key(c1) && self.md_at(u1, c1)
                        == this0.md_at(u1, c1));
                }
            }
        }
        Ok(())
    }

    /// Applies a partial update to the oracle at
    /// `(user_address, contract_address)`. An empty patch is rejected, a
    /// missing oracle is rejected, and on success the previous timer is
    /// disarmed and exactly one new timer is armed for the pair at the
    /// (possibly changed) interval.
    pub fn update_oracle_metadata(
        &mut self,
        user_address: H160,
        contract_address: H160,
        metadata: crate::state::oracle_storage::UpdateOracleMetadata,
    ) -> (r: Result<(), crate::error::Error>)
        requires
            old(self).wf(),
        ensures
            final(self).wf(),
            final(self).id == old(self).id,
            final(self).context.0.state.settings == old(self).context.0.state.settings,
            final(self).context.0.state.pair_storage == old(self).context.0.state.pair_storage,
            final(self).context.0.tx_processor == old(self).context.0.tx_processor,
            match r {
                Ok(()) => {
                    &&& !(metadata@.origin is None && metadata@.evm is None && metadata@.timestamp
                        is None)
                    &&& old(self).oracle_present(user_address@, contract_address@)
                    &&& old(self).timers.next_id < u64::MAX
                    &&& final(self).storage_view() == old(self).storage_view().insert(
                        user_address@,
                        old(self).storage_view()[user_address@].insert(
                            contract_address@,
                            crate::state::oracle_storage::merged_metadata(
                                old(self).md_at(user_address@, contract_address@),
                                metadata@,
                                Some(TimerId(old(self).timers.next_id)),
                            ),
                        ),
                    )
                    &&& final(self).timers@ == old(self).timers@.remove(
                        old(self).md_at(user_address@, contract_address@).timer_id,
                    ).insert(
                        old(self).timers.next_id,
                        match metadata@.timestamp {
                            Some(t) => t,
                            None => old(self).md_at(user_address@, contract_address@).timer_interval,
                        },
                    )
                    &&& final(self).timers.next_id == old(self).timers.next_id + 1
                },
                Err(crate::error::Error::Internal(m)) => *final(self) == *old(self) && ((metadata@.origin
                    is None && metadata@.evm is None && metadata@.timestamp is None && m@
                    == "At least one of the metadata fields must be set"@) || (!(metadata@.origin
                    is None && metadata@.evm is None && metadata@.timestamp is None) && old(
                    self,
                ).oracle_present(user_address@, contract_address@) && old(self).timers.next_id
                    == u64::MAX && m@ == "timer handles exhausted"@)),
                Err(crate::error::Error::OracleNotFound) => *final(self) == *old(self) && !old(
                    self,
                ).oracle_present(user_address@, contract_address@) && !(metadata@.origin is None
                    && metadata@.evm is None && metadata@.timestamp is None),
                Err(_) => false,
            },
    {
        // An all-empty patch would be a no-op and is rejected.
        if metadata.is_none() {
            return Err(
                crate::error::Error::Internal(
                    "At least one of the metadata fields must be set".to_owned(),
                ),
            );
        }
        let ghost this0 = *self;
        let old_md = match self.context.0.state.oracle_storage.get_oracle_by_address(
            user_address.clone(),
            contract_address.clone(),
        ) {
            Ok(md) => md,
            Err(_) => {
                return Err(crate::error::Error::OracleNotFound);
            },
        };
        // The stored owner must be the calling address; storage keys
        // oracles by their owner, so a mismatch cannot be reached.
        if !(old_md.owner == user_address) {
            return Err(
                crate::error::Error::Internal("caller is not the owner of the oracle".to_owned()),
            );
        }
        let interval = match metadata.timestamp {
            Some(t) => t,
            None => old_md.timer_interval,
        };
        let timer_id = match self.timers.arm(interval) {
            Ok(t) => t,
            Err(e) => {
                return Err(e);
            },
        };
        let prev = match self.context.0.state.oracle_storage.get_timer_id_by_address(
            user_address.clone(),
            contract_address.clone(),
        ) {
            Ok(prev) => prev,
            Err(_) => {
                // The lookup above proved the pair present; this arm is
                // unreachable.
                proof {
                    assert(false);
                }
                return Err(crate::error::Error::OracleNotFound);
            },
        };
        self.timers.cancel(prev);
        match self.context.0.state.oracle_storage.update_oracle_metadata(
            user_address,
            contract_address,
            Some(timer_id),
            metadata,
        ) {
            Ok(()) => {
            },
            Err(e) => {
                // The lookup above proved the pair present; this arm is
                // unreachable.
                proof {
                    assert(false);
                }
                return Err(e);
            },
        }
        proof {
            let u = user_address@;
            let c = contract_address@;
            let n0 = this0.timers.next_id;
            let prev_tid = this0.md_at(u, c).timer_id;
            let s0 = this0.storage_view();
            let s1 = self.storage_view();
            let t0 = this0.timers@;
            let t2 = self.timers@;
            let md_new = crate::state::oracle_storage::merged_metadata(
                this0.md_at(u, c),
                metadata@,
                Some(TimerId(n0)),
            );
            assert(prev_tid < n0);
            assert(t2 =~= t0.remove(prev_tid).insert(n0, interval));
            assert(s1 == s0.insert(u, s0[u].insert(c, md_new)));
            assert forall|u1: Seq<u8>, c1: Seq<u8>|
                s1.contains_key(u1) && #[trigger] s1[u1].contains_key(c1) implies self.md_at(
                u1,
                c1,
            ).owner == u1 && t2.contains_key(self.md_at(u1, c1).timer_id) && t2[self.md_at(
                u1,
                c1,
            ).timer_id] == self.md_at(u1, c1).timer_interval && self.md_at(u1, c1).timer_id
                < self.timers.next_id by {
                if u1 == u && c1 == c {
                } else {
                    assert(s0.contains_key(u1) && s0[u1].contains_key(c1) && self.md_at(u1, c1)
                        == this0.md_at(u1, c1));
                    assert(this0.md_at(u1, c1).timer_id != prev_tid);
                }
            }
            assert forall|u1: Seq<u8>, c1: Seq<u8>, u2: Seq<u8>, c2: Seq<u8>|
                #![trigger s1[u1].contains_key(c1), s1[u2].contains_key(c2)]
                s1.contains_key(u1) && s1[u1].contains_key(c1) && s1.contains_key(u2)
                    && s1[u2].contains_key(c2) && (u1 != u2 || c1 != c2) implies self.md_at(
                u1,
                c1,
            ).timer_id != self.md_at(u2, c2).timer_id by {
                if !(u1 == u && c1 == c) {
                    assert(s0.contains_key(u1) && s0[u1].contains_key(c1) && self.md_at(u1, c1)
                        == this0.md_at(u1, c1));
                }
                if !(u2 == u && c2 == c) {
                    assert(s0.contains_key(u2) && s0[u2].contains_key(c2) && self.md_at(u2, c2)
                        == this0.md_at(u2, c2));
                }
            }
            assert forall|tid: u64| #[trigger] t2.contains_key(tid) implies exists|
                u1: Seq<u8>,
                c1: Seq<u8>,
            |
                s1.contains_key(u1) && #[trigger] s1[u1].contains_key(c1) && self.md_at(
                    u1,
                    c1,
                ).timer_id == tid by {
                if tid == n0 {
                    assert(s1[u].contains_key(c) && self.md_at(u, c).timer_id == tid);
                } else {
                    assert(t0.contains_key(tid));
                    let (u1, c1) = choose|u1: Seq<u8>, c1: Seq<u8>|
                        s0.contains_key(u1) && #[trigger] s0[u1].contains_key(c1) && this0.md_at(
                            u1,
                            c1,
                        ).timer_id == tid;
                    assert(!(u1 == u && c1 == c));
                    assert(s1.contains_key(u1) && s1[u1].contains_key(c1) && self.md_at(u1, c1)
                        == this0.md_at(u1, c1));
                }
            }
        }
        Ok(())
    }

    /// Deletes the oracle at `(user_address, contract_address)`: its timer
    /// is disarmed and its metadata removed. Deleting a missing oracle —
    /// or the same oracle twice — reports `OracleNotFound` and changes
    /// nothing.
    pub fn delete_oracle(&mut self, user_address: H160, contract_address: H160) -> (r: Result<
        (),
        crate::error::Error,
    >)
        requires
            old(self).wf(),
        ensures
            final(self).wf(),
            final(self).id == old(self).id,
            final(self).context.0.state.settings == old(self).context.0.state.settings,
            final(self).context.0.state.pair_storage == old(self).context.0.state.pair_storage,
            final(self).context.0.tx_processor == old(self).context.0.tx_processor,
            final(self).timers.next_id == old(self).timers.next_id,
            match r {
                Ok(()) => {
                    &&& old(self).oracle_present(user_address@, contract_address@)
                    &&& final(self).storage_view() == if old(self).storage_view()[user_address@].len()
                        == 1 {
                        old(self).storage_view().remove(user_address@)
                    } else {
                        old(self).storage_view().insert(
                            user_address@,
                            old(self).storage_view()[user_address@].remove(contract_address@),
                        )
                    }
                    &&& final(self).timers@ == old(self).timers@.remove(
                        old(self).md_at(user_address@, contract_address@).timer_id,
                    )
                },
                Err(crate::error::Error::OracleNotFound) => *final(self) == *old(self) && !old(
                    self,
                ).oracle_present(user_address@, contract_address@),
                Err(_) => false,
            },
    {
        let ghost this0 = *self;
        let old_md = match self.context.0.state.oracle_storage.get_oracle_by_address(
            user_address.clone(),
            contract_address.clone(),
        ) {
            Ok(md) => md,
            Err(_) => {
                return Err(crate::error::Error::OracleNotFound);
            },
        };
        // Storage keys oracles by their owner, so the stored owner always
        // equals the calling address here.
        if !(old_md.owner == user_address) {
            return Err(
                crate::error::Error::Internal("caller is not the owner of the oracle".to_owned()),
            );
        }
        let prev = match self.context.0.state.oracle_storage.get_timer_id_by_address(
            user_address.clone(),
            contract_address.clone(),
        ) {
            Ok(prev) => prev,
            Err(_) => {
                // The lookup above proved the pair present; this arm is
                // unreachable.
                proof {
                    assert(false);
                }
                return Err(crate::error::Error::OracleNotFound);
            },
        };
        self.timers.cancel(prev);
        match self.context.0.state.oracle_storage.remove_oracle_by_address(
            user_address,
            contract_address,
        ) {
            Ok(()) => {
            },
            Err(e) => {
                // The lookup above proved the pair present; this arm is
                // unreachable.
                proof {
                    assert(false);
                }
                return Err(e);
            },
        }
        proof {
            let u = user_address@;
            let c = contract_address@;
            let prev_tid = this0.md_at(u, c).timer_id;
            let s0 = this0.storage_view();
            let s1 = self.storage_view();
            let t0 = this0.timers@;
            let t2 = self.timers@;
            assert(t2 == t0.remove(prev_tid));
            assert forall|u1: Seq<u8>, c1: Seq<u8>|
                s1.contains_key(u1) && #[trigger] s1[u1].contains_key(c1) implies self.md_at(
                u1,
                c1,
            ).owner == u1 && t2.contains_key(self.md_at(u1, c1).timer_id) && t2[self.md_at(
                u1,
                c1,
            ).timer_id] == self.md_at(u1, c1).timer_interval && self.md_at(u1, c1).timer_id
                < self.timers.next_id by {
                assert(s0.contains_key(u1) && s0[u1].contains_key(c1) && self.md_at(u1, c1)
                    == this0.md_at(u1, c1));
                assert(!(u1 == u && c1 == c));
                assert(this0.md_at(u1, c1).timer_id != prev_tid);
            }
            assert forall|u1: Seq<u8>, c1: Seq<u8>, u2: Seq<u8>, c2: Seq<u8>|
                #![trigger s1[u1].contains_key(c1), s1[u2].contains_key(c2)]
                s1.contains_key(u1) && s1[u1].contains_key(c1) && s1.contains_key(u2)
                    && s1[u2].contains_key(c2) && (u1 != u2 || c1 != c2) implies self.md_at(
                u1,
                c1,
            ).timer_id != self.md_at(u2, c2).timer_id by {
                assert(s0.contains_key(u1) && s0[u1].contains_key(c1) && self.md_at(u1, c1)
                    == this0.md_at(u1, c1));
                assert(s0.contains_key(u2) && s0[u2].contains_key(c2) && self.md_at(u2, c2)
                    == this0.md_at(u2, c2));
            }
            assert forall|tid: u64| #[trigger] t2.contains_key(tid) implies exists|
                u1: Seq<u8>,
                c1: Seq<u8>,
            |
                s1.contains_key(u1) && #[trigger] s1[u1].contains_key(c1) && self.md_at(
                    u1,
                    c1,
                ).timer_id == tid by {
                assert(t0.contains_key(tid) && tid != prev_tid);
                let (u1, c1) = choose|u1: Seq<u8>, c1: Seq<u8>|
                    s0.contains_key(u1) && #[trigger] s0[u1].contains_key(c1) && this0.md_at(
                        u1,
                        c1,
                    ).timer_id == tid;
                assert(!(u1 == u && c1 == c));
                if u1 == u && s0[u].len() == 1 {
                    this0.context.0.state.oracle_storage.lemma_singleton_inner(u, c1, c);
                }
                assert(s1.contains_key(u1) && s1[u1].contains_key(c1) && self.md_at(u1, c1)
                    == this0.md_at(u1, c1));
            }
        }
        Ok(())
    }

    /// Starts the engine over: the owner is recorded, the oracle registry
    /// is cleared and no timer is armed. The pending-transaction registry
    /// is durable and survives.
    pub fn init(&mut self, data: InitData)
        requires
            old(self).wf(),
            data.owner@ != crate::types::anonymous_bytes(),
        ensures
            final(self).wf(),
            final(self).context.0.state.settings@.owner == data.owner@,
            final(self).storage_view() =~= Map::<
                Seq<u8>,
                Map<Seq<u8>, crate::state::oracle_storage::StorableOracleMetadataView>,
            >::empty(),
            final(self).timers@ =~= Map::<u64, u64>::empty(),
            final(self).context.0.tx_processor == old(self).context.0.tx_processor,
    {
        let settings = crate::state::settings::Settings::new(
            data.owner,
            crate::types::Principal::management_canister(),
        );
        self.context.0.state.reset(settings);
        self.timers = TimerScheduler::new();
    }

    /// The principal that administers the engine.
    pub fn owner(&self) -> (r: crate::types::Principal)
        ensures
            r@ == self.context.0.state.settings@.owner,
    {
        self.context.0.state.owner()
    }

    /// Ok exactly when `caller` is the recorded owner.
    pub fn check_owner(&self, caller: &crate::types::Principal) -> (r: Result<
        (),
        crate::error::Error,
    >)
        ensures
            match r {
                Ok(()) => caller@ == self.context.0.state.settings@.owner,
                Err(crate::error::Error::Internal(m)) => caller@
                    != self.context.0.state.settings@.owner && m@ == "caller is not the owner"@,
                Err(_) => false,
            },
    {
        let owner = self.context.0.state.owner();
        if !(*caller == owner) {
            return Err(crate::error::Error::Internal("caller is not the owner".to_owned()));
        }
        Ok(())
    }

    /// Hands the engine to a new owner; only the current owner may do so,
    /// and never to the anonymous principal.
    pub fn set_owner(&mut self, caller: crate::types::Principal, owner: crate::types::Principal)
        -> (r: Result<(), crate::error::Error>)
        requires
            old(self).wf(),
        ensures
            final(self).wf(),
            match r {
                Ok(()) => owner@ != crate::types::anonymous_bytes() && caller@
                    == old(self).context.0.state.settings@.owner
                    && final(self).context.0.state.settings@.owner == owner@
                    && final(self).storage_view() == old(self).storage_view()
                    && final(self).timers == old(self).timers,
                Err(crate::error::Error::Internal(m)) => *final(self) == *old(self) && ((owner@
                    == crate::types::anonymous_bytes() && m@ == "Principal is anonymous"@) || (
                owner@ != crate::types::anonymous_bytes() && caller@
                    != old(self).context.0.state.settings@.owner && m@
                    == "caller is not the owner"@)),
                Err(_) => false,
            },
    {
        match check_anonymous_principal(&owner) {
            Ok(()) => {
            },
            Err(e) => {
                return Err(e);
            },
        }
        match self.check_owner(&caller) {
            Ok(()) => {
            },
            Err(e) => {
                return Err(e);
            },
        }
        self.context.0.state.set_owner(owner);
        Ok(())
    }

    /// Every oracle of every owner.
    pub fn get_all_oracles(&self) -> (r: Vec<
        (H160, Vec<(H160, crate::state::oracle_storage::OracleMetadata)>),
    >)
        requires
            self.wf(),
        ensures
            r@.len() == self.storage_view().len(),
            forall|t: int|
                0 <= t < r@.len() ==> self.storage_view().contains_key((#[trigger] r@[t]).0@)
                    && crate::state::oracle_storage::lists_user_map(
                    r@[t].1@,
                    self.storage_view()[r@[t].0@],
                ),
            forall|t: int, u: int| 0 <= t < u < r@.len() ==> r@[t].0@ != r@[u].0@,
    {
        self.context.0.state.oracle_storage.get_oracles()
    }

    /// The oracles of one owner.
    pub fn get_user_oracles(&self, user_address: H160) -> (r: Result<
        Vec<(H160, crate::state::oracle_storage::OracleMetadata)>,
        crate::error::Error,
    >)
        requires
            self.wf(),
        ensures
            match r {
                Ok(v) => self.storage_view().contains_key(user_address@)
                    && crate::state::oracle_storage::lists_user_map(
                    v@,
                    self.storage_view()[user_address@],
                ),
                Err(crate::error::Error::UserNotFound) => !self.storage_view().contains_key(
                    user_address@,
                ),
                Err(_) => false,
            },
    {
        self.context.0.state.oracle_storage.get_user_oracles(user_address)
    }

    /// The metadata of one oracle.
    pub fn get_oracle_metadata(&self, user_address: H160, contract_address: H160) -> (r: Result<
        crate::state::oracle_storage::OracleMetadata,
        crate::error::Error,
    >)
        requires
            self.wf(),
        ensures
            match r {
                Ok(md) => self.oracle_present(user_address@, contract_address@) && md@
                    == crate::state::oracle_storage::public_view(
                    self.md_at(user_address@, contract_address@),
                ),
                Err(crate::error::Error::UserNotFound) => !self.storage_view().contains_key(
                    user_address@,
                ),
                Err(crate::error::Error::OracleNotFound) => self.storage_view().contains_key(
                    user_address@,
                ) && !self.storage_view()[user_address@].contains_key(contract_address@),
                Err(_) => false,
            },
    {
        self.context.0.state.oracle_storage.get_oracle_by_address(user_address, contract_address)
    }

    /// Routes an incoming HTTP request: only POST is served, and a POST is
    /// answered with an upgrade to an update call.
    pub fn http_request(&self, req: &crate::http::HttpRequest) -> (r: crate::http::HttpResponse)
        ensures
            req.method@ == "POST"@ ==> r.status_code == 204 && r.upgrade == Some(true)
                && r.body@.len() == 0,
            req.method@ != "POST"@ ==> r.status_code == 400 && r.upgrade is None,
    {
        let post = "POST".to_owned();
        if !(req.method == post) {
            return crate::http::HttpResponse::error(400, "Method not allowed".to_owned());
        }
        crate::http::HttpResponse::new(204, Vec::new(), Vec::new(), Some(true))
    }
}

/// Law: an oracle is stored under its owner's address, so whoever reaches
/// a stored oracle by key is its owner; together with the update and
/// delete contracts — which leave the engine unchanged whenever the pair
/// is absent — a caller that is not the stored owner can never mutate
/// another owner's oracle.
pub proof fn lemma_stored_owner_is_key(engine: Oracular, u: Seq<u8>, c: Seq<u8>)
    requires
        engine.wf(),
        engine.oracle_present(u, c),
    ensures
        engine.md_at(u, c).owner == u,
{
}

/// Law: every stored oracle's handle refers to a currently armed timer,
/// and that timer is its alone — there are never two live timers for one
/// (owner, contract) key, and after an update re-arms the pair the old
/// handle is gone (the update contract removes it) while exactly this one
/// remains.
pub proof fn lemma_one_timer_per_oracle(engine: Oracular, u: Seq<u8>, c: Seq<u8>)
    requires
        engine.wf(),
        engine.oracle_present(u, c),
    ensures
        engine.timers@.contains_key(engine.md_at(u, c).timer_id),
        engine.timers@[engine.md_at(u, c).timer_id] == engine.md_at(u, c).timer_interval,
        forall|u2: Seq<u8>, c2: Seq<u8>|
            engine.storage_view().contains_key(u2) && #[trigger] engine.storage_view()[
                u2
            ].contains_key(c2) && (u2 != u || c2 != c) ==> engine.md_at(u2, c2).timer_id
                != engine.md_at(u, c).timer_id,
{
    assert forall|u2: Seq<u8>, c2: Seq<u8>|
        engine.storage_view().contains_key(u2) && #[trigger] engine.storage_view()[
            u2
        ].contains_key(c2) && (u2 != u || c2 != c) implies engine.md_at(u2, c2).timer_id
        != engine.md_at(u, c).timer_id by {
        assert(engine.storage_view()[u].contains_key(c));
    }
}

/// Law: at most one oracle exists per (owner, contract) pair — the
/// registry is a map — and creating the same pair a second time replaces
/// the stored record without duplicating it: the domains are unchanged and
/// the value is the newer record.
pub proof fn lemma_create_replaces(
    s: Map<Seq<u8>, Map<Seq<u8>, crate::state::oracle_storage::StorableOracleMetadataView>>,
    u: Seq<u8>,
    c: Seq<u8>,
    md1: crate::state::oracle_storage::StorableOracleMetadataView,
    md2: crate::state::oracle_storage::StorableOracleMetadataView,
)
    ensures
        ({
            let s1 = s.insert(
                u,
                (if s.contains_key(u) {
                    s[u]
                } else {
                    Map::empty()
                }).insert(c, md1),
            );
            let s2 = s1.insert(
                u,
                (if s1.contains_key(u) {
                    s1[u]
                } else {
                    Map::empty()
                }).insert(c, md2),
            );
            s2.dom() =~= s1.dom() && s2[u].dom() =~= s1[u].dom() && s2[u][c] == md2
        }),
{
}

/// What `ethers_core` recovers from a signed message: the signer address,
/// a function of the message and signature text alone, or nothing when the
/// signature does not parse or recovery fails.
pub uninterp spec fn recovered_signer(message: Seq<char>, signature: Seq<char>) -> Option<Seq<u8>>;

/// Relies on `ethers_core::types::Signature`: `from_str` parses the
/// `0x`-prefixed 65-byte signature text and `recover` yields the 20-byte
/// address that signed the message.
#[verifier::external_body]
fn recover_signature_address(message: &str, signature: &str) -> (r: Option<Vec<u8>>)
    ensures
        match r {
            Some(b) => recovered_signer(message@, signature@) == Some(b@) && b@.len() == 20,
            None => recovered_signer(message@, signature@) is None,
        },
{
    let parsed = match ethers_core::types::Signature::from_str(signature) {
        Ok(parsed) => parsed,
        Err(_) => {
            return None;
        },
    };
    match parsed.recover(message) {
        Ok(address) => Some(address.as_bytes().to_vec()),
        Err(_) => None,
    }
}

impl Oracular {
    /// Recovers the address that signed `message`, as users authenticate
    /// their HTTP commands.
    pub fn recover_pubkey(message: String, signature: String) -> (r: Result<
        H160,
        crate::error::Error,
    >)
        ensures
            match r {
                Ok(a) => recovered_signer(message@, signature@) == Some(a@) && a.wf(),
                Err(crate::error::Error::Internal(m)) => recovered_signer(message@, signature@)
                    is None && m@ == "failed to recover public key"@,
                Err(_) => false,
            },
    {
        match recover_signature_address(message.as_str(), signature.as_str()) {
            Some(bytes) => Ok(H160 { bytes }),
            None => Err(crate::error::Error::Internal("failed to recover public key".to_owned())),
        }
    }
}

/// The outbound request one scheduler tick makes for its origin; the
/// transport that performs it is the runtime's.
#[derive(Debug)]
pub enum TickRequest {
    /// A read-only chain call for the price.
    EvmCall { hostname: String, to: H160, data: Vec<u8> },
    /// A GET of the price URL; the path selects the price in the reply.
    HttpGet { url: String, json_path: String },
}

/// What one tick of an oracle's timer sends out to fetch its price.
pub fn plan_tick(origin: &Origin) -> (r: TickRequest)
    ensures
        match origin {
            Origin::Evm(o) => r matches TickRequest::EvmCall { hostname, to, data } && hostname@
                == o.provider@.hostname && to@ == o.target_address@ && data@
                == crate::provider::read_call_data(o.method@),
            Origin::Http(o) => r matches TickRequest::HttpGet { url, json_path } && url@ == o.url@
                && json_path@ == o.json_path@,
        },
{
    match origin {
        Origin::Evm(o) => TickRequest::EvmCall {
            hostname: o.provider.hostname.clone(),
            to: o.target_address.clone(),
            data: crate::provider::encode_read_call(o.method.as_str()),
        },
        Origin::Http(o) => TickRequest::HttpGet {
            url: o.url.clone(),
            json_path: o.json_path.clone(),
        },
    }
}

/// The message and signature of a signed HTTP command, read from its JSON
/// body: both must be string members of the top-level object.
pub fn auth_message_from_body(body: &[u8]) -> (r: Result<(String, String), crate::error::Error>)
    ensures
        match r {
            Ok((m, s)) => {
                &&& crate::parser::json_document(body@) matches Some(doc)
                &&& crate::parser::json_child(doc, "message"@) matches Some(mv)
                    && crate::parser::json_text(mv) == Some(m@)
                &&& crate::parser::json_child(doc, "signature"@) matches Some(sv)
                    && crate::parser::json_text(sv) == Some(s@)
            },
            Err(crate::error::Error::Http(msg)) => {
                ||| (crate::parser::json_document(body@) is None && msg@ == "serde_json err"@)
                ||| (crate::parser::json_document(body@) matches Some(doc) && msg@
                    == "message is missing"@ && (crate::parser::json_child(doc, "message"@) is None
                    || (crate::parser::json_child(doc, "message"@) matches Some(mv)
                    && crate::parser::json_text(mv) is None)))
                ||| (crate::parser::json_document(body@) matches Some(doc) && msg@
                    == "signature is missing"@ && (crate::parser::json_child(doc, "signature"@)
                    is None || (crate::parser::json_child(doc, "signature"@) matches Some(sv)
                    && crate::parser::json_text(sv) is None)))
            },
            Err(_) => false,
        },
{
    let doc = match crate::parser::json_from_slice(body) {
        Some(doc) => doc,
        None => {
            return Err(crate::error::Error::Http("serde_json err".to_owned()));
        },
    };
    let message = match crate::parser::value_get(&doc, "message") {
        Some(mv) => match crate::parser::value_as_str(mv) {
            Some(m) => m.to_owned(),
            None => {
                return Err(crate::error::Error::Http("message is missing".to_owned()));
            },
        },
        None => {
            return Err(crate::error::Error::Http("message is missing".to_owned()));
        },
    };
    let signature = match crate::parser::value_get(&doc, "signature") {
        Some(sv) => match crate::parser::value_as_str(sv) {
            Some(s) => s.to_owned(),
            None => {
                return Err(crate::error::Error::Http("signature is missing".to_owned()));
            },
        },
        None => {
            return Err(crate::error::Error::Http("signature is missing".to_owned()));
        },
    };
    Ok((message, signature))
}

} // verus!
