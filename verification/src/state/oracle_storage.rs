//! The oracle registry: a durable map from owner address to that owner's
//! oracles, each keyed by destination contract address.
//!
//! The registry is held as association lists with unique keys and is viewed
//! as a map of maps; every operation states exactly how that view changes.

use vstd::prelude::*;

use crate::assoc::{
    assoc_view, keys_unique, lemma_assoc_at, lemma_assoc_contains, lemma_assoc_len,
    lemma_assoc_push, lemma_assoc_remove,
};
use crate::canister::{EvmDestination, EvmDestinationView, Origin, OriginView};
use crate::error::Error;
use crate::types::{H160, TimerId};

verus! {

/// Oracle metadata as persisted, the armed timer handle included.
#[derive(Debug)]
pub struct StorableOracleMetadata {
    /// The address that created the oracle; only it may mutate or delete.
    pub owner: H160,
    /// Where the price is read from.
    pub origin: Origin,
    /// Seconds between two fires of the oracle's timer.
    pub timer_interval: u64,
    /// Handle of the currently armed recurring timer.
    pub timer_id: TimerId,
    /// Where the price is written to.
    pub evm: EvmDestination,
}

pub ghost struct StorableOracleMetadataView {
    pub owner: Seq<u8>,
    pub origin: OriginView,
    pub timer_interval: u64,
    pub timer_id: u64,
    pub evm: EvmDestinationView,
}

impl View for StorableOracleMetadata {
    type V = StorableOracleMetadataView;

    open spec fn view(&self) -> StorableOracleMetadataView {
        StorableOracleMetadataView {
            owner: self.owner@,
            origin: self.origin@,
            timer_interval: self.timer_interval,
            timer_id: self.timer_id.0,
            evm: self.evm@,
        }
    }
}

impl Clone for StorableOracleMetadata {
    fn clone(&self) -> (r: Self)
        ensures
            r@ == self@,
    {
        StorableOracleMetadata {
            owner: self.owner.clone(),
            origin: self.origin.clone(),
            timer_interval: self.timer_interval,
            timer_id: self.timer_id,
            evm: self.evm.clone(),
        }
    }
}

/// Oracle metadata as returned to callers, without the timer handle.
#[derive(Debug)]
pub struct OracleMetadata {
    /// The address that created the oracle.
    pub owner: H160,
    /// Where the price is read from.
    pub origin: Origin,
    /// Seconds between two fires of the oracle's timer.
    pub timer_interval: u64,
    /// Where the price is written to.
    pub evm: EvmDestination,
}

pub ghost struct OracleMetadataView {
    pub owner: Seq<u8>,
    pub origin: OriginView,
    pub timer_interval: u64,
    pub evm: EvmDestinationView,
}

impl View for OracleMetadata {
    type V = OracleMetadataView;

    open spec fn view(&self) -> OracleMetadataView {
        OracleMetadataView {
            owner: self.owner@,
            origin: self.origin@,
            timer_interval: self.timer_interval,
            evm: self.evm@,
        }
    }
}

impl Clone for OracleMetadata {
    fn clone(&self) -> (r: Self)
        ensures
            r@ == self@,
    {
        OracleMetadata {
            owner: self.owner.clone(),
            origin: self.origin.clone(),
            timer_interval: self.timer_interval,
            evm: self.evm.clone(),
        }
    }
}

/// What a stored record looks like to callers.
pub open spec fn public_view(m: StorableOracleMetadataView) -> OracleMetadataView {
    OracleMetadataView {
        owner: m.owner,
        origin: m.origin,
        timer_interval: m.timer_interval,
        evm: m.evm,
    }
}

impl OracleMetadata {
    /// Drops the timer handle from a persisted record.
    pub fn from_storable(storable: StorableOracleMetadata) -> (r: Self)
        ensures
            r@ == public_view(storable@),
    {
        OracleMetadata {
            owner: storable.owner,
            origin: storable.origin,
            timer_interval: storable.timer_interval,
            evm: storable.evm,
        }
    }
}

/// A partial update of an oracle: unset fields keep their stored value.
#[derive(Debug)]
pub struct UpdateOracleMetadata {
    pub origin: Option<Origin>,
    pub evm: Option<EvmDestination>,
    pub timestamp: Option<u64>,
}

pub ghost struct UpdateOracleMetadataView {
    pub origin: Option<OriginView>,
    pub evm: Option<EvmDestinationView>,
    pub timestamp: Option<u64>,
}

impl View for UpdateOracleMetadata {
    type V = UpdateOracleMetadataView;

    open spec fn view(&self) -> UpdateOracleMetadataView {
        UpdateOracleMetadataView {
            origin: match self.origin {
                Some(o) => Some(o@),
                None => None,
            },
            evm: match self.evm {
                Some(e) => Some(e@),
                None => None,
            },
            timestamp: self.timestamp,
        }
    }
}

impl UpdateOracleMetadata {
    /// True when the patch sets nothing, which makes an update a no-op and
    /// is rejected.
    pub fn is_none(&self) -> (r: bool)
        ensures
            r == (self@.origin is None && self@.evm is None && self@.timestamp is None),
    {
        self.origin.is_none() && self.evm.is_none() && self.timestamp.is_none()
    }
}

/// The stored record after a partial update: patched fields replaced, the
/// owner kept, and the timer handle renewed when a new one is given.
pub open spec fn merged_metadata(
    old_md: StorableOracleMetadataView,
    update: UpdateOracleMetadataView,
    new_timer_id: Option<TimerId>,
) -> StorableOracleMetadataView {
    StorableOracleMetadataView {
        owner: old_md.owner,
        origin: match update.origin {
            Some(o) => o,
            None => old_md.origin,
        },
        timer_interval: match update.timestamp {
            Some(t) => t,
            None => old_md.timer_interval,
        },
        timer_id: match new_timer_id {
            Some(t) => t.0,
            None => old_md.timer_id,
        },
        evm: match update.evm {
            Some(e) => e,
            None => old_md.evm,
        },
    }
}

/// One user's oracles, keyed by destination contract address.
#[derive(Debug)]
pub struct MetadataCollection(pub Vec<(H160, StorableOracleMetadata)>);

impl View for MetadataCollection {
    type V = Map<Seq<u8>, StorableOracleMetadataView>;

    open spec fn view(&self) -> Map<Seq<u8>, StorableOracleMetadataView> {
        assoc_view(self.0@)
    }
}

impl MetadataCollection {
    /// Contract keys are unique and every record carries `owner`.
    pub open spec fn wf(&self, owner: Seq<u8>) -> bool {
        &&& keys_unique(self.0@)
        &&& forall|j: int| 0 <= j < self.0@.len() ==> (#[trigger] self.0@[j]).1.owner@ == owner
    }

    /// Index of the record for `contract`, if any.
    fn find(&self, contract: &H160) -> (r: Option<usize>)
        ensures
            match r {
                Some(j) => j < self.0@.len() && self.0@[j as int].0@ == contract@,
                None => forall|j: int| 0 <= j < self.0@.len() ==> self.0@[j].0@ != contract@,
            },
    {
        let mut j: usize = 0;
        while j < self.0.len()
            invariant
                j <= self.0@.len(),
                forall|t: int| 0 <= t < j ==> self.0@[t].0@ != contract@,
            decreases self.0@.len() - j,
        {
            if self.0[j].0 == *contract {
                return Some(j);
            }
            j = j + 1;
        }
        None
    }
}

/// A listing of one user's oracles: one pair per stored record, with
/// pairwise distinct contract keys.
pub open spec fn lists_user_map(
    v: Seq<(H160, OracleMetadata)>,
    m: Map<Seq<u8>, StorableOracleMetadataView>,
) -> bool {
    &&& v.len() == m.len()
    &&& forall|t: int|
        0 <= t < v.len() ==> m.contains_key((#[trigger] v[t]).0@) && v[t].1@ == public_view(
            m[v[t].0@],
        )
    &&& forall|t: int, u: int| 0 <= t < u < v.len() ==> v[t].0@ != v[u].0@
}

/// Lists a collection as (contract, metadata) pairs.
fn list_collection(coll: &MetadataCollection) -> (v: Vec<(H160, OracleMetadata)>)
    requires
        keys_unique(coll.0@),
    ensures
        lists_user_map(v@, coll@),
{
    let mut out: Vec<(H160, OracleMetadata)> = Vec::new();
    let mut j: usize = 0;
    while j < coll.0.len()
        invariant
            j <= coll.0@.len(),
            out@.len() == j,
            forall|t: int|
                0 <= t < j ==> (#[trigger] out@[t]).0@ == coll.0@[t].0@ && out@[t].1@
                    == public_view(coll.0@[t].1@),
        decreases coll.0@.len() - j,
    {
        let e = &coll.0[j];
        out.push((e.0.clone(), OracleMetadata::from_storable(e.1.clone())));
        j = j + 1;
    }
    proof {
        lemma_assoc_len(coll.0@);
        assert forall|t: int| 0 <= t < out@.len() implies coll@.contains_key(
            (#[trigger] out@[t]).0@,
        ) && out@[t].1@ == public_view(coll@[out@[t].0@]) by {
            lemma_assoc_at(coll.0@, t);
        }
    }
    out
}

/// The oracle registry, keyed by owner address.
#[derive(Debug)]
pub struct OracleStorage {
    pub entries: Vec<(H160, MetadataCollection)>,
}

impl View for OracleStorage {
    type V = Map<Seq<u8>, Map<Seq<u8>, StorableOracleMetadataView>>;

    open spec fn view(&self) -> Map<Seq<u8>, Map<Seq<u8>, StorableOracleMetadataView>> {
        assoc_view(self.entries@)
    }
}

impl OracleStorage {
    /// Owner keys are unique, no owner's collection is empty, and each
    /// record names its owner.
    pub open spec fn wf(&self) -> bool {
        &&& keys_unique(self.entries@)
        &&& forall|i: int|
            0 <= i < self.entries@.len() ==> (#[trigger] self.entries@[i]).1.0@.len() > 0
        &&& forall|i: int|
            0 <= i < self.entries@.len() ==> (#[trigger] self.entries@[i]).1.wf(
                self.entries@[i].0@,
            )
    }

    /// An empty registry.
    pub fn new() -> (r: Self)
        ensures
            r.wf(),
            r@ == Map::<Seq<u8>, Map<Seq<u8>, StorableOracleMetadataView>>::empty(),
    {
        OracleStorage { entries: Vec::new() }
    }

    /// Index of the entry of `user`, if any.
    fn find_user(&self, user: &H160) -> (r: Option<usize>)
        ensures
            match r {
                Some(i) => i < self.entries@.len() && self.entries@[i as int].0@ == user@,
                None => forall|i: int| 0 <= i < self.entries@.len() ==> self.entries@[i].0@
                    != user@,
            },
    {
        let mut i: usize = 0;
        while i < self.entries.len()
            invariant
                i <= self.entries@.len(),
                forall|t: int| 0 <= t < i ==> self.entries@[t].0@ != user@,
            decreases self.entries@.len() - i,
        {
            if self.entries[i].0 == *user {
                return Some(i);
            }
            i = i + 1;
        }
        None
    }

    /// The map of `user`'s oracles after an insertion.
    pub open spec fn user_map_after_add(
        self,
        user: Seq<u8>,
        contract: Seq<u8>,
        md: StorableOracleMetadataView,
    ) -> Map<Seq<u8>, StorableOracleMetadataView> {
        (if self@.contains_key(user) {
            self@[user]
        } else {
            Map::empty()
        }).insert(contract, md)
    }

    /// Inserts an oracle for `(user_address, evm.contract)`, replacing any
    /// oracle already stored under that pair.
    pub fn add_oracle(
        &mut self,
        user_address: H160,
        origin: Origin,
        timestamp: u64,
        timer_id: TimerId,
        evm: EvmDestination,
    )
        requires
            old(self).wf(),
        ensures
            final(self).wf(),
            final(self)@ == old(self)@.insert(
                user_address@,
                old(self).user_map_after_add(
                    user_address@,
                    evm.contract@,
                    StorableOracleMetadataView {
                        owner: user_address@,
                        origin: origin@,
                        timer_interval: timestamp,
                        timer_id: timer_id.0,
                        evm: evm@,
                    },
                ),
            ),
    {
        let ghost md_view = StorableOracleMetadataView {
            owner: user_address@,
            origin: origin@,
            timer_interval: timestamp,
            timer_id: timer_id.0,
            evm: evm@,
        };
        let metadata = StorableOracleMetadata {
            owner: user_address.clone(),
            origin,
            timer_interval: timestamp,
            timer_id,
            evm: evm.clone(),
        };
        match self.find_user(&user_address) {
            Some(i) => {
                proof {
                    lemma_assoc_at(self.entries@, i as int);
                    lemma_assoc_remove(self.entries@, i as int);
                }
                let (user_key, mut coll) = self.entries.remove(i);
                let ghost inner0 = coll.0@;
                match coll.find(&evm.contract) {
                    Some(j) => {
                        proof {
                            lemma_assoc_remove(coll.0@, j as int);
                        }
                        coll.0.remove(j);
                        let ghost inner1 = coll.0@;
                        coll.0.push((evm.contract.clone(), metadata));
                        proof {
                            assert(coll.0@.drop_last() =~= inner1);
                            lemma_assoc_push(coll.0@);
                            assert(coll@ =~= assoc_view(inner0).insert(evm.contract@, md_view));
                        }
                    },
                    None => {
                        coll.0.push((evm.contract.clone(), metadata));
                        proof {
                            assert(coll.0@.drop_last() =~= inner0);
                            lemma_assoc_push(coll.0@);
                        }
                    },
                }
                let ghost outer1 = self.entries@;
                let ghost coll_view = coll@;
                self.entries.push((user_key, coll));
                proof {
                    let outer0 = old(self).entries@;
                    let fin = self.entries@;
                    assert(fin.drop_last() =~= outer1);
                    assert forall|t: int| 0 <= t < fin.len() - 1 implies fin[t].0@
                        != fin.last().0@ by {
                        let st = if t < i {
                            t
                        } else {
                            t + 1
                        };
                        assert(outer1[t] == outer0[st]);
                    }
                    lemma_assoc_push(fin);
                    assert(fin.last().0@ == user_address@);
                    assert(fin.last().1@ == coll_view);
                    assert(inner0 == outer0[i as int].1.0@);
                    assert(assoc_view(inner0) == old(self)@[user_address@]);
                    assert(coll_view == old(self)@[user_address@].insert(evm.contract@, md_view));
                    assert(assoc_view(fin) == old(self)@.remove(user_address@).insert(
                        user_address@,
                        coll_view,
                    ));
                    assert(assoc_view(fin) =~= old(self)@.insert(
                        user_address@,
                        old(self).user_map_after_add(user_address@, evm.contract@, md_view),
                    ));
                }
            },
            None => {
                proof {
                    lemma_assoc_contains(self.entries@, user_address@);
                }
                let mut coll = MetadataCollection(Vec::new());
                coll.0.push((evm.contract.clone(), metadata));
                proof {
                    assert(coll.0@.drop_last() =~= Seq::<(H160, StorableOracleMetadata)>::empty());
                    assert(assoc_view(Seq::<(H160, StorableOracleMetadata)>::empty())
                        == Map::<Seq<u8>, StorableOracleMetadataView>::empty());
                    assert(coll@ =~= Map::<Seq<u8>, StorableOracleMetadataView>::empty().insert(
                        evm.contract@,
                        md_view,
                    ));
                }
                let ghost coll_view = coll@;
                let ghost outer0 = self.entries@;
                self.entries.push((user_address, coll));
                proof {
                    let fin = self.entries@;
                    assert(fin.drop_last() =~= outer0);
                    lemma_assoc_push(fin);
                    assert(fin.last().1@ == coll_view);
                    assert(assoc_view(fin) =~= old(self)@.insert(
                        user_address@,
                        old(self).user_map_after_add(user_address@, evm.contract@, md_view),
                    ));
                }
            },
        }
    }

    /// The metadata stored for `(user_address, evm_contract_address)`.
    /// `UserNotFound` when the user owns nothing, `OracleNotFound` when the
    /// user owns oracles but none at this contract.
    pub fn get_oracle_by_address(&self, user_address: H160, evm_contract_address: H160) -> (r:
        Result<OracleMetadata, Error>)
        requires
            self.wf(),
        ensures
            match r {
                Ok(md) => self@.contains_key(user_address@) && self@[user_address@].contains_key(
                    evm_contract_address@,
                ) && md@ == public_view(self@[user_address@][evm_contract_address@]),
                Err(Error::UserNotFound) => !self@.contains_key(user_address@),
                Err(Error::OracleNotFound) => self@.contains_key(user_address@)
                    && !self@[user_address@].contains_key(evm_contract_address@),
                Err(_) => false,
            },
    {
        match self.find_user(&user_address) {
            None => {
                proof {
                    lemma_assoc_contains(self.entries@, user_address@);
                }
                Err(Error::UserNotFound)
            },
            Some(i) => {
                proof {
                    lemma_assoc_at(self.entries@, i as int);
                }
                let coll = &self.entries[i].1;
                match coll.find(&evm_contract_address) {
                    None => {
                        proof {
                            lemma_assoc_contains(coll.0@, evm_contract_address@);
                        }
                        Err(Error::OracleNotFound)
                    },
                    Some(j) => {
                        proof {
                            lemma_assoc_at(coll.0@, j as int);
                        }
                        Ok(OracleMetadata::from_storable(self.entries[i].1.0[j].1.clone()))
                    },
                }
            },
        }
    }

    /// The handle of the timer currently armed for the oracle at
    /// `(user_address, evm_contract_address)`.
    pub fn get_timer_id_by_address(&self, user_address: H160, evm_contract_address: H160) -> (r:
        Result<TimerId, Error>)
        requires
            self.wf(),
        ensures
            match r {
                Ok(t) => self@.contains_key(user_address@) && self@[user_address@].contains_key(
                    evm_contract_address@,
                ) && t.0 == self@[user_address@][evm_contract_address@].timer_id,
                Err(Error::UserNotFound) => !self@.contains_key(user_address@),
                Err(Error::OracleNotFound) => self@.contains_key(user_address@)
                    && !self@[user_address@].contains_key(evm_contract_address@),
                Err(_) => false,
            },
    {
        match self.find_user(&user_address) {
            None => {
                proof {
                    lemma_assoc_contains(self.entries@, user_address@);
                }
                Err(Error::UserNotFound)
            },
            Some(i) => {
                proof {
                    lemma_assoc_at(self.entries@, i as int);
                }
                let coll = &self.entries[i].1;
                match coll.find(&evm_contract_address) {
                    None => {
                        proof {
                            lemma_assoc_contains(coll.0@, evm_contract_address@);
                        }
                        Err(Error::OracleNotFound)
                    },
                    Some(j) => {
                        proof {
                            lemma_assoc_at(coll.0@, j as int);
                        }
                        Ok(self.entries[i].1.0[j].1.timer_id)
                    },
                }
            },
        }
    }

    /// All oracles of `user_address`, as (contract, metadata) pairs.
    pub fn get_user_oracles(&self, user_address: H160) -> (r: Result<
        Vec<(H160, OracleMetadata)>,
        Error,
    >)
        requires
            self.wf(),
        ensures
            match r {
                Ok(v) => self@.contains_key(user_address@) && lists_user_map(
                    v@,
                    self@[user_address@],
                ),
                Err(Error::UserNotFound) => !self@.contains_key(user_address@),
                Err(_) => false,
            },
    {
        match self.find_user(&user_address) {
            None => {
                proof {
                    lemma_assoc_contains(self.entries@, user_address@);
                }
                Err(Error::UserNotFound)
            },
            Some(i) => {
                proof {
                    lemma_assoc_at(self.entries@, i as int);
                }
                Ok(list_collection(&self.entries[i].1))
            },
        }
    }

    /// Every user's oracles: one pair per owner, with pairwise distinct
    /// owner keys.
    pub fn get_oracles(&self) -> (r: Vec<(H160, Vec<(H160, OracleMetadata)>)>)
        requires
            self.wf(),
        ensures
            r@.len() == self@.len(),
            forall|t: int|
                0 <= t < r@.len() ==> self@.contains_key((#[trigger] r@[t]).0@) && lists_user_map(
                    r@[t].1@,
                    self@[r@[t].0@],
                ),
            forall|t: int, u: int| 0 <= t < u < r@.len() ==> r@[t].0@ != r@[u].0@,
    {
        let mut out: Vec<(H160, Vec<(H160, OracleMetadata)>)> = Vec::new();
        let mut i: usize = 0;
        while i < self.entries.len()
            invariant
                self.wf(),
                i <= self.entries@.len(),
                out@.len() == i,
                forall|t: int|
                    0 <= t < i ==> (#[trigger] out@[t]).0@ == self.entries@[t].0@ && lists_user_map(
                        out@[t].1@,
                        self.entries@[t].1@,
                    ),
            decreases self.entries@.len() - i,
        {
            let e = &self.entries[i];
            let listed = list_collection(&e.1);
            out.push((e.0.clone(), listed));
            i = i + 1;
        }
        proof {
            lemma_assoc_len(self.entries@);
            assert forall|t: int| 0 <= t < out@.len() implies self@.contains_key(
                (#[trigger] out@[t]).0@,
            ) && lists_user_map(out@[t].1@, self@[out@[t].0@]) by {
                lemma_assoc_at(self.entries@, t);
            }
        }
        out
    }

    /// Removes the oracle at `(user_address, evm_contract_address)`; the
    /// user's whole entry goes when it was their last oracle.
    pub fn remove_oracle_by_address(&mut self, user_address: H160, evm_contract_address: H160) -> (r:
        Result<(), Error>)
        requires
            old(self).wf(),
        ensures
            final(self).wf(),
            match r {
                Ok(()) => old(self)@.contains_key(user_address@)
                    && old(self)@[user_address@].contains_key(evm_contract_address@) && final(self)@ == if old(self)@[user_address@].len() == 1 {
                    old(self)@.remove(user_address@)
                } else {
                    old(self)@.insert(
                        user_address@,
                        old(self)@[user_address@].remove(evm_contract_address@),
                    )
                },
                Err(Error::UserNotFound) => !old(self)@.contains_key(user_address@) && final(self)@
                    == old(self)@,
                Err(Error::OracleNotFound) => old(self)@.contains_key(user_address@) && !old(self)@[user_address@].contains_key(evm_contract_address@) && final(self)@ == old(self)@,
                Err(_) => false,
            },
    {
        match self.find_user(&user_address) {
            None => {
                proof {
                    lemma_assoc_contains(self.entries@, user_address@);
                }
                Err(Error::UserNotFound)
            },
            Some(i) => {
                proof {
                    lemma_assoc_at(self.entries@, i as int);
                    lemma_assoc_remove(self.entries@, i as int);
                    lemma_assoc_len(self.entries@[i as int].1.0@);
                }
                let (user_key, mut coll) = self.entries.remove(i);
                let ghost inner0 = coll.0@;
                proof {
                    assert(inner0 == old(self).entries@[i as int].1.0@);
                    assert(assoc_view(inner0) == old(self)@[user_address@]);
                }
                match coll.find(&evm_contract_address) {
                    None => {
                        proof {
                            lemma_assoc_contains(coll.0@, evm_contract_address@);
                        }
                        let ghost outer1 = self.entries@;
                        self.entries.push((user_key, coll));
                        proof {
                            let outer0 = old(self).entries@;
                            let fin = self.entries@;
                            assert(fin.drop_last() =~= outer1);
                            assert forall|t: int| 0 <= t < fin.len() - 1 implies fin[t].0@
                                != fin.last().0@ by {
                                let st = if t < i {
                                    t
                                } else {
                                    t + 1
                                };
                                assert(outer1[t] == outer0[st]);
                            }
                            lemma_assoc_push(fin);
                            assert(assoc_view(fin) =~= old(self)@);
                        }
                        Err(Error::OracleNotFound)
                    },
                    Some(j) => {
                        proof {
                            lemma_assoc_at(coll.0@, j as int);
                            lemma_assoc_remove(coll.0@, j as int);
                        }
                        coll.0.remove(j);
                        if coll.0.is_empty() {
                            proof {
                                assert(assoc_view(self.entries@) =~= old(self)@.remove(
                                    user_address@,
                                ));
                                assert(old(self)@[user_address@].len() == 1);
                            }
                            Ok(())
                        } else {
                            let ghost outer1 = self.entries@;
                            self.entries.push((user_key, coll));
                            proof {
                                let outer0 = old(self).entries@;
                                let fin = self.entries@;
                                assert(fin.drop_last() =~= outer1);
                                assert forall|t: int| 0 <= t < fin.len() - 1 implies fin[t].0@
                                    != fin.last().0@ by {
                                    let st = if t < i {
                                        t
                                    } else {
                                        t + 1
                                    };
                                    assert(outer1[t] == outer0[st]);
                                }
                                lemma_assoc_push(fin);
                                assert(old(self)@[user_address@].len() > 1);
                                assert(assoc_view(fin) =~= old(self)@.insert(
                                    user_address@,
                                    old(self)@[user_address@].remove(evm_contract_address@),
                                ));
                            }
                            Ok(())
                        }
                    },
                }
            },
        }
    }

    /// Applies a partial update to the oracle at
    /// `(user_address, evm_contract_address)`, renewing its timer handle
    /// when one is given.
    pub fn update_oracle_metadata(
        &mut self,
        user_address: H160,
        evm_contract_address: H160,
        new_timer_id: Option<TimerId>,
        update_metadata: UpdateOracleMetadata,
    ) -> (r: Result<(), Error>)
        requires
            old(self).wf(),
        ensures
            final(self).wf(),
            match r {
                Ok(()) => old(self)@.contains_key(user_address@)
                    && old(self)@[user_address@].contains_key(evm_contract_address@) && final(self)@ == old(self)@.insert(
                    user_address@,
                    old(self)@[user_address@].insert(
                        evm_contract_address@,
                        merged_metadata(
                            old(self)@[user_address@][evm_contract_address@],
                            update_metadata@,
                            new_timer_id,
                        ),
                    ),
                ),
                Err(Error::UserNotFound) => !old(self)@.contains_key(user_address@) && final(self)@
                    == old(self)@,
                Err(Error::OracleNotFound) => old(self)@.contains_key(user_address@) && !old(self)@[user_address@].contains_key(evm_contract_address@) && final(self)@ == old(self)@,
                Err(_) => false,
            },
    {
        match self.find_user(&user_address) {
            None => {
                proof {
                    lemma_assoc_contains(self.entries@, user_address@);
                }
                Err(Error::UserNotFound)
            },
            Some(i) => {
                proof {
                    lemma_assoc_at(self.entries@, i as int);
                    lemma_assoc_remove(self.entries@, i as int);
                }
                let (user_key, mut coll) = self.entries.remove(i);
                let ghost inner0 = coll.0@;
                let found = coll.find(&evm_contract_address);
                let ghost old_md_view = match found {
                    Some(j) => coll.0@[j as int].1@,
                    None => coll.0@[0].1@,
                };
                let result = match found {
                    None => {
                        proof {
                            lemma_assoc_contains(coll.0@, evm_contract_address@);
                        }
                        Err(Error::OracleNotFound)
                    },
                    Some(j) => {
                        proof {
                            lemma_assoc_at(coll.0@, j as int);
                            lemma_assoc_remove(coll.0@, j as int);
                        }
                        let (contract_key, old_md) = coll.0.remove(j);
                        let merged = StorableOracleMetadata {
                            owner: old_md.owner,
                            origin: match update_metadata.origin {
                                Some(o) => o,
                                None => old_md.origin,
                            },
                            timer_interval: match update_metadata.timestamp {
                                Some(t) => t,
                                None => old_md.timer_interval,
                            },
                            timer_id: match new_timer_id {
                                Some(t) => t,
                                None => old_md.timer_id,
                            },
                            evm: match update_metadata.evm {
                                Some(e) => e,
                                None => old_md.evm,
                            },
                        };
                        let ghost inner1 = coll.0@;
                        coll.0.push((contract_key, merged));
                        proof {
                            assert(coll.0@.drop_last() =~= inner1);
                            lemma_assoc_push(coll.0@);
                            assert(coll@ =~= assoc_view(inner0).insert(
                                evm_contract_address@,
                                merged_metadata(old_md_view, update_metadata@, new_timer_id),
                            ));
                        }
                        Ok(())
                    },
                };
                let ghost outer1 = self.entries@;
                let ghost coll_view = coll@;
                self.entries.push((user_key, coll));
                proof {
                    let outer0 = old(self).entries@;
                    let fin = self.entries@;
                    assert(fin.drop_last() =~= outer1);
                    assert forall|t: int| 0 <= t < fin.len() - 1 implies fin[t].0@
                        != fin.last().0@ by {
                        let st = if t < i {
                            t
                        } else {
                            t + 1
                        };
                        assert(outer1[t] == outer0[st]);
                    }
                    lemma_assoc_push(fin);
                    assert(fin.last().1@ == coll_view);
                    if result is Ok {
                        assert(assoc_view(fin) =~= old(self)@.insert(
                            user_address@,
                            old(self)@[user_address@].insert(
                                evm_contract_address@,
                                merged_metadata(
                                    old(self)@[user_address@][evm_contract_address@],
                                    update_metadata@,
                                    new_timer_id,
                                ),
                            ),
                        ));
                    } else {
                        assert(assoc_view(fin) =~= old(self)@);
                    }
                }
                result
            },
        }
    }

    /// A user's collection denotes a finite map with one entry per stored
    /// record.
    pub proof fn lemma_inner_finite(self, u: Seq<u8>)
        requires
            self.wf(),
            self@.contains_key(u),
        ensures
            self@[u].dom().finite(),
    {
        lemma_assoc_contains(self.entries@, u);
        let i = choose|i: int| 0 <= i < self.entries@.len() && self.entries@[i].0@ == u;
        lemma_assoc_at(self.entries@, i);
        lemma_assoc_len(self.entries@[i].1.0@);
    }

    /// A user whose collection has a single entry stores it under a single
    /// contract key.
    pub proof fn lemma_singleton_inner(self, u: Seq<u8>, c1: Seq<u8>, c2: Seq<u8>)
        requires
            self.wf(),
            self@.contains_key(u),
            self@[u].len() == 1,
            self@[u].contains_key(c1),
            self@[u].contains_key(c2),
        ensures
            c1 == c2,
    {
        self.lemma_inner_finite(u);
        if c1 != c2 {
            let d = self@[u].dom();
            assert(d.remove(c1).contains(c2));
            assert(d.remove(c1).len() == 0);
            d.remove(c1).lemma_len0_is_empty();
        }
    }

    /// Empties the registry.
    pub fn clear(&mut self)
        ensures
            final(self).wf(),
            final(self)@ == Map::<Seq<u8>, Map<Seq<u8>, StorableOracleMetadataView>>::empty(),
    {
        self.entries.clear();
    }
}

impl Default for OracleStorage {
    /// An empty registry.
    fn default() -> (r: Self)
        ensures
            r.wf(),
            r@ == Map::<Seq<u8>, Map<Seq<u8>, StorableOracleMetadataView>>::empty(),
    {
        OracleStorage::new()
    }
}

} // verus!
