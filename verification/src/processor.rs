//! The transaction-lifecycle processor: a durable registry of pending
//! transactions with their callbacks, the classification of an on-chain
//! status query, and the dispatch step that fires each callback at most
//! once.
//!
//! The processor and the scheduler never call each other; they share only
//! this registry. A tick of the processor snapshots the registered hashes,
//! queries each transaction's status, and resolves every hash whose status
//! is terminal, extracting the callback before it is invoked so that no
//! later tick can fire it again.

use vstd::prelude::*;

use crate::assoc::{
    assoc_view, keys_unique, lemma_assoc_at, lemma_assoc_contains, lemma_assoc_len,
    lemma_assoc_push, lemma_assoc_remove,
};
use crate::contract::{PriceFeedCreationCallback, ReserveAddressCallback};
use crate::types::{H160, H256};

verus! {

/// What a mined transaction left behind; the creation flow reads the
/// address of the contract it deployed.
#[derive(Debug)]
pub struct TransactionReceipt {
    /// The hash of the mined transaction.
    pub transaction_hash: H256,
    /// The address of the contract the transaction deployed, if any.
    pub contract_address: Option<H160>,
}

pub ghost struct TransactionReceiptView {
    pub transaction_hash: Seq<u8>,
    pub contract_address: Option<Seq<u8>>,
}

impl View for TransactionReceipt {
    type V = TransactionReceiptView;

    open spec fn view(&self) -> TransactionReceiptView {
        TransactionReceiptView {
            transaction_hash: self.transaction_hash@,
            contract_address: match self.contract_address {
                Some(ref a) => Some(a@),
                None => None,
            },
        }
    }
}

impl Clone for TransactionReceipt {
    fn clone(&self) -> (r: Self)
        ensures
            r@ == self@,
    {
        TransactionReceipt {
            transaction_hash: self.transaction_hash.clone(),
            contract_address: match self.contract_address {
                Some(ref a) => Some(a.clone()),
                None => None,
            },
        }
    }
}

/// The persisted action to run exactly once when a pending transaction
/// reaches a terminal state.
#[derive(Debug)]
pub enum TxCallback {
    PriceFeedCreation(PriceFeedCreationCallback),
    ReserveAddress(ReserveAddressCallback),
}

pub ghost enum TxCallbackView {
    PriceFeedCreation(Seq<char>),
    ReserveAddress(Seq<char>, Seq<u8>),
}

impl View for TxCallback {
    type V = TxCallbackView;

    open spec fn view(&self) -> TxCallbackView {
        match self {
            TxCallback::PriceFeedCreation(c) => TxCallbackView::PriceFeedCreation(c.pair_id@),
            TxCallback::ReserveAddress(c) => TxCallbackView::ReserveAddress(
                c.pair_id@,
                c.address@,
            ),
        }
    }
}

impl Clone for TxCallback {
    fn clone(&self) -> (r: Self)
        ensures
            r@ == self@,
    {
        match self {
            TxCallback::PriceFeedCreation(c) => TxCallback::PriceFeedCreation(c.clone()),
            TxCallback::ReserveAddress(c) => TxCallback::ReserveAddress(c.clone()),
        }
    }
}

/// Status of a tracked transaction as one poll sees it.
#[derive(Debug)]
pub enum TransactionStatus {
    /// Still in the pool, no receipt yet, or the query failed: try again.
    Unknown,
    /// Neither in the pool nor on chain: definitively dropped.
    Skipped,
    /// Mined, with its receipt.
    Processed(TransactionReceipt),
}

pub ghost enum TransactionStatusView {
    Unknown,
    Skipped,
    Processed(TransactionReceiptView),
}

impl View for TransactionStatus {
    type V = TransactionStatusView;

    open spec fn view(&self) -> TransactionStatusView {
        match self {
            TransactionStatus::Unknown => TransactionStatusView::Unknown,
            TransactionStatus::Skipped => TransactionStatusView::Skipped,
            TransactionStatus::Processed(r) => TransactionStatusView::Processed(r@),
        }
    }
}

/// A status on which the registry entry is resolved and its callback fired.
pub open spec fn is_terminal(s: TransactionStatusView) -> bool {
    !(s is Unknown)
}

/// What one status poll concludes from its two queries, exactly as the
/// polls are interpreted: a failed lookup is `Unknown`; a transaction absent
/// from pool and chain is `Skipped`; a receipt makes it `Processed`; a
/// found transaction without a receipt stays `Unknown`.
pub open spec fn classified_status(
    tx_lookup: Option<bool>,
    receipt_lookup: Option<Option<TransactionReceipt>>,
) -> TransactionStatusView {
    match tx_lookup {
        None => TransactionStatusView::Unknown,
        Some(false) => TransactionStatusView::Skipped,
        Some(true) => match receipt_lookup {
            Some(Some(r)) => TransactionStatusView::Processed(r@),
            _ => TransactionStatusView::Unknown,
        },
    }
}

/// Classifies the outcome of one poll. `tx_lookup` is the transaction-by-
/// hash query (`None` when the query itself failed, otherwise whether the
/// transaction is visible at all); `receipt_lookup` is the receipt query in
/// the same shape.
pub fn classify_transaction(
    tx_lookup: Option<bool>,
    receipt_lookup: Option<Option<TransactionReceipt>>,
) -> (r: TransactionStatus)
    ensures
        r@ == classified_status(tx_lookup, receipt_lookup),
{
    match tx_lookup {
        None => TransactionStatus::Unknown,
        Some(false) => TransactionStatus::Skipped,
        Some(true) => match receipt_lookup {
            Some(Some(receipt)) => TransactionStatus::Processed(receipt),
            _ => TransactionStatus::Unknown,
        },
    }
}

/// How one resolution step changes the registry: a non-terminal status, or
/// an unregistered hash, changes nothing; a terminal status extracts the
/// registered callback.
pub open spec fn resolve_model(
    m: Map<Seq<u8>, TxCallbackView>,
    hash: Seq<u8>,
    status: TransactionStatusView,
) -> (Map<Seq<u8>, TxCallbackView>, Option<TxCallbackView>) {
    if !is_terminal(status) || !m.contains_key(hash) {
        (m, None)
    } else {
        (m.remove(hash), Some(m[hash]))
    }
}

/// Law: once a resolution step has extracted a callback, no later step for
/// the same hash can extract one again, whatever statuses the later polls
/// report — each callback fires at most once.
pub proof fn lemma_dispatch_at_most_once(
    m: Map<Seq<u8>, TxCallbackView>,
    hash: Seq<u8>,
    s1: TransactionStatusView,
    s2: TransactionStatusView,
)
    ensures
        resolve_model(m, hash, s1).1 is Some ==> resolve_model(
            resolve_model(m, hash, s1).0,
            hash,
            s2,
        ).1 is None,
{
}

/// Law: a registered hash whose status is terminal is resolved by the very
/// step that observes it — the registered callback is extracted exactly
/// then, and the hash leaves the registry; with at-most-once extraction it
/// is therefore fired exactly once.
pub proof fn lemma_terminal_resolves_exactly_once(
    m: Map<Seq<u8>, TxCallbackView>,
    hash: Seq<u8>,
    status: TransactionStatusView,
)
    requires
        is_terminal(status),
        m.contains_key(hash),
    ensures
        resolve_model(m, hash, status).1 == Some(m[hash]),
        !resolve_model(m, hash, status).0.contains_key(hash),
        forall|other: Seq<u8>|
            other != hash && m.contains_key(other) ==> resolve_model(
                m,
                hash,
                status,
            ).0.contains_key(other) && resolve_model(m, hash, status).0[other] == m[other],
{
}

/// Law: a non-terminal status leaves the registry untouched — the entry
/// stays for the next poll.
pub proof fn lemma_unknown_keeps_entry(m: Map<Seq<u8>, TxCallbackView>, hash: Seq<u8>)
    ensures
        resolve_model(m, hash, TransactionStatusView::Unknown) == (m, Option::<
            TxCallbackView,
        >::None),
{
}

/// The feed address a processed creation records: the deployed contract's
/// address, or the zero address when the receipt names none.
pub open spec fn receipt_feed_address(r: TransactionReceiptView) -> Seq<u8> {
    match r.contract_address {
        Some(a) => a,
        None => Seq::new(20, |i: int| 0u8),
    }
}

/// The pair store's address map after a callback's `processed` action.
pub open spec fn processed_addresses(
    cb: TxCallbackView,
    receipt: TransactionReceiptView,
    addresses: Map<Seq<char>, Seq<u8>>,
) -> Map<Seq<char>, Seq<u8>> {
    match cb {
        TxCallbackView::PriceFeedCreation(pair_id) => addresses.insert(
            pair_id,
            receipt_feed_address(receipt),
        ),
        TxCallbackView::ReserveAddress(pair_id, address) => addresses.insert(pair_id, address),
    }
}

impl TxCallback {
    /// The transaction was mined: record the address this callback was
    /// persisted to record.
    pub fn processed(
        self,
        receipt: &TransactionReceipt,
        pairs: &mut crate::state::pair_storage::PairStorage,
    )
        requires
            old(pairs).wf(),
        ensures
            final(pairs).wf(),
            final(pairs)@.pairs == old(pairs)@.pairs,
            final(pairs)@.addresses == processed_addresses(self@, receipt@, old(pairs)@.addresses),
    {
        match self {
            TxCallback::PriceFeedCreation(c) => {
                let address = match &receipt.contract_address {
                    Some(a) => a.clone(),
                    None => H160::zero(),
                };
                pairs.add_address(&c.pair_id, address);
            },
            TxCallback::ReserveAddress(c) => {
                pairs.add_address(&c.pair_id, c.address);
            },
        }
    }

    /// The transaction was definitively dropped: nothing is recorded.
    pub fn skipped(self, pairs: &mut crate::state::pair_storage::PairStorage)
        requires
            old(pairs).wf(),
        ensures
            final(pairs).wf(),
            final(pairs)@ == old(pairs)@,
    {
    }
}

/// The pending-transaction registry and the resolution step run on it.
#[derive(Debug)]
pub struct EvmTransactionProcessorImpl {
    pub callbacks: Vec<(H256, TxCallback)>,
}

impl View for EvmTransactionProcessorImpl {
    type V = Map<Seq<u8>, TxCallbackView>;

    open spec fn view(&self) -> Map<Seq<u8>, TxCallbackView> {
        assoc_view(self.callbacks@)
    }
}

impl EvmTransactionProcessorImpl {
    pub open spec fn wf(&self) -> bool {
        keys_unique(self.callbacks@)
    }

    /// An empty registry.
    pub fn new() -> (r: Self)
        ensures
            r.wf(),
            r@ == Map::<Seq<u8>, TxCallbackView>::empty(),
    {
        EvmTransactionProcessorImpl { callbacks: Vec::new() }
    }

    fn find(&self, tx_hash: &H256) -> (r: Option<usize>)
        ensures
            match r {
                Some(i) => i < self.callbacks@.len() && self.callbacks@[i as int].0@ == tx_hash@,
                None => forall|i: int|
                    0 <= i < self.callbacks@.len() ==> self.callbacks@[i].0@ != tx_hash@,
            },
    {
        let mut i: usize = 0;
        while i < self.callbacks.len()
            invariant
                i <= self.callbacks@.len(),
                forall|t: int| 0 <= t < i ==> self.callbacks@[t].0@ != tx_hash@,
            decreases self.callbacks@.len() - i,
        {
            if self.callbacks[i].0 == *tx_hash {
                return Some(i);
            }
            i = i + 1;
        }
        None
    }

    /// Registers a callback for a broadcast transaction, replacing any
    /// callback already registered under the same hash.
    pub fn register_transaction(&mut self, tx_hash: H256, callback: TxCallback)
        requires
            old(self).wf(),
        ensures
            final(self).wf(),
            final(self)@ == old(self)@.insert(tx_hash@, callback@),
    {
        match self.find(&tx_hash) {
            Some(i) => {
                proof {
                    lemma_assoc_remove(self.callbacks@, i as int);
                }
                self.callbacks.remove(i);
            },
            None => {
            },
        }
        let ghost mid = self.callbacks@;
        self.callbacks.push((tx_hash, callback));
        proof {
            assert(self.callbacks@.drop_last() =~= mid);
            lemma_assoc_push(self.callbacks@);
            assert(assoc_view(self.callbacks@) =~= old(self)@.insert(
                self.callbacks@.last().0@,
                self.callbacks@.last().1@,
            ));
        }
    }

    /// Forgets every pending transaction.
    pub fn reset(&mut self)
        ensures
            final(self).wf(),
            final(self)@ == Map::<Seq<u8>, TxCallbackView>::empty(),
    {
        self.callbacks.clear();
    }

    /// The snapshot a processor tick works over: every registered hash.
    pub fn tracked_hashes(&self) -> (r: Vec<H256>)
        requires
            self.wf(),
        ensures
            r@.len() == self@.len(),
            forall|t: int| 0 <= t < r@.len() ==> self@.contains_key((#[trigger] r@[t])@),
            forall|t: int, u: int| 0 <= t < u < r@.len() ==> r@[t]@ != r@[u]@,
    {
        let mut out: Vec<H256> = Vec::new();
        let mut i: usize = 0;
        while i < self.callbacks.len()
            invariant
                self.wf(),
                i <= self.callbacks@.len(),
                out@.len() == i,
                forall|t: int| 0 <= t < i ==> (#[trigger] out@[t])@ == self.callbacks@[t].0@,
            decreases self.callbacks@.len() - i,
        {
            out.push(self.callbacks[i].0.clone());
            i = i + 1;
        }
        proof {
            lemma_assoc_len(self.callbacks@);
            assert forall|t: int| 0 <= t < out@.len() implies self@.contains_key(
                (#[trigger] out@[t])@,
            ) by {
                lemma_assoc_at(self.callbacks@, t);
            }
        }
        out
    }

    /// Extracts the callback registered under `tx_hash`, removing it from
    /// the registry in the same step.
    pub fn extract_callback(&mut self, tx_hash: &H256) -> (r: Option<TxCallback>)
        requires
            old(self).wf(),
        ensures
            final(self).wf(),
            match r {
                Some(cb) => old(self)@.contains_key(tx_hash@) && cb@ == old(self)@[tx_hash@]
                    && final(self)@ == old(self)@.remove(tx_hash@),
                None => !old(self)@.contains_key(tx_hash@) && final(self)@ == old(self)@,
            },
    {
        proof {
            lemma_assoc_contains(self.callbacks@, tx_hash@);
        }
        match self.find(tx_hash) {
            None => None,
            Some(i) => {
                proof {
                    lemma_assoc_at(self.callbacks@, i as int);
                    lemma_assoc_remove(self.callbacks@, i as int);
                }
                let (_, cb) = self.callbacks.remove(i);
                Some(cb)
            },
        }
    }

    /// One resolution step: on a terminal status the callback is extracted
    /// (at most once over all ticks); on `Unknown` the entry is kept for
    /// the next poll.
    pub fn resolve_transaction(&mut self, tx_hash: &H256, status: &TransactionStatus) -> (r:
        Option<TxCallback>)
        requires
            old(self).wf(),
        ensures
            final(self).wf(),
            final(self)@ == resolve_model(old(self)@, tx_hash@, status@).0,
            match r {
                Some(cb) => resolve_model(old(self)@, tx_hash@, status@).1 == Some(cb@),
                None => resolve_model(old(self)@, tx_hash@, status@).1 is None,
            },
    {
        match status {
            TransactionStatus::Unknown => None,
            _ => self.extract_callback(tx_hash),
        }
    }
}

/// The registry and the pair-store addresses after one result of a
/// processor tick has been acted on: the hash is resolved, and an
/// extracted callback's action is applied.
pub open spec fn process_step(
    st: (Map<Seq<u8>, TxCallbackView>, Map<Seq<char>, Seq<u8>>),
    hash: Seq<u8>,
    status: TransactionStatusView,
) -> (Map<Seq<u8>, TxCallbackView>, Map<Seq<char>, Seq<u8>>) {
    let resolved = resolve_model(st.0, hash, status);
    match resolved.1 {
        Some(cb) => match status {
            TransactionStatusView::Processed(receipt) => (
                resolved.0,
                processed_addresses(cb, receipt, st.1),
            ),
            _ => (resolved.0, st.1),
        },
        None => (resolved.0, st.1),
    }
}

/// `process_step` folded over the results of a tick, in the order each
/// query completed.
pub open spec fn process_all(
    st: (Map<Seq<u8>, TxCallbackView>, Map<Seq<char>, Seq<u8>>),
    results: Seq<(Seq<u8>, TransactionStatusView)>,
) -> (Map<Seq<u8>, TxCallbackView>, Map<Seq<char>, Seq<u8>>)
    decreases results.len(),
{
    if results.len() == 0 {
        st
    } else {
        process_step(
            process_all(st, results.drop_last()),
            results.last().0,
            results.last().1,
        )
    }
}

/// The view of a tick's poll results.
pub open spec fn results_view(results: Seq<(H256, TransactionStatus)>) -> Seq<
    (Seq<u8>, TransactionStatusView),
> {
    results.map_values(|p: (H256, TransactionStatus)| (p.0@, p.1@))
}

impl EvmTransactionProcessorImpl {
    /// One tick of the lifecycle processor over the poll results, acted on
    /// in the order each query completed: every hash with a terminal
    /// status has its callback extracted and run — at most once, however
    /// many earlier ticks saw it unresolved — and every other entry stays
    /// registered for the next tick.
    pub fn process_transactions(
        &mut self,
        results: Vec<(H256, TransactionStatus)>,
        pairs: &mut crate::state::pair_storage::PairStorage,
    )
        requires
            old(self).wf(),
            old(pairs).wf(),
        ensures
            final(self).wf(),
            final(pairs).wf(),
            final(pairs)@.pairs == old(pairs)@.pairs,
            (final(self)@, final(pairs)@.addresses) == process_all(
                (old(self)@, old(pairs)@.addresses),
                results_view(results@),
            ),
    {
        let ghost init = (old(self)@, old(pairs)@.addresses);
        let ghost all = results_view(results@);
        let mut i: usize = 0;
        while i < results.len()
            invariant
                self.wf(),
                pairs.wf(),
                i <= results@.len(),
                all == results_view(results@),
                pairs@.pairs == old(pairs)@.pairs,
                (self@, pairs@.addresses) == process_all(init, all.subrange(0, i as int)),
            decreases results@.len() - i,
        {
            let entry = &results[i];
            proof {
                let pre = all.subrange(0, i + 1);
                assert(pre.drop_last() =~= all.subrange(0, i as int));
                assert(pre.last() == (entry.0@, entry.1@));
            }
            match self.resolve_transaction(&entry.0, &entry.1) {
                Some(callback) => match &entry.1 {
                    TransactionStatus::Processed(receipt) => {
                        callback.processed(receipt, pairs);
                    },
                    _ => {
                        callback.skipped(pairs);
                    },
                },
                None => {
                },
            }
            i = i + 1;
        }
        proof {
            assert(all.subrange(0, results@.len() as int) =~= all);
        }
    }
}

impl Default for EvmTransactionProcessorImpl {
    /// An empty registry.
    fn default() -> (r: Self)
        ensures
            r.wf(),
            r@ == Map::<Seq<u8>, TxCallbackView>::empty(),
    {
        EvmTransactionProcessorImpl::new()
    }
}

} // verus!
