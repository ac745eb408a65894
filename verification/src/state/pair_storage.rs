//! The currency-pair store: price feeds created through the aggregator
//! contract, and the feed contract address recorded for each pair once its
//! creation transaction is processed.

use vstd::prelude::*;

use crate::assoc::{
    assoc_view, keys_unique, lemma_assoc_at, lemma_assoc_contains, lemma_assoc_len,
    lemma_assoc_push, lemma_assoc_remove,
};
use crate::error::Error;
use crate::types::H160;

verus! {

/// Key of a currency pair in the store.
pub type Id = String;

/// What `str::to_lowercase` returns: a function of the characters alone.
pub uninterp spec fn lower_of(s: Seq<char>) -> Seq<char>;

/// Relies on `str::to_lowercase`.
#[verifier::external_body]
fn lowercase(s: &str) -> (r: String)
    ensures
        r@ == lower_of(s@),
{
    s.to_lowercase()
}

/// A currency pair, base against quote.
#[derive(Debug)]
pub struct Pair {
    pub base_currency: String,
    pub quote_currency: String,
}

pub ghost struct PairView {
    pub base_currency: Seq<char>,
    pub quote_currency: Seq<char>,
}

impl View for Pair {
    type V = PairView;

    open spec fn view(&self) -> PairView {
        PairView { base_currency: self.base_currency@, quote_currency: self.quote_currency@ }
    }
}

impl Clone for Pair {
    fn clone(&self) -> (r: Self)
        ensures
            r@ == self@,
    {
        Pair {
            base_currency: self.base_currency.clone(),
            quote_currency: self.quote_currency.clone(),
        }
    }
}

/// The store key a pair identifies itself by.
pub open spec fn pair_id_of(p: PairView) -> Seq<char> {
    lower_of(p.base_currency) + "-"@ + lower_of(p.quote_currency)
}

impl Pair {
    /// The pair's store key: both currencies lowercased, joined by a dash.
    pub fn id(&self) -> (r: String)
        ensures
            r@ == pair_id_of(self@),
    {
        let mut out = lowercase(self.base_currency.as_str());
        out.append("-");
        let quote = lowercase(self.quote_currency.as_str());
        out.append(quote.as_str());
        out
    }
}

/// A stored pair with its last published price.
#[derive(Debug)]
pub struct PairData {
    pub pair: Pair,
    pub price: u64,
    pub timestamp: u64,
}

pub ghost struct PairDataView {
    pub pair: PairView,
    pub price: u64,
    pub timestamp: u64,
}

impl View for PairData {
    type V = PairDataView;

    open spec fn view(&self) -> PairDataView {
        PairDataView { pair: self.pair@, price: self.price, timestamp: self.timestamp }
    }
}

impl Clone for PairData {
    fn clone(&self) -> (r: Self)
        ensures
            r@ == self@,
    {
        PairData { pair: self.pair.clone(), price: self.price, timestamp: self.timestamp }
    }
}

/// The pair and address that one listed element stands for.
pub open spec fn listed_entry(st: PairStorageView, e: (Pair, H160), k: Seq<char>) -> bool {
    st.pairs.contains_key(k) && st.addresses.contains_key(k) && e.0@ == st.pairs[k].pair && e.1@
        == st.addresses[k]
}

/// Some stored pair and recorded address stand behind `e`.
pub open spec fn has_listed_entry(st: PairStorageView, e: (Pair, H160)) -> bool {
    exists|k: Seq<char>| #[trigger] listed_entry(st, e, k)
}

/// Each listed element is a stored pair with its recorded address.
pub open spec fn lists_pairs_with_addresses(st: PairStorageView, r: Seq<(Pair, H160)>) -> bool {
    forall|t: int| 0 <= t < r.len() ==> has_listed_entry(st, #[trigger] r[t])
}

pub ghost struct PairStorageView {
    pub pairs: Map<Seq<char>, PairDataView>,
    pub addresses: Map<Seq<char>, Seq<u8>>,
}

/// The pair store: pair data and recorded feed addresses, both keyed by the
/// pair id.
#[derive(Debug)]
pub struct PairStorage {
    pub pairs: Vec<(Id, PairData)>,
    pub addresses: Vec<(Id, H160)>,
}

impl View for PairStorage {
    type V = PairStorageView;

    open spec fn view(&self) -> PairStorageView {
        PairStorageView { pairs: assoc_view(self.pairs@), addresses: assoc_view(self.addresses@) }
    }
}

impl PairStorage {
    pub open spec fn wf(&self) -> bool {
        keys_unique(self.pairs@) && keys_unique(self.addresses@)
    }

    /// An empty store.
    pub fn new() -> (r: Self)
        ensures
            r.wf(),
            r@.pairs == Map::<Seq<char>, PairDataView>::empty(),
            r@.addresses == Map::<Seq<char>, Seq<u8>>::empty(),
    {
        PairStorage { pairs: Vec::new(), addresses: Vec::new() }
    }

    fn find_pair(&self, id: &Id) -> (r: Option<usize>)
        ensures
            match r {
                Some(i) => i < self.pairs@.len() && self.pairs@[i as int].0@ == id@,
                None => forall|i: int| 0 <= i < self.pairs@.len() ==> self.pairs@[i].0@ != id@,
            },
    {
        let mut i: usize = 0;
        while i < self.pairs.len()
            invariant
                i <= self.pairs@.len(),
                forall|t: int| 0 <= t < i ==> self.pairs@[t].0@ != id@,
            decreases self.pairs@.len() - i,
        {
            if self.pairs[i].0 == *id {
                return Some(i);
            }
            i = i + 1;
        }
        None
    }

    fn find_address(&self, id: &Id) -> (r: Option<usize>)
        ensures
            match r {
                Some(i) => i < self.addresses@.len() && self.addresses@[i as int].0@ == id@,
                None => forall|i: int|
                    0 <= i < self.addresses@.len() ==> self.addresses@[i].0@ != id@,
            },
    {
        let mut i: usize = 0;
        while i < self.addresses.len()
            invariant
                i <= self.addresses@.len(),
                forall|t: int| 0 <= t < i ==> self.addresses@[t].0@ != id@,
            decreases self.addresses@.len() - i,
        {
            if self.addresses[i].0 == *id {
                return Some(i);
            }
            i = i + 1;
        }
        None
    }

    /// The stored pair under `id`.
    pub fn get(&self, id: &Id) -> (r: Result<Pair, Error>)
        requires
            self.wf(),
        ensures
            match r {
                Ok(p) => self@.pairs.contains_key(id@) && p@ == self@.pairs[id@].pair,
                Err(Error::PairNotFound) => !self@.pairs.contains_key(id@),
                Err(_) => false,
            },
    {
        match self.find_pair(id) {
            None => {
                proof {
                    lemma_assoc_contains(self.pairs@, id@);
                }
                Err(Error::PairNotFound)
            },
            Some(i) => {
                proof {
                    lemma_assoc_at(self.pairs@, i as int);
                }
                Ok(self.pairs[i].1.pair.clone())
            },
        }
    }

    /// Records (or replaces) the feed contract address of `id`.
    pub fn add_address(&mut self, id: &Id, address: H160)
        requires
            old(self).wf(),
        ensures
            final(self).wf(),
            final(self)@.pairs == old(self)@.pairs,
            final(self)@.addresses == old(self)@.addresses.insert(id@, address@),
    {
        match self.find_address(id) {
            Some(i) => {
                proof {
                    lemma_assoc_remove(self.addresses@, i as int);
                }
                self.addresses.remove(i);
            },
            None => {
            },
        }
        let ghost mid = self.addresses@;
        self.addresses.push((id.clone(), address));
        proof {
            assert(self.addresses@.drop_last() =~= mid);
            lemma_assoc_push(self.addresses@);
            assert(assoc_view(self.addresses@) =~= old(self)@.addresses.insert(id@, address@));
        }
    }

    /// Whether a pair is stored under `id`.
    pub fn check_pair_exists(&self, id: &Id) -> (r: bool)
        ensures
            r == self@.pairs.contains_key(id@),
    {
        proof {
            lemma_assoc_contains(self.pairs@, id@);
        }
        match self.find_pair(id) {
            Some(_) => true,
            None => false,
        }
    }

    /// Stores a new pair; rejected when the id is already taken.
    pub fn add_pair(&mut self, id: &Id, pair: Pair, timestamp: u64, price: u64) -> (r: Result<
        (),
        Error,
    >)
        requires
            old(self).wf(),
        ensures
            final(self).wf(),
            match r {
                Ok(()) => !old(self)@.pairs.contains_key(id@) && final(self)@.pairs == old(self)@.pairs.insert(id@, PairDataView { pair: pair@, price, timestamp }) && final(self)@.addresses == old(self)@.addresses,
                Err(Error::PairAlreadyExists) => old(self)@.pairs.contains_key(id@) && final(self)@
                    == old(self)@,
                Err(_) => false,
            },
    {
        proof {
            lemma_assoc_contains(self.pairs@, id@);
        }
        match self.find_pair(id) {
            Some(_) => Err(Error::PairAlreadyExists),
            None => {
                let ghost mid = self.pairs@;
                self.pairs.push((id.clone(), PairData { pair, timestamp, price }));
                proof {
                    assert(self.pairs@.drop_last() =~= mid);
                    lemma_assoc_push(self.pairs@);
                }
                Ok(())
            },
        }
    }

    /// Removes a pair and its recorded address.
    pub fn remove_pair(&mut self, id: &Id) -> (r: Result<(), Error>)
        requires
            old(self).wf(),
        ensures
            final(self).wf(),
            match r {
                Ok(()) => old(self)@.pairs.contains_key(id@) && final(self)@.pairs == old(self)@.pairs.remove(id@) && final(self)@.addresses == old(self)@.addresses.remove(id@),
                Err(Error::PairNotFound) => !old(self)@.pairs.contains_key(id@) && final(self)@
                    == old(self)@,
                Err(_) => false,
            },
    {
        proof {
            lemma_assoc_contains(self.pairs@, id@);
        }
        match self.find_pair(id) {
            None => Err(Error::PairNotFound),
            Some(i) => {
                proof {
                    lemma_assoc_remove(self.pairs@, i as int);
                }
                self.pairs.remove(i);
                match self.find_address(id) {
                    Some(j) => {
                        proof {
                            lemma_assoc_remove(self.addresses@, j as int);
                        }
                        self.addresses.remove(j);
                    },
                    None => {
                        proof {
                            lemma_assoc_contains(self.addresses@, id@);
                            assert(assoc_view(self.addresses@) =~= assoc_view(
                                self.addresses@,
                            ).remove(id@));
                        }
                    },
                }
                Ok(())
            },
        }
    }

    /// Every stored pair.
    pub fn all_pairs(&self) -> (r: Vec<Pair>)
        requires
            self.wf(),
        ensures
            r@.len() == self@.pairs.len(),
            forall|t: int|
                0 <= t < r@.len() ==> exists|k: Seq<char>|
                    self@.pairs.contains_key(k) && (#[trigger] r@[t])@ == self@.pairs[k].pair,
    {
        let mut out: Vec<Pair> = Vec::new();
        let mut i: usize = 0;
        while i < self.pairs.len()
            invariant
                self.wf(),
                i <= self.pairs@.len(),
                out@.len() == i,
                forall|t: int|
                    0 <= t < i ==> self@.pairs.contains_key((#[trigger] self.pairs@[t]).0@)
                        && out@[t]@ == self@.pairs[self.pairs@[t].0@].pair,
            decreases self.pairs@.len() - i,
        {
            proof {
                lemma_assoc_at(self.pairs@, i as int);
            }
            out.push(self.pairs[i].1.pair.clone());
            proof {
                let k = self.pairs@[i as int].0@;
                assert(self@.pairs.contains_key(k) && out@.last()@ == self@.pairs[k].pair);
            }
            i = i + 1;
        }
        proof {
            lemma_assoc_len(self.pairs@);
            assert forall|t: int| 0 <= t < out@.len() implies exists|k: Seq<char>|
                self@.pairs.contains_key(k) && (#[trigger] out@[t])@ == self@.pairs[k].pair by {
                let k = self.pairs@[t].0@;
                assert(self@.pairs.contains_key(k) && out@[t]@ == self@.pairs[k].pair);
            }
        }
        out
    }

    /// Every pair that has a recorded feed address, with that address.
    /// An address whose pair is no longer stored is passed over.
    pub fn all_pairs_with_address(&self) -> (r: Vec<(Pair, H160)>)
        requires
            self.wf(),
        ensures
            lists_pairs_with_addresses(self@, r@),
    {
        let mut out: Vec<(Pair, H160)> = Vec::new();
        let ghost mut keys: Seq<Seq<char>> = Seq::empty();
        let mut i: usize = 0;
        while i < self.addresses.len()
            invariant
                self.wf(),
                i <= self.addresses@.len(),
                keys.len() == out@.len(),
                forall|t: int|
                    0 <= t < out@.len() ==> self@.pairs.contains_key(#[trigger] keys[t])
                        && self@.addresses.contains_key(keys[t]) && out@[t].0@
                        == self@.pairs[keys[t]].pair && out@[t].1@ == self@.addresses[keys[t]],
            decreases self.addresses@.len() - i,
        {
            let entry = &self.addresses[i];
            match self.get(&entry.0) {
                Ok(pair) => {
                    proof {
                        lemma_assoc_at(self.addresses@, i as int);
                    }
                    out.push((pair, entry.1.clone()));
                    proof {
                        keys = keys.push(self.addresses@[i as int].0@);
                    }
                },
                Err(_) => {
                },
            }
            i = i + 1;
        }
        proof {
            assert forall|t: int| 0 <= t < out@.len() implies has_listed_entry(
                self@,
                #[trigger] out@[t],
            ) by {
                let k = keys[t];
                assert(listed_entry(self@, out@[t], k));
            }
        }
        out
    }

    /// Rewrites the price and timestamp of a stored pair.
    pub fn update_pair(&mut self, id: &Id, price: u64, timestamp: u64) -> (r: Result<(), Error>)
        requires
            old(self).wf(),
        ensures
            final(self).wf(),
            match r {
                Ok(()) => old(self)@.pairs.contains_key(id@) && final(self)@.pairs == old(self)@.pairs.insert(
                    id@,
                    PairDataView { pair: old(self)@.pairs[id@].pair, price, timestamp },
                ) && final(self)@.addresses == old(self)@.addresses,
                Err(Error::PairNotFound) => !old(self)@.pairs.contains_key(id@) && final(self)@
                    == old(self)@,
                Err(_) => false,
            },
    {
        match self.find_pair(id) {
            None => {
                proof {
                    lemma_assoc_contains(self.pairs@, id@);
                }
                Err(Error::PairNotFound)
            },
            Some(i) => {
                proof {
                    lemma_assoc_at(self.pairs@, i as int);
                    lemma_assoc_remove(self.pairs@, i as int);
                }
                let (key, data) = self.pairs.remove(i);
                let ghost mid = self.pairs@;
                self.pairs.push((key, PairData { pair: data.pair, timestamp, price }));
                proof {
                    let fin = self.pairs@;
                    let outer0 = old(self).pairs@;
                    assert(fin.drop_last() =~= mid);
                    assert forall|t: int| 0 <= t < fin.len() - 1 implies fin[t].0@
                        != fin.last().0@ by {
                        let st = if t < i {
                            t
                        } else {
                            t + 1
                        };
                        assert(mid[t] == outer0[st]);
                    }
                    lemma_assoc_push(fin);
                    assert(assoc_view(fin) =~= old(self)@.pairs.insert(
                        id@,
                        PairDataView { pair: old(self)@.pairs[id@].pair, price, timestamp },
                    ));
                }
                Ok(())
            },
        }
    }

    /// Empties both the pair data and the recorded addresses.
    pub fn clear(&mut self)
        ensures
            final(self).wf(),
            final(self)@.pairs == Map::<Seq<char>, PairDataView>::empty(),
            final(self)@.addresses == Map::<Seq<char>, Seq<u8>>::empty(),
    {
        self.pairs.clear();
        self.addresses.clear();
    }
}

impl Default for PairStorage {
    /// An empty store.
    fn default() -> (r: Self)
        ensures
            r.wf(),
            r@.pairs == Map::<Seq<char>, PairDataView>::empty(),
            r@.addresses == Map::<Seq<char>, Seq<u8>>::empty(),
    {
        PairStorage::new()
    }
}

} // verus!
