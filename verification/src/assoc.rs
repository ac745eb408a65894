//! Association lists with unique keys, viewed as maps.
//!
//! The durable stores of this engine keep their entries in vectors of
//! key-value pairs; this module gives such a sequence a `Map` view and proves
//! how the view changes under push, in-place update and removal.

use vstd::prelude::*;

verus! {

/// The map denoted by a sequence of key-value pairs; later pairs win.
pub open spec fn assoc_view<K: View, V: View>(s: Seq<(K, V)>) -> Map<K::V, V::V>
    decreases s.len(),
{
    if s.len() == 0 {
        Map::empty()
    } else {
        assoc_view(s.drop_last()).insert(s.last().0@, s.last().1@)
    }
}

/// No two pairs share a key.
pub open spec fn keys_unique<K: View, V>(s: Seq<(K, V)>) -> bool {
    forall|i: int, j: int| 0 <= i < j < s.len() ==> s[i].0@ != s[j].0@
}

/// A key is in the view exactly when some pair carries it.
pub proof fn lemma_assoc_contains<K: View, V: View>(s: Seq<(K, V)>, k: K::V)
    ensures
        assoc_view(s).contains_key(k) <==> exists|i: int| 0 <= i < s.len() && s[i].0@ == k,
    decreases s.len(),
{
    if s.len() > 0 {
        lemma_assoc_contains(s.drop_last(), k);
        if assoc_view(s).contains_key(k) && s.last().0@ != k {
            let i = choose|i: int| 0 <= i < s.drop_last().len() && s.drop_last()[i].0@ == k;
            assert(s[i].0@ == k);
        }
        if exists|i: int| 0 <= i < s.len() && s[i].0@ == k {
            let i = choose|i: int| 0 <= i < s.len() && s[i].0@ == k;
            if i < s.len() - 1 {
                assert(s.drop_last()[i].0@ == k);
            }
        }
    }
}

/// With unique keys, the view maps each pair's key to that pair's value.
pub proof fn lemma_assoc_at<K: View, V: View>(s: Seq<(K, V)>, i: int)
    requires
        keys_unique(s),
        0 <= i < s.len(),
    ensures
        assoc_view(s).contains_key(s[i].0@),
        assoc_view(s)[s[i].0@] == s[i].1@,
    decreases s.len(),
{
    if i == s.len() - 1 {
    } else {
        assert(keys_unique(s.drop_last()));
        assert(s.drop_last()[i] == s[i]);
        lemma_assoc_at(s.drop_last(), i);
        assert(s[i].0@ != s.last().0@);
    }
}

/// With unique keys, the view has exactly one entry per pair.
pub proof fn lemma_assoc_len<K: View, V: View>(s: Seq<(K, V)>)
    requires
        keys_unique(s),
    ensures
        assoc_view(s).dom().finite(),
        assoc_view(s).len() == s.len(),
    decreases s.len(),
{
    if s.len() > 0 {
        let d = s.drop_last();
        assert(keys_unique(d));
        lemma_assoc_len(d);
        lemma_assoc_contains(d, s.last().0@);
        assert(forall|i: int| 0 <= i < d.len() ==> d[i] == s[i]);
        assert(!assoc_view(d).contains_key(s.last().0@));
    }
}

/// Replacing the value of the pair at `i` (key kept) updates the view at its
/// key.
pub proof fn lemma_assoc_update<K: View, V: View>(s: Seq<(K, V)>, i: int, p: (K, V))
    requires
        keys_unique(s),
        0 <= i < s.len(),
        p.0@ == s[i].0@,
    ensures
        keys_unique(s.update(i, p)),
        assoc_view(s.update(i, p)) == assoc_view(s).insert(p.0@, p.1@),
    decreases s.len(),
{
    let t = s.update(i, p);
    assert forall|x: int, y: int| 0 <= x < y < t.len() implies t[x].0@ != t[y].0@ by {
        assert(t[x].0@ == s[x].0@ && t[y].0@ == s[y].0@);
    }
    if i == s.len() - 1 {
        assert(t.drop_last() =~= s.drop_last());
        assert(assoc_view(t) =~= assoc_view(s).insert(p.0@, p.1@));
    } else {
        assert(keys_unique(s.drop_last()));
        assert(t.drop_last() =~= s.drop_last().update(i, p));
        assert(s.drop_last()[i] == s[i]);
        lemma_assoc_update(s.drop_last(), i, p);
        assert(t.last() == s.last());
        assert(p.0@ != s.last().0@);
        assert(assoc_view(t) =~= assoc_view(s).insert(p.0@, p.1@));
    }
}

/// A sequence whose last pair carries a key fresh among the earlier ones
/// denotes the earlier map with that pair inserted.
pub proof fn lemma_assoc_push<K: View, V: View>(s: Seq<(K, V)>)
    requires
        s.len() > 0,
        keys_unique(s.drop_last()),
        forall|i: int| 0 <= i < s.len() - 1 ==> s[i].0@ != s.last().0@,
    ensures
        keys_unique(s),
        assoc_view(s) == assoc_view(s.drop_last()).insert(s.last().0@, s.last().1@),
{
    assert forall|x: int, y: int| 0 <= x < y < s.len() implies s[x].0@ != s[y].0@ by {
        if y < s.len() - 1 {
            assert(s.drop_last()[x] == s[x] && s.drop_last()[y] == s[y]);
        }
    }
}

/// Removing the pair at `i` removes its key from the view.
pub proof fn lemma_assoc_remove<K: View, V: View>(s: Seq<(K, V)>, i: int)
    requires
        keys_unique(s),
        0 <= i < s.len(),
    ensures
        keys_unique(s.remove(i)),
        assoc_view(s.remove(i)) == assoc_view(s).remove(s[i].0@),
    decreases s.len(),
{
    let t = s.remove(i);
    assert forall|x: int, y: int| 0 <= x < y < t.len() implies t[x].0@ != t[y].0@ by {
        let sx = if x < i {
            x
        } else {
            x + 1
        };
        let sy = if y < i {
            y
        } else {
            y + 1
        };
        assert(t[x] == s[sx] && t[y] == s[sy]);
    }
    if i == s.len() - 1 {
        assert(t =~= s.drop_last());
        lemma_assoc_contains(s.drop_last(), s[i].0@);
        assert(forall|j: int|
            0 <= j < s.drop_last().len() ==> s.drop_last()[j] == s[j]);
        assert(!assoc_view(s.drop_last()).contains_key(s[i].0@));
        assert(assoc_view(t) =~= assoc_view(s).remove(s[i].0@));
    } else {
        let d = s.drop_last();
        assert(keys_unique(d));
        assert(d[i] == s[i]);
        lemma_assoc_remove(d, i);
        assert(t.drop_last() =~= d.remove(i));
        assert(t.last() == s.last());
        assert(s[i].0@ != s.last().0@);
        assert(assoc_view(t) =~= assoc_view(s).remove(s[i].0@));
    }
}

} // verus!
