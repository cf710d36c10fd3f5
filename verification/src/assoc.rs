//! Association lists: sequences of key/value pairs with distinct keys, read as
//! finite maps.  The caches of the library keep their entries in vectors and
//! state their contracts over the maps these lemmas connect them to.
use vstd::prelude::*;

verus! {

broadcast use vstd::seq_lib::group_seq_properties;

/// The keys of an association list, in order.
pub open spec fn akeys<K, V>(s: Seq<(K, V)>) -> Seq<K> {
    s.map_values(|p: (K, V)| p.0)
}

/// No key occurs twice.
pub open spec fn unique_keys<K, V>(s: Seq<(K, V)>) -> bool {
    akeys(s).no_duplicates()
}

/// The map that an association list stands for.
pub open spec fn assoc<K, V>(s: Seq<(K, V)>) -> Map<K, V> {
    Map::new(|k: K| akeys(s).contains(k), |k: K| s[akeys(s).index_of(k)].1)
}

/// The entry at position `i` is what the map holds for its key.
pub proof fn lemma_assoc_at<K, V>(s: Seq<(K, V)>, i: int)
    requires
        unique_keys(s),
        0 <= i < s.len(),
    ensures
        assoc(s).contains_key(s[i].0),
        assoc(s)[s[i].0] == s[i].1,
{
    assert(akeys(s)[i] == s[i].0);
    assert(akeys(s).contains(s[i].0));
    let j = akeys(s).index_of(s[i].0);
    assert(0 <= j < akeys(s).len() && akeys(s)[j] == s[i].0);
}

/// A key of the map sits at some position of the list.
pub proof fn lemma_assoc_key<K, V>(s: Seq<(K, V)>, k: K) -> (i: int)
    requires
        assoc(s).contains_key(k),
    ensures
        0 <= i < s.len(),
        s[i].0 == k,
{
    let i = akeys(s).index_of(k);
    assert(akeys(s)[i] == k);
    i
}

/// The number of keys of the map is the length of the list.
pub proof fn lemma_assoc_len<K, V>(s: Seq<(K, V)>)
    requires
        unique_keys(s),
    ensures
        assoc(s).dom() == akeys(s).to_set(),
        assoc(s).dom().finite(),
        assoc(s).dom().len() == s.len(),
{
    assert(assoc(s).dom() =~= akeys(s).to_set());
    akeys(s).unique_seq_to_set();
}

/// Appending an entry with a new key inserts it into the map.
pub proof fn lemma_assoc_push<K, V>(s: Seq<(K, V)>, k: K, v: V)
    requires
        unique_keys(s),
        !assoc(s).contains_key(k),
    ensures
        unique_keys(s.push((k, v))),
        assoc(s.push((k, v))) == assoc(s).insert(k, v),
{
    let t = s.push((k, v));
    assert(akeys(t) =~= akeys(s).push(k));
    assert(!akeys(s).contains(k));
    assert forall|a: K| #[trigger] assoc(t).contains_key(a) == assoc(s).insert(k, v).contains_key(a) by {
        if akeys(s).contains(a) {
            let i = akeys(s).index_of(a);
            assert(akeys(t)[i] == a);
        }
    }
    assert forall|a: K| assoc(t).contains_key(a) implies #[trigger] assoc(t)[a] == assoc(s).insert(k, v)[a] by {
        let i = lemma_assoc_key(t, a);
        lemma_assoc_at(t, i);
        if i < s.len() {
            lemma_assoc_at(s, i);
        }
    }
    assert(assoc(t) =~= assoc(s).insert(k, v));
}

/// Replacing the value at a position updates the map at that key.
pub proof fn lemma_assoc_update<K, V>(s: Seq<(K, V)>, i: int, v: V)
    requires
        unique_keys(s),
        0 <= i < s.len(),
    ensures
        unique_keys(s.update(i, (s[i].0, v))),
        assoc(s.update(i, (s[i].0, v))) == assoc(s).insert(s[i].0, v),
{
    let k = s[i].0;
    let t = s.update(i, (k, v));
    assert(akeys(t) =~= akeys(s));
    assert forall|a: K| #[trigger] assoc(t).contains_key(a) == assoc(s).insert(k, v).contains_key(a) by {
        if a == k {
            lemma_assoc_at(s, i);
        }
    }
    assert forall|a: K| assoc(t).contains_key(a) implies #[trigger] assoc(t)[a] == assoc(s).insert(k, v)[a] by {
        let j = lemma_assoc_key(t, a);
        lemma_assoc_at(t, j);
        assert(t.len() == s.len());
        if j != i {
            assert(t[j] == s[j]);
            assert(akeys(s)[j] == s[j].0 && akeys(s)[i] == s[i].0);
            assert(a != k);
            lemma_assoc_at(s, j);
        }
    }
    assert(assoc(t) =~= assoc(s).insert(k, v));
}

/// Removing the entry at a position removes its key from the map.
pub proof fn lemma_assoc_remove<K, V>(s: Seq<(K, V)>, i: int)
    requires
        unique_keys(s),
        0 <= i < s.len(),
    ensures
        unique_keys(s.remove(i)),
        assoc(s.remove(i)) == assoc(s).remove(s[i].0),
{
    let k = s[i].0;
    let t = s.remove(i);
    assert(akeys(t) =~= akeys(s).remove(i));
    assert forall|a: K| #[trigger] assoc(t).contains_key(a) == assoc(s).remove(k).contains_key(a) by {
        if akeys(s).contains(a) && a != k {
            let j = akeys(s).index_of(a);
            assert(j != i);
            if j < i {
                assert(akeys(t)[j] == a);
            } else {
                assert(akeys(t)[j - 1] == a);
            }
        }
        if akeys(t).contains(a) {
            let j = akeys(t).index_of(a);
            assert(akeys(s)[i] == k);
            if j < i {
                assert(akeys(s)[j] == a);
                assert(a != k);
            } else {
                assert(akeys(s)[j + 1] == a);
                assert(a != k);
            }
            assert(akeys(s).contains(a));
        }
    }
    assert forall|a: K| assoc(t).contains_key(a) implies #[trigger] assoc(t)[a] == assoc(s).remove(k)[a] by {
        let j = lemma_assoc_key(t, a);
        lemma_assoc_at(t, j);
        if j < i {
            lemma_assoc_at(s, j);
        } else {
            lemma_assoc_at(s, j + 1);
        }
    }
    assert(assoc(t) =~= assoc(s).remove(k));
}

/// The empty list stands for the empty map.
pub proof fn lemma_assoc_empty<K, V>()
    ensures
        unique_keys(Seq::<(K, V)>::empty()),
        assoc(Seq::<(K, V)>::empty()) == Map::<K, V>::empty(),
{
    assert(assoc(Seq::<(K, V)>::empty()) =~= Map::<K, V>::empty());
}


/// The entries of `s` that satisfy `f`, in order.
pub open spec fn keep<A>(s: Seq<A>, f: spec_fn(A) -> bool) -> Seq<A>
    decreases s.len(),
{
    if s.len() == 0 {
        s
    } else if f(s.last()) {
        keep(s.drop_last(), f).push(s.last())
    } else {
        keep(s.drop_last(), f)
    }
}

/// Every key of a kept sublist is a key of the list.
pub proof fn lemma_keep_keys<K, V>(s: Seq<(K, V)>, f: spec_fn((K, V)) -> bool, k: K)
    requires
        akeys(keep(s, f)).contains(k),
    ensures
        akeys(s).contains(k),
    decreases s.len(),
{
    if s.len() > 0 {
        let r = keep(s.drop_last(), f);
        if f(s.last()) {
            assert(akeys(r.push(s.last())) =~= akeys(r).push(s.last().0));
            if akeys(r).contains(k) {
                lemma_keep_keys(s.drop_last(), f, k);
                let j = akeys(s.drop_last()).index_of(k);
                assert(akeys(s)[j] == k);
            } else {
                assert(akeys(s)[s.len() - 1] == k);
            }
        } else {
            lemma_keep_keys(s.drop_last(), f, k);
            let j = akeys(s.drop_last()).index_of(k);
            assert(akeys(s)[j] == k);
        }
    }
}

/// Keeping a part of a list with distinct keys keeps the keys distinct.
pub proof fn lemma_keep_unique<K, V>(s: Seq<(K, V)>, f: spec_fn((K, V)) -> bool)
    requires
        unique_keys(s),
    ensures
        unique_keys(keep(s, f)),
    decreases s.len(),
{
    if s.len() > 0 {
        let d = s.drop_last();
        assert(akeys(d) =~= akeys(s).drop_last());
        lemma_keep_unique(d, f);
        if f(s.last()) {
            let r = keep(d, f);
            assert(akeys(r.push(s.last())) =~= akeys(r).push(s.last().0));
            if akeys(r).contains(s.last().0) {
                lemma_keep_keys(d, f, s.last().0);
                let j = akeys(d).index_of(s.last().0);
                assert(akeys(s)[j] == akeys(s)[s.len() - 1]);
            }
        }
    }
}

/// Keeping a part of a list never lengthens it.
pub proof fn lemma_keep_len<A>(s: Seq<A>, f: spec_fn(A) -> bool)
    ensures
        keep(s, f).len() <= s.len(),
    decreases s.len(),
{
    if s.len() > 0 {
        lemma_keep_len(s.drop_last(), f);
    }
}

} // verus!
