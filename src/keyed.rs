//! A sequence of (key, value) entries read as a map.
use vstd::prelude::*;

verus! {

/// The map that the entries of `s` make, a later entry winning over an earlier
/// one with the same key.
pub open spec fn keyed<K, V>(s: Seq<(K, V)>) -> Map<K, V>
    decreases s.len(),
{
    if s.len() == 0 {
        Map::empty()
    } else {
        keyed(s.drop_last()).insert(s.last().0, s.last().1)
    }
}

/// No two entries of `s` share a key.
pub open spec fn unique_keys<K, V>(s: Seq<(K, V)>) -> bool {
    forall|i: int, j: int| 0 <= i < j < s.len() ==> s[i].0 != s[j].0
}

/// Adding an entry at the end stores its value under its key.
pub proof fn lemma_keyed_push<K, V>(s: Seq<(K, V)>, e: (K, V))
    ensures
        keyed(s.push(e)) == keyed(s).insert(e.0, e.1),
{
    assert(s.push(e).drop_last() =~= s);
}

/// With keys unique, each entry's value is what its key maps to.
pub proof fn lemma_keyed_index<K, V>(s: Seq<(K, V)>, i: int)
    requires
        unique_keys(s),
        0 <= i < s.len(),
    ensures
        keyed(s).contains_key(s[i].0),
        keyed(s)[s[i].0] == s[i].1,
    decreases s.len(),
{
    if i < s.len() - 1 {
        lemma_keyed_index(s.drop_last(), i);
    }
}

/// A key that no entry holds is not in the map.
pub proof fn lemma_keyed_absent<K, V>(s: Seq<(K, V)>, k: K)
    requires
        forall|i: int| 0 <= i < s.len() ==> s[i].0 != k,
    ensures
        !keyed(s).contains_key(k),
    decreases s.len(),
{
    if s.len() > 0 {
        lemma_keyed_absent(s.drop_last(), k);
    }
}

/// With keys unique, replacing an entry's value replaces the value under
/// its key.
pub proof fn lemma_keyed_update<K, V>(s: Seq<(K, V)>, i: int, v: V)
    requires
        unique_keys(s),
        0 <= i < s.len(),
    ensures
        keyed(s.update(i, (s[i].0, v))) == keyed(s).insert(s[i].0, v),
    decreases s.len(),
{
    let t = s.update(i, (s[i].0, v));
    if i == s.len() - 1 {
        assert(t.drop_last() =~= s.drop_last());
        assert(keyed(t) =~= keyed(s).insert(s[i].0, v));
    } else {
        let d = s.drop_last();
        assert(t.drop_last() =~= d.update(i, (d[i].0, v)));
        lemma_keyed_update(d, i, v);
        assert(keyed(t) =~= keyed(s).insert(s[i].0, v));
    }
}

} // verus!
