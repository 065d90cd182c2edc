//! Association sequences as maps.
//!
//! The catalogs of this crate hold their entries in vectors of key-value
//! pairs with distinct keys; contracts speak of them through the map
//! they denote. A later pair under the same key wins, matching
//! last-write-wins insertion.

use vstd::prelude::*;

verus! {

/// The map denoted by a sequence of key-value pairs; a later pair under
/// the same key wins.
pub open spec fn pairs_map<K, V>(s: Seq<(K, V)>) -> Map<K, V>
    decreases s.len(),
{
    if s.len() == 0 {
        Map::empty()
    } else {
        pairs_map(s.drop_last()).insert(s.last().0, s.last().1)
    }
}

/// No two pairs share a key.
pub open spec fn distinct_keys<K, V>(s: Seq<(K, V)>) -> bool {
    forall|p: int, q: int| 0 <= p < q < s.len() ==> (#[trigger] s[p]).0 != (#[trigger] s[q]).0
}

/// Every recorded key is in the map, and every key of the map was
/// recorded.
pub proof fn lemma_pairs_map_domain<K, V>(s: Seq<(K, V)>)
    ensures
        forall|i: int| 0 <= i < s.len() ==> pairs_map(s).contains_key((#[trigger] s[i]).0),
        forall|k: K|
            pairs_map(s).contains_key(k) ==> exists|i: int| 0 <= i < s.len() && (#[trigger] s[i]).0
                == k,
    decreases s.len(),
{
    if s.len() > 0 {
        lemma_pairs_map_domain(s.drop_last());
        assert forall|i: int| 0 <= i < s.len() implies pairs_map(s).contains_key(
            (#[trigger] s[i]).0,
        ) by {
            if i < s.len() - 1 {
                assert(s.drop_last()[i] == s[i]);
            }
        }
        assert forall|k: K| pairs_map(s).contains_key(k) implies exists|i: int|
            0 <= i < s.len() && (#[trigger] s[i]).0 == k by {
            if k != s.last().0 {
                assert(pairs_map(s.drop_last()).contains_key(k));
                let i = choose|i: int|
                    0 <= i < s.drop_last().len() && (#[trigger] s.drop_last()[i]).0 == k;
                assert(s[i] == s.drop_last()[i]);
            } else {
                assert(s[s.len() - 1].0 == k);
            }
        }
    }
}

/// A key recorded nowhere is not in the map.
pub proof fn lemma_pairs_map_absent<K, V>(s: Seq<(K, V)>, k: K)
    requires
        forall|i: int| 0 <= i < s.len() ==> (#[trigger] s[i]).0 != k,
    ensures
        !pairs_map(s).contains_key(k),
    decreases s.len(),
{
    if s.len() > 0 {
        assert forall|i: int| 0 <= i < s.drop_last().len() implies (#[trigger] s.drop_last()[
            i]).0 != k by {
            assert(s.drop_last()[i] == s[i]);
        }
        lemma_pairs_map_absent(s.drop_last(), k);
    }
}

/// With distinct keys, each pair gives the map's value at its key.
pub proof fn lemma_pairs_map_index<K, V>(s: Seq<(K, V)>, i: int)
    requires
        distinct_keys(s),
        0 <= i < s.len(),
    ensures
        pairs_map(s).contains_key(s[i].0),
        pairs_map(s)[s[i].0] == s[i].1,
    decreases s.len(),
{
    if i == s.len() - 1 {
        lemma_pairs_map_domain(s);
    } else {
        assert(s.drop_last()[i] == s[i]);
        lemma_pairs_map_index(s.drop_last(), i);
        assert(s.last().0 != s[i].0);
    }
}

/// Updating the pair that holds a key is inserting under that key.
pub proof fn lemma_pairs_map_update<K, V>(s: Seq<(K, V)>, i: int, v: (K, V))
    requires
        distinct_keys(s),
        0 <= i < s.len(),
        v.0 == s[i].0,
    ensures
        pairs_map(s.update(i, v)) == pairs_map(s).insert(v.0, v.1),
    decreases s.len(),
{
    let u = s.update(i, v);
    if i == s.len() - 1 {
        assert(u.drop_last() =~= s.drop_last());
        assert(pairs_map(u) =~= pairs_map(s).insert(v.0, v.1));
    } else {
        assert(u.drop_last() =~= s.drop_last().update(i, v));
        lemma_pairs_map_update(s.drop_last(), i, v);
        assert(u.last() == s.last());
        assert(s[i].0 == s.drop_last()[i].0);
        assert(s.last().0 != v.0);
        assert(pairs_map(u) =~= pairs_map(s).insert(v.0, v.1));
    }
}

/// Removing the pair that holds a key is removing that key.
pub proof fn lemma_pairs_map_remove<K, V>(s: Seq<(K, V)>, i: int)
    requires
        distinct_keys(s),
        0 <= i < s.len(),
    ensures
        pairs_map(s.remove(i)) == pairs_map(s).remove(s[i].0),
    decreases s.len(),
{
    let k = s[i].0;
    if i == s.len() - 1 {
        assert(s.remove(i) =~= s.drop_last());
        assert forall|j: int| 0 <= j < s.drop_last().len() implies (#[trigger] s.drop_last()[
            j]).0 != k by {
            assert(s.drop_last()[j] == s[j]);
        }
        lemma_pairs_map_absent(s.drop_last(), k);
        assert(pairs_map(s.drop_last()) =~= pairs_map(s).remove(k));
    } else {
        assert(s.remove(i).drop_last() =~= s.drop_last().remove(i));
        assert(s.drop_last()[i] == s[i]);
        lemma_pairs_map_remove(s.drop_last(), i);
        assert(s.remove(i).last() == s.last());
        assert(s.last().0 != k);
        assert(pairs_map(s.remove(i)) =~= pairs_map(s).remove(k));
    }
}

/// Distinct keys survive a removal.
pub proof fn lemma_distinct_keys_remove<K, V>(s: Seq<(K, V)>, i: int)
    requires
        distinct_keys(s),
        0 <= i < s.len(),
    ensures
        distinct_keys(s.remove(i)),
{
    let r = s.remove(i);
    assert forall|p: int, q: int| 0 <= p < q < r.len() implies (#[trigger] r[p]).0
        != (#[trigger] r[q]).0 by {
        let p0 = if p < i {
            p
        } else {
            p + 1
        };
        let q0 = if q < i {
            q
        } else {
            q + 1
        };
        assert(r[p] == s[p0]);
        assert(r[q] == s[q0]);
    }
}

} // verus!
