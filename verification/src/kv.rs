//! Association lists with unique keys: the spec-level model shared by the
//! engine's transition registry and its per-event timestamp map.

use vstd::prelude::*;

verus! {

/// No key occurs twice in the list.
pub open spec fn keys_unique<K, V>(s: Seq<(K, V)>) -> bool {
    forall|i: int, j: int| 0 <= i < j < s.len() ==> s[i].0 != s[j].0
}

/// The finite map an association list denotes (later entries win).
pub open spec fn map_of<K, V>(s: Seq<(K, V)>) -> Map<K, V>
    decreases s.len(),
{
    if s.len() == 0 {
        Map::empty()
    } else {
        map_of(s.drop_last()).insert(s.last().0, s.last().1)
    }
}

/// The value stored for the first entry with the given key, if any.
pub open spec fn spec_lookup<K, V>(s: Seq<(K, V)>, k: K) -> Option<V>
    decreases s.len(),
{
    if s.len() == 0 {
        None
    } else if s[0].0 == k {
        Some(s[0].1)
    } else {
        spec_lookup(s.drop_first(), k)
    }
}

pub proof fn lemma_lookup_first_match<K, V>(s: Seq<(K, V)>, k: K, i: int)
    requires
        0 <= i < s.len(),
        s[i].0 == k,
        forall|j: int| 0 <= j < i ==> s[j].0 != k,
    ensures
        spec_lookup(s, k) == Some(s[i].1),
    decreases i,
{
    if i == 0 {
    } else {
        lemma_lookup_first_match(s.drop_first(), k, i - 1);
    }
}

pub proof fn lemma_lookup_no_match<K, V>(s: Seq<(K, V)>, k: K)
    requires
        forall|j: int| 0 <= j < s.len() ==> s[j].0 != k,
    ensures
        spec_lookup(s, k) == None::<V>,
    decreases s.len(),
{
    if s.len() > 0 {
        lemma_lookup_no_match(s.drop_first(), k);
    }
}

pub proof fn lemma_map_of_contains<K, V>(s: Seq<(K, V)>, k: K)
    ensures
        map_of(s).contains_key(k) <==> exists|i: int| 0 <= i < s.len() && s[i].0 == k,
    decreases s.len(),
{
    if s.len() > 0 {
        lemma_map_of_contains(s.drop_last(), k);
        if map_of(s).contains_key(k) {
            if s.last().0 == k {
                assert(s[s.len() - 1].0 == k);
            } else {
                let i = choose|i: int| 0 <= i < s.len() - 1 && s.drop_last()[i].0 == k;
                assert(s[i].0 == k);
            }
        }
        if exists|i: int| 0 <= i < s.len() && s[i].0 == k {
            let i = choose|i: int| 0 <= i < s.len() && s[i].0 == k;
            if i < s.len() - 1 {
                assert(s.drop_last()[i].0 == k);
            }
        }
    }
}

/// Updating the entry at an existing key yields the map with that key
/// re-bound, provided keys are unique.
pub proof fn lemma_map_of_update<K, V>(s: Seq<(K, V)>, i: int, v: V)
    requires
        keys_unique(s),
        0 <= i < s.len(),
    ensures
        map_of(s.update(i, (s[i].0, v))) =~= map_of(s).insert(s[i].0, v),
    decreases s.len(),
{
    let k = s[i].0;
    let t = s.update(i, (k, v));
    if i == s.len() - 1 {
        assert(t.drop_last() =~= s.drop_last());
        lemma_map_of_not_contains(s.drop_last(), k);
    } else {
        assert(t.drop_last() =~= s.drop_last().update(i, (k, v)));
        assert(s.drop_last()[i] == s[i]);
        lemma_map_of_update(s.drop_last(), i, v);
        assert(t.last() == s.last());
    }
}

/// A key absent from the list is absent from its map.
pub proof fn lemma_map_of_not_contains<K, V>(s: Seq<(K, V)>, k: K)
    requires
        forall|j: int| 0 <= j < s.len() ==> s[j].0 != k,
    ensures
        !map_of(s).contains_key(k),
    decreases s.len(),
{
    if s.len() > 0 {
        lemma_map_of_not_contains(s.drop_last(), k);
    }
}

/// Appending a fresh key binds it in the map.
pub proof fn lemma_map_of_push<K, V>(s: Seq<(K, V)>, k: K, v: V)
    ensures
        map_of(s.push((k, v))) =~= map_of(s).insert(k, v),
{
    assert(s.push((k, v)).drop_last() =~= s);
}

/// With unique keys, the map binds each listed key to its listed value.
pub proof fn lemma_map_of_get<K, V>(s: Seq<(K, V)>, i: int)
    requires
        keys_unique(s),
        0 <= i < s.len(),
    ensures
        map_of(s).contains_key(s[i].0),
        map_of(s)[s[i].0] == s[i].1,
    decreases s.len(),
{
    if i < s.len() - 1 {
        lemma_map_of_get(s.drop_last(), i);
    }
}

/// With unique keys, first-match lookup agrees with the denoted map.
pub proof fn lemma_lookup_map_of<K, V>(s: Seq<(K, V)>, k: K)
    requires
        keys_unique(s),
    ensures
        spec_lookup(s, k) == (if map_of(s).contains_key(k) {
            Some(map_of(s)[k])
        } else {
            None::<V>
        }),
{
    lemma_map_of_contains(s, k);
    if exists|i: int| 0 <= i < s.len() && s[i].0 == k {
        let i = choose|i: int| 0 <= i < s.len() && s[i].0 == k;
        assert(forall|j: int| 0 <= j < i ==> s[j].0 != k);
        lemma_lookup_first_match(s, k, i);
        lemma_map_of_get(s, i);
    } else {
        lemma_lookup_no_match(s, k);
    }
}

/// Equality test for values whose `==` is known to coincide with
/// mathematical equality.
pub fn val_eq<T: PartialEq + Copy>(a: T, b: T) -> (r: bool)
    requires
        vstd::laws_eq::obeys_concrete_eq::<T>(),
    ensures
        r == (a == b),
{
    proof {
        reveal(vstd::laws_eq::obeys_concrete_eq);
    }
    a == b
}

} // verus!
