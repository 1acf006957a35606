//! The multimap as mathematics: a map from keys to groups, and what each
//! operation makes of it.

use vstd::prelude::*;
use crate::oom::{Group, OneOrMany};

verus! {

/// The groups behind a map of stored groups, key by key.
pub open spec fn groups<K, V>(stored: Map<K, OneOrMany<V>>) -> Map<K, Group<V>> {
    stored.map_values(|g: OneOrMany<V>| g@)
}

/// The pairs of key and group behind a sequence of pairs of key and stored
/// group, in the same order.
pub open spec fn group_pairs<K, V>(pairs: Seq<(K, OneOrMany<V>)>) -> Seq<(K, Group<V>)> {
    pairs.map_values(|pair: (K, OneOrMany<V>)| (pair.0, pair.1@))
}

/// A sequence that holds the pairs of a map of stored groups holds, each
/// pair taken by its value, the pairs of the map of groups behind it.
pub proof fn lemma_group_pairs<K, V>(stored: Map<K, OneOrMany<V>>, pairs: Seq<(K, OneOrMany<V>)>)
    requires
        pairs.to_set() == stored.kv_pairs(),
    ensures
        group_pairs(pairs).to_set() == groups(stored).kv_pairs(),
        groups(stored).dom() == stored.dom(),
{
    let shown = group_pairs(pairs);
    assert forall|p: (K, Group<V>)| shown.to_set().contains(p) <==> groups(
        stored,
    ).kv_pairs().contains(p) by {
        if shown.to_set().contains(p) {
            let i = choose|i: int| 0 <= i < shown.len() && shown[i] == p;
            assert(pairs.to_set().contains(pairs[i]));
        }
        if groups(stored).kv_pairs().contains(p) {
            let held = (p.0, stored[p.0]);
            assert(pairs.to_set().contains(held));
            let i = choose|i: int| 0 <= i < pairs.len() && pairs[i] == held;
            assert(shown[i] == p);
        }
    }
}

/// The one value of a looked-up group, where there is a group and it is
/// single.
pub open spec fn single_of<V>(held: Option<Group<V>>) -> Option<V> {
    match held {
        Some(g) => g.single(),
        None => None,
    }
}

/// The values of a looked-up group, where there is a group and it is one of
/// many.
pub open spec fn many_of<V>(held: Option<Group<V>>) -> Option<Seq<V>> {
    match held {
        Some(g) => g.many(),
        None => None,
    }
}

/// The map after `v` is stored under `k`: alone where the map had no group
/// under `k`, and else as the last value of the group there.
pub open spec fn inserted<K, V>(m: Map<K, Group<V>>, k: K, v: V) -> Map<K, Group<V>> {
    m.insert(
        k,
        match m.get(k) {
            Some(g) => g.grow(v),
            None => Group::Single(v),
        },
    )
}

/// The map after the values of `vs` are stored under `k` one after another,
/// from the first to the last.
pub open spec fn inserted_all<K, V>(m: Map<K, Group<V>>, k: K, vs: Seq<V>) -> Map<K, Group<V>>
    decreases vs.len(),
{
    if vs.len() == 0 {
        m
    } else {
        inserted(inserted_all(m, k, vs.drop_last()), k, vs.last())
    }
}

/// The map after each pair of `pairs`, from the first to the last, is put
/// into it as it is, in place of whatever group its key had.
pub open spec fn merged<K, V>(m: Map<K, Group<V>>, pairs: Seq<(K, Group<V>)>) -> Map<K, Group<V>>
    decreases pairs.len(),
{
    if pairs.len() == 0 {
        m
    } else {
        merged(m, pairs.drop_last()).insert(pairs.last().0, pairs.last().1)
    }
}

/// Whether `after` is `before` but for one key, under which `before` has the
/// group `was` and `after` the group `now`.
pub open spec fn regrouped<K, V>(
    before: Map<K, Group<V>>,
    after: Map<K, Group<V>>,
    was: Group<V>,
    now: Group<V>,
) -> bool {
    exists|key: K|
        #![trigger before.get(key)]
        before.get(key) == Some(was) && after == before.insert(key, now)
}

/// Whether every key of the map has a group with at least one value.
pub open spec fn populated<K, V>(m: Map<K, Group<V>>) -> bool {
    forall|k: K| m.contains_key(k) ==> (#[trigger] m[k]).len() >= 1
}

/// Whether every group of the map is in the form that storing values one by
/// one gives it.
pub open spec fn compact<K, V>(m: Map<K, Group<V>>) -> bool {
    forall|k: K| m.contains_key(k) ==> (#[trigger] m[k]).compact()
}

} // verus!
