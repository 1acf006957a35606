//! What holds of the operations of the multimap, whatever the keys and
//! values. Each statement is about the map as mathematics: `inserted` is what
//! `insert` makes of a map, `merged` what `extend` makes of it, and by
//! `lemma_lookup_by_key` a lookup by a key `k` itself finds `m.get(k)`, of
//! which `get_if_single` hands out `single_of` and `get_if_multiple` hands
//! out `many_of`.

use vstd::prelude::*;
use crate::model::{compact, inserted, inserted_all, many_of, merged, populated, single_of};
use crate::oom::Group;

verus! {

/// A value stored under a key of an empty map is found there as a single
/// value, and not as one of many.
pub proof fn law_single_insert<K, V>(k: K, v: V)
    ensures
        single_of(inserted(Map::<K, Group<V>>::empty(), k, v).get(k)) == Some(v),
        many_of(inserted(Map::<K, Group<V>>::empty(), k, v).get(k)) is None,
{
}

/// Two values stored one after the other under a key that the map did not
/// have are found there as a group of many, the first before the second, and
/// not as a single value.
pub proof fn law_promotion<K, V>(m: Map<K, Group<V>>, k: K, v1: V, v2: V)
    requires
        !m.contains_key(k),
    ensures
        many_of(inserted(inserted(m, k, v1), k, v2).get(k)) == Some(seq![v1, v2]),
        single_of(inserted(inserted(m, k, v1), k, v2).get(k)) is None,
{
}

/// Storing a value changes the group of its key and no other: the group
/// holds the values that it held, in their order, and then the new one,
/// whether or not it is equal to one of them.
pub proof fn law_insert_appends<K, V>(m: Map<K, Group<V>>, k: K, v: V)
    ensures
        inserted(m, k, v).contains_key(k),
        inserted(m, k, v)[k].values() == match m.get(k) {
            Some(g) => g.values().push(v),
            None => seq![v],
        },
        inserted(m, k, v).remove(k) == m.remove(k),
{
}

/// Values stored one after another under a key that the map did not have
/// are found there in the order in which they came, none left out and none
/// moved: a single value alone, two or more as a group of many.
pub proof fn law_accumulation<K, V>(m: Map<K, Group<V>>, k: K, vs: Seq<V>)
    requires
        !m.contains_key(k),
        vs.len() >= 1,
    ensures
        vs.len() == 1 ==> inserted_all(m, k, vs).get(k) == Some(Group::Single(vs[0])),
        vs.len() >= 2 ==> many_of(inserted_all(m, k, vs).get(k)) == Some(vs),
        inserted_all(m, k, vs).remove(k) == m,
    decreases vs.len(),
{
    let before = inserted_all(m, k, vs.drop_last());
    if vs.len() >= 2 {
        law_accumulation(m, k, vs.drop_last());
        law_insert_appends(before, k, vs.last());
    }
}

/// Three values stored one after another under a key that the map did not
/// have are found there as a group of many, in the order in which they came.
pub proof fn law_three_inserts<K, V>(m: Map<K, Group<V>>, k: K, v1: V, v2: V, v3: V)
    requires
        !m.contains_key(k),
    ensures
        many_of(inserted(inserted(inserted(m, k, v1), k, v2), k, v3).get(k)) == Some(
            seq![v1, v2, v3],
        ),
{
}

/// What a key has before a value is stored under it, which is what `insert`
/// returns a copy of: nothing before the first value, the first value alone
/// before the second, and the first two as a group of many before the third.
pub proof fn law_previous_group<K, V>(m: Map<K, Group<V>>, k: K, v1: V, v2: V)
    requires
        !m.contains_key(k),
    ensures
        m.get(k) is None,
        inserted(m, k, v1).get(k) == Some(Group::Single(v1)),
        inserted(inserted(m, k, v1), k, v2).get(k) == Some(Group::Many(seq![v1, v2])),
{
}

/// A key that was taken out of the map is not found there, and a value
/// stored under it afterwards is alone in its group, whatever the key had
/// before.
pub proof fn law_remove_clears<K, V>(m: Map<K, Group<V>>, k: K, v: V)
    ensures
        m.remove(k).get(k) is None,
        inserted(m.remove(k), k, v) == m.insert(k, Group::Single(v)),
        single_of(inserted(m.remove(k), k, v).get(k)) == Some(v),
        many_of(inserted(m.remove(k), k, v).get(k)) is None,
{
}

/// The keys of the map are those under which a value was stored and which
/// were not taken out since: storing a value adds its key, taking a key out
/// removes it, and neither touches another key.
pub proof fn law_keys<K, V>(m: Map<K, Group<V>>, k: K, v: V)
    ensures
        inserted(m, k, v).dom() == m.dom().insert(k),
        m.remove(k).dom() == m.dom().remove(k),
        forall|j: K| j != k ==> inserted(m, k, v).get(j) == m.get(j),
        forall|j: K| j != k ==> m.remove(k).get(j) == m.get(j),
{
}

/// A pair merged into the map takes the place of the group that its key
/// had: nothing of that group stays, unlike when a value is stored.
pub proof fn law_merge_overwrites<K, V>(m: Map<K, Group<V>>, k: K, g: Group<V>)
    ensures
        merged(m, seq![(k, g)]) == m.insert(k, g),
        merged(m, seq![(k, g)]).get(k) == Some(g),
{
    assert(merged(m, seq![(k, g)].drop_last()) == m);
}

/// Of the pairs merged into the map, the last one for a key is the one whose
/// group the key has afterwards.
pub proof fn law_last_pair_stays<K, V>(m: Map<K, Group<V>>, pairs: Seq<(K, Group<V>)>, i: int)
    requires
        0 <= i < pairs.len(),
        forall|j: int| i < j < pairs.len() ==> (#[trigger] pairs[j]).0 != pairs[i].0,
    ensures
        merged(m, pairs).get(pairs[i].0) == Some(pairs[i].1),
    decreases pairs.len(),
{
    if i < pairs.len() - 1 {
        law_last_pair_stays(m, pairs.drop_last(), i);
    }
}

/// A key that none of the merged pairs names has afterwards what it had
/// before.
pub proof fn law_merge_keeps_others<K, V>(m: Map<K, Group<V>>, pairs: Seq<(K, Group<V>)>, k: K)
    requires
        forall|j: int| 0 <= j < pairs.len() ==> (#[trigger] pairs[j]).0 != k,
    ensures
        merged(m, pairs).get(k) == m.get(k),
    decreases pairs.len(),
{
    if pairs.len() > 0 {
        law_merge_keeps_others(m, pairs.drop_last(), k);
    }
}

/// No key is left with an empty group: the empty map has none, storing a
/// value and taking a key out make none, and putting a group into the map as
/// it is makes none unless that group is empty.
pub proof fn law_populated_kept<K, V>(m: Map<K, Group<V>>, k: K, v: V, g: Group<V>)
    requires
        populated(m),
    ensures
        populated(Map::<K, Group<V>>::empty()),
        populated(inserted(m, k, v)),
        populated(m.remove(k)),
        g.len() >= 1 ==> populated(m.insert(k, g)),
{
}

/// Storing values and taking keys out keep every group in the form in which
/// a group of many holds at least two values: the empty map is so, and a map
/// that is so stays so.
pub proof fn law_compact_kept<K, V>(m: Map<K, Group<V>>, k: K, v: V)
    requires
        compact(m),
    ensures
        compact(Map::<K, Group<V>>::empty()),
        compact(inserted(m, k, v)),
        compact(m.remove(k)),
{
}

/// In a map whose groups are all in that form, no key has an empty group,
/// and a key has a single value exactly when its group holds one value.
pub proof fn law_compact_groups<K, V>(m: Map<K, Group<V>>, k: K)
    requires
        compact(m),
        m.contains_key(k),
    ensures
        m[k].len() >= 1,
        m[k] is Single <==> m[k].len() == 1,
{
}

} // verus!
