//! A multimap that keeps the common case of one value per key compact: each
//! key has one group, which holds a single value until a second one is stored
//! under the key.
//!
//! The map is a `HashMap`, whose behaviour vstd describes for key types that
//! obey its key model. What the functions here promise, they promise for
//! such key types.

use std::borrow::Borrow;
use std::collections::hash_map::Iter;
use std::collections::HashMap;
use std::hash::Hash;
use std::vec::IntoIter;
use vstd::prelude::*;
use vstd::std_specs::hash::{
    contains_borrowed_key, maps_borrowed_key_to_value, obeys_key_model, spec_hash_map_iter,
};
use vstd::std_specs::iter::IteratorSpec;
use crate::model::{
    group_pairs, groups, inserted, lemma_group_pairs, many_of, merged, regrouped, single_of,
};
use crate::oom::{Group, OneOrMany};
use crate::std_map::{drained, stored_mut};

pub mod laws;
pub mod model;
pub mod oom;
mod std_map;

verus! {

/// A map from keys to groups of values.
pub struct Hasheimer<K, V>(pub HashMap<K, OneOrMany<V>>) where K: PartialEq + Eq + Hash;

impl<K, V> View for Hasheimer<K, V> where K: PartialEq + Eq + Hash {
    type V = Map<K, Group<V>>;

    open spec fn view(&self) -> Map<K, Group<V>> {
        groups(self.0@)
    }
}

impl<K, V> Hasheimer<K, V> where K: PartialEq + Eq + Hash {
    /// Whether `held` is what the map holds for the key with the borrowed
    /// form `k`: the group under that key, or nothing where the map has no
    /// such key.
    pub open spec fn lookup<Q: ?Sized>(&self, k: &Q, held: Option<Group<V>>) -> bool {
        match held {
            Some(g) => exists|stored: OneOrMany<V>|
                #[trigger] maps_borrowed_key_to_value(self.0@, k, stored) && stored@ == g,
            None => !contains_borrowed_key(self.0@, k),
        }
    }

    /// Looked up by a key itself, the map holds what its view has under that
    /// key, and nothing else.
    pub proof fn lemma_lookup_by_key(self, k: K)
        ensures
            forall|held: Option<Group<V>>| #[trigger] self.lookup(&k, held) <==> held == self@.get(k),
    {
        if self.0@.contains_key(k) {
            assert(maps_borrowed_key_to_value(self.0@, &k, self.0@[k]));
        }
    }

    /// A group changed through a reference that was looked up by a key
    /// itself is the group under that key.
    pub proof fn lemma_regrouped_by_key(self, after: Self, k: K, was: Group<V>, now: Group<V>)
        requires
            self.lookup(&k, Some(was)),
            after.lookup(&k, Some(now)),
            regrouped(self@, after@, was, now),
        ensures
            self@.get(k) == Some(was),
            after@ == self@.insert(k, now),
    {
        self.lemma_lookup_by_key(k);
        after.lemma_lookup_by_key(k);
    }

    /// An empty map.
    #[must_use]
    pub fn new() -> (map: Self)
        ensures
            map@ == Map::<K, Group<V>>::empty(),
    {
        Hasheimer(HashMap::new())
    }

    /// The group under the key with the borrowed form `k`.
    pub fn get<Q>(&self, k: &Q) -> (found: Option<&OneOrMany<V>>) where
        K: Borrow<Q>,
        Q: Hash + Eq + ?Sized,

        ensures
            obeys_key_model::<K>() ==> match found {
                Some(g) => self.lookup(k, Some(g@)),
                None => self.lookup(k, None),
            },
    {
        self.0.get(k)
    }

    /// The group under the key with the borrowed form `k`, to be changed in
    /// place. The map ends with whatever group the caller leaves there.
    pub fn get_mut<Q>(&mut self, k: &Q) -> (found: Option<&mut OneOrMany<V>>) where
        K: Borrow<Q>,
        Q: Hash + Eq + ?Sized,

        ensures
            obeys_key_model::<K>() ==> match found {
                Some(g) => {
                    &&& old(self).lookup(k, Some(g@))
                    &&& final(self).lookup(k, Some(final(g)@))
                    &&& regrouped(old(self)@, final(self)@, g@, final(g)@)
                },
                None => old(self).lookup(k, None) && final(self)@ == old(self)@,
            },
    {
        let found = stored_mut(&mut self.0, k);
        proof {
            if obeys_key_model::<K>() {
                if found is Some {
                    let key = choose|key: K|
                        #![trigger old(self).0@.contains_key(key)]
                        old(self).0@.contains_key(key) && old(self).0@[key] == *found->0
                            && after_borrow(*self).0@ == old(self).0@.insert(
                            key,
                            *final(found->0),
                        );
                    assert(old(self)@.get(key) == Some(found->0@));
                    assert(after_borrow(*self)@ =~= old(self)@.insert(key, final(found->0)@));
                }
            }
        }
        found
    }

    /// The value under the key with the borrowed form `k`, where its group is
    /// single.
    pub fn get_if_single<Q>(&self, k: &Q) -> (found: Option<&V>) where
        K: Borrow<Q>,
        Q: Hash + Eq + ?Sized,

        ensures
            obeys_key_model::<K>() ==> exists|held: Option<Group<V>>|
                #[trigger] self.lookup(k, held) && match found {
                    Some(v) => single_of(held) == Some(*v),
                    None => single_of(held) is None,
                },
    {
        let group = self.get(k);
        if let Some(OneOrMany::Single(v)) = group {
            Some(v)
        } else {
            None
        }
    }

    /// The values under the key with the borrowed form `k`, where its group
    /// is one of many.
    pub fn get_if_multiple<Q>(&self, k: &Q) -> (found: Option<&Vec<V>>) where
        K: Borrow<Q>,
        Q: Hash + Eq + ?Sized,

        ensures
            obeys_key_model::<K>() ==> exists|held: Option<Group<V>>|
                #[trigger] self.lookup(k, held) && match found {
                    Some(values) => many_of(held) == Some(values@),
                    None => many_of(held) is None,
                },
    {
        let group = self.get(k);
        if let Some(OneOrMany::Many(values)) = group {
            Some(values)
        } else {
            None
        }
    }

    /// Stores `v` under `k`, after the values that the key has already, and
    /// returns a copy of the group that the key had before.
    pub fn insert(&mut self, k: K, v: V) -> (previous: Option<OneOrMany<V>>) where V: Clone
        ensures
            obeys_key_model::<K>() ==> {
                &&& final(self)@ == inserted(old(self)@, k, v)
                &&& match previous {
                    Some(g) => old(self)@.contains_key(k) && old(self)@[k].cloned_as(g@),
                    None => !old(self)@.contains_key(k),
                }
            },
    {
        let replaced = self.remove(&k);
        match replaced {
            Some(OneOrMany::Single(first)) => {
                let previous = OneOrMany::Single(first.clone());
                self.raw_insert(k, OneOrMany::Many(vec![first, v]));
                Some(previous)
            },
            Some(OneOrMany::Many(mut values)) => {
                let previous = OneOrMany::Many(values.clone());
                values.push(v);
                self.raw_insert(k, OneOrMany::Many(values));
                Some(previous)
            },
            None => {
                self.raw_insert(k, OneOrMany::Single(v));
                None
            },
        }
    }

    /// Puts the group `v` under `k` as it is, in place of the group that the
    /// key had, and returns that group.
    pub fn raw_insert(&mut self, k: K, v: OneOrMany<V>) -> (previous: Option<OneOrMany<V>>)
        ensures
            obeys_key_model::<K>() ==> {
                &&& final(self)@ == old(self)@.insert(k, v@)
                &&& match previous {
                    Some(g) => old(self)@.get(k) == Some(g@),
                    None => old(self)@.get(k) is None,
                }
            },
    {
        self.0.insert(k, v)
    }

    /// Takes the key `k` out of the map, and returns the group that it had.
    pub fn remove(&mut self, k: &K) -> (removed: Option<OneOrMany<V>>)
        ensures
            obeys_key_model::<K>() ==> {
                &&& final(self)@ == old(self)@.remove(*k)
                &&& match removed {
                    Some(g) => old(self)@.get(*k) == Some(g@),
                    None => old(self)@.get(*k) is None,
                }
            },
    {
        self.0.remove(k)
    }

    /// A walk through the pairs of key and group, each of them once, in the
    /// order of the hash map.
    #[must_use]
    pub fn iter(&self) -> (walk: Iter<'_, K, OneOrMany<V>>)
        ensures
            obeys_key_model::<K>() ==> {
                &&& walk == spec_hash_map_iter(&self.0)
                &&& walk.decrease() is Some
                &&& walk.initial_value_relation(&walk)
                &&& walk.remaining().len() == self@.len()
                &&& group_pairs(walk.remaining().unref()).to_set() == self@.kv_pairs()
            },
    {
        let walk = self.0.iter();
        proof {
            if obeys_key_model::<K>() {
                lemma_group_pairs(self.0@, walk.remaining().unref());
            }
        }
        walk
    }

    /// Puts each pair of `pairs`, from the first to the last, into the map as
    /// it is: the group of a pair takes the place of the group that its key
    /// had, and the last pair for a key is the one that stays.
    pub fn extend(&mut self, pairs: Vec<(K, OneOrMany<V>)>)
        ensures
            obeys_key_model::<K>() ==> final(self)@ == merged(old(self)@, group_pairs(pairs@)),
    {
        let ghost all = group_pairs(pairs@);
        for pair in walk: pairs
            invariant
                all == group_pairs(walk.seq()),
                obeys_key_model::<K>() ==> self@ == merged(old(self)@, all.take(walk.index())),
        {
            assert(all.take(walk.index() + 1).drop_last() =~= all.take(walk.index()));
            self.raw_insert(pair.0, pair.1);
        }
        assert(all.take(all.len() as int) =~= all);
    }
}

impl<K, V> IntoIterator for Hasheimer<K, V> where K: PartialEq + Eq + Hash {
    type Item = (K, OneOrMany<V>);

    type IntoIter = IntoIter<(K, OneOrMany<V>)>;

    /// A walk through the pairs of key and group that uses the map up: each
    /// pair once, in the order of the hash map.
    fn into_iter(self) -> (walk: IntoIter<(K, OneOrMany<V>)>)
        ensures
            walk.decrease() is Some,
            walk.initial_value_relation(&walk),
            obeys_key_model::<K>() ==> {
                &&& walk.remaining().len() == self@.len()
                &&& group_pairs(walk.remaining()).to_set() == self@.kv_pairs()
            },
    {
        let pairs = drained(self.0);
        proof {
            if obeys_key_model::<K>() {
                lemma_group_pairs(self.0@, pairs@);
            }
        }
        pairs.into_iter()
    }
}

impl<K, V> Default for Hasheimer<K, V> where K: PartialEq + Eq + Hash {
    fn default() -> (map: Self)
        ensures
            map@ == Map::<K, Group<V>>::empty(),
    {
        Hasheimer::new()
    }
}

} // verus!
