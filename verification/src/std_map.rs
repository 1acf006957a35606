//! What the multimap takes from `std::collections::HashMap` beyond the
//! methods that vstd specifies. Verus takes the contracts in this file on
//! trust.

use std::borrow::Borrow;
use std::collections::HashMap;
use std::hash::Hash;
use vstd::prelude::*;
use vstd::std_specs::hash::{contains_borrowed_key, maps_borrowed_key_to_value, obeys_key_model};

verus! {

/// `HashMap::get_mut`: a mutable reference to the value that the map stores
/// under the key with the borrowed form `k`, or nothing where it has no such
/// key. Where there is one, the map ends as it began but for that key, under
/// which it holds what the caller leaves behind the reference.
#[verifier::external_body]
pub(crate) fn stored_mut<'a, K, V, Q>(m: &'a mut HashMap<K, V>, k: &Q) -> (found: Option<&'a mut V>)
    where
        K: Borrow<Q> + Hash + Eq,
        Q: Hash + Eq + ?Sized,
    ensures
        obeys_key_model::<K>() ==> match found {
            Some(v) => {
                &&& maps_borrowed_key_to_value(old(m)@, k, *v)
                &&& maps_borrowed_key_to_value(final(m)@, k, *final(v))
                &&& exists|key: K|
                    #![trigger old(m)@.contains_key(key)]
                    old(m)@.contains_key(key) && old(m)@[key] == *v
                        && final(m)@ == old(m)@.insert(key, *final(v))
            },
            None => !contains_borrowed_key(old(m)@, k) && final(m)@ == old(m)@,
        },
{
    m.get_mut(k)
}

/// `Vec::from_iter` on a `HashMap`: the map's pairs of key and value, each of
/// them once, in the order in which the map hands them out.
#[verifier::external_body]
pub(crate) fn drained<K, V>(m: HashMap<K, V>) -> (pairs: Vec<(K, V)>)
    ensures
        obeys_key_model::<K>() ==> {
            &&& pairs@.len() == m@.len()
            &&& pairs@.to_set() == m@.kv_pairs()
        },
{
    Vec::from_iter(m)
}

} // verus!
