//! A quick bidirectional map: each insertion is recorded both from key to value
//! and from value to key.

use vstd::prelude::*;
use std::collections::HashMap;
use std::collections::hash_map::{Keys, Iter};
use std::hash::Hash;
use vstd::std_specs::hash::obeys_key_model;
use vstd::pervasive::cloned;
use vstd::std_specs::iter::IteratorSpec;

verus! {

broadcast use vstd::std_specs::hash::group_hash_axioms;

/// A map from keys to values together with the map back from values to keys.
pub struct BiMap<K: Eq + Clone + Hash, V: Eq + Clone + Hash> {
    forward: HashMap<K, V>,
    reverse: HashMap<V, K>,
}

/// Both key types follow the hash-table model (deterministic hashing, `==` is
/// equality, `clone` copies).
pub open spec fn keys_obey_model<K, V>() -> bool {
    obeys_key_model::<K>() && obeys_key_model::<V>()
}

impl<K: Eq + Clone + Hash, V: Eq + Clone + Hash> BiMap<K, V> {
    /// The map from keys to values.
    pub closed spec fn forward_map(&self) -> Map<K, V> {
        self.forward@
    }

    /// The map from values to keys.
    pub closed spec fn reverse_map(&self) -> Map<V, K> {
        self.reverse@
    }

    /// An empty bimap.
    pub fn new() -> (r: Self)
        ensures
            r.forward_map() == Map::<K, V>::empty(),
            r.reverse_map() == Map::<V, K>::empty(),
    {
        BiMap { forward: HashMap::new(), reverse: HashMap::new() }
    }

    /// Maps `key` to `val` and `val` to `key`. (A value that `key` mapped to
    /// before keeps mapping back to `key`.)
    pub fn insert(&mut self, key: K, val: V)
        ensures
            keys_obey_model::<K, V>() ==> exists|k2: K, v2: V|
                {
                    &&& cloned(key, k2)
                    &&& cloned(val, v2)
                    &&& final(self).forward_map() == old(self).forward_map().insert(k2, v2)
                    &&& final(self).reverse_map() == old(self).reverse_map().insert(val, key)
                },
    {
        let k2 = key.clone();
        let v2 = val.clone();
        let ghost gk = k2;
        let ghost gv = v2;
        let ghost gkey = key;
        let ghost gval = val;
        self.forward.insert(k2, v2);
        self.reverse.insert(val, key);
        assert(keys_obey_model::<K, V>() ==> {
            &&& cloned(gkey, gk)
            &&& cloned(gval, gv)
            &&& self.forward_map() == old(self).forward_map().insert(gk, gv)
            &&& self.reverse_map() == old(self).reverse_map().insert(gval, gkey)
        });
    }

    /// The value `key` maps to.
    pub fn get_forward(&self, key: &K) -> (r: Option<&V>)
        ensures
            keys_obey_model::<K, V>() ==> match r {
                Some(v) => self.forward_map().contains_key(*key) && self.forward_map()[*key] == *v,
                None => !self.forward_map().contains_key(*key),
            },
    {
        self.forward.get(key)
    }

    /// The key `val` maps back to.
    pub fn get_reverse(&self, val: &V) -> (r: Option<&K>)
        ensures
            keys_obey_model::<K, V>() ==> match r {
                Some(k) => self.reverse_map().contains_key(*val) && self.reverse_map()[*val] == *k,
                None => !self.reverse_map().contains_key(*val),
            },
    {
        self.reverse.get(val)
    }

    /// Empties both directions.
    pub fn clear(&mut self)
        ensures
            final(self).forward_map() == Map::<K, V>::empty(),
            final(self).reverse_map() == Map::<V, K>::empty(),
    {
        self.forward.clear();
        self.reverse.clear();
    }

    /// The keys of the forward map.
    pub fn keys(&self) -> (r: Keys<'_, K, V>)
        ensures
            keys_obey_model::<K, V>() ==> r.remaining().unref().to_set() == self.forward_map().dom()
                && r.remaining().no_duplicates(),
    {
        self.forward.keys()
    }

    /// The pairs of the forward map.
    pub fn iter(&self) -> (r: Iter<'_, K, V>)
        ensures
            keys_obey_model::<K, V>() ==> r.remaining().len() == self.forward_map().dom().len()
                && r.remaining().no_duplicates() && forall|i: int|
                0 <= i < r.remaining().len() ==> self.forward_map().contains_key(
                    *(#[trigger] r.remaining()[i]).0,
                ) && self.forward_map()[*r.remaining()[i].0] == *r.remaining()[i].1,
    {
        self.forward.iter()
    }
}

impl<K: Eq + Clone + Hash, V: Eq + Clone + Hash> Default for BiMap<K, V> {
    fn default() -> (r: Self)
        ensures
            r.forward_map() == Map::<K, V>::empty(),
            r.reverse_map() == Map::<V, K>::empty(),
    {
        BiMap::new()
    }
}

} // verus!
