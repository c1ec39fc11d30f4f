//! An ordered map.

use vstd::prelude::*;
use vstd::laws_cmp::obeys_cmp;
use vstd::std_specs::btree::{increasing_seq, key_obeys_cmp_spec};
use vstd::std_specs::iter::IteratorSpec;
use std::collections::BTreeMap;
use std::collections::btree_map::Iter;

verus! {

/// A map that keeps its keys in ascending order.
///
/// What the methods promise holds for key types whose comparison is a total
/// order that Verus knows of, such as the integers.
#[derive(Clone, Debug)]
pub struct ExchangeMap<K, V> {
    map: BTreeMap<K, V>,
}

impl<K, V> View for ExchangeMap<K, V> {
    type V = Map<K, V>;

    closed spec fn view(&self) -> Map<K, V> {
        self.map@
    }
}

impl<K: PartialOrd + Ord, V> ExchangeMap<K, V> {
    pub fn new() -> (map: Self)
        ensures
            map@ == Map::<K, V>::empty(),
    {
        ExchangeMap { map: BTreeMap::new() }
    }

    /// Binds `key` to `value`; the answer is the value it was bound to before.
    pub fn insert(&mut self, key: K, value: V) -> (before: Option<V>)
        ensures
            obeys_cmp::<K>() ==> final(self)@ == old(self)@.insert(key, value) && before == (if old(
                self,
            )@.contains_key(key) {
                Some(old(self)@[key])
            } else {
                None
            }),
    {
        self.map.insert(key, value)
    }

    pub fn clear(&mut self)
        ensures
            final(self)@ == Map::<K, V>::empty(),
    {
        self.map.clear();
    }

    /// The value that `key` is bound to, if it is bound.
    pub fn get(&self, key: &K) -> (found: Option<&V>)
        ensures
            obeys_cmp::<K>() ==> match found {
                Some(value) => self@.contains_key(*key) && *value == self@[*key],
                None => !self@.contains_key(*key),
            },
    {
        broadcast use vstd::std_specs::btree::group_btree_axioms;

        self.map.get(key)
    }

    /// The bindings in ascending order of their keys, each once.
    pub fn iter(&self) -> (bindings: Iter<'_, K, V>)
        ensures
            key_obeys_cmp_spec::<K>() ==> {
                &&& bindings.remaining().unref().to_set() == self@.kv_pairs()
                &&& bindings.remaining().no_duplicates()
                &&& bindings.remaining().len() == self@.dom().len()
                &&& increasing_seq(bindings.remaining().map_values(|kv: (&K, &V)| *kv.0))
            },
    {
        broadcast use vstd::std_specs::btree::group_btree_axioms;

        self.map.iter()
    }

    pub fn contains_key(&self, key: &K) -> (found: bool)
        ensures
            obeys_cmp::<K>() ==> found == self@.contains_key(*key),
    {
        broadcast use vstd::std_specs::btree::group_btree_axioms;

        self.map.contains_key(key)
    }

    pub fn len(&self) -> (count: usize)
        ensures
            obeys_cmp::<K>() ==> count == self@.len(),
    {
        broadcast use vstd::std_specs::btree::group_btree_axioms;

        self.map.len()
    }

    pub fn is_empty(&self) -> (empty: bool)
        ensures
            obeys_cmp::<K>() ==> empty == (self@.len() == 0),
    {
        broadcast use vstd::std_specs::btree::group_btree_axioms;

        self.map.len() == 0
    }
}

} // verus!
