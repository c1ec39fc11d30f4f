//! An ordered set.

use vstd::prelude::*;
use vstd::laws_cmp::obeys_cmp;
use vstd::std_specs::btree::{increasing_seq, key_obeys_cmp_spec};
use vstd::std_specs::iter::IteratorSpec;
use std::collections::BTreeSet;
use std::collections::btree_set::Iter;

verus! {

/// A set that keeps its items in ascending order.
///
/// What the methods promise holds for item types whose comparison is a
/// total order that Verus knows of, such as the integers.
#[derive(Clone, Debug)]
pub struct ExchangeSet<T> {
    set: BTreeSet<T>,
}

impl<T> View for ExchangeSet<T> {
    type V = Set<T>;

    closed spec fn view(&self) -> Set<T> {
        self.set@
    }
}

impl<T: PartialOrd + Ord> ExchangeSet<T> {
    pub fn new() -> (set: Self)
        ensures
            set@ == Set::<T>::empty(),
    {
        ExchangeSet { set: BTreeSet::new() }
    }

    /// Adds `value`; the answer is whether it was new.
    pub fn insert(&mut self, value: T) -> (added: bool)
        ensures
            obeys_cmp::<T>() ==> final(self)@ == old(self)@.insert(value) && added == !old(
                self,
            )@.contains(value),
    {
        self.set.insert(value)
    }

    pub fn clear(&mut self)
        ensures
            final(self)@ == Set::<T>::empty(),
    {
        self.set.clear();
    }

    /// The item of the set equal to `value`, if there is one.
    pub fn get(&self, value: &T) -> (found: Option<&T>)
        ensures
            obeys_cmp::<T>() ==> match found {
                Some(item) => self@.contains(*value) && *item == *value,
                None => !self@.contains(*value),
            },
    {
        broadcast use vstd::std_specs::btree::group_btree_axioms;

        self.set.get(value)
    }

    /// The items in ascending order, each once.
    pub fn iter(&self) -> (items: Iter<'_, T>)
        ensures
            key_obeys_cmp_spec::<T>() ==> {
                &&& items.remaining().unref().to_set() == self@
                &&& items.remaining().no_duplicates()
                &&& items.remaining().len() == self@.len()
                &&& increasing_seq(items.remaining())
            },
    {
        broadcast use vstd::std_specs::btree::group_btree_axioms;

        self.set.iter()
    }

    pub fn contains(&self, value: &T) -> (found: bool)
        ensures
            obeys_cmp::<T>() ==> found == self@.contains(*value),
    {
        broadcast use vstd::std_specs::btree::group_btree_axioms;

        self.set.contains(value)
    }

    pub fn len(&self) -> (count: usize)
        ensures
            obeys_cmp::<T>() ==> count == self@.len(),
    {
        broadcast use vstd::std_specs::btree::group_btree_axioms;

        self.set.len()
    }

    pub fn is_empty(&self) -> (empty: bool)
        ensures
            obeys_cmp::<T>() ==> empty == (self@.len() == 0),
    {
        broadcast use vstd::std_specs::btree::group_btree_axioms;

        self.set.len() == 0
    }
}

} // verus!
