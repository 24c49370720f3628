//! An insertion-ordered bag of key/value pairs.
//!
//! Like [`crate::ordered_multi_dict`], but keys and values may be inserted
//! separately: a caller that learns the key before the value can push the
//! key alone and supply the value later, and is responsible for keeping the
//! two columns in step.

use vstd::prelude::*;

verus! {

use vstd::std_specs::cmp::PartialEqSpec;
use crate::ordered_multi_dict::{lemma_spec_position_valid, position_of, spec_position};

/// Insertion-ordered bag over parallel key and value vectors.
#[derive(PartialEq, Debug)]
pub struct OrderedBag<K, V> {
    entries: Vec<V>,
    keys: Vec<K>,
}

/// Cursor for walking an [`OrderedBag`] front to back; each step is taken
/// against the bag it walks.
pub struct OrderedBagIterator {
    current: usize,
}

impl OrderedBagIterator {
    /// How many entries were already handed out.
    pub closed spec fn index(&self) -> int {
        self.current as int
    }

    /// The next key/value pair of `dict`, if any.
    pub fn next<'a, K, V>(&mut self, dict: &'a OrderedBag<K, V>) -> (r: Option<(&'a K, &'a V)>)
        requires
            dict.values_seq().len() <= dict.keys_seq().len(),
        ensures
            old(self).index() < dict.values_seq().len() ==> ({
                &&& r matches Some(kv)
                &&& *kv.0 == dict.keys_seq()[old(self).index()]
                &&& *kv.1 == dict.values_seq()[old(self).index()]
                &&& final(self).index() == old(self).index() + 1
            }),
            old(self).index() >= dict.values_seq().len() ==> r is None && final(self).index()
                == old(self).index(),
    {
        if self.current < dict.entries.len() {
            let r = (&dict.keys[self.current], &dict.entries[self.current]);
            self.current = self.current + 1;
            Some(r)
        } else {
            None
        }
    }
}

/// The key and value columns are structurally smaller than the bag itself,
/// so a recursive definition may descend from a bag into its columns.
pub broadcast proof fn lemma_bag_columns_decrease<K, V>(b: OrderedBag<K, V>)
    ensures
        #[trigger] (decreases_to!(b => b.keys_seq())),
        decreases_to!(b => b.values_seq()),
{
    broadcast use vstd::std_specs::vec::axiom_vec_decreases_to_view;

    assert(decreases_to!(b => b.keys));
    assert(decreases_to!(b => b.entries));
}

impl<K, V> OrderedBag<K, V> {
    /// The keys, in insertion order.
    pub closed spec fn keys_seq(&self) -> Seq<K> {
        self.keys@
    }

    /// The values, in insertion order.
    pub closed spec fn values_seq(&self) -> Seq<V> {
        self.entries@
    }

    pub fn new() -> (r: OrderedBag<K, V>)
        ensures
            r.keys_seq() == Seq::<K>::empty(),
            r.values_seq() == Seq::<V>::empty(),
    {
        let r = OrderedBag { entries: Vec::new(), keys: Vec::new() };
        proof {
            assert(r.keys_seq() =~= Seq::<K>::empty());
            assert(r.values_seq() =~= Seq::<V>::empty());
        }
        r
    }

    /// Appends the pair; an existing equal key is kept, not replaced.
    pub fn push(&mut self, key: K, value: V)
        ensures
            final(self).keys_seq() == old(self).keys_seq().push(key),
            final(self).values_seq() == old(self).values_seq().push(value),
    {
        self.keys.push(key);
        self.entries.push(value);
    }

    /// Appends a key without a value, for when the value is not known yet.
    /// The caller keeps track of which keys still lack one.
    pub fn insert_key_only(&mut self, key: K)
        ensures
            final(self).keys_seq() == old(self).keys_seq().push(key),
            final(self).values_seq() == old(self).values_seq(),
    {
        self.keys.push(key);
    }

    /// Appends a value without a key, completing an earlier
    /// [`Self::insert_key_only`].
    pub fn insert_value_only(&mut self, value: V)
        ensures
            final(self).keys_seq() == old(self).keys_seq(),
            final(self).values_seq() == old(self).values_seq().push(value),
    {
        self.entries.push(value);
    }

    /// Whether every key has its value.
    pub fn keys_and_values_in_sync(&self) -> (r: bool)
        ensures
            r == (self.keys_seq().len() == self.values_seq().len()),
    {
        self.keys.len() == self.entries.len()
    }

    /// The value of the first key equal to `key`, if any.  The match is
    /// whatever the key type's `==` accepted; for a key type whose `==`
    /// obeys its equality specification this is `spec_position`.
    pub fn get(&self, key: K) -> (r: Option<&V>) where K: PartialEq
        requires
            self.keys_seq().len() <= self.values_seq().len(),
        ensures
            self.keys_seq().len() == 0 ==> r is None,
            r matches Some(v) ==> (exists|i: int|
                {
                    &&& 0 <= i < self.keys_seq().len()
                    &&& #[trigger] call_ensures(K::eq, (&self.keys_seq()[i], &key), true)
                    &&& *v == self.values_seq()[i]
                    &&& forall|j: int|
                        0 <= j < i ==> #[trigger] call_ensures(
                            K::eq,
                            (&self.keys_seq()[j], &key),
                            false,
                        )
                }),
            r is None ==> forall|j: int|
                0 <= j < self.keys_seq().len() ==> #[trigger] call_ensures(
                    K::eq,
                    (&self.keys_seq()[j], &key),
                    false,
                ),
            K::obeys_eq_spec() ==> match spec_position(self.keys_seq(), key) {
                Some(i) => r matches Some(v) && *v == self.values_seq()[i],
                None => r is None,
            },
    {
        proof {
            lemma_spec_position_valid(self.keys_seq(), key);
        }
        let index = position_of(&self.keys, &key);
        match index {
            Some(i) => Some(&self.entries[i]),
            None => None,
        }
    }

    /// Removes the first pair whose key equals `key` (as the key type's
    /// `==` decides); absent keys are ignored.
    pub fn remove(&mut self, key: K) where K: PartialEq
        requires
            old(self).keys_seq().len() <= old(self).values_seq().len(),
        ensures
            (exists|i: int|
                {
                    &&& 0 <= i < old(self).keys_seq().len()
                    &&& #[trigger] call_ensures(K::eq, (&old(self).keys_seq()[i], &key), true)
                    &&& (forall|j: int|
                        0 <= j < i ==> #[trigger] call_ensures(
                            K::eq,
                            (&old(self).keys_seq()[j], &key),
                            false,
                        ))
                    &&& final(self).keys_seq() == old(self).keys_seq().remove(i)
                    &&& final(self).values_seq() == old(self).values_seq().remove(i)
                }) || ((forall|j: int|
                0 <= j < old(self).keys_seq().len() ==> #[trigger] call_ensures(
                    K::eq,
                    (&old(self).keys_seq()[j], &key),
                    false,
                )) && final(self).keys_seq() == old(self).keys_seq() && final(self).values_seq()
                == old(self).values_seq()),
            K::obeys_eq_spec() ==> match spec_position(old(self).keys_seq(), key) {
                Some(i) => final(self).keys_seq() == old(self).keys_seq().remove(i)
                    && final(self).values_seq() == old(self).values_seq().remove(i),
                None => final(self).keys_seq() == old(self).keys_seq() && final(self).values_seq()
                    == old(self).values_seq(),
            },
    {
        proof {
            lemma_spec_position_valid(old(self).keys_seq(), key);
        }
        let index = position_of(&self.keys, &key);
        match index {
            Some(i) => {
                self.keys.remove(i);
                self.entries.remove(i);
            },
            None => (),
        }
    }

    /// Number of values held.
    pub fn length(&self) -> (r: usize)
        ensures
            r == self.values_seq().len(),
    {
        self.entries.len()
    }

    /// A fresh cursor over this bag.
    pub fn iter(&self) -> (r: OrderedBagIterator)
        ensures
            r.index() == 0,
    {
        OrderedBagIterator { current: 0 }
    }
}

} // verus!
