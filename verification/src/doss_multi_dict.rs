//! The string-keyed dictionary value tree of the binary stream format:
//! entries are scalars, lists or nested dictionaries, and one key may occur
//! many times, in insertion order.

use vstd::prelude::*;

verus! {

/// One value of the tree.
#[derive(PartialEq, Debug)]
pub enum OrderedMultiDictEntry {
    String { str: String },
    Decimal { int: usize },
    Null,
    List { list: Vec<OrderedMultiDictEntry> },
    Dict { dict: OrderedMultiDict },
    True,
    False,
}

/// Index of the first key of `keys` whose characters are `key`.
pub open spec fn key_position(keys: Seq<String>, key: Seq<char>) -> Option<int>
    decreases keys.len(),
{
    if keys.len() == 0 {
        None
    } else if keys[0]@ == key {
        Some(0int)
    } else {
        match key_position(keys.drop_first(), key) {
            Some(i) => Some(i + 1),
            None => None,
        }
    }
}

/// The first match is where the scan says it is.
proof fn lemma_key_position_first(keys: Seq<String>, key: Seq<char>, i: int)
    requires
        0 <= i < keys.len(),
        keys[i]@ == key,
        forall|j: int| 0 <= j < i ==> (#[trigger] keys[j]@) != key,
    ensures
        key_position(keys, key) == Some(i),
    decreases i,
{
    if i > 0 {
        lemma_key_position_first(keys.drop_first(), key, i - 1);
    }
}

/// Without any match the scan reports none.
proof fn lemma_key_position_no_match(keys: Seq<String>, key: Seq<char>)
    requires
        forall|j: int| 0 <= j < keys.len() ==> (#[trigger] keys[j]@) != key,
    ensures
        key_position(keys, key) is None,
    decreases keys.len(),
{
    if keys.len() > 0 {
        lemma_key_position_no_match(keys.drop_first(), key);
    }
}

/// A found position is in range and really matches.
proof fn lemma_key_position_valid(keys: Seq<String>, key: Seq<char>)
    ensures
        match key_position(keys, key) {
            Some(i) => 0 <= i < keys.len() && keys[i]@ == key,
            None => true,
        },
    decreases keys.len(),
{
    if keys.len() > 0 && keys[0]@ != key {
        lemma_key_position_valid(keys.drop_first(), key);
    }
}

/// Insertion-ordered multi-map from strings to entries.
#[derive(PartialEq, Debug)]
pub struct OrderedMultiDict {
    entries: Vec<OrderedMultiDictEntry>,
    keys: Vec<String>,
}

impl OrderedMultiDict {
    /// The keys, in insertion order.
    pub closed spec fn keys_seq(&self) -> Seq<String> {
        self.keys@
    }

    /// The values, in insertion order.
    pub closed spec fn values_seq(&self) -> Seq<OrderedMultiDictEntry> {
        self.entries@
    }

    pub fn new() -> (r: OrderedMultiDict)
        ensures
            r.keys_seq() == Seq::<String>::empty(),
            r.values_seq() == Seq::<OrderedMultiDictEntry>::empty(),
    {
        let r = OrderedMultiDict { entries: Vec::new(), keys: Vec::new() };
        proof {
            assert(r.keys_seq() =~= Seq::<String>::empty());
            assert(r.values_seq() =~= Seq::<OrderedMultiDictEntry>::empty());
        }
        r
    }

    /// Appends the pair; an existing equal key is kept, not replaced.
    pub fn insert(&mut self, key: String, value: OrderedMultiDictEntry)
        ensures
            final(self).keys_seq() == old(self).keys_seq().push(key),
            final(self).values_seq() == old(self).values_seq().push(value),
    {
        self.keys.push(key);
        self.entries.push(value);
    }

    /// The value of the first key equal to `key`, if any.
    pub fn get(&self, key: &String) -> (r: Option<&OrderedMultiDictEntry>)
        requires
            self.keys_seq().len() <= self.values_seq().len(),
        ensures
            match key_position(self.keys_seq(), key@) {
                Some(i) => r matches Some(v) && *v == self.values_seq()[i],
                None => r is None,
            },
    {
        proof {
            lemma_key_position_valid(self.keys_seq(), key@);
        }
        let mut i: usize = 0;
        while i < self.keys.len()
            invariant
                i <= self.keys@.len(),
                self.keys@.len() <= self.entries@.len(),
                forall|j: int| 0 <= j < i ==> (#[trigger] self.keys@[j]@) != key@,
            decreases self.keys@.len() - i,
        {
            if self.keys[i].eq(key) {
                proof {
                    lemma_key_position_first(self.keys_seq(), key@, i as int);
                }
                return Some(&self.entries[i]);
            }
            i = i + 1;
        }
        proof {
            lemma_key_position_no_match(self.keys_seq(), key@);
        }
        None
    }

    /// Removes the first pair whose key equals `key`; absent keys are
    /// ignored.
    pub fn remove(&mut self, key: &String)
        requires
            old(self).keys_seq().len() <= old(self).values_seq().len(),
        ensures
            match key_position(old(self).keys_seq(), key@) {
                Some(i) => final(self).keys_seq() == old(self).keys_seq().remove(i)
                    && final(self).values_seq() == old(self).values_seq().remove(i),
                None => final(self).keys_seq() == old(self).keys_seq() && final(self).values_seq()
                    == old(self).values_seq(),
            },
    {
        proof {
            lemma_key_position_valid(old(self).keys_seq(), key@);
        }
        let mut i: usize = 0;
        while i < self.keys.len()
            invariant
                *self == *old(self),
                i <= self.keys@.len(),
                self.keys@.len() <= self.entries@.len(),
                forall|j: int| 0 <= j < i ==> (#[trigger] self.keys@[j]@) != key@,
            decreases self.keys@.len() - i,
        {
            if self.keys[i].eq(key) {
                proof {
                    lemma_key_position_first(self.keys_seq(), key@, i as int);
                }
                self.keys.remove(i);
                self.entries.remove(i);
                return ;
            }
            i = i + 1;
        }
        proof {
            lemma_key_position_no_match(self.keys_seq(), key@);
        }
    }

    /// Number of entries.
    pub fn length(&self) -> (r: usize)
        ensures
            r == self.values_seq().len(),
    {
        self.entries.len()
    }
}

} // verus!
