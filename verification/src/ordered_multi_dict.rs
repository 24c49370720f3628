//! An insertion-ordered dictionary that may hold the same key many times.
//!
//! Keys and values live in two parallel vectors; lookup scans for the first
//! matching key.  Contracts about lookup and removal are stated relative to
//! the key type's equality specification and therefore bind whenever that
//! equality obeys its specification (`obeys_eq_spec`).

use vstd::prelude::*;

verus! {

use vstd::std_specs::cmp::PartialEqSpec;

/// Index of the first key of `keys` equal (by `eq_spec`) to `key`.
pub open spec fn spec_position<K: PartialEq>(keys: Seq<K>, key: K) -> Option<int>
    decreases keys.len(),
{
    if keys.len() == 0 {
        None
    } else if keys[0].eq_spec(&key) {
        Some(0int)
    } else {
        match spec_position(keys.drop_first(), key) {
            Some(i) => Some(i + 1),
            None => None,
        }
    }
}

/// The first match is where the scan says it is.
pub proof fn lemma_spec_position_first<K: PartialEq>(keys: Seq<K>, key: K, i: int)
    requires
        0 <= i < keys.len(),
        keys[i].eq_spec(&key),
        forall|j: int| 0 <= j < i ==> !(#[trigger] keys[j].eq_spec(&key)),
    ensures
        spec_position(keys, key) == Some(i),
    decreases i,
{
    if i > 0 {
        lemma_spec_position_first(keys.drop_first(), key, i - 1);
    }
}

/// Without any match the scan reports none.
pub proof fn lemma_spec_position_no_match<K: PartialEq>(keys: Seq<K>, key: K)
    requires
        forall|j: int| 0 <= j < keys.len() ==> !(#[trigger] keys[j].eq_spec(&key)),
    ensures
        spec_position(keys, key) is None,
    decreases keys.len(),
{
    if keys.len() > 0 {
        lemma_spec_position_no_match(keys.drop_first(), key);
    }
}

/// A found position is in range and really matches.
pub proof fn lemma_spec_position_valid<K: PartialEq>(keys: Seq<K>, key: K)
    ensures
        match spec_position(keys, key) {
            Some(i) => 0 <= i < keys.len() && keys[i].eq_spec(&key),
            None => true,
        },
    decreases keys.len(),
{
    if keys.len() > 0 && !keys[0].eq_spec(&key) {
        lemma_spec_position_valid(keys.drop_first(), key);
    }
}

/// First index of `keys` whose key the key type's `==` accepted for `key`.
/// The reported index is always in range, earlier keys were all refused
/// (stated over what each `eq` call returned); whenever `==` obeys its
/// equality specification the index is `spec_position`.
pub(crate) fn position_of<K: PartialEq>(keys: &Vec<K>, key: &K) -> (r: Option<usize>)
    ensures
        r matches Some(i) ==> ({
            &&& (i as int) < keys@.len()
            &&& call_ensures(K::eq, (&keys@[i as int], key), true)
            &&& forall|j: int|
                0 <= j < i as int ==> #[trigger] call_ensures(K::eq, (&keys@[j], key), false)
        }),
        r is None ==> forall|j: int|
            0 <= j < keys@.len() ==> #[trigger] call_ensures(K::eq, (&keys@[j], key), false),
        K::obeys_eq_spec() ==> match spec_position(keys@, *key) {
            Some(i) => r matches Some(iu) && iu as int == i,
            None => r is None,
        },
{
    let mut i: usize = 0;
    while i < keys.len()
        invariant
            i <= keys@.len(),
            forall|j: int|
                0 <= j < i ==> #[trigger] call_ensures(K::eq, (&keys@[j], key), false),
            K::obeys_eq_spec() ==> forall|j: int|
                0 <= j < i ==> !(#[trigger] keys@[j].eq_spec(key)),
        decreases keys@.len() - i,
    {
        if keys[i].eq(key) {
            proof {
                if K::obeys_eq_spec() {
                    lemma_spec_position_first(keys@, *key, i as int);
                }
            }
            return Some(i);
        }
        i = i + 1;
    }
    proof {
        if K::obeys_eq_spec() {
            lemma_spec_position_no_match(keys@, *key);
        }
    }
    None
}

/// Insertion-ordered multi-map over parallel key and value vectors.
#[derive(PartialEq, Debug)]
pub struct OrderedMultiDict<K, V> {
    entries: Vec<V>,
    keys: Vec<K>,
}

/// Cursor for walking an [`OrderedMultiDict`] front to back; each step is
/// taken against the dictionary it walks.
pub struct OrderedMultiDictIterator {
    current: usize,
}

impl OrderedMultiDictIterator {
    /// How many entries were already handed out.
    pub closed spec fn index(&self) -> int {
        self.current as int
    }

    /// The next key/value pair of `dict`, if any.
    pub fn next<'a, K, V>(&mut self, dict: &'a OrderedMultiDict<K, V>) -> (r: Option<
        (&'a K, &'a V),
    >)
        requires
            dict.values_seq().len() <= dict.keys_seq().len(),
        ensures
            old(self).index() < dict.values_seq().len() ==> ({
                &&& r matches Some(kv)
                &&& *kv.0 == dict.keys_seq()[old(self).index()]
                &&& *kv.1 == dict.values_seq()[old(self).index()]
                &&& final(self).index() == old(self).index() + 1
            }),
            old(self).index() >= dict.values_seq().len() ==> r is None && final(self).index()
                == old(self).index(),
    {
        if self.current < dict.entries.len() {
            let r = (&dict.keys[self.current], &dict.entries[self.current]);
            self.current = self.current + 1;
            Some(r)
        } else {
            None
        }
    }
}

impl<K, V> OrderedMultiDict<K, V> {
    /// The keys, in insertion order.
    pub closed spec fn keys_seq(&self) -> Seq<K> {
        self.keys@
    }

    /// The values, in insertion order.
    pub closed spec fn values_seq(&self) -> Seq<V> {
        self.entries@
    }

    pub fn new() -> (r: OrderedMultiDict<K, V>)
        ensures
            r.keys_seq() == Seq::<K>::empty(),
            r.values_seq() == Seq::<V>::empty(),
    {
        let r = OrderedMultiDict { entries: Vec::new(), keys: Vec::new() };
        proof {
            assert(r.keys_seq() =~= Seq::<K>::empty());
            assert(r.values_seq() =~= Seq::<V>::empty());
        }
        r
    }

    /// Appends the pair; an existing equal key is kept, not replaced.
    pub fn push(&mut self, key: K, value: V)
        ensures
            final(self).keys_seq() == old(self).keys_seq().push(key),
            final(self).values_seq() == old(self).values_seq().push(value),
    {
        self.keys.push(key);
        self.entries.push(value);
    }

    /// The most recently inserted value.
    pub fn last_entry(&self) -> (r: Option<&V>)
        ensures
            match r {
                Some(v) => self.values_seq().len() > 0 && *v == self.values_seq().last(),
                None => self.values_seq().len() == 0,
            },
    {
        self.entries.last()
    }

    /// Swaps the most recently inserted value for `value`; on an empty
    /// dictionary the value is simply appended.
    pub fn replace_last_entry(&mut self, value: V)
        ensures
            final(self).keys_seq() == old(self).keys_seq(),
            final(self).values_seq() == (if old(self).values_seq().len() > 0 {
                old(self).values_seq().update(old(self).values_seq().len() - 1, value)
            } else {
                seq![value]
            }),
    {
        self.entries.pop();
        self.entries.push(value);
        proof {
            if old(self).values_seq().len() > 0 {
                assert(final(self).values_seq() =~= old(self).values_seq().update(
                    old(self).values_seq().len() - 1,
                    value,
                ));
            } else {
                assert(final(self).values_seq() =~= seq![value]);
            }
        }
    }

    /// The value of the first key equal to `key`, if any.  The match is
    /// whatever the key type's `==` accepted; for a key type whose `==`
    /// obeys its equality specification this is `spec_position`.
    pub fn get(&self, key: K) -> (r: Option<&V>) where K: PartialEq
        requires
            self.keys_seq().len() <= self.values_seq().len(),
        ensures
            self.keys_seq().len() == 0 ==> r is None,
            r matches Some(v) ==> (exists|i: int|
                {
                    &&& 0 <= i < self.keys_seq().len()
                    &&& #[trigger] call_ensures(K::eq, (&self.keys_seq()[i], &key), true)
                    &&& *v == self.values_seq()[i]
                    &&& forall|j: int|
                        0 <= j < i ==> #[trigger] call_ensures(
                            K::eq,
                            (&self.keys_seq()[j], &key),
                            false,
                        )
                }),
            r is None ==> forall|j: int|
                0 <= j < self.keys_seq().len() ==> #[trigger] call_ensures(
                    K::eq,
                    (&self.keys_seq()[j], &key),
                    false,
                ),
            K::obeys_eq_spec() ==> match spec_position(self.keys_seq(), key) {
                Some(i) => r matches Some(v) && *v == self.values_seq()[i],
                None => r is None,
            },
    {
        proof {
            lemma_spec_position_valid(self.keys_seq(), key);
        }
        let index = position_of(&self.keys, &key);
        match index {
            Some(i) => Some(&self.entries[i]),
            None => None,
        }
    }

    /// Removes the first pair whose key equals `key` (as the key type's
    /// `==` decides); absent keys are ignored.
    pub fn remove(&mut self, key: K) where K: PartialEq
        requires
            old(self).keys_seq().len() <= old(self).values_seq().len(),
        ensures
            (exists|i: int|
                {
                    &&& 0 <= i < old(self).keys_seq().len()
                    &&& #[trigger] call_ensures(K::eq, (&old(self).keys_seq()[i], &key), true)
                    &&& (forall|j: int|
                        0 <= j < i ==> #[trigger] call_ensures(
                            K::eq,
                            (&old(self).keys_seq()[j], &key),
                            false,
                        ))
                    &&& final(self).keys_seq() == old(self).keys_seq().remove(i)
                    &&& final(self).values_seq() == old(self).values_seq().remove(i)
                }) || ((forall|j: int|
                0 <= j < old(self).keys_seq().len() ==> #[trigger] call_ensures(
                    K::eq,
                    (&old(self).keys_seq()[j], &key),
                    false,
                )) && final(self).keys_seq() == old(self).keys_seq() && final(self).values_seq()
                == old(self).values_seq()),
            K::obeys_eq_spec() ==> match spec_position(old(self).keys_seq(), key) {
                Some(i) => final(self).keys_seq() == old(self).keys_seq().remove(i)
                    && final(self).values_seq() == old(self).values_seq().remove(i),
                None => final(self).keys_seq() == old(self).keys_seq() && final(self).values_seq()
                    == old(self).values_seq(),
            },
    {
        proof {
            lemma_spec_position_valid(old(self).keys_seq(), key);
        }
        let index = position_of(&self.keys, &key);
        match index {
            Some(i) => {
                self.keys.remove(i);
                self.entries.remove(i);
            },
            None => (),
        }
    }

    /// Number of entries.
    pub fn length(&self) -> (r: usize)
        ensures
            r == self.values_seq().len(),
    {
        self.entries.len()
    }

    /// A fresh cursor over this dictionary.
    pub fn iter(&self) -> (r: OrderedMultiDictIterator)
        ensures
            r.index() == 0,
    {
        OrderedMultiDictIterator { current: 0 }
    }
}

} // verus!
