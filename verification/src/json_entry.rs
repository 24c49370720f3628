//! The JSON-like value tree: objects over ordered bags, arrays, strings,
//! bare constants, and typed values `name(arg, ...)`, together with the
//! specification of its textual form.

use vstd::prelude::*;

verus! {

use crate::orderedbag::{lemma_bag_columns_decrease, OrderedBag};

broadcast use crate::orderedbag::lemma_bag_columns_decrease;

/// One JSON-like value.
#[derive(Debug, PartialEq)]
pub enum StreamableJSONEntry {
    Object(OrderedBag<StreamableJSONEntry, StreamableJSONEntry>),
    Array(Vec<StreamableJSONEntry>),
    String(String),
    Constant(String),
    Type(String, Vec<StreamableJSONEntry>),
}

/// Well-formedness of a value: every object has at least as many keys as
/// values, so each value has its key when the pairs are walked.
pub open spec fn entry_wf(e: StreamableJSONEntry) -> bool
    decreases e,
    via entry_wf_decreases
{
    match e {
        StreamableJSONEntry::Object(b) => {
            &&& b.values_seq().len() <= b.keys_seq().len()
            &&& (forall|i: int|
                0 <= i < b.values_seq().len() ==> entry_wf(#[trigger] b.values_seq()[i]))
            &&& (forall|i: int|
                0 <= i < b.keys_seq().len() ==> entry_wf(#[trigger] b.keys_seq()[i]))
        },
        StreamableJSONEntry::Array(a) => forall|i: int|
            0 <= i < a@.len() ==> entry_wf(#[trigger] a@[i]),
        StreamableJSONEntry::Type(_, a) => forall|i: int|
            0 <= i < a@.len() ==> entry_wf(#[trigger] a@[i]),
        _ => true,
    }
}

#[via_fn]
proof fn entry_wf_decreases(e: StreamableJSONEntry) {
    match e {
        StreamableJSONEntry::Object(b) => {
            lemma_bag_columns_decrease(b);
        },
        _ => {},
    }
}

/// The textual forms of the first `i` entries of `items`, oldest first.
pub open spec fn renders(items: Seq<StreamableJSONEntry>, i: int) -> Seq<Seq<char>>
    decreases items, i,
{
    if i <= 0 || i > items.len() {
        Seq::empty()
    } else {
        renders(items, i - 1).push(json_of(items[i - 1]))
    }
}

/// The textual form of a value.
pub open spec fn json_of(e: StreamableJSONEntry) -> Seq<char>
    decreases e, 0int,
{
    match e {
        StreamableJSONEntry::Object(b) => seq!['{'] + joined_pairs(
            renders(b.keys_seq(), b.values_seq().len() as int),
            renders(b.values_seq(), b.values_seq().len() as int),
            b.values_seq().len() as int,
        ) + seq!['}'],
        StreamableJSONEntry::Array(a) => seq!['['] + joined_list(renders(a@, a@.len() as int), a@.len() as int)
            + seq![']'],
        StreamableJSONEntry::String(s) => seq!['"'] + s@ + seq!['"'],
        StreamableJSONEntry::Constant(s) => s@,
        StreamableJSONEntry::Type(t, a) => t@ + seq!['('] + joined_list(
            renders(a@, a@.len() as int),
            a@.len() as int,
        ) + seq![')'],
    }
}

/// The first `i` rendered key/value pairs, joined as `k:v` with commas
/// between pairs.
pub open spec fn joined_pairs(kr: Seq<Seq<char>>, vr: Seq<Seq<char>>, i: int) -> Seq<char>
    decreases i,
{
    if i <= 0 {
        Seq::empty()
    } else if i == 1 {
        kr[0] + seq![':'] + vr[0]
    } else {
        joined_pairs(kr, vr, i - 1) + seq![','] + kr[i - 1] + seq![':'] + vr[i - 1]
    }
}

/// The first `i` rendered values, joined with commas.
pub open spec fn joined_list(rs: Seq<Seq<char>>, i: int) -> Seq<char>
    decreases i,
{
    if i <= 0 {
        Seq::empty()
    } else if i == 1 {
        rs[0]
    } else {
        joined_list(rs, i - 1) + seq![','] + rs[i - 1]
    }
}

/// Each rendered child is the rendering of that child.
pub proof fn lemma_renders_index(items: Seq<StreamableJSONEntry>, n: int, i: int)
    requires
        0 <= i < n <= items.len(),
    ensures
        renders(items, n).len() == n,
        renders(items, n)[i] == json_of(items[i]),
    decreases n,
{
    if i < n - 1 {
        lemma_renders_index(items, n - 1, i);
    } else {
        lemma_renders_len(items, n - 1);
    }
}

/// There are as many rendered children as were asked for.
pub proof fn lemma_renders_len(items: Seq<StreamableJSONEntry>, n: int)
    requires
        0 <= n <= items.len(),
    ensures
        renders(items, n).len() == n,
    decreases n,
{
    if n > 0 {
        lemma_renders_len(items, n - 1);
    }
}

/// A longer pair join never gets shorter.
pub proof fn lemma_joined_pairs_mono(kr: Seq<Seq<char>>, vr: Seq<Seq<char>>, i: int, n: int)
    requires
        0 <= i <= n,
    ensures
        joined_pairs(kr, vr, i).len() <= joined_pairs(kr, vr, n).len(),
    decreases n - i,
{
    if i < n {
        lemma_joined_pairs_mono(kr, vr, i + 1, n);
    }
}

/// A longer list join never gets shorter.
pub proof fn lemma_joined_list_mono(rs: Seq<Seq<char>>, i: int, n: int)
    requires
        0 <= i <= n,
    ensures
        joined_list(rs, i).len() <= joined_list(rs, n).len(),
    decreases n - i,
{
    if i < n {
        lemma_joined_list_mono(rs, i + 1, n);
    }
}

} // verus!
