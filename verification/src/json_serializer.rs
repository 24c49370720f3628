//! Serialization of [`StreamableJSONEntry`] values into a character buffer.
//!
//! [`StreamableJSONSerializer::serialize`] appends the textual form of a
//! value — exactly [`json_of`] — to a [`CursedBuffer`], in pieces, so that
//! readers may already drain the buffer while serialization goes on.

use vstd::prelude::*;

verus! {

use crate::cursedbuffer::{CursedBuffer, CursedBufferError, CursedBufferView};
use crate::json_entry::{
    entry_wf, joined_list, joined_pairs, json_of, lemma_joined_list_mono, lemma_joined_pairs_mono,
    lemma_renders_index, lemma_renders_len, renders, StreamableJSONEntry,
};
use crate::orderedbag::lemma_bag_columns_decrease;
use vstd::std_specs::iter::IteratorSpec;

/// Errors of serialization.  `InvalidEntry` and `InvalidOutput` are kept
/// for richer outputs and are currently never produced.
#[derive(Debug)]
pub enum SerializerError {
    InvalidEntry,
    InvalidOutput,
    OutputError(CursedBufferError),
}

/// `post` is `pre` with the characters `s` appended to the stream and
/// everything else untouched (the division into chunks is the buffer's
/// business).
pub open spec fn appended(
    pre: CursedBufferView<char>,
    post: CursedBufferView<char>,
    s: Seq<char>,
) -> bool {
    &&& post.log == pre.log + s
    &&& post.base == pre.base
    &&& post.closed == pre.closed
    &&& post.readers == pre.readers
    &&& post.callback_registered == pre.callback_registered
    &&& post.callback_calls == pre.callback_calls
}

/// The characters of `s`, in order.
pub fn chars_of_str(s: &str) -> (r: Vec<char>)
    ensures
        r@ == s@,
{
    broadcast use vstd::string::axiom_spec_iter;
    broadcast use vstd::string::next_postcondition;

    let mut it = s.chars();
    let mut r: Vec<char> = Vec::new();
    loop
        invariant
            it.obeys_prophetic_iter_laws(),
            it.decrease() is Some,
            r@ + it.remaining() == s@,
        decreases it.decrease()->0,
    {
        match it.next() {
            Some(c) => {
                r.push(c);
                proof {
                    assert(r@ + it.remaining() =~= s@);
                }
            },
            None => {
                proof {
                    assert(r@ =~= s@);
                }
                return r;
            },
        }
    }
}

/// Relies on String::push: appends exactly the one character.
#[verifier::external_body]
pub(crate) fn push_char(s: &mut String, c: char)
    ensures
        final(s)@ == old(s)@ + seq![c],
{
    s.push(c);
}

/// The characters `cs`, as a `String`.
pub fn collect_string(cs: &Vec<char>) -> (r: String)
    ensures
        r@ == cs@,
{
    let mut out = String::new();
    let mut j: usize = 0;
    while j < cs.len()
        invariant
            j <= cs@.len(),
            out@ == cs@.take(j as int),
        decreases cs@.len() - j,
    {
        push_char(&mut out, cs[j]);
        proof {
            assert(out@ =~= cs@.take(j as int + 1));
        }
        j = j + 1;
    }
    proof {
        assert(out@ =~= cs@);
    }
    out
}

/// Streams JSON-like values as text.
pub struct StreamableJSONSerializer {}

impl StreamableJSONSerializer {
    pub fn new() -> (r: StreamableJSONSerializer) {
        StreamableJSONSerializer {  }
    }

    /// Appends the textual form of `entry` to `output`.  On an open buffer
    /// this writes exactly `json_of(*entry)` and succeeds; on a closed one
    /// it fails with the buffer's error and changes nothing.
    pub fn serialize(&self, entry: &StreamableJSONEntry, output: &mut CursedBuffer<char>) -> (r:
        Result<(), SerializerError>)
        requires
            old(output)@.wf(),
            entry_wf(*entry),
            old(output)@.total() + json_of(*entry).len() <= usize::MAX,
        ensures
            final(output)@.wf(),
            !old(output)@.closed ==> (r matches Ok(u) && appended(
                old(output)@,
                final(output)@,
                json_of(*entry),
            )),
            old(output)@.closed ==> r == Err::<(), SerializerError>(
                SerializerError::OutputError(CursedBufferError::BufferClosed),
            ) && final(output)@ == old(output)@,
        decreases *entry,
    {
        let ghost v0 = output@;
        let ghost e = *entry;
        match entry {
            StreamableJSONEntry::Object(obj) => {
                let ghost n = obj.values_seq().len() as int;
                let ghost kr = renders(obj.keys_seq(), n);
                let ghost vr = renders(obj.values_seq(), n);
                proof {
                    lemma_bag_columns_decrease(*obj);
                    lemma_renders_len(obj.values_seq(), n);
                }
                match output.write(vec!['{']) {
                    Ok(u) => (),
                    Err(er) => {
                        return Err(SerializerError::OutputError(er));
                    },
                }
                proof {
                    assert(output@.log =~= v0.log + (seq!['{'] + joined_pairs(kr, vr, 0)));
                }
                let mut it = obj.iter();
                let n_exec = obj.length();
                let mut i: usize = 0;
                while i < n_exec
                    invariant
                        output@.wf(),
                        v0.wf(),
                        !output@.closed,
                        !v0.closed,
                        e == *entry,
                        e == StreamableJSONEntry::Object(*obj),
                        it.index() == i as int,
                        i <= n_exec,
                        n_exec as int == n,
                        n == obj.values_seq().len(),
                        obj.values_seq().len() <= obj.keys_seq().len(),
                        forall|j: int|
                            0 <= j < n ==> entry_wf(#[trigger] obj.values_seq()[j]) && entry_wf(
                                obj.keys_seq()[j],
                            ),
                        kr == renders(obj.keys_seq(), n),
                        vr == renders(obj.values_seq(), n),
                        appended(v0, output@, seq!['{'] + joined_pairs(kr, vr, i as int)),
                        v0.total() + json_of(e).len() <= usize::MAX,
                        json_of(e) == seq!['{'] + joined_pairs(kr, vr, n) + seq!['}'],
                    decreases n_exec - i,
                {
                    proof {
                        lemma_renders_index(obj.keys_seq(), n, i as int);
                        lemma_renders_index(obj.values_seq(), n, i as int);
                        lemma_joined_pairs_mono(kr, vr, i as int + 1, n);
                        lemma_bag_columns_decrease(*obj);
                        assert(decreases_to!(*entry => *obj));
                        assert(decreases_to!(obj.keys_seq() => obj.keys_seq()[i as int]));
                        assert(decreases_to!(obj.values_seq() => obj.values_seq()[i as int]));
                        if i == 0 {
                            assert(joined_pairs(kr, vr, 1) == kr[0] + seq![':'] + vr[0]);
                        } else {
                            assert(joined_pairs(kr, vr, i as int + 1) == joined_pairs(
                                kr,
                                vr,
                                i as int,
                            ) + seq![','] + kr[i as int] + seq![':'] + vr[i as int]);
                        }
                    }
                    match it.next(obj) {
                        Some(kv) => {
                            if i > 0 {
                                match output.write(vec![',']) {
                                    Ok(u) => (),
                                    Err(er) => {
                                        return Err(SerializerError::OutputError(er));
                                    },
                                }
                            }
                            match self.serialize(kv.0, output) {
                                Ok(u) => (),
                                Err(er) => {
                                    return Err(er);
                                },
                            }
                            match output.write(vec![':']) {
                                Ok(u) => (),
                                Err(er) => {
                                    return Err(SerializerError::OutputError(er));
                                },
                            }
                            match self.serialize(kv.1, output) {
                                Ok(u) => (),
                                Err(er) => {
                                    return Err(er);
                                },
                            }
                            proof {
                                assert(output@.log =~= v0.log + (seq!['{'] + joined_pairs(
                                    kr,
                                    vr,
                                    i as int + 1,
                                )));
                            }
                        },
                        None => {
                            return unreached();
                        },
                    }
                    i = i + 1;
                }
                match output.write(vec!['}']) {
                    Ok(u) => (),
                    Err(er) => {
                        return Err(SerializerError::OutputError(er));
                    },
                }
                proof {
                    assert(output@.log =~= v0.log + json_of(e));
                }
                Ok(())
            },
            StreamableJSONEntry::Array(arr) => {
                let ghost n = arr@.len() as int;
                let ghost rs = renders(arr@, n);
                proof {
                    lemma_renders_len(arr@, n);
                }
                match output.write(vec!['[']) {
                    Ok(u) => (),
                    Err(er) => {
                        return Err(SerializerError::OutputError(er));
                    },
                }
                proof {
                    assert(output@.log =~= v0.log + (seq!['['] + joined_list(rs, 0)));
                }
                let mut i: usize = 0;
                while i < arr.len()
                    invariant
                        output@.wf(),
                        v0.wf(),
                        !output@.closed,
                        !v0.closed,
                        e == *entry,
                        e == StreamableJSONEntry::Array(*arr),
                        i <= arr@.len(),
                        n == arr@.len(),
                        forall|j: int| 0 <= j < n ==> entry_wf(#[trigger] arr@[j]),
                        rs == renders(arr@, n),
                        appended(v0, output@, seq!['['] + joined_list(rs, i as int)),
                        v0.total() + json_of(e).len() <= usize::MAX,
                        json_of(e) == seq!['['] + joined_list(rs, n) + seq![']'],
                    decreases arr@.len() - i,
                {
                    proof {
                        lemma_renders_index(arr@, n, i as int);
                        lemma_joined_list_mono(rs, i as int + 1, n);
                        assert(decreases_to!(*entry => *arr));
                        assert(decreases_to!(*arr => arr@[i as int]));
                        if i == 0 {
                            assert(joined_list(rs, 1) == rs[0]);
                        } else {
                            assert(joined_list(rs, i as int + 1) == joined_list(rs, i as int)
                                + seq![','] + rs[i as int]);
                        }
                    }
                    if i > 0 {
                        match output.write(vec![',']) {
                            Ok(u) => (),
                            Err(er) => {
                                return Err(SerializerError::OutputError(er));
                            },
                        }
                    }
                    match self.serialize(&arr[i], output) {
                        Ok(u) => (),
                        Err(er) => {
                            return Err(er);
                        },
                    }
                    proof {
                        assert(output@.log =~= v0.log + (seq!['['] + joined_list(
                            rs,
                            i as int + 1,
                        )));
                    }
                    i = i + 1;
                }
                match output.write(vec![']']) {
                    Ok(u) => (),
                    Err(er) => {
                        return Err(SerializerError::OutputError(er));
                    },
                }
                proof {
                    assert(output@.log =~= v0.log + json_of(e));
                }
                Ok(())
            },
            StreamableJSONEntry::String(s) => {
                match output.write(vec!['"']) {
                    Ok(u) => (),
                    Err(er) => {
                        return Err(SerializerError::OutputError(er));
                    },
                }
                let cs = chars_of_str(s.as_str());
                match output.write(cs) {
                    Ok(u) => (),
                    Err(er) => {
                        return Err(SerializerError::OutputError(er));
                    },
                }
                match output.write(vec!['"']) {
                    Ok(u) => (),
                    Err(er) => {
                        return Err(SerializerError::OutputError(er));
                    },
                }
                proof {
                    assert(output@.log =~= v0.log + json_of(e));
                }
                Ok(())
            },
            StreamableJSONEntry::Constant(s) => {
                let cs = chars_of_str(s.as_str());
                match output.write(cs) {
                    Ok(u) => (),
                    Err(er) => {
                        return Err(SerializerError::OutputError(er));
                    },
                }
                proof {
                    assert(output@.log =~= v0.log + json_of(e));
                }
                Ok(())
            },
            StreamableJSONEntry::Type(t, arr) => {
                let ghost n = arr@.len() as int;
                let ghost rs = renders(arr@, n);
                proof {
                    lemma_renders_len(arr@, n);
                }
                let ts = chars_of_str(t.as_str());
                match output.write(ts) {
                    Ok(u) => (),
                    Err(er) => {
                        return Err(SerializerError::OutputError(er));
                    },
                }
                match output.write(vec!['(']) {
                    Ok(u) => (),
                    Err(er) => {
                        return Err(SerializerError::OutputError(er));
                    },
                }
                proof {
                    assert(output@.log =~= v0.log + (t@ + seq!['('] + joined_list(rs, 0)));
                }
                let mut i: usize = 0;
                while i < arr.len()
                    invariant
                        output@.wf(),
                        v0.wf(),
                        !output@.closed,
                        !v0.closed,
                        e == *entry,
                        e == StreamableJSONEntry::Type(*t, *arr),
                        i <= arr@.len(),
                        n == arr@.len(),
                        forall|j: int| 0 <= j < n ==> entry_wf(#[trigger] arr@[j]),
                        rs == renders(arr@, n),
                        appended(v0, output@, t@ + seq!['('] + joined_list(rs, i as int)),
                        v0.total() + json_of(e).len() <= usize::MAX,
                        json_of(e) == t@ + seq!['('] + joined_list(rs, n) + seq![')'],
                    decreases arr@.len() - i,
                {
                    proof {
                        lemma_renders_index(arr@, n, i as int);
                        lemma_joined_list_mono(rs, i as int + 1, n);
                        assert(decreases_to!(*entry => *arr));
                        assert(decreases_to!(*arr => arr@[i as int]));
                        if i == 0 {
                            assert(joined_list(rs, 1) == rs[0]);
                        } else {
                            assert(joined_list(rs, i as int + 1) == joined_list(rs, i as int)
                                + seq![','] + rs[i as int]);
                        }
                    }
                    if i > 0 {
                        match output.write(vec![',']) {
                            Ok(u) => (),
                            Err(er) => {
                                return Err(SerializerError::OutputError(er));
                            },
                        }
                    }
                    match self.serialize(&arr[i], output) {
                        Ok(u) => (),
                        Err(er) => {
                            return Err(er);
                        },
                    }
                    proof {
                        assert(output@.log =~= v0.log + (t@ + seq!['('] + joined_list(
                            rs,
                            i as int + 1,
                        )));
                    }
                    i = i + 1;
                }
                match output.write(vec![')']) {
                    Ok(u) => (),
                    Err(er) => {
                        return Err(SerializerError::OutputError(er));
                    },
                }
                proof {
                    assert(output@.log =~= v0.log + json_of(e));
                }
                Ok(())
            },
        }
    }

    /// Renders `entry` to a string: serializes it into a fresh buffer and
    /// drains that buffer chunk by chunk.  The result is exactly
    /// `json_of(*entry)`.
    pub fn serialize_to_string(entry: &StreamableJSONEntry) -> (r: Result<String, SerializerError>)
        requires
            entry_wf(*entry),
            json_of(*entry).len() <= usize::MAX,
        ensures
            r matches Ok(s) && s@ == json_of(*entry),
    {
        let ghost target = json_of(*entry);
        let ser = StreamableJSONSerializer::new();
        let mut output: CursedBuffer<char> = CursedBuffer::new();
        match ser.serialize(entry, &mut output) {
            Ok(u) => (),
            Err(_) => {
                return unreached();
            },
        }
        proof {
            assert(output@.log =~= target);
        }
        let reader = output.reader(0);
        let ghost rid = reader.id();
        let mut r: Vec<char> = Vec::new();
        loop
            invariant
                output@.wf(),
                output@.cursors_covered(),
                output@.log == target,
                output@.live(rid),
                rid == reader.id(),
                output@.pos_of(rid) == r@.len(),
                r@.len() <= target.len(),
                r@ == target.take(r@.len() as int),
            ensures
                r@ == target,
            decreases target.len() - r@.len(),
        {
            let ghost b = output@;
            let ghost p = b.pos_of(rid);
            match reader.next_chunk(&mut output) {
                Ok(chunk) => {
                    proof {
                        let i = crate::cursedbuffer::chunk_idx(b.chunks, p - b.base);
                        crate::cursedbuffer::lemma_chunk_matches_log(b, i);
                        crate::cursedbuffer::lemma_monotonic_eviction(
                            b.with_cursor(
                                rid,
                                b.base + crate::cursedbuffer::sum_lens(b.chunks.take(i))
                                    + b.chunks[i].len(),
                            ),
                        );
                    }
                    let s = chunk.as_slice();
                    let ghost r0 = r@;
                    let mut k: usize = 0;
                    while k < s.len()
                        invariant
                            k <= s@.len(),
                            r@ == r0 + s@.take(k as int),
                        decreases s@.len() - k,
                    {
                        r.push(s[k]);
                        proof {
                            assert(r@ =~= r0 + s@.take(k as int + 1));
                        }
                        k = k + 1;
                    }
                    proof {
                        let i = crate::cursedbuffer::chunk_idx(b.chunks, p - b.base);
                        let st = b.base + crate::cursedbuffer::sum_lens(b.chunks.take(i));
                        crate::cursedbuffer::lemma_sum_lens_nonneg(b.chunks.take(i));
                        assert(r0 + s@.take(s@.len() as int) =~= r0 + s@);
                        assert(chunk.slice@ == b.chunks[i]);
                        assert(chunk.pos as int == p - st);
                        assert(s@ == b.chunks[i].skip(p - st));
                        assert(b.chunks[i] == b.log.subrange(st, st + b.chunks[i].len()));
                        assert(b.log.subrange(st, st + b.chunks[i].len()).skip(p - st)
                            =~= b.log.subrange(p, st + b.chunks[i].len()));
                        assert(s@ =~= target.subrange(p, st + b.chunks[i].len()));
                        assert(r@ =~= target.take(r@.len() as int));
                    }
                },
                Err(_) => {
                    proof {
                        assert(r@ =~= target);
                    }
                    break ;
                },
            }
        }
        let out = collect_string(&r);
        Ok(out)
    }
}

} // verus!
