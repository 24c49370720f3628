//! Pull-based read adapters.
//!
//! [`Readable`] is the generic consumer interface: read one element, skip,
//! or take a whole chunk.  [`IteratorReadable`] serves a finite sequence one
//! element at a time; [`CursedBufferReadable`] adapts a
//! [`crate::cursedbuffer::CursedBufferReader`] and caches the chunk it
//! fetched last, so its operations take the buffer they read from as an
//! argument.

use vstd::prelude::*;
use std::sync::Arc;
use crate::cursedbuffer::{
    chunk_idx, lemma_chunk_matches_log, lemma_sum_lens_nonneg, lemma_sum_lens_split,
    lemma_sum_lens_take_succ, sum_lens, CursedBuffer, CursedBufferReader, CursedBufferView,
};

verus! {

/// Failures of the read interface: the end of the data, or an error of the
/// backing store.
#[derive(Debug, PartialEq, Eq, Structural, Clone, Copy)]
pub enum ReaderError {
    EOF,
    IO,
}

/// A chunk handed out by [`Readable::read_chunk`]: shared storage, the
/// offset of the first unconsumed element, and the storage's total length.
pub struct ReadableChunk<T> {
    pub chunk: Arc<Vec<T>>,
    pub pos: usize,
    pub len: usize,
}

/// The generic pull interface over a stream of elements.
pub trait Readable<T> where Self: Sized {
    /// The elements not consumed yet, as far as they are known now.
    spec fn remaining(&self) -> Seq<T>;

    /// How many elements were consumed so far.
    spec fn consumed(&self) -> int;

    /// The total length of the stream, where it is known at all.
    spec fn length_known(&self) -> Option<int>;

    /// Yields the next element, or `EOF` when nothing remains.
    fn read_next(&mut self) -> (r: Result<T, ReaderError>) where T: Copy
        ensures
            old(self).remaining().len() > 0 ==> ({
                &&& r matches Ok(v) && v == old(self).remaining()[0]
                &&& final(self).remaining() == old(self).remaining().drop_first()
                &&& final(self).consumed() == old(self).consumed() + 1
            }),
            old(self).remaining().len() == 0 ==> ({
                &&& r == Err::<T, ReaderError>(ReaderError::EOF)
                &&& final(self).remaining() == old(self).remaining()
                &&& final(self).consumed() == old(self).consumed()
            }),
            final(self).length_known() == old(self).length_known(),
    ;

    /// Advances past up to `skipped` elements and reports how many were
    /// actually advanced — fewer than asked for exactly when the stream ran
    /// out first.
    fn skip(&mut self, skipped: usize) -> (r: Result<usize, ReaderError>)
        ensures
            ({
                let k = if skipped <= old(self).remaining().len() {
                    skipped as int
                } else {
                    old(self).remaining().len() as int
                };
                &&& final(self).remaining() == old(self).remaining().skip(k)
                &&& final(self).consumed() == old(self).consumed() + k
                &&& r matches Ok(p) && p as int == k
            }),
            final(self).length_known() == old(self).length_known(),
    ;

    /// Takes a whole chunk: some non-empty prefix of what remains, behind a
    /// shared handle, or `EOF` when nothing remains.
    fn read_chunk(&mut self) -> (r: Result<ReadableChunk<T>, ReaderError>) where T: Copy
        ensures
            old(self).remaining().len() > 0 ==> ({
                &&& r matches Ok(c)
                &&& c.pos <= c.len && c.len == c.chunk@.len()
                &&& c.chunk@.skip(c.pos as int).len() > 0
                &&& c.chunk@.skip(c.pos as int) == old(self).remaining().take(
                    c.len - c.pos,
                )
                &&& final(self).remaining() == old(self).remaining().skip(c.len - c.pos)
                &&& final(self).consumed() == old(self).consumed() + (c.len - c.pos)
            }),
            old(self).remaining().len() == 0 ==> ({
                &&& r == Err::<ReadableChunk<T>, ReaderError>(ReaderError::EOF)
                &&& final(self).remaining() == old(self).remaining()
                &&& final(self).consumed() == old(self).consumed()
            }),
            final(self).length_known() == old(self).length_known(),
    ;

    /// The number of elements consumed so far, where the source tracks it.
    fn pos(&self) -> (r: Option<usize>)
        ensures
            r matches Some(p) ==> p as int == self.consumed(),
    ;

    /// The total length of the stream, where it is known.
    fn len(&self) -> (r: Option<usize>)
        ensures
            match self.length_known() {
                Some(n) => r matches Some(m) && m as int == n,
                None => r is None,
            },
    ;
}

/// A [`Readable`] over a sequence held in memory, served one element per
/// chunk.
pub struct IteratorReadable<T> {
    items: Vec<T>,
    pos: usize,
}

impl<T> IteratorReadable<T> {
    /// The read position never passes the end of the items.
    #[verifier::type_invariant]
    closed spec fn bounded(&self) -> bool {
        self.pos <= self.items@.len()
    }
}

impl<T> IteratorReadable<T> {
    /// Wraps the elements `items`, to be read from the front.
    pub fn new(items: Vec<T>) -> (r: IteratorReadable<T>)
        ensures
            r.remaining() == items@,
            r.consumed() == 0,
            r.length_known() is None,
    {
        let r = IteratorReadable { items, pos: 0 };
        proof {
            assert(r.remaining() =~= r.items@);
        }
        r
    }
}

impl<T> Readable<T> for IteratorReadable<T> {
    closed spec fn remaining(&self) -> Seq<T> {
        self.items@.skip(self.pos as int)
    }

    closed spec fn consumed(&self) -> int {
        self.pos as int
    }

    closed spec fn length_known(&self) -> Option<int> {
        None
    }

    fn read_next(&mut self) -> (r: Result<T, ReaderError>) where T: Copy {
        proof {
            use_type_invariant(&*self);
        }
        if self.pos < self.items.len() {
            let v = self.items[self.pos];
            self.pos = self.pos + 1;
            proof {
                assert(final(self).remaining() =~= old(self).remaining().drop_first());
            }
            Ok(v)
        } else {
            proof {
                assert(old(self).remaining().len() == 0);
            }
            Err(ReaderError::EOF)
        }
    }

    fn skip(&mut self, skipped: usize) -> (r: Result<usize, ReaderError>) {
        proof {
            use_type_invariant(&*self);
        }
        let left = self.items.len() - self.pos;
        let k = if skipped <= left {
            skipped
        } else {
            left
        };
        self.pos = self.pos + k;
        proof {
            assert(final(self).remaining() =~= old(self).remaining().skip(k as int));
        }
        Ok(k)
    }

    fn read_chunk(&mut self) -> (r: Result<ReadableChunk<T>, ReaderError>) where T: Copy
    // one element per chunk, never batched; like every read, handing out a
    // chunk advances the position that pos() reports
        ensures
            old(self).remaining().len() > 0 ==> (r matches Ok(c) && c.pos == 0 && c.len == 1),
    {
        proof {
            use_type_invariant(&*self);
        }
        if self.pos < self.items.len() {
            let v = self.items[self.pos];
            self.pos = self.pos + 1;
            let mut single: Vec<T> = Vec::new();
            single.push(v);
            let c = ReadableChunk { chunk: Arc::new(single), pos: 0, len: 1 };
            proof {
                assert(c.chunk@.skip(0) =~= old(self).remaining().take(1));
                assert(final(self).remaining() =~= old(self).remaining().skip(1));
            }
            Ok(c)
        } else {
            proof {
                assert(old(self).remaining().len() == 0);
            }
            Err(ReaderError::EOF)
        }
    }

    fn pos(&self) -> (r: Option<usize>)
    // this source always tracks its position
        ensures
            r matches Some(p) && p as int == self.consumed(),
    {
        Some(self.pos)
    }

    fn len(&self) -> (r: Option<usize>) {
        None
    }
}

/// A [`Readable`]-style adapter over a buffer reader, with a one-chunk
/// cache.  Because the buffer is shared with its writer, every operation
/// takes the buffer as an explicit argument instead of implementing
/// [`Readable`] itself.
pub struct CursedBufferReadable<T> {
    reader: CursedBufferReader,
    current_chunk: Option<Arc<Vec<T>>>,
    current_chunk_pos: usize,
    current_chunk_len: usize,
    cache_start: Ghost<int>,
}

impl<T> CursedBufferReadable<T> {
    /// The buffer slot this adapter reads through.
    pub closed spec fn rid(&self) -> int {
        self.reader.id()
    }

    /// Whether a fetched chunk is cached.
    pub closed spec fn cached(&self) -> bool {
        self.current_chunk is Some
    }

    /// The cached chunk's elements.
    pub closed spec fn cache_seq(&self) -> Seq<T> {
        self.current_chunk->Some_0@
    }

    /// The offset of the next unconsumed element within the cache.
    pub closed spec fn cache_pos(&self) -> int {
        self.current_chunk_pos as int
    }

    /// The cached chunk's total length.
    pub closed spec fn cache_len(&self) -> int {
        self.current_chunk_len as int
    }

    /// The logical stream position of the cached chunk's first element.
    pub closed spec fn cache_start_pos(&self) -> int {
        self.cache_start@
    }

    /// Consistency with the buffer `b`: the slot is live, and the cache (if
    /// any) is a chunk of the logical stream that ends exactly where the
    /// underlying cursor stands.
    pub open spec fn wf(&self, b: CursedBufferView<T>) -> bool {
        &&& b.live(self.rid())
        &&& self.cached() ==> {
            &&& 0 <= self.cache_pos() <= self.cache_len()
            &&& self.cache_len() == self.cache_seq().len()
            &&& 0 <= self.cache_start_pos()
            &&& self.cache_start_pos() + self.cache_len() == b.pos_of(self.rid())
            &&& self.cache_start_pos() + self.cache_len() <= b.log.len()
            &&& self.cache_seq() == b.log.subrange(
                self.cache_start_pos(),
                self.cache_start_pos() + self.cache_len(),
            )
        }
    }

    /// The position of the next element this adapter would yield: inside
    /// the cache when one is held, else the underlying cursor.
    pub open spec fn effective_pos(&self, b: CursedBufferView<T>) -> int {
        if self.cached() {
            self.cache_start_pos() + self.cache_pos()
        } else {
            b.pos_of(self.rid())
        }
    }

    /// Wraps `reader`; nothing is cached yet.
    pub fn new(reader: CursedBufferReader) -> (r: CursedBufferReadable<T>)
        ensures
            r.rid() == reader.id(),
            !r.cached(),
    {
        CursedBufferReadable {
            reader,
            current_chunk: None,
            current_chunk_pos: 0,
            current_chunk_len: 0,
            cache_start: Ghost(0),
        }
    }

    /// Yields the element at the effective position: from the cache when it
    /// still holds one, otherwise by fetching the covering chunk from the
    /// buffer (which advances the underlying cursor to that chunk's end and
    /// re-runs eviction).  `EOF` exactly when the position lies outside the
    /// buffer's retained data.
    pub fn read_next(&mut self, buf: &mut CursedBuffer<T>) -> (r: Result<T, ReaderError>) where
        T: Copy,

        requires
            old(self).wf(old(buf)@),
            old(buf)@.wf(),
        ensures
            final(buf)@.wf(),
            final(self).wf(final(buf)@),
            final(self).rid() == old(self).rid(),
            ({
                let b = old(buf)@;
                let p = old(self).effective_pos(b);
                if old(self).cached() && old(self).cache_pos() < old(self).cache_len() {
                    &&& r == Ok::<T, ReaderError>(b.log[p])
                    &&& final(buf)@ == b
                    &&& final(self).effective_pos(b) == p + 1
                    &&& if old(self).cache_pos() + 1 < old(self).cache_len() {
                        &&& final(self).cached()
                        &&& final(self).cache_seq() == old(self).cache_seq()
                        &&& final(self).cache_start_pos() == old(self).cache_start_pos()
                        &&& final(self).cache_len() == old(self).cache_len()
                        &&& final(self).cache_pos() == old(self).cache_pos() + 1
                    } else {
                        !final(self).cached()
                    }
                } else if b.base <= p < b.total() {
                    let i = chunk_idx(b.chunks, p - b.base);
                    let st = b.base + sum_lens(b.chunks.take(i));
                    &&& r == Ok::<T, ReaderError>(b.log[p])
                    &&& final(buf)@ == b.with_cursor(old(self).rid(), st + b.chunks[i].len()).evict()
                    &&& final(self).effective_pos(final(buf)@) == p + 1
                    &&& if p + 1 < st + b.chunks[i].len() {
                        // the whole fetched chunk is now cached
                        &&& final(self).cached()
                        &&& final(self).cache_seq() == b.chunks[i]
                        &&& final(self).cache_start_pos() == st
                        &&& final(self).cache_len() == b.chunks[i].len()
                        &&& final(self).cache_pos() == p + 1 - st
                    } else {
                        !final(self).cached()
                    }
                } else {
                    &&& r == Err::<T, ReaderError>(ReaderError::EOF)
                    &&& final(buf)@ == b
                    &&& !final(self).cached()
                }
            }),
    {
        let ghost b = buf@;
        let ghost p = self.effective_pos(b);
        if self.current_chunk.is_none() || self.current_chunk_pos >= self.current_chunk_len {
            self.current_chunk = None;
            match self.reader.next_chunk(buf) {
                Ok(chunk) => {
                    proof {
                        let i = chunk_idx(b.chunks, p - b.base);
                        lemma_chunk_matches_log(b, i);
                        lemma_sum_lens_take_succ(b.chunks, i);
                        lemma_sum_lens_split(b.chunks, i + 1);
                        lemma_sum_lens_nonneg(b.chunks.skip(i + 1));
                        lemma_sum_lens_nonneg(b.chunks.take(i));
                        let st = b.base + sum_lens(b.chunks.take(i));
                        assert(chunk.slice@ == b.chunks[i]);
                        assert(b.chunks[i] == b.log.subrange(st, st + b.chunks[i].len()));
                        assert(chunk.slice@[p - st] == b.log[p]);
                    }
                    let newpos = self.reader.pos(buf);
                    self.current_chunk_pos = chunk.pos;
                    self.current_chunk_len = chunk.len;
                    self.cache_start = Ghost(newpos as int - chunk.len as int);
                    self.current_chunk = Some(chunk.slice);
                },
                Err(_) => {
                    return Err(ReaderError::EOF);
                },
            }
        }
        let c: Arc<Vec<T>> = match &self.current_chunk {
            Some(c) => c.clone(),
            None => unreached(),
        };
        let v = (&*c)[self.current_chunk_pos];
        self.current_chunk_pos = self.current_chunk_pos + 1;
        if self.current_chunk_pos >= self.current_chunk_len {
            self.current_chunk = None;
        }
        Ok(v)
    }

    /// Advances by `skipped` elements: within the cache when it suffices,
    /// otherwise the cache is dropped and the whole count is forwarded to
    /// the underlying cursor — skipping is chunk-boundary-accurate once the
    /// cache is exceeded.
    pub fn skip(&mut self, buf: &mut CursedBuffer<T>, skipped: usize) -> (r: Result<
        usize,
        ReaderError,
    >)
        requires
            old(self).wf(old(buf)@),
            old(buf)@.wf(),
            old(buf)@.pos_of(old(self).rid()) + skipped <= usize::MAX,
        ensures
            final(buf)@.wf(),
            final(self).wf(final(buf)@),
            final(self).rid() == old(self).rid(),
            r == Ok::<usize, ReaderError>(skipped),
            ({
                let b = old(buf)@;
                if old(self).cached() && skipped <= old(self).cache_len() - old(self).cache_pos() {
                    &&& final(buf)@ == b
                    &&& final(self).effective_pos(b) == old(self).effective_pos(b) + skipped
                } else {
                    &&& final(buf)@ == b.with_cursor(
                        old(self).rid(),
                        b.pos_of(old(self).rid()) + skipped,
                    ).evict()
                    &&& !final(self).cached()
                }
            }),
    {
        if self.current_chunk.is_some() {
            let remaining = self.current_chunk_len - self.current_chunk_pos;
            if skipped <= remaining {
                self.current_chunk_pos = self.current_chunk_pos + skipped;
                Ok(skipped)
            } else {
                self.current_chunk = None;
                self.reader.skip(buf, skipped);
                Ok(skipped)
            }
        } else {
            self.reader.skip(buf, skipped);
            Ok(skipped)
        }
    }

    /// Hands over the cached chunk, or fetches a fresh one from the buffer;
    /// either way the cache is empty afterwards.  `EOF` exactly when nothing
    /// is cached and the cursor lies outside the retained data.
    pub fn read_chunk(&mut self, buf: &mut CursedBuffer<T>) -> (r: Result<
        ReadableChunk<T>,
        ReaderError,
    >)
        requires
            old(self).wf(old(buf)@),
            old(buf)@.wf(),
        ensures
            final(buf)@.wf(),
            final(self).wf(final(buf)@),
            final(self).rid() == old(self).rid(),
            !final(self).cached(),
            ({
                let b = old(buf)@;
                let p = old(self).effective_pos(b);
                if old(self).cached() {
                    &&& r matches Ok(c)
                    &&& c.chunk@ == old(self).cache_seq()
                    &&& c.pos == old(self).cache_pos()
                    &&& c.len == old(self).cache_len()
                    &&& c.chunk@ == b.log.subrange(
                        old(self).cache_start_pos(),
                        old(self).cache_start_pos() + old(self).cache_len(),
                    )
                    &&& final(buf)@ == b
                } else if b.base <= p < b.total() {
                    let i = chunk_idx(b.chunks, p - b.base);
                    let st = b.base + sum_lens(b.chunks.take(i));
                    &&& r matches Ok(c)
                    &&& c.chunk@ == b.chunks[i]
                    &&& c.pos == p - st
                    &&& c.len == b.chunks[i].len()
                    &&& final(buf)@ == b.with_cursor(old(self).rid(), st + b.chunks[i].len()).evict()
                } else {
                    &&& r == Err::<ReadableChunk<T>, ReaderError>(ReaderError::EOF)
                    &&& final(buf)@ == b
                }
            }),
    {
        if self.current_chunk.is_none() {
            match self.reader.next_chunk(buf) {
                Ok(chunk) => {
                    let newpos = self.reader.pos(buf);
                    self.current_chunk_pos = chunk.pos;
                    self.current_chunk_len = chunk.len;
                    self.cache_start = Ghost(newpos as int - chunk.len as int);
                    self.current_chunk = Some(chunk.slice);
                },
                Err(_) => {
                    return Err(ReaderError::EOF);
                },
            }
        }
        let c: Arc<Vec<T>> = match self.current_chunk.take() {
            Some(c) => c,
            None => unreached(),
        };
        Ok(ReadableChunk { chunk: c, pos: self.current_chunk_pos, len: self.current_chunk_len })
    }

    /// The underlying cursor's position (not adjusted for the cache).
    pub fn pos(&self, buf: &CursedBuffer<T>) -> (r: Option<usize>)
        requires
            buf@.live(self.rid()),
        ensures
            r matches Some(p) && p as int == buf@.pos_of(self.rid()),
    {
        Some(self.reader.pos(buf))
    }

    /// The stream is unbounded; its length is never known.
    pub fn len(&self) -> (r: Option<usize>)
        ensures
            r is None,
    {
        None
    }
}

} // verus!
