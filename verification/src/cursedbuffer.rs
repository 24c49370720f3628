//! A multi-reader streaming buffer.
//!
//! A single producer appends immutable chunks of elements; any number of
//! independent readers each hold a cursor into the same logical, unbounded
//! stream.  Chunks that every live reader has passed are evicted, and an
//! eviction observer can be registered; it is notified at most once per
//! eviction batch.  The buffer here is the sequential state itself: shared
//! handles, locking and asynchronous wake-ups are left to the surrounding
//! application, which performs every mutation through the verified methods
//! below.

use vstd::prelude::*;
use std::sync::Arc;

verus! {

/// Errors reported at the buffer boundary.  `InvalidData` and `IoError` are
/// reserved for richer backing stores and are currently never produced.
#[derive(Debug, PartialEq, Eq, Structural, Clone, Copy)]
pub enum CursedBufferError {
    NotEnoughData,
    InvalidData,
    IoError,
    BufferClosed,
}

/// An immutable chunk handed out to a reader: shared storage, the offset
/// within it that corresponds to the reader's position at fetch time, and
/// the chunk's total length.
#[derive(Debug)]
pub struct CursedChunk<T> {
    pub slice: Arc<Vec<T>>,
    pub pos: usize,
    pub len: usize,
}

/// Mathematical state of a buffer.
#[verifier::ext_equal]
pub struct CursedBufferView<T> {
    /// Every element ever appended, in append order (evicted ones included).
    pub log: Seq<T>,
    /// Absolute logical position of the first retained element.
    pub base: int,
    /// The retained chunks, contiguous from `base`.
    pub chunks: Seq<Seq<T>>,
    /// One-way closed flag.
    pub closed: bool,
    /// Reader slots: a live slot holds its cursor position, a tombstone holds
    /// `None`.  Slots are never compacted.
    pub readers: Seq<Option<int>>,
    /// Whether an eviction observer is registered.
    pub callback_registered: bool,
    /// How often the eviction observer was notified (at most once per batch).
    pub callback_calls: int,
}

/// Total length of a sequence of chunks.
pub open spec fn sum_lens<T>(chunks: Seq<Seq<T>>) -> int
    decreases chunks.len(),
{
    if chunks.len() == 0 {
        0
    } else {
        chunks[0].len() + sum_lens(chunks.drop_first())
    }
}

/// Concatenation of a sequence of chunks.
pub open spec fn cat<T>(chunks: Seq<Seq<T>>) -> Seq<T>
    decreases chunks.len(),
{
    if chunks.len() == 0 {
        Seq::empty()
    } else {
        chunks[0] + cat(chunks.drop_first())
    }
}

/// Minimum position over the live reader slots; `usize::MAX` when none is
/// live, so that a buffer without readers may reclaim everything.
pub open spec fn min_live_pos(readers: Seq<Option<int>>) -> int
    decreases readers.len(),
{
    if readers.len() == 0 {
        usize::MAX as int
    } else {
        let rest = min_live_pos(readers.drop_last());
        match readers.last() {
            Some(p) => if p < rest { p } else { rest },
            None => rest,
        }
    }
}

/// How many leading chunks fit entirely into `can` reclaimable elements.
pub open spec fn evict_count<T>(chunks: Seq<Seq<T>>, can: int) -> int
    decreases chunks.len(),
{
    if chunks.len() == 0 || chunks[0].len() > can {
        0
    } else {
        1 + evict_count(chunks.drop_first(), can - chunks[0].len())
    }
}

/// A counter increment that sticks at `usize::MAX` instead of wrapping.
pub open spec fn bump(n: int) -> int {
    if n < usize::MAX {
        n + 1
    } else {
        n
    }
}

impl<T> CursedBufferView<T> {
    /// Total number of elements ever appended.
    pub open spec fn total(self) -> int {
        self.base + sum_lens(self.chunks)
    }

    /// Elements the slowest live reader no longer needs.
    pub open spec fn reclaimable(self) -> int {
        if min_live_pos(self.readers) >= self.base {
            min_live_pos(self.readers) - self.base
        } else {
            0
        }
    }

    /// Well-formedness: the log covers everything ever appended, the retained
    /// chunks are exactly its tail from `base`, and all counters fit a
    /// machine word.
    pub open spec fn wf(self) -> bool {
        &&& 0 <= self.base
        &&& self.total() <= usize::MAX
        &&& self.log.len() == self.total()
        &&& cat(self.chunks) == self.log.skip(self.base)
        &&& 0 <= self.callback_calls <= usize::MAX
        &&& forall|i: int|
            0 <= i < self.readers.len() ==> ((#[trigger] self.readers[i]) matches Some(p) ==> 0
                <= p <= usize::MAX)
    }

    /// Every live cursor still lies at or after `base`; holds as long as no
    /// reader was created at an already evicted position.
    pub open spec fn cursors_covered(self) -> bool {
        forall|i: int|
            0 <= i < self.readers.len() ==> ((#[trigger] self.readers[i]) matches Some(p) ==> p
                >= self.base)
    }

    /// Slot `i` holds a live cursor.
    pub open spec fn live(self, i: int) -> bool {
        0 <= i < self.readers.len() && self.readers[i] is Some
    }

    /// The cursor position of live slot `i`.
    pub open spec fn pos_of(self, i: int) -> int {
        self.readers[i]->Some_0
    }

    /// The state after one eviction pass: the fully consumed leading chunks
    /// leave, `base` advances past them, and a registered observer is
    /// notified once if at least one chunk left.
    pub open spec fn evict(self) -> CursedBufferView<T> {
        let k = evict_count(self.chunks, self.reclaimable());
        CursedBufferView {
            base: self.base + sum_lens(self.chunks.take(k)),
            chunks: self.chunks.skip(k),
            callback_calls: if k > 0 && self.callback_registered {
                bump(self.callback_calls)
            } else {
                self.callback_calls
            },
            ..self
        }
    }

    /// `self` with the cursor of slot `i` moved to `p`.
    pub open spec fn with_cursor(self, i: int, p: int) -> CursedBufferView<T> {
        CursedBufferView { readers: self.readers.update(i, Some(p)), ..self }
    }

    /// `self` with slot `i` turned into a tombstone.
    pub open spec fn with_tombstone(self, i: int) -> CursedBufferView<T> {
        CursedBufferView { readers: self.readers.update(i, None), ..self }
    }
}

/// Index of the retained chunk that covers offset `off` (counted from
/// `base`); meaningful for `0 <= off < sum_lens(chunks)`.
pub open spec fn chunk_idx<T>(chunks: Seq<Seq<T>>, off: int) -> int
    decreases chunks.len(),
{
    if chunks.len() == 0 || off < chunks[0].len() {
        0
    } else {
        1 + chunk_idx(chunks.drop_first(), off - chunks[0].len())
    }
}

/// The buffer state.  One writer and any number of readers operate on it;
/// each reader is addressed through the [`CursedBufferReader`] handle that
/// [`CursedBuffer::reader`] returned for it.
pub struct CursedBuffer<T> {
    first_read_position: usize,
    buffers: Vec<Arc<Vec<T>>>,
    is_closed: bool,
    all_readers: Vec<Option<usize>>,
    callback_registered: bool,
    callback_fires: usize,
    history: Ghost<Seq<T>>,
}

/// The reader slot table as the view sees it.
spec fn readers_view(rs: Seq<Option<usize>>) -> Seq<Option<int>> {
    rs.map_values(
        |r: Option<usize>|
            match r {
                Some(p) => Some(p as int),
                None => None,
            },
    )
}

impl<T> View for CursedBuffer<T> {
    type V = CursedBufferView<T>;

    closed spec fn view(&self) -> CursedBufferView<T> {
        CursedBufferView {
            log: self.history@,
            base: self.first_read_position as int,
            chunks: self.buffers@.map_values(|b: Arc<Vec<T>>| b@),
            closed: self.is_closed,
            readers: readers_view(self.all_readers@),
            callback_registered: self.callback_registered,
            callback_calls: self.callback_fires as int,
        }
    }
}

impl<T> CursedBuffer<T> {
    /// A fresh buffer: empty, open, without readers or observer.
    pub fn new() -> (r: CursedBuffer<T>)
        ensures
            r@.wf(),
            r@.log == Seq::<T>::empty(),
            r@.base == 0,
            r@.chunks == Seq::<Seq<T>>::empty(),
            !r@.closed,
            r@.readers == Seq::<Option<int>>::empty(),
            !r@.callback_registered,
            r@.callback_calls == 0,
    {
        let r = CursedBuffer {
            first_read_position: 0,
            buffers: Vec::new(),
            is_closed: false,
            all_readers: Vec::new(),
            callback_registered: false,
            callback_fires: 0,
            history: Ghost(Seq::empty()),
        };
        proof {
            assert(r@.chunks =~= Seq::<Seq<T>>::empty());
            assert(r@.readers =~= Seq::<Option<int>>::empty());
            assert(cat(r@.chunks) =~= r@.log.skip(0));
        }
        r
    }

    /// Registers the eviction observer, replacing any previous registration;
    /// the observer is counted as notified once per eviction batch from here
    /// on.
    pub fn set_callback(&mut self)
        ensures
            final(self)@ == (CursedBufferView { callback_registered: true, ..old(self)@ }),
    {
        self.callback_registered = true;
    }

    /// Closes the buffer: later appends are rejected, data already written
    /// stays readable.  Idempotent.
    pub fn close(&mut self)
        ensures
            final(self)@ == (CursedBufferView { closed: true, ..old(self)@ }),
    {
        self.is_closed = true;
    }

    /// Appends `data` as one immutable chunk.  Fails with `BufferClosed` once
    /// the buffer is closed and leaves the state unchanged in that case.
    pub fn write(&mut self, data: Vec<T>) -> (r: Result<(), CursedBufferError>)
        requires
            old(self)@.wf(),
            old(self)@.total() + data@.len() <= usize::MAX,
        ensures
            final(self)@.wf(),
            old(self)@.closed ==> r == Err::<(), CursedBufferError>(
                CursedBufferError::BufferClosed,
            ) && final(self)@ == old(self)@,
            !old(self)@.closed ==> r == Ok::<(), CursedBufferError>(()) && final(self)@ == (
            CursedBufferView {
                log: old(self)@.log + data@,
                chunks: old(self)@.chunks.push(data@),
                ..old(self)@
            }),
    {
        if self.is_closed {
            return Err(CursedBufferError::BufferClosed);
        }
        let ghost d: Seq<T> = data@;
        let ghost v0 = self@;
        self.buffers.push(Arc::new(data));
        self.history = Ghost(self.history@ + d);
        proof {
            assert(self@.chunks =~= v0.chunks.push(d));
            lemma_sum_lens_push(v0.chunks, d);
            lemma_cat_push(v0.chunks, d);
            lemma_sum_lens_nonneg(v0.chunks);
            assert((v0.log + d).skip(v0.base) =~= v0.log.skip(v0.base) + d);
            assert(cat(self@.chunks) =~= self@.log.skip(self@.base));
        }
        Ok(())
    }

    /// The logical position of the first element still retained.
    pub fn base_offset(&self) -> (r: usize)
        requires
            self@.wf(),
        ensures
            r == self@.base,
    {
        self.first_read_position
    }

    /// Total number of elements ever appended.
    pub fn total_written(&self) -> (r: usize)
        requires
            self@.wf(),
        ensures
            r == self@.total(),
    {
        let ghost cs = self@.chunks;
        let mut sum: usize = self.first_read_position;
        let mut i: usize = 0;
        proof {
            assert(cs.take(0) =~= Seq::<Seq<T>>::empty());
        }
        while i < self.buffers.len()
            invariant
                self@.wf(),
                cs == self@.chunks,
                i <= self.buffers@.len(),
                self.buffers@.len() == cs.len(),
                sum == self@.base + sum_lens(cs.take(i as int)),
            decreases self.buffers@.len() - i,
        {
            proof {
                lemma_sum_lens_take_succ(cs, i as int);
                lemma_sum_lens_split(cs, i + 1);
                lemma_sum_lens_nonneg(cs.skip(i + 1));
            }
            sum = sum + self.buffers[i].len();
            i = i + 1;
        }
        proof {
            assert(cs.take(cs.len() as int) =~= cs);
        }
        sum
    }

    /// Whether the buffer was closed.
    pub fn closed(&self) -> (r: bool)
        ensures
            r == self@.closed,
    {
        self.is_closed
    }

    /// How often the eviction observer was notified so far.
    pub fn callback_calls(&self) -> (r: usize)
        ensures
            r == self@.callback_calls,
    {
        self.callback_fires
    }

    /// Number of chunks currently retained.
    pub fn retained_chunks(&self) -> (r: usize)
        ensures
            r == self@.chunks.len(),
    {
        self.buffers.len()
    }

    /// Registers a new reader slot whose cursor starts at `position` and
    /// returns the handle for it.  The position is not validated against
    /// `base` or the written length; a caller may ask for data that was
    /// already evicted or not yet written.
    pub fn reader(&mut self, position: usize) -> (r: CursedBufferReader)
        ensures
            final(self)@ == (CursedBufferView {
                readers: old(self)@.readers.push(Some(position as int)),
                ..old(self)@
            }),
            r.id() == old(self)@.readers.len(),
            old(self)@.wf() ==> final(self)@.wf(),
    {
        let idx = self.all_readers.len();
        self.all_readers.push(Some(position));
        proof {
            assert(readers_view(self.all_readers@) =~= readers_view(
                old(self).all_readers@,
            ).push(Some(position as int)));
            assert(self@ =~= (CursedBufferView {
                readers: old(self)@.readers.push(Some(position as int)),
                ..old(self)@
            }));
        }
        CursedBufferReader { reader_in_buffer: idx }
    }

    /// Recomputes the window after a cursor changed: drops every leading
    /// chunk that all live readers have passed, and counts one observer
    /// notification if at least one chunk was dropped.
    fn sync_reader_states(&mut self)
        requires
            old(self)@.wf(),
        ensures
            final(self)@ == old(self)@.evict(),
            final(self)@.wf(),
    {
        let ghost v0 = self@;
        let min_pos = min_live_exec(&self.all_readers);
        let can_total: usize = if min_pos >= self.first_read_position {
            min_pos - self.first_read_position
        } else {
            0
        };
        proof {
            assert(can_total as int == v0.reclaimable());
            assert(v0.chunks.take(0) =~= Seq::<Seq<T>>::empty());
            assert(v0.chunks.skip(0) =~= v0.chunks);
        }
        let mut can_delete = can_total;
        let mut call = false;
        let ghost mut j: int = 0;
        while !self.buffers.is_empty() && self.buffers[0].len() <= can_delete
            invariant
                v0.wf(),
                0 <= j <= v0.chunks.len(),
                self@.log == v0.log,
                self@.closed == v0.closed,
                self@.readers == v0.readers,
                self@.callback_registered == v0.callback_registered,
                self@.callback_calls == v0.callback_calls,
                self@.chunks == v0.chunks.skip(j),
                self@.base == v0.base + sum_lens(v0.chunks.take(j)),
                can_delete as int == v0.reclaimable() - sum_lens(v0.chunks.take(j)),
                evict_count(v0.chunks, v0.reclaimable()) == j + evict_count(
                    self@.chunks,
                    can_delete as int,
                ),
                call == (j > 0),
                self@.wf(),
            decreases self.buffers@.len(),
        {
            let ghost cur = self@.chunks;
            let ghost b = self@.base;
            let l = self.buffers[0].len();
            proof {
                lemma_sum_lens_nonneg(cur);
                lemma_sum_lens_nonneg(cur.drop_first());
                assert(cat(cur) == cur[0] + cat(cur.drop_first()));
                assert(cat(cur) == self@.log.skip(b));
                assert(cur[0].len() == l);
            }
            can_delete = can_delete - l;
            self.first_read_position = self.first_read_position + l;
            self.buffers.remove(0);
            call = true;
            proof {
                j = j + 1;
                assert(self@.chunks =~= cur.drop_first());
                assert(cur.drop_first() =~= v0.chunks.skip(j));
                lemma_sum_lens_take_succ(v0.chunks, j - 1);
                assert(self@.base == b + l);
                assert(v0.log.skip(b + l) =~= v0.log.skip(b).skip(l as int));
                assert(cat(cur.drop_first()) =~= v0.log.skip(b).skip(l as int));
                assert(cat(self@.chunks) =~= self@.log.skip(self@.base));
            }
        }
        proof {
            assert(evict_count(self@.chunks, can_delete as int) == 0);
        }
        if call && self.callback_registered {
            if self.callback_fires < usize::MAX {
                self.callback_fires = self.callback_fires + 1;
            }
        }
        proof {
            assert(self@ =~= v0.evict());
        }
    }
}

/// Minimum cursor position over the live slots of `rs`; `usize::MAX` when
/// none is live.
fn min_live_exec(rs: &Vec<Option<usize>>) -> (r: usize)
    ensures
        r as int == min_live_pos(readers_view(rs@)),
{
    let ghost rv = readers_view(rs@);
    let mut min_pos: usize = usize::MAX;
    let mut i: usize = 0;
    proof {
        assert(rv.take(0) =~= Seq::<Option<int>>::empty());
    }
    while i < rs.len()
        invariant
            i <= rs@.len(),
            rv == readers_view(rs@),
            rv.len() == rs@.len(),
            min_pos as int == min_live_pos(rv.take(i as int)),
        decreases rs@.len() - i,
    {
        match rs[i] {
            Some(p) => {
                if p < min_pos {
                    min_pos = p;
                }
            },
            None => {},
        }
        proof {
            assert(rv.take(i + 1).drop_last() =~= rv.take(i as int));
            assert(rv.take(i + 1).last() == rv[i as int]);
        }
        i = i + 1;
    }
    proof {
        assert(rv.take(rv.len() as int) =~= rv);
    }
    min_pos
}

impl<T> CursedBuffer<T> {
    /// Locates the retained chunk covering offset `off` from `base`:
    /// returns its index and the offset inside it, or `None` when `off`
    /// lies at or beyond the retained data.
    fn find_chunk(&self, off: usize) -> (r: Option<(usize, usize)>)
        requires
            self@.wf(),
        ensures
            match r {
                Some(io) => {
                    &&& (off as int) < sum_lens(self@.chunks)
                    &&& io.0 as int == chunk_idx(self@.chunks, off as int)
                    &&& (io.0 as int) < self@.chunks.len()
                    &&& io.1 as int == off - sum_lens(self@.chunks.take(io.0 as int))
                    &&& (io.1 as int) < self@.chunks[io.0 as int].len()
                },
                None => off as int >= sum_lens(self@.chunks),
            },
    {
        let ghost cs = self@.chunks;
        let mut still: usize = off;
        let mut i: usize = 0;
        proof {
            assert(cs.take(0) =~= Seq::<Seq<T>>::empty());
        }
        while i < self.buffers.len()
            invariant
                self@.wf(),
                cs == self@.chunks,
                self.buffers@.len() == cs.len(),
                i <= cs.len(),
                still as int == off - sum_lens(cs.take(i as int)),
            decreases cs.len() - i,
        {
            let l = self.buffers[i].len();
            if still < l {
                proof {
                    assert(l as int == cs[i as int].len());
                    lemma_chunk_idx_at(cs, off as int, i as int);
                    lemma_sum_lens_take_succ(cs, i as int);
                    lemma_sum_lens_split(cs, i as int + 1);
                    lemma_sum_lens_nonneg(cs.skip(i as int + 1));
                }
                return Some((i, still));
            }
            proof {
                lemma_sum_lens_take_succ(cs, i as int);
            }
            still = still - l;
            i = i + 1;
        }
        proof {
            assert(cs.take(cs.len() as int) =~= cs);
        }
        None
    }
}

/// Handle for one reader slot of a [`CursedBuffer`].  All its operations
/// act on the buffer the slot was created in, which the caller passes to
/// each call.
#[derive(Debug)]
pub struct CursedBufferReader {
    reader_in_buffer: usize,
}

impl CursedBufferReader {
    /// The index of this reader's slot in the buffer's slot table.
    pub closed spec fn id(&self) -> int {
        self.reader_in_buffer as int
    }

    /// The cursor's current logical position.
    pub fn pos<T>(&self, buf: &CursedBuffer<T>) -> (r: usize)
        requires
            buf@.live(self.id()),
        ensures
            r as int == buf@.pos_of(self.id()),
    {
        buf.all_readers[self.reader_in_buffer].unwrap()
    }

    /// Advances the cursor by `len` elements, unconditionally, and re-runs
    /// eviction: the minimum live position may have grown.
    pub fn skip<T>(&self, buf: &mut CursedBuffer<T>, len: usize)
        requires
            old(buf)@.wf(),
            old(buf)@.live(self.id()),
            old(buf)@.pos_of(self.id()) + len <= usize::MAX,
        ensures
            final(buf)@ == old(buf)@.with_cursor(
                self.id(),
                old(buf)@.pos_of(self.id()) + len,
            ).evict(),
            final(buf)@.wf(),
    {
        let p = buf.all_readers[self.reader_in_buffer].unwrap();
        let ghost inter = buf@.with_cursor(self.id(), p + len);
        buf.all_readers.set(self.reader_in_buffer, Some(p + len));
        proof {
            assert(readers_view(buf.all_readers@) =~= inter.readers);
            assert(buf@ =~= inter);
        }
        buf.sync_reader_states();
    }

    /// Fetches the chunk covering the cursor's position.  On success the
    /// cursor advances to the end of that chunk (delivery is per written
    /// chunk, not per element) and eviction is re-run; `NotEnoughData` is
    /// returned, with nothing changed, exactly when the position lies
    /// outside the retained data.
    pub fn next_chunk<T>(&self, buf: &mut CursedBuffer<T>) -> (r: Result<
        CursedChunk<T>,
        CursedBufferError,
    >)
        requires
            old(buf)@.wf(),
            old(buf)@.live(self.id()),
        ensures
            final(buf)@.wf(),
            ({
                let v = old(buf)@;
                let p = v.pos_of(self.id());
                if p < v.base || p >= v.total() {
                    &&& r == Err::<CursedChunk<T>, CursedBufferError>(
                        CursedBufferError::NotEnoughData,
                    )
                    &&& final(buf)@ == v
                } else {
                    let i = chunk_idx(v.chunks, p - v.base);
                    let st = v.base + sum_lens(v.chunks.take(i));
                    &&& r matches Ok(c)
                    &&& 0 <= i < v.chunks.len()
                    &&& c.slice@ == v.chunks[i]
                    &&& c.pos == p - st
                    &&& c.len == v.chunks[i].len()
                    &&& st <= p < st + v.chunks[i].len()
                    &&& final(buf)@ == v.with_cursor(self.id(), st + v.chunks[i].len()).evict()
                }
            }),
    {
        let ghost v0 = buf@;
        let p = buf.all_readers[self.reader_in_buffer].unwrap();
        if p < buf.first_read_position {
            return Err(CursedBufferError::NotEnoughData);
        }
        match buf.find_chunk(p - buf.first_read_position) {
            None => Err(CursedBufferError::NotEnoughData),
            Some((i, o)) => {
                proof {
                    lemma_sum_lens_take_succ(v0.chunks, i as int);
                    lemma_sum_lens_split(v0.chunks, i as int + 1);
                    lemma_sum_lens_nonneg(v0.chunks.skip(i as int + 1));
                    lemma_sum_lens_nonneg(v0.chunks.take(i as int));
                }
                let l = buf.buffers[i].len();
                let chunk = buf.buffers[i].clone();
                let newpos = p - o + l;
                let ghost inter = buf@.with_cursor(self.id(), newpos as int);
                buf.all_readers.set(self.reader_in_buffer, Some(newpos));
                proof {
                    assert(readers_view(buf.all_readers@) =~= inter.readers);
                    assert(buf@ =~= inter);
                }
                let r = CursedChunk { slice: chunk, pos: o, len: l };
                buf.sync_reader_states();
                Ok(r)
            },
        }
    }

    /// Retires this reader: its slot becomes a tombstone and eviction is
    /// re-run once, since the departed cursor may have been the slowest.
    pub fn destroy<T>(self, buf: &mut CursedBuffer<T>)
        requires
            old(buf)@.wf(),
            0 <= self.id() < old(buf)@.readers.len(),
        ensures
            final(buf)@ == old(buf)@.with_tombstone(self.id()).evict(),
            final(buf)@.wf(),
    {
        let ghost inter = buf@.with_tombstone(self.id());
        buf.all_readers.set(self.reader_in_buffer, None);
        proof {
            assert(readers_view(buf.all_readers@) =~= inter.readers);
            assert(buf@ =~= inter);
        }
        buf.sync_reader_states();
    }
}

impl<T> CursedChunk<T> {
    /// The elements of this chunk from the fetch offset on.
    pub fn as_slice(&self) -> (r: &[T])
        requires
            self.pos <= self.slice@.len(),
        ensures
            r@ == self.slice@.skip(self.pos as int),
    {
        let v: &Vec<T> = &*self.slice;
        let r = vstd::slice::slice_subrange(v.as_slice(), self.pos, v.len());
        proof {
            assert(r@ =~= self.slice@.skip(self.pos as int));
        }
        r
    }
}

/// The total length of a prefix grows by exactly the next chunk's length.
pub proof fn lemma_sum_lens_take_succ<T>(chunks: Seq<Seq<T>>, j: int)
    requires
        0 <= j < chunks.len(),
    ensures
        sum_lens(chunks.take(j + 1)) == sum_lens(chunks.take(j)) + chunks[j].len(),
    decreases j,
{
    if j == 0 {
        assert(chunks.take(0) =~= Seq::<Seq<T>>::empty());
        assert(chunks.take(1).drop_first() =~= Seq::<Seq<T>>::empty());
        assert(chunks.take(1)[0] == chunks[0]);
    } else {
        lemma_sum_lens_take_succ(chunks.drop_first(), j - 1);
        assert(chunks.take(j + 1).drop_first() =~= chunks.drop_first().take(j));
        assert(chunks.take(j).drop_first() =~= chunks.drop_first().take(j - 1));
        assert(chunks.take(j + 1)[0] == chunks[0]);
        assert(chunks.take(j)[0] == chunks[0]);
    }
}

/// Chunk lengths split over any cut of the sequence.
pub proof fn lemma_sum_lens_split<T>(chunks: Seq<Seq<T>>, k: int)
    requires
        0 <= k <= chunks.len(),
    ensures
        sum_lens(chunks) == sum_lens(chunks.take(k)) + sum_lens(chunks.skip(k)),
    decreases k,
{
    if k == 0 {
        assert(chunks.take(0) =~= Seq::<Seq<T>>::empty());
        assert(chunks.skip(0) =~= chunks);
    } else {
        lemma_sum_lens_split(chunks.drop_first(), k - 1);
        assert(chunks.take(k).drop_first() =~= chunks.drop_first().take(k - 1));
        assert(chunks.skip(k) =~= chunks.drop_first().skip(k - 1));
        assert(chunks.take(k)[0] == chunks[0]);
    }
}

/// `chunk_idx` really answers `i` when `off` falls inside chunk `i`.
pub proof fn lemma_chunk_idx_at<T>(chunks: Seq<Seq<T>>, off: int, i: int)
    requires
        0 <= i < chunks.len(),
        sum_lens(chunks.take(i)) <= off,
        off < sum_lens(chunks.take(i)) + chunks[i].len(),
    ensures
        chunk_idx(chunks, off) == i,
    decreases i,
{
    if i == 0 {
        assert(chunks.take(0) =~= Seq::<Seq<T>>::empty());
    } else {
        assert(chunks.take(i)[0] == chunks[0]);
        lemma_sum_lens_nonneg(chunks.take(i).drop_first());
        assert(sum_lens(chunks.take(i)) >= chunks[0].len());
        assert(chunks.take(i).drop_first() =~= chunks.drop_first().take(i - 1));
        lemma_chunk_idx_at(chunks.drop_first(), off - chunks[0].len(), i - 1);
    }
}

/// Appending one chunk extends the total length by that chunk's length.
pub proof fn lemma_sum_lens_push<T>(chunks: Seq<Seq<T>>, c: Seq<T>)
    ensures
        sum_lens(chunks.push(c)) == sum_lens(chunks) + c.len(),
    decreases chunks.len(),
{
    if chunks.len() == 0 {
        assert(chunks.push(c)[0] == c);
        assert(chunks.push(c).drop_first() =~= Seq::<Seq<T>>::empty());
        assert(sum_lens(Seq::<Seq<T>>::empty()) == 0);
        assert(sum_lens(chunks.push(c)) == c.len() + sum_lens(chunks.push(c).drop_first()));
    } else {
        assert(chunks.push(c)[0] == chunks[0]);
        assert(chunks.push(c).drop_first() =~= chunks.drop_first().push(c));
        lemma_sum_lens_push(chunks.drop_first(), c);
        assert(sum_lens(chunks.push(c)) == chunks[0].len() + sum_lens(
            chunks.drop_first().push(c),
        ));
    }
}

/// Appending one chunk appends its elements to the concatenation.
pub proof fn lemma_cat_push<T>(chunks: Seq<Seq<T>>, c: Seq<T>)
    ensures
        cat(chunks.push(c)) == cat(chunks) + c,
    decreases chunks.len(),
{
    if chunks.len() == 0 {
        assert(chunks.push(c)[0] == c);
        assert(chunks.push(c).drop_first() =~= Seq::<Seq<T>>::empty());
        assert(cat(Seq::<Seq<T>>::empty()) == Seq::<T>::empty());
        assert(cat(chunks.push(c)) == c + cat(chunks.push(c).drop_first()));
        assert(cat(chunks.push(c)) =~= cat(chunks) + c);
    } else {
        assert(chunks.push(c)[0] == chunks[0]);
        assert(chunks.push(c).drop_first() =~= chunks.drop_first().push(c));
        lemma_cat_push(chunks.drop_first(), c);
        assert(cat(chunks.push(c)) == chunks[0] + cat(chunks.drop_first().push(c)));
        assert(cat(chunks.push(c)) =~= cat(chunks) + c);
    }
}

/// A chunk sequence never has negative total length.
pub proof fn lemma_sum_lens_nonneg<T>(chunks: Seq<Seq<T>>)
    ensures
        sum_lens(chunks) >= 0,
    decreases chunks.len(),
{
    if chunks.len() > 0 {
        lemma_sum_lens_nonneg(chunks.drop_first());
    }
}

/// The concatenation is as long as the chunk lengths say.
pub proof fn lemma_cat_len<T>(chunks: Seq<Seq<T>>)
    ensures
        cat(chunks).len() == sum_lens(chunks),
    decreases chunks.len(),
{
    if chunks.len() > 0 {
        lemma_cat_len(chunks.drop_first());
    }
}

/// Within the concatenation, chunk `i` occupies exactly the range that the
/// lengths before it dictate.
proof fn lemma_cat_chunk<T>(chunks: Seq<Seq<T>>, i: int)
    requires
        0 <= i < chunks.len(),
    ensures
        sum_lens(chunks.take(i)) >= 0,
        sum_lens(chunks.take(i)) + chunks[i].len() <= cat(chunks).len(),
        cat(chunks).subrange(
            sum_lens(chunks.take(i)),
            sum_lens(chunks.take(i)) + chunks[i].len(),
        ) == chunks[i],
    decreases i,
{
    lemma_cat_len(chunks);
    lemma_sum_lens_nonneg(chunks.take(i));
    lemma_sum_lens_take_succ(chunks, i);
    lemma_sum_lens_split(chunks, i + 1);
    lemma_sum_lens_nonneg(chunks.skip(i + 1));
    if i == 0 {
        assert(chunks.take(0) =~= Seq::<Seq<T>>::empty());
        assert(cat(chunks) == chunks[0] + cat(chunks.drop_first()));
        assert(cat(chunks).subrange(0, chunks[0].len() as int) =~= chunks[0]);
    } else {
        lemma_cat_chunk(chunks.drop_first(), i - 1);
        assert(chunks.take(i).drop_first() =~= chunks.drop_first().take(i - 1));
        assert(chunks.take(i)[0] == chunks[0]);
        assert(cat(chunks) == chunks[0] + cat(chunks.drop_first()));
        lemma_cat_len(chunks.drop_first());
        assert(cat(chunks).subrange(
            sum_lens(chunks.take(i)),
            sum_lens(chunks.take(i)) + chunks[i].len(),
        ) =~= cat(chunks.drop_first()).subrange(
            sum_lens(chunks.drop_first().take(i - 1)),
            sum_lens(chunks.drop_first().take(i - 1)) + chunks.drop_first()[i - 1].len(),
        ));
    }
}

/// No data loss before consumption, content side: every retained chunk holds
/// exactly the elements that were appended for its range of the stream.  A
/// chunk handed out by `next_chunk` therefore carries the correct element
/// range of the log.
pub proof fn lemma_chunk_matches_log<T>(v: CursedBufferView<T>, i: int)
    requires
        v.wf(),
        0 <= i < v.chunks.len(),
    ensures
        v.base + sum_lens(v.chunks.take(i)) + v.chunks[i].len() <= v.log.len(),
        v.chunks[i] == v.log.subrange(
            v.base + sum_lens(v.chunks.take(i)),
            v.base + sum_lens(v.chunks.take(i)) + v.chunks[i].len(),
        ),
{
    lemma_cat_chunk(v.chunks, i);
    lemma_cat_len(v.chunks);
    let st = sum_lens(v.chunks.take(i));
    assert(v.log.subrange(v.base + st, v.base + st + v.chunks[i].len()) =~= v.log.skip(
        v.base,
    ).subrange(st, st + v.chunks[i].len()));
}

/// Eviction never removes more than the reclaimable span allows.
proof fn lemma_evict_count_bounds<T>(chunks: Seq<Seq<T>>, can: int)
    requires
        can >= 0,
    ensures
        0 <= evict_count(chunks, can) <= chunks.len(),
        sum_lens(chunks.take(evict_count(chunks, can))) <= can,
    decreases chunks.len(),
{
    let k = evict_count(chunks, can);
    if chunks.len() == 0 || chunks[0].len() > can {
        assert(chunks.take(0) =~= Seq::<Seq<T>>::empty());
    } else {
        lemma_evict_count_bounds(chunks.drop_first(), can - chunks[0].len());
        assert(chunks.take(k).drop_first() =~= chunks.drop_first().take(k - 1));
        assert(chunks.take(k)[0] == chunks[0]);
    }
}

/// When the whole window is reclaimable, every chunk is evicted.
proof fn lemma_evict_count_all<T>(chunks: Seq<Seq<T>>, can: int)
    requires
        sum_lens(chunks) <= can,
    ensures
        evict_count(chunks, can) == chunks.len(),
    decreases chunks.len(),
{
    if chunks.len() > 0 {
        lemma_sum_lens_nonneg(chunks.drop_first());
        lemma_evict_count_all(chunks.drop_first(), can - chunks[0].len());
    }
}

/// Without a live slot the minimum is the sentinel.
proof fn lemma_min_live_all_none(rs: Seq<Option<int>>)
    requires
        forall|i: int| 0 <= i < rs.len() ==> rs[i] is None,
    ensures
        min_live_pos(rs) == usize::MAX as int,
    decreases rs.len(),
{
    if rs.len() > 0 {
        lemma_min_live_all_none(rs.drop_last());
    }
}

/// With exactly one live slot the minimum is that slot's position.
proof fn lemma_min_live_single(rs: Seq<Option<int>>, i: int, q: int)
    requires
        0 <= i < rs.len(),
        rs[i] == Some(q),
        q <= usize::MAX,
        forall|j: int| 0 <= j < rs.len() && j != i ==> rs[j] is None,
    ensures
        min_live_pos(rs) == q,
    decreases rs.len(),
{
    if i == rs.len() - 1 {
        lemma_min_live_all_none(rs.drop_last());
    } else {
        lemma_min_live_single(rs.drop_last(), i, q);
    }
}

/// The minimum is a lower bound for every live slot.
proof fn lemma_min_live_lower(rs: Seq<Option<int>>, j: int)
    requires
        0 <= j < rs.len(),
        rs[j] is Some,
    ensures
        min_live_pos(rs) <= rs[j]->Some_0,
    decreases rs.len(),
{
    if j < rs.len() - 1 {
        lemma_min_live_lower(rs.drop_last(), j);
    }
}

/// A common lower bound of all live slots (up to the sentinel) bounds the
/// minimum from below.
proof fn lemma_min_live_covered(rs: Seq<Option<int>>, b: int)
    requires
        b <= usize::MAX,
        forall|i: int| 0 <= i < rs.len() ==> ((#[trigger] rs[i]) matches Some(p) ==> p >= b),
    ensures
        min_live_pos(rs) >= b,
    decreases rs.len(),
{
    if rs.len() > 0 {
        lemma_min_live_covered(rs.drop_last(), b);
    }
}

/// The first half of monotonic eviction, with no premise at all: an
/// eviction pass never moves `base` backwards.  Since eviction is the only
/// thing that changes `base` — every other operation leaves it alone, as
/// its contract states — `base` is non-decreasing across any sequence of
/// appends, skips, fetches, reader creations and reader destructions.
pub proof fn lemma_evict_base_monotonic<T>(v: CursedBufferView<T>)
    ensures
        v.base <= v.evict().base,
{
    lemma_evict_count_bounds(v.chunks, v.reclaimable());
    lemma_sum_lens_nonneg(v.chunks.take(evict_count(v.chunks, v.reclaimable())));
}

/// Monotonic eviction: an eviction pass never moves `base` backwards, and
/// never moves it past the position of the slowest live reader; cursors
/// that sat at or after `base` still do afterwards.  (A reader created at an
/// already evicted position falls outside `cursors_covered` and is the one
/// input the second half excludes; the first half holds unconditionally,
/// see [`lemma_evict_base_monotonic`].)
pub proof fn lemma_monotonic_eviction<T>(v: CursedBufferView<T>)
    requires
        v.wf(),
        v.cursors_covered(),
    ensures
        v.base <= v.evict().base,
        v.evict().base <= min_live_pos(v.readers),
        v.evict().cursors_covered(),
{
    lemma_sum_lens_nonneg(v.chunks);
    lemma_min_live_covered(v.readers, v.base);
    lemma_evict_count_bounds(v.chunks, v.reclaimable());
    lemma_sum_lens_nonneg(v.chunks.take(evict_count(v.chunks, v.reclaimable())));
    assert forall|j: int|
        0 <= j < v.evict().readers.len() implies ((#[trigger] v.evict().readers[j]) matches Some(p)
        ==> p >= v.evict().base) by {
        if 0 <= j < v.readers.len() && v.readers[j] is Some {
            lemma_min_live_lower(v.readers, j);
        }
    }
}

/// Zero-reader fast reclaim: a buffer without live readers gives up its
/// whole retained window on the next eviction pass.
pub proof fn lemma_zero_reader_reclaim<T>(v: CursedBufferView<T>)
    requires
        v.wf(),
        forall|i: int| 0 <= i < v.readers.len() ==> v.readers[i] is None,
    ensures
        v.evict().chunks.len() == 0,
        v.evict().base == v.total(),
{
    lemma_min_live_all_none(v.readers);
    lemma_sum_lens_nonneg(v.chunks);
    lemma_evict_count_all(v.chunks, v.reclaimable());
    assert(v.chunks.take(v.chunks.len() as int) =~= v.chunks);
    assert(v.evict().chunks =~= Seq::<Seq<T>>::empty());
}

/// Shared-chunk survival: no cursor move and no eviction pass ever touches
/// the logged elements.  A chunk handed out by `next_chunk` — whose
/// contents that call pins to a range of the log — therefore stays valid
/// and unchanged even after the buffer evicts it from its own retained
/// list; only the retained window shrinks.
pub proof fn lemma_shared_chunk_survival<T>(v: CursedBufferView<T>, i: int, p: int)
    ensures
        v.with_cursor(i, p).evict().log == v.log,
        v.with_tombstone(i).evict().log == v.log,
        v.evict().log == v.log,
{
}

/// Callback batching: one cursor advance that passes any number of retained
/// chunks notifies the registered observer exactly once, not once per chunk.
pub proof fn lemma_callback_batching<T>(v: CursedBufferView<T>, i: int, q: int)
    requires
        v.wf(),
        v.live(i),
        forall|j: int| 0 <= j < v.readers.len() && j != i ==> v.readers[j] is None,
        v.callback_registered,
        v.chunks.len() > 0,
        v.total() <= q <= usize::MAX,
    ensures
        v.with_cursor(i, q).evict().callback_calls == bump(v.callback_calls),
        v.with_cursor(i, q).evict().chunks.len() == 0,
{
    let w = v.with_cursor(i, q);
    lemma_min_live_single(w.readers, i, q);
    lemma_sum_lens_nonneg(v.chunks);
    lemma_evict_count_all(w.chunks, w.reclaimable());
    assert(w.chunks.skip(w.chunks.len() as int) =~= Seq::<Seq<T>>::empty());
}

} // verus!
