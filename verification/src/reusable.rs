//! A shared-ownership cell with an explicit strong count and a one-shot
//! release.
//!
//! Instead of implicit clone/drop bookkeeping, sharing is counted by hand:
//! [`Reusable::clone_handle`] records one more holder, and
//! [`Reusable::drop_handle`] records one fewer and says — exactly once —
//! when the last holder is gone, so that the caller can run its release
//! action on the inner value ([`Reusable::into_inner`]).

use vstd::prelude::*;

verus! {

/// The counted cell: the shared value and its ownership counts.
pub struct ReusableInner<T> {
    inner: T,
    strong_count: usize,
    weak_count: usize,
}

/// Shared-ownership wrapper around a [`ReusableInner`].
pub struct Reusable<T> {
    reusable_inner: ReusableInner<T>,
}

impl<T> Reusable<T> {
    /// The shared value.
    pub closed spec fn spec_inner(&self) -> T {
        self.reusable_inner.inner
    }

    /// How many holders are recorded.
    pub closed spec fn spec_strong_count(&self) -> int {
        self.reusable_inner.strong_count as int
    }

    /// Wraps `inner` with one recorded holder.
    pub fn new(inner: T) -> (r: Reusable<T>)
        ensures
            r.spec_inner() == inner,
            r.spec_strong_count() == 1,
    {
        Reusable { reusable_inner: ReusableInner { inner, strong_count: 1, weak_count: 0 } }
    }

    /// A shared borrow of the inner value.
    pub fn get(&self) -> (r: &T)
        ensures
            *r == self.spec_inner(),
    {
        &self.reusable_inner.inner
    }

    /// The number of holders recorded.
    pub fn strong_count(&self) -> (r: usize)
        ensures
            r as int == self.spec_strong_count(),
    {
        self.reusable_inner.strong_count
    }

    /// Records one more holder.
    pub fn clone_handle(&mut self)
        requires
            old(self).spec_strong_count() < usize::MAX,
        ensures
            final(self).spec_inner() == old(self).spec_inner(),
            final(self).spec_strong_count() == old(self).spec_strong_count() + 1,
    {
        self.reusable_inner.strong_count = self.reusable_inner.strong_count + 1;
    }

    /// Records one holder fewer; answers `true` exactly when the last
    /// holder just left, which is the one moment to run a release action.
    pub fn drop_handle(&mut self) -> (r: bool)
        requires
            old(self).spec_strong_count() >= 1,
        ensures
            final(self).spec_inner() == old(self).spec_inner(),
            final(self).spec_strong_count() == old(self).spec_strong_count() - 1,
            r == (old(self).spec_strong_count() == 1),
    {
        self.reusable_inner.strong_count = self.reusable_inner.strong_count - 1;
        self.reusable_inner.strong_count == 0
    }

    /// Takes the inner value out, once nobody holds it any more.
    pub fn into_inner(self) -> (r: T)
        requires
            self.spec_strong_count() == 0,
        ensures
            r == self.spec_inner(),
    {
        self.reusable_inner.inner
    }
}

} // verus!
