//! Append to a vector while keeping its existing contents readable.
//!
//! Splitting a growable vector into a read view over the elements that are
//! already present and a bounded, append-only write view is forbidden by an
//! ordinary growable-buffer interface, because an append may reallocate the
//! backing storage and invalidate every outstanding reference into it.  The
//! [`AsFixedCapacityVec::with_fixed_capacity`] operation reserves the whole
//! requested extra capacity up front, then hands out a [`FixedCapacityVec`]: a
//! handle that borrows the vector exclusively and forwards appends to it, but
//! refuses any growth past the reserved maximum length.  Because the length
//! can never pass the reservation, the backing storage never moves while the
//! handle is alive, and the elements present at the split stay in place and
//! unchanged; the handle exposes them through its read view while new
//! elements are appended through it.

use vstd::prelude::*;
use vstd::slice::slice_index_get;
use vstd::slice::slice_subrange;

verus! {

/// A bounded append handle over the tail of an exclusively borrowed vector.
///
/// The handle remembers where its writable region begins (`start`, the
/// vector's length at the time of the split) and the length the vector may
/// never grow past (`max_len`, the length at the split plus the reserved
/// capacity).  Every append goes through the borrowed vector itself, guarded
/// so that its length stays at most `max_len`; the elements below `start` are
/// never touched.
#[derive(Debug)]
pub struct FixedCapacityVec<'a, T> {
    /// Index where the writable region begins: the vector's length at the split.
    pub start: usize,
    /// Length the vector may never grow past: `start` plus the reserved capacity.
    pub max_len: usize,
    /// The exclusively borrowed vector that physically holds every element.
    pub buffer: &'a mut Vec<T>,
}

impl<'a, T> FixedCapacityVec<'a, T> {
    /// The current contents of the underlying vector.
    pub open spec fn buf(&self) -> Seq<T> {
        self.buffer@
    }

    /// Well-formedness: the buffer holds at least the pre-split prefix and
    /// never more than the reserved maximum length.
    pub open spec fn wf(&self) -> bool {
        self.start <= self.buf().len() <= self.max_len
    }

    /// The read view: the elements that were present at the split, `buf()[0 .. start]`.
    pub open spec fn read_seq(&self) -> Seq<T> {
        self.buf().subrange(0, self.start as int)
    }

    /// The write view: the elements appended since the split, `buf()[start .. len]`.
    pub open spec fn write_seq(&self) -> Seq<T> {
        self.buf().subrange(self.start as int, self.buf().len() as int)
    }

    /// How many more elements may still be appended.
    pub open spec fn remaining(&self) -> int {
        self.max_len - self.buf().len()
    }

    /// How many more elements may still be appended before the reserved
    /// maximum length is reached.
    pub fn additional_cap(&self) -> (r: usize)
        requires
            self.wf(),
        ensures
            r == self.remaining(),
    {
        self.max_len - self.buffer.len()
    }

    /// The elements that were present at the split, in place in the buffer:
    /// `buffer[0 .. start]`.  Appends through this handle never disturb them,
    /// so the slice observed here is the same before and after any append.
    pub fn read_view(&self) -> (r: &[T])
        requires
            self.wf(),
        ensures
            r@ == self.read_seq(),
    {
        slice_subrange(self.buffer.as_slice(), 0, self.start)
    }

    /// The elements appended since the split, in place in the buffer:
    /// `buffer[start .. len]`.
    pub fn as_slice(&self) -> (r: &[T])
        requires
            self.wf(),
        ensures
            r@ == self.write_seq(),
    {
        let len = self.buffer.len();
        slice_subrange(self.buffer.as_slice(), self.start, len)
    }

    /// Overwrites the element at index `i` of the write view — the element
    /// at `start + i` of the buffer.  Elements of the read view cannot be
    /// reached this way.
    pub fn set(&mut self, i: usize, value: T)
        requires
            old(self).wf(),
            i < old(self).write_seq().len(),
        ensures
            final(self).wf(),
            final(self).buf() == old(self).buf().update(old(self).start + i, value),
            final(self).read_seq() == old(self).read_seq(),
            final(self).write_seq() == old(self).write_seq().update(i as int, value),
            final(self).start == old(self).start,
            final(self).max_len == old(self).max_len,
            *final(final(self).buffer) == *final(old(self).buffer),
    {
        let idx = self.start + i;
        self.buffer.set(idx, value);
        proof {
            assert(final(self).read_seq() =~= old(self).read_seq());
            assert(final(self).write_seq() =~= old(self).write_seq().update(i as int, value));
        }
    }

    /// Appends one element.  The caller must know that at least one reserved
    /// slot is free; the length grows by exactly one and the elements below
    /// `start` stay unchanged.
    pub fn push(&mut self, item: T)
        requires
            old(self).wf(),
            old(self).remaining() > 0,
        ensures
            final(self).wf(),
            final(self).buf() == old(self).buf().push(item),
            final(self).read_seq() == old(self).read_seq(),
            final(self).start == old(self).start,
            final(self).max_len == old(self).max_len,
            *final(final(self).buffer) == *final(old(self).buffer),
    {
        self.buffer.push(item);
        proof {
            assert(final(self).read_seq() =~= old(self).read_seq());
        }
    }

    /// Appends one element if a reserved slot is still free, and hands the
    /// element back unchanged otherwise.  Succeeds exactly when the
    /// remaining capacity is positive; on failure the buffer is untouched.
    pub fn try_push(&mut self, item: T) -> (r: Option<T>)
        requires
            old(self).wf(),
        ensures
            final(self).wf(),
            old(self).remaining() > 0 ==> final(self).buf() == old(self).buf().push(item) && r
                is None,
            old(self).remaining() == 0 ==> final(self).buf() == old(self).buf() && r == Some(item),
            final(self).read_seq() == old(self).read_seq(),
            final(self).start == old(self).start,
            final(self).max_len == old(self).max_len,
            *final(final(self).buffer) == *final(old(self).buffer),
    {
        if self.additional_cap() > 0 {
            self.push(item);
            None
        } else {
            Some(item)
        }
    }
}

/// Holds when `post` is `pre` followed by a clone of each element of `items`,
/// in order.  Cloning is stated through [`cloned`], as for the vector's own
/// bulk append: for a type whose `clone` returns the value itself — every
/// integer, for one — this pins the appended elements exactly.
pub open spec fn appended_clones<T: Clone>(pre: Seq<T>, items: Seq<T>, post: Seq<T>) -> bool {
    &&& post.len() == pre.len() + items.len()
    &&& forall|i: int| 0 <= i < pre.len() ==> post[i] == pre[i]
    &&& forall|i: int| 0 <= i < items.len() ==> cloned::<T>(items[i], post[pre.len() + i])
}

impl<'a, T: Clone> FixedCapacityVec<'a, T> {
    /// Clones and appends every element of a slice, as one batch.  The whole
    /// batch must fit in the reserved capacity; admission is atomic, checked
    /// before any element is copied.
    pub fn extend_from_slice(&mut self, other: &[T])
        requires
            old(self).wf(),
            other@.len() <= old(self).remaining(),
        ensures
            final(self).wf(),
            appended_clones(old(self).buf(), other@, final(self).buf()),
            final(self).read_seq() == old(self).read_seq(),
            final(self).start == old(self).start,
            final(self).max_len == old(self).max_len,
            *final(final(self).buffer) == *final(old(self).buffer),
    {
        self.buffer.extend_from_slice(other);
        proof {
            assert(final(self).read_seq() =~= old(self).read_seq());
        }
    }

    /// Clones and appends the elements of a slice one at a time, in order.
    /// Each element is admitted against the remaining capacity on its own;
    /// on the success path required here, the result is the same as one
    /// atomic batch.
    pub fn extend(&mut self, other: &[T])
        requires
            old(self).wf(),
            other@.len() <= old(self).remaining(),
        ensures
            final(self).wf(),
            appended_clones(old(self).buf(), other@, final(self).buf()),
            final(self).read_seq() == old(self).read_seq(),
            final(self).start == old(self).start,
            final(self).max_len == old(self).max_len,
            *final(final(self).buffer) == *final(old(self).buffer),
    {
        let ghost pre = self.buf();
        let mut i: usize = 0;
        while i < other.len()
            invariant
                i <= other@.len(),
                other@.len() <= old(self).remaining(),
                self.wf(),
                appended_clones(pre, other@.subrange(0, i as int), self.buf()),
                self.buf().len() == pre.len() + i,
                pre == old(self).buf(),
                self.start == old(self).start,
                self.max_len == old(self).max_len,
                *final(self.buffer) == *final(old(self).buffer),
            decreases other@.len() - i,
        {
            let item = slice_index_get(other, i).clone();
            self.push(item);
            proof {
                assert(other@.subrange(0, i + 1) =~= other@.subrange(0, i as int).push(
                    other@[i as int],
                ));
            }
            i = i + 1;
        }
        proof {
            assert(other@.subrange(0, other@.len() as int) =~= other@);
            assert(final(self).read_seq() =~= old(self).read_seq());
        }
    }

    /// Appends a whole batch if it fits in the remaining capacity, and does
    /// nothing otherwise.  Admission is atomic: when the batch is too large,
    /// not a single element is copied and the buffer is left exactly as it
    /// was.
    pub fn try_extend_from_slice(&mut self, other: &[T]) -> (r: bool)
        requires
            old(self).wf(),
        ensures
            final(self).wf(),
            r <==> other@.len() <= old(self).remaining(),
            r ==> appended_clones(old(self).buf(), other@, final(self).buf()),
            !r ==> final(self).buf() == old(self).buf(),
            final(self).read_seq() == old(self).read_seq(),
            final(self).start == old(self).start,
            final(self).max_len == old(self).max_len,
            *final(final(self).buffer) == *final(old(self).buffer),
    {
        if other.len() <= self.additional_cap() {
            self.extend_from_slice(other);
            true
        } else {
            false
        }
    }

    /// Appends elements one at a time, each admitted against the remaining
    /// capacity on its own, and stops at the first element that no longer
    /// fits.  Returns how many elements were appended.  Unlike the atomic
    /// batch admission of [`Self::try_extend_from_slice`], a batch that is
    /// too large still appends its first elements: the buffer is left
    /// partially extended, filled up to the reserved maximum length.
    pub fn try_extend(&mut self, other: &[T]) -> (r: usize)
        requires
            old(self).wf(),
        ensures
            final(self).wf(),
            r == if other@.len() <= old(self).remaining() {
                other@.len() as int
            } else {
                old(self).remaining()
            },
            appended_clones(old(self).buf(), other@.subrange(0, r as int), final(self).buf()),
            final(self).read_seq() == old(self).read_seq(),
            final(self).start == old(self).start,
            final(self).max_len == old(self).max_len,
            *final(final(self).buffer) == *final(old(self).buffer),
    {
        let ghost pre = self.buf();
        let mut i: usize = 0;
        loop
            invariant
                i <= other@.len(),
                self.wf(),
                appended_clones(pre, other@.subrange(0, i as int), self.buf()),
                self.buf().len() == pre.len() + i,
                pre == old(self).buf(),
                self.start == old(self).start,
                self.max_len == old(self).max_len,
                *final(self.buffer) == *final(old(self).buffer),
            ensures
                i <= other@.len(),
                self.wf(),
                appended_clones(pre, other@.subrange(0, i as int), self.buf()),
                self.buf().len() == pre.len() + i,
                pre == old(self).buf(),
                self.start == old(self).start,
                self.max_len == old(self).max_len,
                *final(self.buffer) == *final(old(self).buffer),
                i == other@.len() || self.remaining() == 0,
            decreases other@.len() - i,
        {
            if i >= other.len() {
                break;
            }
            if self.additional_cap() == 0 {
                break;
            }
            let item = slice_index_get(other, i).clone();
            self.push(item);
            proof {
                assert(other@.subrange(0, i + 1) =~= other@.subrange(0, i as int).push(
                    other@[i as int],
                ));
            }
            i = i + 1;
        }
        proof {
            assert(final(self).read_seq() =~= old(self).read_seq());
        }
        i
    }
}

/// Law: the read view and the write view of a well-formed handle partition
/// the buffer.  The read view covers exactly `buf()[0 .. start]`, the write
/// view exactly `buf()[start .. len]`; element by element the two ranges do
/// not overlap, and together they are the whole buffer.
pub proof fn lemma_views_partition<'a, T>(v: &FixedCapacityVec<'a, T>)
    requires
        v.wf(),
    ensures
        v.read_seq().len() == v.start as int,
        v.write_seq().len() == v.buf().len() - v.start,
        forall|i: int| 0 <= i < v.start ==> v.read_seq()[i] == v.buf()[i],
        forall|i: int| v.start <= i < v.buf().len() ==> v.write_seq()[i - v.start] == v.buf()[i],
        v.read_seq() + v.write_seq() == v.buf(),
{
    assert(v.read_seq() + v.write_seq() =~= v.buf());
}

/// Law: a well-formed handle never lets the buffer grow past the maximum
/// length fixed at the split.  Every slot up to `max_len` was reserved by
/// the one reservation performed there, so no append through the handle can
/// make the buffer reallocate — the address of its first element stays the
/// same for as long as the handle lives.
pub proof fn lemma_len_within_reservation<'a, T>(v: &FixedCapacityVec<'a, T>)
    requires
        v.wf(),
    ensures
        v.buf().len() <= v.max_len,
        v.remaining() >= 0,
{
}

/// Splitting a vector into a read view and a bounded write view.
pub trait AsFixedCapacityVec {
    type Item;

    /// The sequence of elements the splittable buffer currently holds.
    spec fn buf_view(&self) -> Seq<Self::Item>;

    /// Reserves room for `capacity` more elements — the one point where the
    /// backing storage may be reallocated — and returns a bounded append
    /// handle whose writable region begins at the current length.  Once the
    /// handle goes out of scope, the buffer holds its old elements followed
    /// by everything appended through the handle.
    ///
    /// A split of an empty buffer with capacity zero is excluded: the read
    /// view of a buffer requires a non-degenerate backing allocation, and an
    /// empty buffer with nothing reserved need not hold one.
    fn with_fixed_capacity<'a>(&'a mut self, capacity: usize) -> (r: FixedCapacityVec<
        'a,
        Self::Item,
    >)
        requires
            old(self).buf_view().len() + capacity <= usize::MAX,
            capacity > 0 || old(self).buf_view().len() > 0,
        ensures
            r.wf(),
            r.buf() == old(self).buf_view(),
            r.start as int == old(self).buf_view().len() as int,
            r.max_len as int == old(self).buf_view().len() + capacity,
            final(self).buf_view() == final(r.buffer)@,
    ;
}

impl<T> AsFixedCapacityVec for Vec<T> {
    type Item = T;

    open spec fn buf_view(&self) -> Seq<T> {
        self@
    }

    fn with_fixed_capacity<'a>(&'a mut self, capacity: usize) -> (r: FixedCapacityVec<'a, T>) {
        let len = self.len();
        self.reserve(capacity);
        FixedCapacityVec { start: len, max_len: len + capacity, buffer: self }
    }
}

} // verus!
