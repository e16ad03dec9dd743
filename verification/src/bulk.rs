//! Operations that move a whole range of elements at once.

use crate::model::{after_drain, prefix, suffix};
use crate::static_vec::StaticVec;
use core::ops::Range;
use vstd::prelude::*;

verus! {

impl<T, const N: usize> StaticVec<T, N> {
    /// Removes the elements at `range.start..range.end` and returns them, in
    /// order, in a new container; what followed them closes the gap.
    pub fn drain(&mut self, range: Range<usize>) -> (res: Self)
        requires
            range.start <= range.end <= old(self)@.len(),
        ensures
            res@ == old(self)@.subrange(range.start as int, range.end as int),
            final(self)@ == after_drain(old(self)@, range.start as int, range.end as int),
    {
        let mut data = self.take_data();
        let mut tail = data.split_off(range.end);
        let drained = data.split_off(range.start);
        data.append(&mut tail);
        self.put_data(data);
        Self::from_data(drained)
    }

    /// Keeps the first `at` elements and returns the rest, in order, in a
    /// new container.
    pub fn split_off(&mut self, at: usize) -> (res: Self)
        requires
            at <= old(self)@.len(),
        ensures
            final(self)@ == old(self)@.subrange(0, at as int),
            res@ == old(self)@.subrange(at as int, old(self)@.len() as int),
    {
        let mut data = self.take_data();
        let rest = data.split_off(at);
        self.put_data(data);
        Self::from_data(rest)
    }

    /// Keeps the first `length` elements and drops the rest; does nothing
    /// where the container is no longer than that.
    pub fn truncate(&mut self, length: usize)
        ensures
            length < old(self)@.len() ==> final(self)@ == old(self)@.subrange(0, length as int),
            length >= old(self)@.len() ==> final(self)@ == old(self)@,
    {
        let mut data = self.take_data();
        if length < data.len() {
            data.truncate(length);
        }
        self.put_data(data);
    }

    /// Drops every element.
    pub fn clear(&mut self)
        ensures
            final(self)@ == Seq::<T>::empty(),
    {
        let mut data = self.take_data();
        data.clear();
        self.put_data(data);
    }

    /// Moves as many elements as fit from the front of `other` to the end of
    /// `self`; what stays in `other` moves to its front.
    pub fn append<const N2: usize>(&mut self, other: &mut StaticVec<T, N2>)
        ensures
            final(self)@ == old(self)@ + prefix(old(other)@, N - old(self)@.len()),
            final(other)@ == suffix(old(other)@, N - old(self)@.len()),
            final(self)@.len() <= N,
            final(self)@.len() + final(other)@.len() == old(self)@.len() + old(other)@.len(),
    {
        let mut data = self.take_data();
        let mut moved = other.take_data();
        let room = N - data.len();
        let item_count = if room < moved.len() { room } else { moved.len() };
        let rest = moved.split_off(item_count);
        data.append(&mut moved);
        other.put_data(rest);
        self.put_data(data);
    }

    /// Hands all elements out as a `Vec`, in order, and leaves the container
    /// empty and usable.
    pub fn into_vec(&mut self) -> (res: Vec<T>)
        ensures
            res@ == old(self)@,
            final(self)@ == Seq::<T>::empty(),
    {
        self.take_data()
    }
}

} // verus!
