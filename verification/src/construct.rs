//! Constructors that fill a container from existing values or a generator.

use crate::copy::{copy_prefix, reverse_copy};
use crate::model::prefix;
use crate::static_vec::StaticVec;
use vstd::prelude::*;

verus! {

impl<T, const N: usize> StaticVec<T, N> {
    /// Takes the first `N` elements of `values`, or all of them where there
    /// are fewer, and drops the rest.
    pub fn new_from_array<const N2: usize>(values: [T; N2]) -> (res: Self)
        ensures
            res@ == prefix(values@, N as int),
    {
        let boxed: Box<[T]> = Box::new(values);
        let mut data = boxed.into_vec();
        if N < N2 {
            data.truncate(N);
        }
        Self::from_data(data)
    }
}

impl<T, const N: usize> StaticVec<T, N> {
    /// Fills a container to its capacity with what `initializer` returns,
    /// asked `N` times; the results stand in the order of the calls.
    pub fn filled_with<F: FnMut() -> T>(mut initializer: F) -> (res: Self)
        requires
            call_requires(initializer, ()),
        ensures
            res@.len() == N,
            forall|i: int| 0 <= i < N ==> call_ensures(initializer, (), #[trigger] res@[i]),
    {
        let ghost asked = initializer;
        let mut data: Vec<T> = Vec::new();
        let mut i: usize = 0;
        while i < N
            invariant
                i <= N,
                initializer == asked,
                call_requires(asked, ()),
                data@.len() == i,
                forall|k: int| 0 <= k < i ==> call_ensures(asked, (), #[trigger] data@[k]),
            decreases N - i,
        {
            let value = initializer();
            data.push(value);
            i += 1;
        }
        Self::from_data(data)
    }

    /// Fills a container to its capacity with what `initializer` returns
    /// for the indices `0`, `1`, up to `N - 1`, asked in that order; the
    /// result for an index stands at that index.
    pub fn filled_with_by_index<F: FnMut(usize) -> T>(mut initializer: F) -> (res: Self)
        requires
            forall|i: usize| i < N ==> call_requires(initializer, (i,)),
        ensures
            res@.len() == N,
            forall|i: usize| i < N ==> call_ensures(initializer, (i,), #[trigger] res@[i as int]),
    {
        let ghost asked = initializer;
        let mut data: Vec<T> = Vec::new();
        let mut i: usize = 0;
        while i < N
            invariant
                i <= N,
                initializer == asked,
                forall|k: usize| k < N ==> call_requires(asked, (k,)),
                data@.len() == i,
                forall|k: usize| k < i ==> call_ensures(asked, (k,), #[trigger] data@[k as int]),
            decreases N - i,
        {
            let value = initializer(i);
            data.push(value);
            i += 1;
        }
        Self::from_data(data)
    }
}

impl<T: Copy, const N: usize> StaticVec<T, N> {
    /// Copies the first `N` elements of `values`, or all of them where
    /// there are fewer; `values` is only read.
    pub fn new_from_slice(values: &[T]) -> (res: Self)
        ensures
            res@ == prefix(values@, N as int),
    {
        let length = if values.len() < N {
            values.len()
        } else {
            N
        };
        let mut data: Vec<T> = Vec::new();
        copy_prefix(values, length, &mut data);
        Self::from_data(data)
    }

    /// A new container with the same elements in the opposite order.
    pub fn reversed(&self) -> (res: Self)
        ensures
            res@ == self@.reverse(),
    {
        let mut data: Vec<T> = Vec::new();
        reverse_copy(self.data().as_slice(), &mut data);
        Self::from_data(data)
    }

    /// Copies as many elements of `other` as fit, from its front, to the
    /// end of the container.
    pub fn extend_from_slice(&mut self, other: &[T])
        ensures
            final(self)@ == old(self)@ + prefix(other@, N - old(self)@.len()),
    {
        let room = self.remaining_capacity();
        let added_length = if other.len() < room {
            other.len()
        } else {
            room
        };
        let mut data = self.take_data();
        copy_prefix(other, added_length, &mut data);
        self.put_data(data);
    }

    /// Copies all of `other` to the end of the container if it fits;
    /// otherwise copies nothing and reports the lack of room.
    pub fn try_extend_from_slice(&mut self, other: &[T]) -> (res: Result<(), &'static str>)
        ensures
            other@.len() <= N - old(self)@.len() ==> res is Ok && final(self)@ == old(self)@
                + other@,
            other@.len() > N - old(self)@.len() ==> res == Err::<(), &'static str>(
                "Insufficient remaining capacity!",
            ) && final(self)@ == old(self)@,
    {
        let added_length = other.len();
        if self.remaining_capacity() < added_length {
            return Err("Insufficient remaining capacity!");
        }
        let mut data = self.take_data();
        copy_prefix(other, added_length, &mut data);
        assert(other@.subrange(0, added_length as int) == other@);
        self.put_data(data);
        Ok(())
    }
}

} // verus!
