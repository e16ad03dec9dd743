//! Operations on one element: push, pop, insert, remove and their variants.

use crate::model::{is_first_equal, swap_removed};
use crate::static_vec::StaticVec;
use vstd::prelude::*;
use vstd::std_specs::cmp::PartialEqSpec;

verus! {

impl<T, const N: usize> StaticVec<T, N> {
    /// Appends `value`; the caller has shown that it fits.
    pub fn push_unchecked(&mut self, value: T)
        requires
            old(self)@.len() < N,
        ensures
            final(self)@ == old(self)@.push(value),
    {
        let mut data = self.take_data();
        data.push(value);
        self.put_data(data);
    }

    /// Removes and returns the last element; the caller has shown that there
    /// is one.
    pub fn pop_unchecked(&mut self) -> (value: T)
        requires
            old(self)@.len() > 0,
        ensures
            value == old(self)@.last(),
            final(self)@ == old(self)@.drop_last(),
    {
        let mut data = self.take_data();
        let value = data.pop().unwrap();
        self.put_data(data);
        value
    }

    /// Appends `value` if it fits; otherwise leaves the container as it is
    /// and reports the lack of room.
    pub fn try_push(&mut self, value: T) -> (res: Result<(), &'static str>)
        ensures
            old(self)@.len() < N ==> res is Ok && final(self)@ == old(self)@.push(value),
            old(self)@.len() >= N ==> res == Err::<(), &'static str>(
                "Insufficient remaining capacity!",
            ) && final(self)@ == old(self)@,
    {
        if self.is_not_full() {
            self.push_unchecked(value);
            Ok(())
        } else {
            Err("Insufficient remaining capacity!")
        }
    }

    /// Appends `value` to a container that is not full.
    pub fn push(&mut self, value: T)
        requires
            old(self)@.len() < N,
        ensures
            final(self)@ == old(self)@.push(value),
    {
        self.push_unchecked(value)
    }

    /// Removes and returns the last element, if there is one.
    pub fn pop(&mut self) -> (res: Option<T>)
        ensures
            old(self)@.len() == 0 ==> res is None && final(self)@ == old(self)@,
            old(self)@.len() > 0 ==> res == Some(old(self)@.last()) && final(self)@ == old(
                self,
            )@.drop_last(),
    {
        if self.is_empty() {
            None
        } else {
            Some(self.pop_unchecked())
        }
    }

    /// Removes and returns the element at `index`; those after it move one
    /// place to the left.
    pub fn remove(&mut self, index: usize) -> (value: T)
        requires
            index < old(self)@.len(),
        ensures
            value == old(self)@[index as int],
            final(self)@ == old(self)@.remove(index as int),
    {
        let mut data = self.take_data();
        let value = data.remove(index);
        self.put_data(data);
        value
    }

    /// Removes the element at `index` and returns it, if there is one; the
    /// last element takes its place, so the order is not kept.
    pub fn swap_pop(&mut self, index: usize) -> (res: Option<T>)
        ensures
            index >= old(self)@.len() ==> res is None && final(self)@ == old(self)@,
            index < old(self)@.len() ==> res == Some(old(self)@[index as int]) && final(self)@
                == swap_removed(old(self)@, index as int),
    {
        if index < self.len() {
            Some(self.swap_remove(index))
        } else {
            None
        }
    }

    /// Removes the element at `index` and returns it; the last element takes
    /// its place, so the order is not kept.
    pub fn swap_remove(&mut self, index: usize) -> (value: T)
        requires
            index < old(self)@.len(),
        ensures
            value == old(self)@[index as int],
            final(self)@ == swap_removed(old(self)@, index as int),
    {
        let mut data = self.take_data();
        let value = data.swap_remove(index);
        self.put_data(data);
        value
    }

    /// Inserts `value` at `index`; the elements from `index` on move one
    /// place to the right.
    pub fn insert(&mut self, index: usize, value: T)
        requires
            old(self)@.len() < N,
            index <= old(self)@.len(),
        ensures
            final(self)@ == old(self)@.insert(index as int, value),
    {
        let mut data = self.take_data();
        data.insert(index, value);
        self.put_data(data);
    }

    /// Inserts `value` at `index` if the container is not full and `index`
    /// is not past its end; otherwise leaves it as it is and says so.
    pub fn try_insert(&mut self, index: usize, value: T) -> (res: Result<(), &'static str>)
        ensures
            old(self)@.len() < N && index <= old(self)@.len() ==> res is Ok && final(self)@
                == old(self)@.insert(index as int, value),
            !(old(self)@.len() < N && index <= old(self)@.len()) ==> res == Err::<
                (),
                &'static str,
            >("One of `self.length < N` or `index <= self.length` is false!") && final(self)@
                == old(self)@,
    {
        if self.is_not_full() && index <= self.len() {
            self.insert(index, value);
            Ok(())
        } else {
            Err("One of `self.length < N` or `index <= self.length` is false!")
        }
    }

    /// Shortens the container to `new_len` elements without looking at
    /// them. A length can only be set that the live elements cover.
    pub fn set_len(&mut self, new_len: usize)
        requires
            new_len <= old(self)@.len(),
        ensures
            final(self)@ == old(self)@.subrange(0, new_len as int),
    {
        let mut data = self.take_data();
        data.truncate(new_len);
        self.put_data(data);
    }
}

impl<T: PartialEq, const N: usize> StaticVec<T, N> {
    /// Removes the first element that equals `item` and returns it, if
    /// there is one.
    pub fn remove_item(&mut self, item: &T) -> (res: Option<T>)
        ensures
            match res {
                Some(value) => exists|i: int|
                    0 <= i < old(self)@.len() && value == old(self)@[i] && final(self)@ == old(
                        self,
                    )@.remove(i) && (T::obeys_eq_spec() ==> is_first_equal(old(self)@, *item, i)),
                None => final(self)@ == old(self)@ && (T::obeys_eq_spec() ==> forall|i: int|
                    0 <= i < old(self)@.len() ==> !(#[trigger] old(self)@[i]).eq_spec(item)),
            },
    {
        let n = self.len();
        let mut pos: usize = 0;
        while pos < n
            invariant
                n == self@.len(),
                pos <= n,
                self@ == old(self)@,
                T::obeys_eq_spec() ==> forall|i: int|
                    0 <= i < pos ==> !(#[trigger] self@[i]).eq_spec(item),
            decreases n - pos,
        {
            if *self.get_unchecked(pos) == *item {
                let ghost at = pos as int;
                let value = self.remove(pos);
                assert(T::obeys_eq_spec() ==> is_first_equal(old(self)@, *item, at));
                return Some(value);
            }
            pos += 1;
        }
        None
    }
}

} // verus!
