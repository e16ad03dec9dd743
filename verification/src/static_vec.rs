//! The container type, its storage invariant and its size queries.

use vstd::prelude::*;

verus! {

/// A sequence of at most `N` elements of `T`.
///
/// The live elements are the view `self@`; their number never exceeds `N`.
pub struct StaticVec<T, const N: usize> {
    data: Vec<T>,
}

impl<T, const N: usize> View for StaticVec<T, N> {
    type V = Seq<T>;

    closed spec fn view(&self) -> Seq<T> {
        self.data@
    }
}

impl<T, const N: usize> StaticVec<T, N> {
    #[verifier::type_invariant]
    spec fn within_capacity(self) -> bool {
        self.data@.len() <= N
    }

    /// Moves the storage out and leaves the container empty, so that the
    /// caller can rebuild it and put it back in one assignment.
    pub(crate) fn take_data(&mut self) -> (data: Vec<T>)
        ensures
            data@ == old(self)@,
            data@.len() <= N,
            final(self)@ == Seq::<T>::empty(),
    {
        proof {
            use_type_invariant(&*self);
        }
        let mut data: Vec<T> = Vec::new();
        core::mem::swap(&mut data, &mut self.data);
        data
    }

    /// Puts rebuilt storage back.
    pub(crate) fn put_data(&mut self, data: Vec<T>)
        requires
            data@.len() <= N,
        ensures
            final(self)@ == data@,
    {
        self.data = data;
    }

    /// Wraps storage that is known to fit.
    pub(crate) fn from_data(data: Vec<T>) -> (res: Self)
        requires
            data@.len() <= N,
        ensures
            res@ == data@,
    {
        StaticVec { data }
    }

    /// The storage, for reading.
    pub(crate) fn data(&self) -> (data: &Vec<T>)
        ensures
            data@ == self@,
            data@.len() <= N,
    {
        proof {
            use_type_invariant(self);
        }
        &self.data
    }

    /// An empty container.
    pub fn new() -> (res: Self)
        ensures
            res@ == Seq::<T>::empty(),
    {
        StaticVec { data: Vec::new() }
    }

    /// The number of live elements.
    pub fn len(&self) -> (n: usize)
        ensures
            n == self@.len(),
            n <= N,
    {
        proof {
            use_type_invariant(self);
        }
        self.data.len()
    }

    /// The capacity, which is `N`.
    pub fn capacity(&self) -> (n: usize)
        ensures
            n == N,
            self@.len() <= n,
    {
        proof {
            use_type_invariant(self);
        }
        N
    }

    /// The capacity, without an instance.
    pub fn cap() -> (n: usize)
        ensures
            n == N,
    {
        N
    }

    /// How many more elements fit.
    pub fn remaining_capacity(&self) -> (n: usize)
        ensures
            n == N - self@.len(),
    {
        proof {
            use_type_invariant(self);
        }
        N - self.data.len()
    }

    /// Whether there is no live element.
    pub fn is_empty(&self) -> (b: bool)
        ensures
            b <==> self@.len() == 0,
    {
        self.data.len() == 0
    }

    /// Whether there is at least one live element.
    pub fn is_not_empty(&self) -> (b: bool)
        ensures
            b <==> self@.len() > 0,
    {
        self.data.len() > 0
    }

    /// Whether the length has reached the capacity.
    pub fn is_full(&self) -> (b: bool)
        ensures
            b <==> self@.len() == N,
    {
        self.data.len() == N
    }

    /// Whether at least one more element fits.
    pub fn is_not_full(&self) -> (b: bool)
        ensures
            b <==> self@.len() < N,
    {
        proof {
            use_type_invariant(self);
        }
        self.data.len() < N
    }
}

/// The standard library's `Vec::as_mut_slice`. Taken on trust: the slice
/// holds the vector's elements; what is written through it is what the
/// vector holds afterwards; a slice keeps its length; and the call itself
/// cannot unwind.
#[verifier::external_body]
fn storage_as_mut_slice<T>(data: &mut Vec<T>) -> (slice: &mut [T])
    ensures
        slice@ == old(data)@,
        final(slice)@ == final(data)@,
        final(slice)@.len() == slice@.len(),
    no_unwind
{
    data.as_mut_slice()
}

impl<T, const N: usize> StaticVec<T, N> {
    /// The live elements as a mutable slice: elements can be overwritten,
    /// their number stays.
    pub fn as_mut_slice(&mut self) -> (slice: &mut [T])
        ensures
            slice@ == old(self)@,
            final(slice)@ == final(self)@,
            final(self)@.len() == old(self)@.len(),
    {
        proof {
            use_type_invariant(&*self);
        }
        storage_as_mut_slice(&mut self.data)
    }

    /// The live elements as a slice.
    pub fn as_slice(&self) -> (slice: &[T])
        ensures
            slice@ == self@,
    {
        self.data.as_slice()
    }

    /// The element at `index`.
    pub fn get_unchecked(&self, index: usize) -> (element: &T)
        requires
            index < self@.len(),
        ensures
            *element == self@[index as int],
    {
        &self.data[index]
    }

    /// The element at `index`, for writing.
    pub fn get_unchecked_mut(&mut self, index: usize) -> (element: &mut T)
        requires
            index < old(self)@.len(),
        ensures
            *element == old(self)@[index as int],
            final(self)@ == old(self)@.update(index as int, *final(element)),
    {
        proof {
            use_type_invariant(&*self);
        }
        &mut self.data[index]
    }

    /// The first element, if there is one.
    pub fn first(&self) -> (res: Option<&T>)
        ensures
            self@.len() == 0 ==> res is None,
            self@.len() > 0 ==> res == Some(&self@[0]),
    {
        if self.data.len() == 0 {
            None
        } else {
            Some(&self.data[0])
        }
    }

    /// The first element, for writing, if there is one.
    pub fn first_mut(&mut self) -> (res: Option<&mut T>)
        ensures
            old(self)@.len() == 0 ==> res is None && final(self)@ == old(self)@,
            old(self)@.len() > 0 ==> res is Some && *res.unwrap() == old(self)@[0]
                && final(self)@ == old(self)@.update(0, *final(res.unwrap())),
    {
        proof {
            use_type_invariant(&*self);
        }
        if self.data.len() == 0 {
            None
        } else {
            Some(&mut self.data[0])
        }
    }

    /// The last element, if there is one.
    pub fn last(&self) -> (res: Option<&T>)
        ensures
            self@.len() == 0 ==> res is None,
            self@.len() > 0 ==> res == Some(&self@.last()),
    {
        if self.data.len() == 0 {
            None
        } else {
            Some(&self.data[self.data.len() - 1])
        }
    }

    /// The last element, for writing, if there is one.
    pub fn last_mut(&mut self) -> (res: Option<&mut T>)
        ensures
            old(self)@.len() == 0 ==> res is None && final(self)@ == old(self)@,
            old(self)@.len() > 0 ==> res is Some && *res.unwrap() == old(self)@.last()
                && final(self)@ == old(self)@.update(
                old(self)@.len() - 1,
                *final(res.unwrap()),
            ),
    {
        proof {
            use_type_invariant(&*self);
        }
        let n = self.data.len();
        if n == 0 {
            None
        } else {
            Some(&mut self.data[n - 1])
        }
    }
}

} // verus!
