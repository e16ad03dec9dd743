//! Sorted copies of a container. The sorting itself is the standard
//! library's; what it promises is stated here and taken on trust.

use crate::copy::copy_prefix;
use crate::static_vec::StaticVec;
use core::cmp::Ordering;
use vstd::laws_cmp::obeys_cmp;
use vstd::prelude::*;
use vstd::std_specs::cmp::OrdSpec;

verus! {

/// Whether no element of `s` is greater than one that follows it.
pub open spec fn ascending<T: Ord>(s: Seq<T>) -> bool {
    forall|i: int, j: int| 0 <= i < j < s.len() ==> s[i].cmp_spec(&s[j]) != Ordering::Greater
}

/// Whether `sorted` holds the elements of `s` rearranged, `sorted[k]` being
/// `s[from[k]]`, so that elements that compare equal keep the order they
/// had in `s`.
pub open spec fn stable_rearrangement<T: Ord>(s: Seq<T>, sorted: Seq<T>, from: Seq<int>) -> bool {
    &&& from.len() == s.len()
    &&& sorted.len() == s.len()
    &&& forall|k: int| 0 <= k < from.len() ==> 0 <= #[trigger] from[k] < s.len()
    &&& forall|k: int, l: int| 0 <= k < l < from.len() ==> from[k] != from[l]
    &&& forall|k: int| 0 <= k < from.len() ==> #[trigger] sorted[k] == s[from[k]]
    &&& forall|k: int, l: int|
        0 <= k < l < from.len() && sorted[k].cmp_spec(&sorted[l]) == Ordering::Equal ==> from[k]
            < from[l]
}

/// The standard library's stable sort of a slice, `<[T]>::sort`, on the
/// elements of `data`. Taken on trust for a type whose order is a total
/// order: the elements are rearranged, none is added or lost; afterwards
/// they ascend; and elements that compare equal keep their order.
#[verifier::external_body]
fn sort_stable<T: Ord>(data: &mut Vec<T>)
    requires
        obeys_cmp::<T>(),
    ensures
        final(data)@.len() == old(data)@.len(),
        final(data)@.to_multiset() == old(data)@.to_multiset(),
        ascending(final(data)@),
        exists|from: Seq<int>| #[trigger] stable_rearrangement(old(data)@, final(data)@, from),
{
    data.sort();
}

/// The standard library's unstable sort of a slice,
/// `<[T]>::sort_unstable`, on the elements of `data`. Taken on trust for
/// a type whose order is a total order: the elements are rearranged, none
/// is added or lost, and afterwards they ascend. Nothing is claimed of the
/// order among elements that compare equal.
#[verifier::external_body]
fn sort_unstable<T: Ord>(data: &mut Vec<T>)
    requires
        obeys_cmp::<T>(),
    ensures
        final(data)@.len() == old(data)@.len(),
        final(data)@.to_multiset() == old(data)@.to_multiset(),
        ascending(final(data)@),
{
    data.sort_unstable();
}

impl<T: Copy + Ord, const N: usize> StaticVec<T, N> {
    /// A sorted copy, made with a stable sort; the container itself is
    /// left as it is.
    pub fn sorted(&self) -> (res: Self)
        requires
            obeys_cmp::<T>(),
        ensures
            res@.len() == self@.len(),
            res@.to_multiset() == self@.to_multiset(),
            ascending(res@),
            exists|from: Seq<int>| #[trigger] stable_rearrangement(self@, res@, from),
    {
        let source = self.data();
        let mut data: Vec<T> = Vec::new();
        copy_prefix(source.as_slice(), source.len(), &mut data);
        assert(data@ == self@);
        sort_stable(&mut data);
        Self::from_data(data)
    }

    /// A sorted copy, made with an unstable sort; the container itself is
    /// left as it is.
    pub fn sorted_unstable(&self) -> (res: Self)
        requires
            obeys_cmp::<T>(),
        ensures
            res@.len() == self@.len(),
            res@.to_multiset() == self@.to_multiset(),
            ascending(res@),
    {
        let source = self.data();
        let mut data: Vec<T> = Vec::new();
        copy_prefix(source.as_slice(), source.len(), &mut data);
        assert(data@ == self@);
        sort_unstable(&mut data);
        Self::from_data(data)
    }
}

} // verus!
