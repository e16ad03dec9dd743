//! Sequence-level definitions that the container's contracts are stated in.

use vstd::prelude::*;
use vstd::std_specs::cmp::PartialEqSpec;

verus! {

/// The smaller of two lengths.
pub open spec fn min_len(a: int, b: int) -> int {
    if a <= b {
        a
    } else {
        b
    }
}

/// The first `n` elements of `s`, or all of `s` where it is shorter.
pub open spec fn prefix<T>(s: Seq<T>, n: int) -> Seq<T> {
    s.subrange(0, min_len(s.len() as int, if n < 0 { 0 } else { n }))
}

/// What follows the first `n` elements of `s`; empty where `s` is shorter.
pub open spec fn suffix<T>(s: Seq<T>, n: int) -> Seq<T> {
    s.subrange(min_len(s.len() as int, if n < 0 { 0 } else { n }), s.len() as int)
}

/// What is left of `s` once the elements at `start..end` are taken out.
pub open spec fn after_drain<T>(s: Seq<T>, start: int, end: int) -> Seq<T> {
    s.subrange(0, start) + s.subrange(end, s.len() as int)
}

/// `s` with the element at `i` taken out and the last element put in its
/// place.
pub open spec fn swap_removed<T>(s: Seq<T>, i: int) -> Seq<T> {
    s.update(i, s.last()).drop_last()
}

/// Whether `i` is the first place in `s` whose element equals `item`.
pub open spec fn is_first_equal<T: PartialEq>(s: Seq<T>, item: T, i: int) -> bool {
    &&& 0 <= i < s.len()
    &&& s[i].eq_spec(&item)
    &&& forall|j: int| 0 <= j < i ==> !(#[trigger] s[j]).eq_spec(&item)
}

/// The elements of `s` whose mark is `want`, in the order they have in `s`.
/// `marks` holds one mark for each element of `s`.
pub open spec fn picked<T>(s: Seq<T>, marks: Seq<bool>, want: bool) -> Seq<T>
    recommends
        marks.len() == s.len(),
    decreases s.len(),
{
    if s.len() == 0 {
        Seq::empty()
    } else {
        let rest = picked(s.drop_last(), marks.drop_last(), want);
        if marks.last() == want {
            rest.push(s.last())
        } else {
            rest
        }
    }
}

/// The last element that is kept among the first `i` of `s`, where a mark
/// of `true` says that the element is dropped as a duplicate.
pub open spec fn kept_before<T>(s: Seq<T>, marks: Seq<bool>, i: int) -> T
    recommends
        marks.len() == s.len(),
        0 < i <= s.len(),
{
    picked(s.subrange(0, i), marks.subrange(0, i), false).last()
}

/// The marks of a run of key comparisons: each step holds whether the two
/// keys were found equal, then the element's key and the key of the last
/// element kept before it.
pub open spec fn marks_of<K>(steps: Seq<(bool, K, K)>) -> Seq<bool> {
    steps.map_values(|step: (bool, K, K)| step.0)
}

/// `s` with each run of neighbours that `same` holds of reduced to its first
/// element: an element stays unless `same` holds of it and the last element
/// that stayed before it.
pub open spec fn dedup_with<T>(s: Seq<T>, same: spec_fn(T, T) -> bool) -> Seq<T>
    decreases s.len(),
{
    if s.len() == 0 {
        Seq::empty()
    } else {
        let rest = dedup_with(s.drop_last(), same);
        if rest.len() > 0 && same(s.last(), rest.last()) {
            rest
        } else {
            rest.push(s.last())
        }
    }
}

/// `s` after the elements of `vs` are pushed onto it one by one.
pub open spec fn push_all<T>(s: Seq<T>, vs: Seq<T>) -> Seq<T>
    decreases vs.len(),
{
    if vs.len() == 0 {
        s
    } else {
        push_all(s, vs.drop_last()).push(vs.last())
    }
}

/// The values that `k` pops take from `s`, in the order in which they come
/// out; popping stops where `s` is used up.
pub open spec fn popped<T>(s: Seq<T>, k: nat) -> Seq<T>
    decreases k,
{
    if k == 0 || s.len() == 0 {
        Seq::empty()
    } else {
        seq![s.last()] + popped(s.drop_last(), (k - 1) as nat)
    }
}

/// What `k` pops leave of `s`.
pub open spec fn left_after_pops<T>(s: Seq<T>, k: nat) -> Seq<T>
    decreases k,
{
    if k == 0 || s.len() == 0 {
        s
    } else {
        left_after_pops(s.drop_last(), (k - 1) as nat)
    }
}

/// `s` after the elements of `xs` are inserted one by one, the first at
/// `at` and each following one place further on.
pub open spec fn insert_all<T>(s: Seq<T>, at: int, xs: Seq<T>) -> Seq<T>
    decreases xs.len(),
{
    if xs.len() == 0 {
        s
    } else {
        insert_all(s, at, xs.drop_last()).insert(at + xs.len() - 1, xs.last())
    }
}

/// The marks with each one turned into its opposite.
pub open spec fn negated(marks: Seq<bool>) -> Seq<bool> {
    marks.map_values(|mark: bool| !mark)
}

/// The places in a sequence whose mark is `want`, in ascending order.
pub open spec fn picked_places(marks: Seq<bool>, want: bool) -> Seq<int>
    decreases marks.len(),
{
    if marks.len() == 0 {
        Seq::empty()
    } else {
        let rest = picked_places(marks.drop_last(), want);
        if marks.last() == want {
            rest.push(marks.len() - 1)
        } else {
            rest
        }
    }
}

/// The sequence in which each place holds the next element of `chosen`
/// where its mark is `true`, and the next element of `others` where it is
/// `false`.
pub open spec fn merged<T>(chosen: Seq<T>, others: Seq<T>, marks: Seq<bool>) -> Seq<T>
    decreases marks.len(),
{
    if marks.len() == 0 {
        Seq::empty()
    } else if marks.last() {
        merged(chosen.drop_last(), others, marks.drop_last()).push(chosen.last())
    } else {
        merged(chosen, others.drop_last(), marks.drop_last()).push(others.last())
    }
}

} // verus!
