//! What holds between the container's operations, stated over the
//! sequences that their contracts speak of.

use crate::model::{
    after_drain, insert_all, left_after_pops, merged, negated, picked, picked_places, popped,
    push_all,
};
use vstd::prelude::*;

verus! {

/// Pushing the elements of `vs` one by one appends `vs`.
pub proof fn lemma_push_all_appends<T>(s: Seq<T>, vs: Seq<T>)
    ensures
        push_all(s, vs) == s + vs,
    decreases vs.len(),
{
    if vs.len() > 0 {
        lemma_push_all_appends(s, vs.drop_last());
        assert((s + vs.drop_last()).push(vs.last()) == s + vs);
    } else {
        assert(s + vs == s);
    }
}

/// Last in, first out: as many pops as there were pushes return the pushed
/// values in the opposite order and leave the sequence as it was before
/// the pushes.
pub proof fn lemma_push_pop_lifo<T>(s: Seq<T>, vs: Seq<T>)
    ensures
        popped(push_all(s, vs), vs.len()) == vs.reverse(),
        left_after_pops(push_all(s, vs), vs.len()) == s,
    decreases vs.len(),
{
    lemma_push_all_appends(s, vs);
    if vs.len() > 0 {
        let init = vs.drop_last();
        lemma_push_all_appends(s, init);
        lemma_push_pop_lifo(s, init);
        assert((s + vs).drop_last() == s + init);
        assert((s + vs).last() == vs.last());
        assert(seq![vs.last()] + init.reverse() == vs.reverse());
    } else {
        assert(vs.reverse() == Seq::<T>::empty());
    }
}

/// Removing at the index at which a value was just inserted returns that
/// value and restores the sequence.
pub proof fn lemma_insert_then_remove<T>(s: Seq<T>, i: int, v: T)
    requires
        0 <= i <= s.len(),
    ensures
        s.insert(i, v)[i] == v,
        s.insert(i, v).remove(i) == s,
{
    assert(s.insert(i, v).remove(i) == s);
}

/// Inserting `xs` element by element from `at` on puts `xs` as a block
/// between what stood before `at` and what stood from `at` on.
pub proof fn lemma_insert_all_splices<T>(s: Seq<T>, at: int, xs: Seq<T>)
    requires
        0 <= at <= s.len(),
    ensures
        insert_all(s, at, xs) == s.subrange(0, at) + xs + s.subrange(at, s.len() as int),
    decreases xs.len(),
{
    let tail = s.subrange(at, s.len() as int);
    if xs.len() > 0 {
        let init = xs.drop_last();
        lemma_insert_all_splices(s, at, init);
        let so_far = s.subrange(0, at) + init + tail;
        assert(so_far.insert(at + xs.len() - 1, xs.last()) == s.subrange(0, at) + xs + tail);
    } else {
        assert(s.subrange(0, at) + xs + tail == s);
    }
}

/// Draining a range and inserting the drained elements again, one by one
/// from the start of the range on, restores the sequence and its length.
pub proof fn lemma_drain_then_insert_all<T>(s: Seq<T>, start: int, end: int)
    requires
        0 <= start <= end <= s.len(),
    ensures
        insert_all(after_drain(s, start, end), start, s.subrange(start, end)) == s,
{
    let rest = after_drain(s, start, end);
    lemma_insert_all_splices(rest, start, s.subrange(start, end));
    assert(rest.subrange(0, start) == s.subrange(0, start));
    assert(rest.subrange(start, rest.len() as int) == s.subrange(end, s.len() as int));
    assert(s.subrange(0, start) + s.subrange(start, end) + s.subrange(end, s.len() as int) == s);
}

/// What is picked by the opposite marks is what the marks leave.
pub proof fn lemma_picked_negated<T>(s: Seq<T>, marks: Seq<bool>, want: bool)
    requires
        marks.len() == s.len(),
    ensures
        picked(s, negated(marks), want) == picked(s, marks, !want),
    decreases s.len(),
{
    if s.len() > 0 {
        lemma_picked_negated(s.drop_last(), marks.drop_last(), want);
        assert(negated(marks).drop_last() == negated(marks.drop_last()));
    }
}

/// The picked elements are the elements at the picked places; these
/// places ascend, lie within the sequence, carry the wanted mark, and no
/// place with that mark is missing. So picking keeps the relative order.
pub proof fn lemma_picked_keeps_order<T>(s: Seq<T>, marks: Seq<bool>, want: bool)
    requires
        marks.len() == s.len(),
    ensures
        picked(s, marks, want).len() == picked_places(marks, want).len(),
        forall|k: int|
            0 <= k < picked_places(marks, want).len() ==> {
                let place = #[trigger] picked_places(marks, want)[k];
                &&& 0 <= place < s.len()
                &&& marks[place] == want
                &&& picked(s, marks, want)[k] == s[place]
            },
        forall|k: int, l: int|
            0 <= k < l < picked_places(marks, want).len() ==> picked_places(marks, want)[k]
                < picked_places(marks, want)[l],
        forall|i: int|
            0 <= i < s.len() && marks[i] == want ==> picked_places(marks, want).contains(i),
    decreases s.len(),
{
    if s.len() > 0 {
        let s0 = s.drop_last();
        let m0 = marks.drop_last();
        lemma_picked_keeps_order(s0, m0, want);
        let places0 = picked_places(m0, want);
        let places = picked_places(marks, want);
        assert forall|i: int| 0 <= i < s.len() && marks[i] == want implies places.contains(i) by {
            if i < s.len() - 1 {
                assert(m0[i] == want);
                let k = choose|k: int| 0 <= k < places0.len() && places0[k] == i;
                assert(places[k] == i);
            } else {
                assert(places[places.len() - 1] == i);
            }
        }
    }
}

/// The kept and the removed elements together are all the elements: their
/// numbers add up, and merging them by the marks gives the sequence back.
pub proof fn lemma_partition_merges<T>(s: Seq<T>, marks: Seq<bool>)
    requires
        marks.len() == s.len(),
    ensures
        picked(s, marks, true).len() + picked(s, marks, false).len() == s.len(),
        merged(picked(s, marks, true), picked(s, marks, false), marks) == s,
    decreases s.len(),
{
    if s.len() > 0 {
        let s0 = s.drop_last();
        let m0 = marks.drop_last();
        lemma_partition_merges(s0, m0);
        let chosen = picked(s, marks, true);
        let others = picked(s, marks, false);
        if marks.last() {
            assert(chosen.drop_last() == picked(s0, m0, true));
        } else {
            assert(others.drop_last() == picked(s0, m0, false));
        }
        assert(s0.push(s.last()) == s);
    } else {
        assert(s == Seq::<T>::empty());
    }
}

} // verus!
