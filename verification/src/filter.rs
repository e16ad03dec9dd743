//! Operations that keep or remove elements by a predicate, in one pass.

use crate::model::picked;
use crate::static_vec::StaticVec;
use vstd::prelude::*;

verus! {

/// One more element and its mark: what was picked so far grows by the
/// element where the mark is the wanted one, and stays as it is elsewhere.
pub proof fn lemma_picked_step<T>(s: Seq<T>, marks: Seq<bool>, x: T, mark: bool, want: bool)
    requires
        marks.len() == s.len(),
    ensures
        picked(s.push(x), marks.push(mark), want) == if mark == want {
            picked(s, marks, want).push(x)
        } else {
            picked(s, marks, want)
        },
{
    assert(s.push(x).drop_last() == s);
    assert(marks.push(mark).drop_last() == marks);
}

impl<T, const N: usize> StaticVec<T, N> {
    /// Removes the elements for which `filter` answers `true` and returns
    /// them in a new container. `filter` is asked once about each element,
    /// from the first to the last; both containers keep the order the
    /// elements had.
    pub fn drain_filter<F: FnMut(&T) -> bool>(&mut self, mut filter: F) -> (res: Self)
        requires
            forall|i: int| 0 <= i < old(self)@.len() ==> call_requires(filter, (&old(self)@[i],)),
        ensures
            exists|marks: Seq<bool>|
                {
                    &&& #[trigger] marks.len() == old(self)@.len()
                    &&& forall|i: int|
                        0 <= i < old(self)@.len() ==> call_ensures(
                            filter,
                            (&old(self)@[i],),
                            #[trigger] marks[i],
                        )
                    &&& final(self)@ == picked(old(self)@, marks, false)
                    &&& res@ == picked(old(self)@, marks, true)
                },
            final(self)@.len() + res@.len() == old(self)@.len(),
    {
        let data = self.take_data();
        let ghost before = data@;
        let ghost asked = filter;
        let ghost mut marks: Seq<bool> = Seq::empty();
        let mut kept: Vec<T> = Vec::new();
        let mut drained: Vec<T> = Vec::new();
        for x in it: data
            invariant
                it.seq() == before,
                filter == asked,
                marks.len() == it.index(),
                forall|i: int| 0 <= i < before.len() ==> call_requires(asked, (&before[i],)),
                forall|i: int|
                    0 <= i < it.index() ==> call_ensures(asked, (&before[i],), #[trigger] marks[i]),
                kept@ == picked(before.subrange(0, it.index() as int), marks, false),
                drained@ == picked(before.subrange(0, it.index() as int), marks, true),
                kept@.len() + drained@.len() == it.index(),
        {
            let ghost seen = before.subrange(0, it.index() as int);
            let is_drained = filter(&x);
            proof {
                lemma_picked_step(seen, marks, x, is_drained, false);
                lemma_picked_step(seen, marks, x, is_drained, true);
                assert(seen.push(x) == before.subrange(0, it.index() + 1));
                marks = marks.push(is_drained);
            }
            if is_drained {
                drained.push(x);
            } else {
                kept.push(x);
            }
        }
        assert(before.subrange(0, before.len() as int) == before);
        self.put_data(kept);
        Self::from_data(drained)
    }

    /// Keeps the elements for which `filter` answers `true`, in their
    /// order, and drops the others. `filter` is asked once about each
    /// element, from the first to the last.
    pub fn retain<F: FnMut(&T) -> bool>(&mut self, mut filter: F)
        requires
            forall|i: int| 0 <= i < old(self)@.len() ==> call_requires(filter, (&old(self)@[i],)),
        ensures
            exists|marks: Seq<bool>|
                {
                    &&& #[trigger] marks.len() == old(self)@.len()
                    &&& forall|i: int|
                        0 <= i < old(self)@.len() ==> call_ensures(
                            filter,
                            (&old(self)@[i],),
                            #[trigger] marks[i],
                        )
                    &&& final(self)@ == picked(old(self)@, marks, true)
                },
    {
        let data = self.take_data();
        let ghost before = data@;
        let ghost asked = filter;
        let ghost mut marks: Seq<bool> = Seq::empty();
        let mut kept: Vec<T> = Vec::new();
        for x in it: data
            invariant
                it.seq() == before,
                filter == asked,
                marks.len() == it.index(),
                forall|i: int| 0 <= i < before.len() ==> call_requires(asked, (&before[i],)),
                forall|i: int|
                    0 <= i < it.index() ==> call_ensures(asked, (&before[i],), #[trigger] marks[i]),
                kept@ == picked(before.subrange(0, it.index() as int), marks, true),
                kept@.len() <= it.index(),
        {
            let ghost seen = before.subrange(0, it.index() as int);
            let is_kept = filter(&x);
            proof {
                lemma_picked_step(seen, marks, x, is_kept, true);
                assert(seen.push(x) == before.subrange(0, it.index() + 1));
                marks = marks.push(is_kept);
            }
            if is_kept {
                kept.push(x);
            }
        }
        assert(before.subrange(0, before.len() as int) == before);
        self.put_data(kept);
    }
}

} // verus!
