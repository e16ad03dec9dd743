//! Collapsing runs of neighbouring duplicates.

use crate::filter::lemma_picked_step;
use crate::model::{dedup_with, kept_before, marks_of, picked};
use crate::static_vec::StaticVec;
use vstd::prelude::*;
use vstd::std_specs::cmp::PartialEqSpec;

verus! {

/// Marks that follow a relation `same`, each element held against the last
/// one kept before it, pick what `dedup_with` keeps.
pub proof fn lemma_picked_is_dedup<T>(s: Seq<T>, marks: Seq<bool>, same: spec_fn(T, T) -> bool)
    requires
        marks.len() == s.len(),
        s.len() > 0 ==> !marks[0],
        forall|i: int|
            1 <= i < s.len() ==> #[trigger] marks[i] == same(s[i], kept_before(s, marks, i)),
    ensures
        picked(s, marks, false) == dedup_with(s, same),
        s.len() > 0 ==> picked(s, marks, false).len() > 0,
    decreases s.len(),
{
    if s.len() > 0 {
        let s0 = s.drop_last();
        let m0 = marks.drop_last();
        assert forall|i: int| 1 <= i < s0.len() implies #[trigger] m0[i] == same(
            s0[i],
            kept_before(s0, m0, i),
        ) by {
            assert(s0.subrange(0, i) == s.subrange(0, i));
            assert(m0.subrange(0, i) == marks.subrange(0, i));
            assert(marks[i] == same(s[i], kept_before(s, marks, i)));
        }
        lemma_picked_is_dedup(s0, m0, same);
        if s.len() > 1 {
            let last = s.len() - 1;
            assert(s.subrange(0, last) == s0);
            assert(marks.subrange(0, last) == m0);
            assert(marks[last] == same(s[last], kept_before(s, marks, last)));
        }
    }
}

impl<T, const N: usize> StaticVec<T, N> {
    /// Removes every element of which `same_bucket` holds together with the
    /// last element kept before it. `same_bucket` is asked once about each
    /// element but the first, from front to back, with that element first
    /// and the last kept one second.
    pub fn dedup_by<F: FnMut(&T, &T) -> bool>(&mut self, mut same_bucket: F)
        requires
            forall|i: int, j: int|
                0 <= j < i < old(self)@.len() ==> call_requires(
                    same_bucket,
                    (&old(self)@[i], &old(self)@[j]),
                ),
        ensures
            exists|marks: Seq<bool>|
                {
                    &&& #[trigger] marks.len() == old(self)@.len()
                    &&& old(self)@.len() > 0 ==> !marks[0]
                    &&& forall|i: int|
                        1 <= i < old(self)@.len() ==> call_ensures(
                            same_bucket,
                            (&old(self)@[i], &kept_before(old(self)@, marks, i)),
                            #[trigger] marks[i],
                        )
                    &&& final(self)@ == picked(old(self)@, marks, false)
                },
    {
        let data = self.take_data();
        let ghost before = data@;
        let ghost asked = same_bucket;
        let ghost mut marks: Seq<bool> = Seq::empty();
        let ghost mut last_at: int = 0;
        let mut kept: Vec<T> = Vec::new();
        for x in it: data
            invariant
                it.seq() == before,
                same_bucket == asked,
                marks.len() == it.index(),
                forall|i: int, j: int|
                    0 <= j < i < before.len() ==> call_requires(asked, (&before[i], &before[j])),
                it.index() > 0 ==> !marks[0],
                forall|i: int|
                    1 <= i < it.index() ==> call_ensures(
                        asked,
                        (&before[i], &kept_before(before, marks, i)),
                        #[trigger] marks[i],
                    ),
                kept@ == picked(before.subrange(0, it.index() as int), marks, false),
                kept@.len() <= it.index(),
                it.index() > 0 ==> kept@.len() > 0 && 0 <= last_at < it.index() && kept@.last()
                    == before[last_at],
        {
            let ghost at = it.index() as int;
            let ghost seen = before.subrange(0, at);
            let ghost old_marks = marks;
            let n = kept.len();
            let is_same = if n > 0 {
                same_bucket(&x, &kept[n - 1])
            } else {
                false
            };
            proof {
                lemma_picked_step(seen, marks, x, is_same, false);
                assert(seen.push(x) == before.subrange(0, at + 1));
                marks = marks.push(is_same);
                assert(marks.subrange(0, at) == old_marks);
                assert forall|i: int| 1 <= i < at + 1 implies call_ensures(
                    asked,
                    (&before[i], &kept_before(before, marks, i)),
                    #[trigger] marks[i],
                ) by {
                    assert(marks.subrange(0, i) == old_marks.subrange(0, i));
                    if i < at {
                        assert(marks[i] == old_marks[i]);
                        assert(call_ensures(
                            asked,
                            (&before[i], &kept_before(before, old_marks, i)),
                            old_marks[i],
                        ));
                    }
                }
                if !is_same {
                    last_at = at;
                }
            }
            if !is_same {
                kept.push(x);
            }
        }
        assert(before.subrange(0, before.len() as int) == before);
        self.put_data(kept);
    }
}

impl<T, const N: usize> StaticVec<T, N> {
    /// Removes every element whose key equals the key of the last element
    /// kept before it. For each element but the first, from front to back,
    /// `key` is asked for the element's key and then for that of the last
    /// kept element, and the two keys are compared.
    pub fn dedup_by_key<F: FnMut(&T) -> K, K: PartialEq>(&mut self, mut key: F)
        requires
            forall|i: int| 0 <= i < old(self)@.len() ==> call_requires(key, (&old(self)@[i],)),
        ensures
            exists|steps: Seq<(bool, K, K)>|
                {
                    &&& #[trigger] steps.len() == old(self)@.len()
                    &&& old(self)@.len() > 0 ==> !steps[0].0
                    &&& forall|i: int|
                        1 <= i < old(self)@.len() ==> {
                            let step = #[trigger] steps[i];
                            &&& call_ensures(key, (&old(self)@[i],), step.1)
                            &&& call_ensures(
                                key,
                                (&kept_before(old(self)@, marks_of(steps), i),),
                                step.2,
                            )
                            &&& K::obeys_eq_spec() ==> step.0 == step.1.eq_spec(&step.2)
                        }
                    &&& final(self)@ == picked(old(self)@, marks_of(steps), false)
                },
    {
        let data = self.take_data();
        let ghost before = data@;
        let ghost asked = key;
        let ghost mut steps: Seq<(bool, K, K)> = Seq::empty();
        let ghost mut last_at: int = 0;
        let mut kept: Vec<T> = Vec::new();
        for x in it: data
            invariant
                it.seq() == before,
                key == asked,
                steps.len() == it.index(),
                forall|i: int| 0 <= i < before.len() ==> call_requires(asked, (&before[i],)),
                it.index() > 0 ==> !steps[0].0,
                forall|i: int|
                    1 <= i < it.index() ==> {
                        let step = #[trigger] steps[i];
                        &&& call_ensures(asked, (&before[i],), step.1)
                        &&& call_ensures(asked, (&kept_before(before, marks_of(steps), i),), step.2)
                        &&& K::obeys_eq_spec() ==> step.0 == step.1.eq_spec(&step.2)
                    },
                kept@ == picked(before.subrange(0, it.index() as int), marks_of(steps), false),
                kept@.len() <= it.index(),
                it.index() > 0 ==> kept@.len() > 0 && 0 <= last_at < it.index() && kept@.last()
                    == before[last_at],
        {
            let ghost at = it.index() as int;
            let ghost seen = before.subrange(0, at);
            let ghost old_steps = steps;
            let n = kept.len();
            let mut is_same = false;
            if n > 0 {
                let own = key(&x);
                let held = key(&kept[n - 1]);
                is_same = own == held;
                proof {
                    steps = steps.push((is_same, own, held));
                }
            } else {
                proof {
                    steps = steps.push((false, arbitrary(), arbitrary()));
                }
            }
            proof {
                lemma_picked_step(seen, marks_of(old_steps), x, is_same, false);
                assert(seen.push(x) == before.subrange(0, at + 1));
                assert(marks_of(steps) == marks_of(old_steps).push(is_same));
                assert(marks_of(steps).subrange(0, at) == marks_of(old_steps));
                assert forall|i: int| 1 <= i < at + 1 implies {
                    let step = #[trigger] steps[i];
                    &&& call_ensures(asked, (&before[i],), step.1)
                    &&& call_ensures(asked, (&kept_before(before, marks_of(steps), i),), step.2)
                    &&& K::obeys_eq_spec() ==> step.0 == step.1.eq_spec(&step.2)
                } by {
                    assert(marks_of(steps).subrange(0, i) == marks_of(old_steps).subrange(0, i));
                    if i < at {
                        assert(steps[i] == old_steps[i]);
                    }
                }
                if !is_same {
                    last_at = at;
                }
            }
            if !is_same {
                kept.push(x);
            }
        }
        assert(before.subrange(0, before.len() as int) == before);
        self.put_data(kept);
    }
}

impl<T: PartialEq, const N: usize> StaticVec<T, N> {
    /// Reduces each run of neighbouring equal elements to its first
    /// element. Equal elements that are not neighbours all stay.
    pub fn dedup(&mut self)
        ensures
            exists|marks: Seq<bool>|
                {
                    &&& #[trigger] marks.len() == old(self)@.len()
                    &&& old(self)@.len() > 0 ==> !marks[0]
                    &&& final(self)@ == picked(old(self)@, marks, false)
                },
            T::obeys_eq_spec() ==> final(self)@ == dedup_with(
                old(self)@,
                |a: T, b: T| a.eq_spec(&b),
            ),
    {
        let equal = |a: &T, b: &T| -> (r: bool)
            ensures
                T::obeys_eq_spec() ==> r == a.eq_spec(b),
            {
                *a == *b
            };
        self.dedup_by(equal);
        proof {
            if T::obeys_eq_spec() {
                let marks = choose|marks: Seq<bool>|
                    {
                        &&& #[trigger] marks.len() == old(self)@.len()
                        &&& old(self)@.len() > 0 ==> !marks[0]
                        &&& forall|i: int|
                            1 <= i < old(self)@.len() ==> #[trigger] marks[i] == old(self)@[i].eq_spec(
                                &kept_before(old(self)@, marks, i),
                            )
                        &&& self@ == picked(old(self)@, marks, false)
                    };
                lemma_picked_is_dedup(old(self)@, marks, |a: T, b: T| a.eq_spec(&b));
            }
        }
    }
}

} // verus!
