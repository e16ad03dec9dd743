//! Copying runs of plain-copy elements from a slice into storage.

use vstd::prelude::*;

verus! {

/// Appends the first `count` elements of `src` to `dst`, in order.
pub(crate) fn copy_prefix<T: Copy>(src: &[T], count: usize, dst: &mut Vec<T>)
    requires
        count <= src@.len(),
    ensures
        final(dst)@ == old(dst)@ + src@.subrange(0, count as int),
{
    let mut i: usize = 0;
    while i < count
        invariant
            i <= count <= src@.len(),
            dst@ == old(dst)@ + src@.subrange(0, i as int),
        decreases count - i,
    {
        dst.push(src[i]);
        i += 1;
        assert(src@.subrange(0, i as int) == src@.subrange(0, i - 1).push(src@[i - 1]));
    }
}

/// Appends the elements of `src` to `dst`, the last one first.
pub(crate) fn reverse_copy<T: Copy>(src: &[T], dst: &mut Vec<T>)
    ensures
        final(dst)@ == old(dst)@ + src@.reverse(),
{
    let n = src.len();
    let mut i: usize = n;
    while i > 0
        invariant
            n == src@.len(),
            i <= n,
            dst@ == old(dst)@ + src@.reverse().subrange(0, n - i),
        decreases i,
    {
        i -= 1;
        dst.push(src[i]);
        assert(src@.reverse().subrange(0, n - i) == src@.reverse().subrange(0, n - i - 1).push(
            src@[i as int],
        ));
    }
    assert(src@.reverse().subrange(0, n as int) == src@.reverse());
}

} // verus!
