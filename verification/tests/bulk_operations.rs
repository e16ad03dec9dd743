use staticvec::StaticVec;
use std::cell::Cell;
use std::rc::Rc;

fn filled<const N: usize>(values: &[i32]) -> StaticVec<i32, N> {
    StaticVec::<i32, N>::new_from_slice(values)
}

struct Counted {
    id: u32,
    drops: Rc<Cell<usize>>,
}

impl Drop for Counted {
    fn drop(&mut self) {
        self.drops.set(self.drops.get() + 1);
    }
}

fn counted(id: u32, drops: &Rc<Cell<usize>>) -> Counted {
    Counted { id, drops: Rc::clone(drops) }
}

#[test]
fn new_from_slice_copies_what_fits() {
    let v = filled::<3>(&[1, 2, 3, 4, 5]);
    assert_eq!(v.as_slice(), &[1, 2, 3]);
    let w = filled::<8>(&[1, 2, 3]);
    assert_eq!(w.as_slice(), &[1, 2, 3]);
    assert_eq!(w.len(), 3);
    let e = filled::<4>(&[]);
    assert!(e.is_empty());
}

#[test]
fn new_from_array_of_equal_size() {
    let v = StaticVec::<i32, 3>::new_from_array([1, 2, 3]);
    assert_eq!(v.as_slice(), &[1, 2, 3]);
    assert!(v.is_full());
}

#[test]
fn new_from_array_truncates_to_capacity() {
    let v = StaticVec::<i32, 3>::new_from_array([1, 2, 3, 4, 5, 6]);
    assert_eq!(v.as_slice(), &[1, 2, 3]);
    let w = StaticVec::<i32, 5>::new_from_array([1, 2]);
    assert_eq!(w.as_slice(), &[1, 2]);
}

#[test]
fn new_from_array_drops_excess_exactly_once() {
    let drops = Rc::new(Cell::new(0));
    let source = [
        counted(1, &drops),
        counted(2, &drops),
        counted(3, &drops),
        counted(4, &drops),
        counted(5, &drops),
        counted(6, &drops),
    ];
    let v = StaticVec::<Counted, 3>::new_from_array(source);
    assert_eq!(drops.get(), 3);
    assert_eq!(v.len(), 3);
    assert_eq!(v.get_unchecked(0).id, 1);
    assert_eq!(v.get_unchecked(1).id, 2);
    assert_eq!(v.get_unchecked(2).id, 3);
    drop(v);
    assert_eq!(drops.get(), 6);
}

#[test]
fn filled_with_asks_in_order() {
    let mut i = 0;
    let v = StaticVec::<i32, 6>::filled_with(|| {
        i += 1;
        i
    });
    assert_eq!(v.len(), 6);
    assert_eq!(v.as_slice(), &[1, 2, 3, 4, 5, 6]);
    let e = StaticVec::<i32, 0>::filled_with(|| 1);
    assert!(e.is_empty());
}

#[test]
fn filled_with_by_index_passes_each_index() {
    let v = StaticVec::<usize, 5>::filled_with_by_index(|i| i * 10 + 1);
    assert_eq!(v.len(), 5);
    assert_eq!(v.as_slice(), &[1, 11, 21, 31, 41]);
}

#[test]
fn extend_from_slice_truncates_silently() {
    let mut v = filled::<5>(&[1, 2]);
    v.extend_from_slice(&[3, 4]);
    assert_eq!(v.as_slice(), &[1, 2, 3, 4]);
    v.extend_from_slice(&[5, 6, 7]);
    assert_eq!(v.as_slice(), &[1, 2, 3, 4, 5]);
    v.extend_from_slice(&[8]);
    assert_eq!(v.as_slice(), &[1, 2, 3, 4, 5]);
}

#[test]
fn try_extend_from_slice_is_all_or_nothing() {
    let mut v = filled::<5>(&[1, 2]);
    assert_eq!(v.try_extend_from_slice(&[3, 4, 5, 6]), Err("Insufficient remaining capacity!"));
    assert_eq!(v.as_slice(), &[1, 2]);
    assert_eq!(v.try_extend_from_slice(&[3, 4, 5]), Ok(()));
    assert_eq!(v.as_slice(), &[1, 2, 3, 4, 5]);
    assert_eq!(v.try_extend_from_slice(&[]), Ok(()));
    assert_eq!(v.as_slice(), &[1, 2, 3, 4, 5]);
}

#[test]
fn append_moves_what_fits() {
    let mut dst = filled::<5>(&[1, 2, 3]);
    let mut src = filled::<8>(&[4, 5, 6, 7]);
    dst.append(&mut src);
    assert_eq!(dst.as_slice(), &[1, 2, 3, 4, 5]);
    assert_eq!(src.as_slice(), &[6, 7]);
}

#[test]
fn append_conserves_the_count() {
    let cases: [(&[i32], &[i32]); 4] =
        [(&[], &[1, 2]), (&[1, 2, 3, 4], &[5, 6, 7]), (&[1], &[]), (&[1, 2, 3], &[4])];
    for (head, tail) in cases {
        let mut dst = filled::<4>(head);
        let mut src = filled::<3>(tail);
        let total = dst.len() + src.len();
        dst.append(&mut src);
        assert_eq!(dst.len() + src.len(), total);
        assert!(dst.len() <= dst.capacity());
    }
}

#[test]
fn append_takes_everything_when_there_is_room() {
    let mut dst = filled::<6>(&[1]);
    let mut src = filled::<2>(&[2, 3]);
    dst.append(&mut src);
    assert_eq!(dst.as_slice(), &[1, 2, 3]);
    assert!(src.is_empty());
}

#[test]
fn drain_returns_the_range() {
    let mut v = filled::<6>(&[1, 2, 3, 4, 5]);
    let d = v.drain(1..3);
    assert_eq!(d.as_slice(), &[2, 3]);
    assert_eq!(v.as_slice(), &[1, 4, 5]);
    let e = v.drain(1..1);
    assert!(e.is_empty());
    assert_eq!(v.as_slice(), &[1, 4, 5]);
    let all = v.drain(0..3);
    assert_eq!(all.as_slice(), &[1, 4, 5]);
    assert!(v.is_empty());
}

#[test]
fn drain_then_reinsert_restores() {
    for a in 0..=5 {
        for b in a..=5 {
            let mut v = filled::<5>(&[1, 2, 3, 4, 5]);
            let mut d = v.drain(a..b);
            assert_eq!(d.len(), b - a);
            assert_eq!(v.len(), 5 - (b - a));
            let mut at = a;
            while d.is_not_empty() {
                v.insert(at, d.remove(0));
                at += 1;
            }
            assert_eq!(v.as_slice(), &[1, 2, 3, 4, 5]);
            assert_eq!(v.len(), 5);
        }
    }
}

#[test]
fn truncate_keeps_a_prefix() {
    let mut v = filled::<6>(&[1, 2, 3, 4, 5]);
    v.truncate(3);
    assert_eq!(v.len(), 3);
    assert_eq!(v.as_slice(), &[1, 2, 3]);
    v.truncate(0);
    assert!(v.is_empty());
}

#[test]
fn truncate_to_longer_is_a_no_op() {
    let mut v = filled::<6>(&[1, 2, 3]);
    v.truncate(3);
    assert_eq!(v.as_slice(), &[1, 2, 3]);
    v.truncate(10);
    assert_eq!(v.as_slice(), &[1, 2, 3]);
}

#[test]
fn truncate_drops_the_tail_once() {
    let drops = Rc::new(Cell::new(0));
    let mut v = StaticVec::<Counted, 4>::new();
    for id in 0..4 {
        v.push(counted(id, &drops));
    }
    v.truncate(1);
    assert_eq!(drops.get(), 3);
    assert_eq!(v.len(), 1);
    v.clear();
    assert_eq!(drops.get(), 4);
    assert!(v.is_empty());
}

#[test]
fn split_off_in_the_middle() {
    let mut v = filled::<4>(&[1, 2, 3, 4]);
    let tail = v.split_off(2);
    assert_eq!(v.as_slice(), &[1, 2]);
    assert_eq!(tail.as_slice(), &[3, 4]);
}

#[test]
fn split_off_at_zero_empties_the_source() {
    let mut v = filled::<4>(&[1, 2, 3, 4]);
    let tail = v.split_off(0);
    assert!(v.is_empty());
    assert_eq!(tail.as_slice(), &[1, 2, 3, 4]);
}

#[test]
fn split_off_at_len_returns_nothing() {
    let mut v = filled::<4>(&[1, 2, 3, 4]);
    let tail = v.split_off(4);
    assert_eq!(v.as_slice(), &[1, 2, 3, 4]);
    assert!(tail.is_empty());
}

#[test]
fn clear_removes_everything() {
    let mut v = filled::<4>(&[1, 2, 3]);
    v.clear();
    assert!(v.is_empty());
    v.push(9);
    assert_eq!(v.as_slice(), &[9]);
}

#[test]
fn into_vec_empties_the_container() {
    let mut v = filled::<4>(&[1, 2, 3]);
    let out = v.into_vec();
    assert_eq!(out, vec![1, 2, 3]);
    assert!(v.is_empty());
    v.push(4);
    assert_eq!(v.as_slice(), &[4]);
}

#[test]
fn reversed_leaves_the_container_alone() {
    let v = filled::<5>(&[1, 2, 3, 4]);
    let r = v.reversed();
    assert_eq!(r.as_slice(), &[4, 3, 2, 1]);
    assert_eq!(v.as_slice(), &[1, 2, 3, 4]);
    let e = filled::<5>(&[]);
    assert!(e.reversed().is_empty());
}

#[test]
fn sorted_leaves_the_container_alone() {
    let v = filled::<6>(&[3, 1, 2, 3, -4, 0]);
    let s = v.sorted();
    assert_eq!(s.as_slice(), &[-4, 0, 1, 2, 3, 3]);
    assert_eq!(v.as_slice(), &[3, 1, 2, 3, -4, 0]);
}

#[test]
fn sorted_is_stable() {
    let v = StaticVec::<(u8, u8), 5>::new_from_slice(&[(2, 0), (1, 1), (2, 2), (1, 3), (0, 4)]);
    let s = v.sorted();
    assert_eq!(s.as_slice(), &[(0, 4), (1, 1), (1, 3), (2, 0), (2, 2)]);
}

#[test]
fn sorted_unstable_leaves_the_container_alone() {
    let v = filled::<6>(&[5, 4, 9, 1]);
    let s = v.sorted_unstable();
    assert_eq!(s.as_slice(), &[1, 4, 5, 9]);
    assert_eq!(v.as_slice(), &[5, 4, 9, 1]);
}
