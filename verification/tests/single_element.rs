use staticvec::StaticVec;

fn filled<const N: usize>(values: &[i32]) -> StaticVec<i32, N> {
    StaticVec::<i32, N>::new_from_slice(values)
}

#[test]
fn new_container_is_empty() {
    let v = StaticVec::<i32, 4>::new();
    assert_eq!(v.len(), 0);
    assert_eq!(v.capacity(), 4);
    assert_eq!(StaticVec::<i32, 4>::cap(), 4);
    assert_eq!(v.remaining_capacity(), 4);
    assert!(v.is_empty());
    assert!(!v.is_not_empty());
    assert!(!v.is_full());
    assert!(v.is_not_full());
    assert!(v.as_slice().is_empty());
}

#[test]
fn size_queries_follow_the_length() {
    let mut v = StaticVec::<i32, 2>::new();
    v.push(5);
    assert_eq!(v.len(), 1);
    assert_eq!(v.remaining_capacity(), 1);
    assert!(v.is_not_empty());
    assert!(v.is_not_full());
    v.push(6);
    assert_eq!(v.len(), 2);
    assert_eq!(v.remaining_capacity(), 0);
    assert!(v.is_full());
    assert!(!v.is_not_full());
    assert!(!v.is_empty());
}

#[test]
fn pops_return_pushes_in_reverse() {
    let mut v = StaticVec::<i32, 5>::new();
    for x in [10, 20, 30, 40, 50] {
        v.push(x);
    }
    assert_eq!(v.as_slice(), &[10, 20, 30, 40, 50]);
    assert_eq!(v.pop(), Some(50));
    assert_eq!(v.pop(), Some(40));
    assert_eq!(v.pop(), Some(30));
    assert_eq!(v.pop(), Some(20));
    assert_eq!(v.pop(), Some(10));
    assert_eq!(v.pop(), None);
    assert_eq!(v.len(), 0);
}

#[test]
fn push_into_full_container_is_refused() {
    let mut v = StaticVec::<i32, 3>::new();
    assert_eq!(v.try_push(1), Ok(()));
    assert_eq!(v.try_push(2), Ok(()));
    assert_eq!(v.try_push(3), Ok(()));
    assert_eq!(v.try_push(4), Err("Insufficient remaining capacity!"));
    assert_eq!(v.len(), 3);
    assert_eq!(v.as_slice(), &[1, 2, 3]);
}

#[test]
fn unchecked_push_and_pop() {
    let mut v = StaticVec::<i32, 3>::new();
    v.push_unchecked(7);
    v.push_unchecked(8);
    assert_eq!(v.as_slice(), &[7, 8]);
    assert_eq!(v.pop_unchecked(), 8);
    assert_eq!(v.pop_unchecked(), 7);
    assert!(v.is_empty());
}

#[test]
fn first_and_last() {
    let mut v = StaticVec::<i32, 4>::new();
    assert_eq!(v.first(), None);
    assert_eq!(v.last(), None);
    assert!(v.first_mut().is_none());
    assert!(v.last_mut().is_none());
    v.push(1);
    v.push(2);
    v.push(3);
    assert_eq!(v.first(), Some(&1));
    assert_eq!(v.last(), Some(&3));
    *v.first_mut().unwrap() = 11;
    *v.last_mut().unwrap() = 33;
    assert_eq!(v.as_slice(), &[11, 2, 33]);
}

#[test]
fn indexed_access() {
    let mut v = filled::<4>(&[4, 5, 6]);
    assert_eq!(*v.get_unchecked(0), 4);
    assert_eq!(*v.get_unchecked(2), 6);
    *v.get_unchecked_mut(1) = 50;
    assert_eq!(v.as_slice(), &[4, 50, 6]);
}

#[test]
fn insert_shifts_right() {
    let mut v = filled::<5>(&[1, 2, 3]);
    v.insert(1, 9);
    assert_eq!(v.as_slice(), &[1, 9, 2, 3]);
    v.insert(0, 8);
    assert_eq!(v.as_slice(), &[8, 1, 9, 2, 3]);
    let mut w = filled::<5>(&[1, 2]);
    w.insert(2, 3);
    assert_eq!(w.as_slice(), &[1, 2, 3]);
}

#[test]
fn remove_shifts_left() {
    let mut v = filled::<5>(&[1, 2, 3, 4]);
    assert_eq!(v.remove(1), 2);
    assert_eq!(v.as_slice(), &[1, 3, 4]);
    assert_eq!(v.remove(2), 4);
    assert_eq!(v.as_slice(), &[1, 3]);
    assert_eq!(v.remove(0), 1);
    assert_eq!(v.as_slice(), &[3]);
}

#[test]
fn insert_then_remove_round_trips() {
    for i in 0..=4 {
        let mut v = filled::<5>(&[1, 2, 3, 4]);
        v.insert(i, 99);
        assert_eq!(v.len(), 5);
        assert_eq!(*v.get_unchecked(i), 99);
        assert_eq!(v.remove(i), 99);
        assert_eq!(v.as_slice(), &[1, 2, 3, 4]);
    }
}

#[test]
fn try_insert_reports_failure() {
    let message = "One of `self.length < N` or `index <= self.length` is false!";
    let mut v = filled::<3>(&[1, 2]);
    assert_eq!(v.try_insert(3, 9), Err(message));
    assert_eq!(v.as_slice(), &[1, 2]);
    assert_eq!(v.try_insert(1, 9), Ok(()));
    assert_eq!(v.as_slice(), &[1, 9, 2]);
    assert_eq!(v.try_insert(0, 7), Err(message));
    assert_eq!(v.as_slice(), &[1, 9, 2]);
}

#[test]
fn remove_item_takes_first_match() {
    let mut v = filled::<6>(&[1, 2, 3, 2, 1]);
    assert_eq!(v.remove_item(&2), Some(2));
    assert_eq!(v.as_slice(), &[1, 3, 2, 1]);
    assert_eq!(v.remove_item(&7), None);
    assert_eq!(v.as_slice(), &[1, 3, 2, 1]);
    assert_eq!(v.remove_item(&1), Some(1));
    assert_eq!(v.as_slice(), &[3, 2, 1]);
}

#[test]
fn swap_remove_moves_last_into_place() {
    let mut v = filled::<5>(&[1, 2, 3, 4]);
    assert_eq!(v.swap_remove(0), 1);
    assert_eq!(v.as_slice(), &[4, 2, 3]);
    assert_eq!(v.swap_remove(2), 3);
    assert_eq!(v.as_slice(), &[4, 2]);
}

#[test]
fn swap_pop_out_of_range_is_none() {
    let mut v = filled::<5>(&[1, 2, 3, 4]);
    assert_eq!(v.swap_pop(4), None);
    assert_eq!(v.as_slice(), &[1, 2, 3, 4]);
    assert_eq!(v.swap_pop(1), Some(2));
    assert_eq!(v.as_slice(), &[1, 4, 3]);
    assert_eq!(v.swap_pop(2), Some(3));
    assert_eq!(v.as_slice(), &[1, 4]);
}

#[test]
fn set_len_shortens() {
    let mut v = filled::<5>(&[1, 2, 3, 4]);
    v.set_len(4);
    assert_eq!(v.as_slice(), &[1, 2, 3, 4]);
    v.set_len(2);
    assert_eq!(v.as_slice(), &[1, 2]);
    v.set_len(0);
    assert!(v.is_empty());
}

#[test]
fn mutable_slice_writes_through() {
    let mut v = filled::<4>(&[3, 1, 2]);
    {
        let slice = v.as_mut_slice();
        assert_eq!(slice.len(), 3);
        slice[0] = 30;
        slice.swap(1, 2);
    }
    assert_eq!(v.as_slice(), &[30, 2, 1]);
    assert_eq!(v.len(), 3);
}
