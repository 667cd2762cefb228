use gen_vec::closed::ClosedGenVec;
use gen_vec::Index;

#[test]
fn insert() {
    let mut vec = ClosedGenVec::new();
    let index = vec.insert(3);
    assert_eq!(index.index, 0);
    assert_eq!(index.generation, 0);
    assert_eq!(vec.len(), 1);

    let index = vec.insert(4);
    assert_eq!(index.index, 1);
    assert_eq!(index.generation, 0);
    assert_eq!(vec.len(), 2);
}

#[test]
fn get() {
    let mut vec = ClosedGenVec::new();
    let index = vec.insert(3);
    let value = vec.get(index);
    assert_eq!(value, Some(&3));

    let index = vec.insert(4);
    let value = vec.get(index);
    assert_eq!(value, Some(&4));
}

#[test]
fn get_mut() {
    let mut vec = ClosedGenVec::new();
    let index = vec.insert(3);
    let value = vec.get_mut(index);
    if let Some(value) = value {
        *value = 1;
    }

    let value = vec.get(index);
    assert_eq!(value, Some(&1));
}

#[test]
fn remove() {
    let mut vec = ClosedGenVec::new();
    let index = vec.insert(3);
    let value = vec.remove(index);
    assert_eq!(value, Some(3));
    assert_eq!(vec.len(), 0);
    assert_eq!(vec.get(index), None);

    let index = vec.insert(4);
    assert_eq!(index.index, 0);
    assert_eq!(index.generation, 1);
    assert_eq!(vec.len(), 1);
}

#[test]
fn clear() {
    let mut vec = ClosedGenVec::new();
    let index = vec.insert(4);
    let index1 = vec.insert(5);

    vec.clear();
    assert!(!vec.contains(index));
    assert!(!vec.contains(index1));

    assert_eq!(vec.len(), 0);
    let index1 = vec.insert(1);
    assert!(vec.contains(index1));
}

#[test]
fn len() {
    let mut vec = ClosedGenVec::new();
    assert_eq!(vec.len(), 0);
    vec.insert(3);
    assert_eq!(vec.len(), 1);
}

#[test]
fn is_empty() {
    let mut vec = ClosedGenVec::new();
    assert!(vec.is_empty());
    vec.insert(3);
    assert!(!vec.is_empty());
    vec.clear();
    assert!(vec.is_empty());
    let index = vec.insert(4);
    vec.remove(index);
    assert!(vec.is_empty());
}

#[test]
fn capacity() {
    let mut vec = ClosedGenVec::<i32>::new();
    assert_eq!(vec.capacity(), 0);

    vec.reserve(24);
    assert!(vec.capacity() >= 24);

    vec = ClosedGenVec::with_capacity(5);
    assert_eq!(vec.capacity(), 5);
}

#[test]
fn contains() {
    let mut vec = ClosedGenVec::<i32>::new();
    let index = vec.insert(3);
    assert!(vec.contains(index));
    vec.remove(index);
    assert!(!vec.contains(index));
    let index = vec.insert(5);

    vec = ClosedGenVec::new();
    assert!(!vec.contains(index));
}

#[test]
fn into_iter() {
    let mut vec = ClosedGenVec::<i32>::new();
    let index = vec.insert(4);
    let index1 = vec.insert(5);

    let mut iter = vec.into_iter();
    while let Some((i, value)) = iter.next() {
        if i == index {
            assert_eq!(value, 4)
        } else if i == index1 {
            assert_eq!(value, 5);
        }
    }
}

#[test]
fn iter() {
    let mut vec = ClosedGenVec::<i32>::new();
    let index = vec.insert(4);
    let index1 = vec.insert(5);

    let mut iter = vec.iter();

    let (i, value) = iter.next().expect("Iterator should have next");
    assert_eq!(i, index);
    assert_eq!(*value, 4);

    let (i, value) = iter.next().expect("Iterator should have next");
    assert_eq!(i, index1);
    assert_eq!(*value, 5);
}

#[test]
fn iter_mut() {
    let mut vec = ClosedGenVec::<i32>::new();
    let index = vec.insert(4);
    let index1 = vec.insert(5);

    let mut iter = vec.iter_mut();

    let (i, value) = iter.next().expect("Iterator should have next");
    assert_eq!(i, index);
    assert_eq!(*value, 4);
    *value = 0;

    let (i, value) = iter.next().expect("Iterator should have next");
    assert_eq!(i, index1);
    assert_eq!(*value, 5);
    *value = 1;

    let value = vec.get(index);
    assert_eq!(value, Some(&0));

    let value = vec.get(index1);
    assert_eq!(value, Some(&1));
}

#[test]
fn index() {
    let mut vec = ClosedGenVec::<i32>::new();
    let index = vec.insert(4);

    assert_eq!(*vec.index(index), 4);
}

#[test]
fn index_mut() {
    let mut vec = ClosedGenVec::<i32>::new();
    let index = vec.insert(4);
    *vec.index_mut(index) = 5;

    assert_eq!(*vec.index(index), 5);
}

#[test]
fn closed_two_inserts_take_consecutive_slots() {
    let mut vec = ClosedGenVec::new();
    let a = vec.insert(4);
    let b = vec.insert(5);
    assert_eq!(a, Index { index: 0, generation: 0 });
    assert_eq!(b, Index { index: 1, generation: 0 });
    assert_eq!(vec.len(), 2);
}

#[test]
fn closed_remove_then_reuse_bumps_generation() {
    let mut vec = ClosedGenVec::new();
    let a = vec.insert(4);
    vec.insert(5);
    assert_eq!(vec.remove(a), Some(4));
    assert_eq!(vec.len(), 1);
    assert_eq!(vec.get(a), None);
    let c = vec.insert(1);
    assert_eq!(c, Index { index: 0, generation: 1 });
    assert!(vec.contains(c));
    assert!(!vec.contains(a));
    assert_eq!(vec.get(a), None);
    assert_eq!(vec.get(c), Some(&1));
}

#[test]
fn closed_clear_invalidates_and_reuses_slots() {
    let mut vec = ClosedGenVec::new();
    let a = vec.insert(4);
    let b = vec.insert(5);
    vec.clear();
    assert_eq!(vec.len(), 0);
    assert_eq!(vec.get(a), None);
    assert_eq!(vec.get(b), None);
    assert!(!vec.contains(a));
    assert!(!vec.contains(b));
    let c = vec.insert(7);
    assert_eq!(c, Index { index: 0, generation: 1 });
    let d = vec.insert(8);
    assert_eq!(d, Index { index: 1, generation: 1 });
    assert_eq!(vec.get(c), Some(&7));
    assert!(vec.iter().next().is_some());
}

#[test]
fn closed_free_slots_are_reused_first_in_first_out() {
    let mut vec = ClosedGenVec::new();
    let a = vec.insert(1);
    let b = vec.insert(2);
    let c = vec.insert(3);
    vec.remove(c);
    vec.remove(a);
    vec.remove(b);
    assert_eq!(vec.insert(10).index, 2);
    assert_eq!(vec.insert(11).index, 0);
    assert_eq!(vec.insert(12).index, 1);
    assert_eq!(vec.insert(13), Index { index: 3, generation: 0 });
}

#[test]
fn closed_remove_twice_is_a_no_op() {
    let mut vec = ClosedGenVec::new();
    let a = vec.insert(4);
    let b = vec.insert(5);
    assert_eq!(vec.remove(a), Some(4));
    assert_eq!(vec.remove(a), None);
    assert_eq!(vec.len(), 1);
    assert_eq!(vec.get(b), Some(&5));
    let c = vec.insert(6);
    assert_eq!(c, Index { index: 0, generation: 1 });
    let d = vec.insert(7);
    assert_eq!(d, Index { index: 2, generation: 0 });
}

#[test]
fn closed_reserved_slots_are_handed_out() {
    let mut vec = ClosedGenVec::new();
    let a = vec.insert(1);
    vec.reserve(2);
    assert!(vec.capacity() >= 3);
    assert_eq!(vec.len(), 1);
    let b = vec.insert(2);
    assert_eq!(b, Index { index: 1, generation: 1 });
    assert_eq!(vec.get(a), Some(&1));
    assert_eq!(vec.get(b), Some(&2));
}

#[test]
fn closed_iter_skips_removed_and_keeps_order() {
    let mut vec = ClosedGenVec::new();
    let a = vec.insert(1);
    let b = vec.insert(2);
    let c = vec.insert(3);
    vec.remove(b);
    let mut iter = vec.iter();
    assert_eq!(iter.next(), Some((a, &1)));
    assert_eq!(iter.next(), Some((c, &3)));
    assert_eq!(iter.next(), None);
    assert_eq!(iter.next(), None);
}

#[test]
fn closed_stale_index_is_not_found() {
    let mut vec = ClosedGenVec::new();
    let a = vec.insert(1);
    vec.remove(a);
    let b = vec.insert(2);
    assert_eq!(b.index, a.index);
    assert_ne!(b, a);
    assert_eq!(vec.get_mut(a), None);
    assert_eq!(vec.remove(a), None);
    assert_eq!(vec.get(b), Some(&2));
    let unknown = Index { index: 9, generation: 0 };
    assert!(!vec.contains(unknown));
    assert_eq!(vec.remove(unknown), None);
}

#[test]
fn closed_default_is_empty() {
    let mut vec: ClosedGenVec<u8> = Default::default();
    assert!(vec.is_empty());
    assert_eq!(vec.insert(9), Index { index: 0, generation: 0 });
    assert_eq!(vec.len(), 1);
}
