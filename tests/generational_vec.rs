use gen_vec::gen_vec::GenerationalVec;
use gen_vec::Index;

#[test]
fn gen_vec_insert() {
    let mut givec = GenerationalVec::new();
    let i = givec.insert(3);
    assert_eq!(i.index, 0);
    assert_eq!(i.generation, 0);
    assert_eq!(givec.len(), 1);

    let i = givec.insert(4);
    assert_eq!(i.index, 1);
    assert_eq!(i.generation, 0);
    assert_eq!(givec.len(), 2);
}

#[test]
fn generational_vec_get() {
    let mut givec = GenerationalVec::new();
    let i = givec.insert(3);
    let item = givec.get(i).unwrap();
    assert_eq!(*item, 3);

    let i = givec.insert(4);
    let item = givec.get(i).unwrap();
    assert_eq!(*item, 4);
}

#[test]
fn gen_vec_get_mut() {
    let mut givec = GenerationalVec::new();
    let i = givec.insert(3);
    let item = givec.get_mut(i).unwrap();
    *item = 1;
    assert_eq!(*givec.get(i).unwrap(), 1);
}

#[test]
fn gen_vec_remove() {
    let mut givec = GenerationalVec::new();
    let i = givec.insert(3);
    let item = givec.remove(i).unwrap();
    assert_eq!(item, 3);
    assert_eq!(givec.len(), 0);
    assert_eq!(givec.get(i), None);

    let i2 = givec.insert(4);
    assert_eq!(i2.index, 0);
    assert_eq!(i2.generation, 1);
    assert_eq!(givec.len(), 1);
}

#[test]
fn gen_vec_clear() {
    let mut vec = GenerationalVec::new();
    vec.insert(4);
    let gen = vec.insert(5).generation;

    vec.clear();
    assert_eq!(vec.num_free(), 2);

    assert_eq!(vec.len(), 0);
    let item = vec.insert(1);
    assert_eq!(item.index, 0);
    assert_eq!(item.generation, gen + 1);
}

#[test]
fn gen_vec_len() {
    let mut vec = GenerationalVec::new();
    assert_eq!(vec.len(), 0);
    vec.insert(3);
    assert_eq!(vec.len(), 1);
}

#[test]
fn gen_vec_is_empty() {
    let mut vec = GenerationalVec::new();
    assert!(vec.is_empty());
    vec.insert(3);
    assert!(!vec.is_empty());
    vec.clear();
    assert!(vec.is_empty());
    let i = vec.insert(4);
    vec.remove(i);
    assert!(vec.is_empty());
}

#[test]
fn generational_vec_capacity() {
    let mut vec = GenerationalVec::<i32>::new();
    assert_eq!(vec.capacity(), 0);

    vec.reserve(24);
    assert!(vec.capacity() >= 24);

    vec = GenerationalVec::with_capacity(5);
    assert_eq!(vec.capacity(), 5);
}

#[test]
fn generational_remove_moves_every_index_on() {
    let mut vec = GenerationalVec::new();
    let a = vec.insert(1);
    let b = vec.insert(2);
    assert_eq!(vec.remove(a), Some(1));
    assert_eq!(vec.remove(a), None);
    assert_eq!(vec.get(b), Some(&2));
    let c = vec.insert(3);
    assert_eq!(c, Index { index: 0, generation: 1 });
    let d = vec.insert(4);
    assert_eq!(d, Index { index: 2, generation: 1 });
    assert!(!vec.contains(a));
    assert!(vec.contains(b));
}

#[test]
fn generational_clear_invalidates_everything() {
    let mut vec = GenerationalVec::new();
    let a = vec.insert('a');
    let b = vec.insert('b');
    vec.clear();
    assert!(!vec.contains(a));
    assert!(!vec.contains(b));
    assert_eq!(vec.len(), 0);
    let c = vec.insert('c');
    let d = vec.insert('d');
    let e = vec.insert('e');
    assert_eq!(c, Index { index: 0, generation: 1 });
    assert_eq!(d, Index { index: 1, generation: 1 });
    assert_eq!(e, Index { index: 2, generation: 1 });
    assert_eq!(vec.len(), 3);
}

#[test]
fn generational_reserve_queues_new_positions() {
    let mut vec = GenerationalVec::new();
    let a = vec.insert(5);
    vec.reserve(2);
    assert_eq!(vec.num_free(), 2);
    assert!(vec.capacity() >= 3);
    assert_eq!(vec.insert(6), Index { index: 1, generation: 0 });
    assert_eq!(vec.insert(7), Index { index: 2, generation: 0 });
    assert_eq!(vec.insert(8), Index { index: 3, generation: 0 });
    assert_eq!(vec.get(a), Some(&5));
    assert_eq!(vec.len(), 4);
}

#[test]
fn generational_stale_get_mut_is_none() {
    let mut vec = GenerationalVec::new();
    let a = vec.insert(1);
    vec.remove(a);
    let b = vec.insert(2);
    assert_eq!(b.index, a.index);
    assert_eq!(vec.get_mut(a), None);
    assert_eq!(vec.get_mut(Index { index: 7, generation: 0 }), None);
    assert_eq!(vec.get(b), Some(&2));
}
