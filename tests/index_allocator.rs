use gen_vec::exposed::{AllocatedIndex, IndexAllocator};
use gen_vec::Index;

#[test]
fn allocate() {
    let mut allocator = IndexAllocator::new();
    let index = allocator.allocate();
    assert_eq!(index.index, 0);
    assert_eq!(index.generation, 0);

    let index = allocator.allocate();
    assert_eq!(index.index, 1);
    assert_eq!(index.generation, 0);
}

#[test]
fn deallocate() {
    let mut allocator = IndexAllocator::new();
    let index = allocator.allocate();
    allocator.allocate();

    allocator.deallocate(index);

    let index = allocator.allocate();
    assert_eq!(index.index, 0);
    assert_eq!(index.generation, 1);
}

#[test]
fn deallocate_all() {
    let mut allocator: IndexAllocator = IndexAllocator::new();
    for _ in 0..10 {
        allocator.allocate();
    }
    assert_eq!(allocator.num_active(), 10);
    assert_eq!(allocator.num_free(), 0);

    allocator.deallocate_all();
    assert_eq!(allocator.num_active(), 0);
    assert_eq!(allocator.num_free(), 10);
}

#[test]
fn index_allocator_capacity() {
    let mut allocator = IndexAllocator::new();
    assert_eq!(allocator.capacity(), 0);
    allocator.allocate();
    assert!(allocator.capacity() >= 1);

    allocator = IndexAllocator::with_capacity(3);
    assert!(allocator.capacity() >= 3);
    allocator.allocate();
    allocator.allocate();

    allocator.reserve(4);
    assert!(allocator.capacity() >= 5);
}

#[test]
fn active() {
    let mut allocator = IndexAllocator::new();
    let index = allocator.allocate();
    allocator.allocate();
    assert_eq!(allocator.num_active(), 2);
    assert_eq!(allocator.num_free(), 0);
    assert!(allocator.is_active(index));
    allocator.deallocate(index);
    assert!(!allocator.is_active(index));
    assert_eq!(allocator.num_active(), 1);
    assert_eq!(allocator.num_free(), 1);
}

#[test]
fn index_allocator_iter() {
    let mut allocator = IndexAllocator::new();
    allocator.allocate();
    allocator.allocate();
    let i = allocator.allocate();
    allocator.deallocate(i);

    let mut iter = allocator.iter();
    assert_eq!(iter.next(), Some(Index { index: 0, generation: 0 }));
    assert_eq!(iter.next(), Some(Index { index: 1, generation: 0 }));
    assert_eq!(iter.next(), None);
}

#[test]
fn allocator_deallocate_twice_is_a_no_op() {
    let mut allocator = IndexAllocator::new();
    let a = allocator.allocate();
    let b = allocator.allocate();
    allocator.deallocate(a);
    allocator.deallocate(a);
    assert_eq!(allocator.num_free(), 1);
    assert_eq!(allocator.num_active(), 1);
    assert!(allocator.is_active(b));
    assert_eq!(allocator.allocate(), Index { index: 0, generation: 1 });
    assert_eq!(allocator.allocate(), Index { index: 2, generation: 0 });
}

#[test]
fn allocator_unknown_or_stale_index_is_ignored() {
    let mut allocator = IndexAllocator::new();
    let a = allocator.allocate();
    allocator.deallocate(Index { index: 5, generation: 0 });
    allocator.deallocate(Index { index: 0, generation: 3 });
    assert!(allocator.is_active(a));
    assert_eq!(allocator.num_free(), 0);
    allocator.deallocate(a);
    let b = allocator.allocate();
    assert_eq!(b, Index { index: 0, generation: 1 });
    allocator.deallocate(a);
    assert!(allocator.is_active(b));
    assert!(!allocator.is_active(a));
}

#[test]
fn allocator_generation_grows_by_one_per_reuse() {
    let mut allocator = IndexAllocator::new();
    let mut index = allocator.allocate();
    for expected in 1..6 {
        allocator.deallocate(index);
        index = allocator.allocate();
        assert_eq!(index, Index { index: 0, generation: expected });
    }
}

#[test]
fn allocator_deallocate_all_queues_only_active_positions() {
    let mut allocator = IndexAllocator::new();
    let a = allocator.allocate();
    let b = allocator.allocate();
    let c = allocator.allocate();
    allocator.deallocate(b);
    allocator.deallocate_all();
    assert_eq!(allocator.num_free(), 3);
    assert_eq!(allocator.num_active(), 0);
    assert!(!allocator.is_active(a));
    assert!(!allocator.is_active(c));
    assert_eq!(allocator.allocate(), Index { index: 1, generation: 1 });
    assert_eq!(allocator.allocate(), Index { index: 0, generation: 1 });
    assert_eq!(allocator.allocate(), Index { index: 2, generation: 1 });
    assert_eq!(allocator.allocate(), Index { index: 3, generation: 0 });
}

#[test]
fn allocator_reserve_adds_free_positions() {
    let mut allocator = IndexAllocator::new();
    allocator.reserve(3);
    assert_eq!(allocator.num_free(), 3);
    assert_eq!(allocator.num_active(), 0);
    assert!(allocator.capacity() >= 3);
    assert_eq!(allocator.allocate(), Index { index: 0, generation: 1 });
    assert!(allocator.iter().next().is_some());
    let mut iter = allocator.into_iter();
    assert_eq!(iter.next(), Some(Index { index: 0, generation: 1 }));
    assert_eq!(iter.next(), None);
}

#[test]
fn allocator_parts_round_trip() {
    let mut allocator = IndexAllocator::new();
    let a = allocator.allocate();
    let b = allocator.allocate();
    let c = allocator.allocate();
    allocator.deallocate(b);
    allocator.deallocate(a);
    let (queue, records) = allocator.to_parts();
    assert_eq!(queue, vec![1, 0]);
    assert_eq!(records.len(), 3);
    assert!(records[0].is_free && records[1].is_free && !records[2].is_free);
    let mut rebuilt = IndexAllocator::from_parts(queue, records);
    assert_eq!(rebuilt.num_active(), 1);
    assert_eq!(rebuilt.num_free(), 2);
    assert!(rebuilt.is_active(c));
    assert!(!rebuilt.is_active(a));
    assert_eq!(rebuilt.allocate(), Index { index: 1, generation: 1 });
    assert_eq!(rebuilt.allocate(), Index { index: 0, generation: 1 });
}

#[test]
fn allocator_from_parts_drops_bad_queue_entries() {
    let records = vec![
        AllocatedIndex { is_free: false, generation: 4 },
        AllocatedIndex { is_free: true, generation: 2 },
        AllocatedIndex { is_free: true, generation: usize::MAX },
    ];
    let mut rebuilt = IndexAllocator::from_parts(vec![0, 1, 1, 2, 9], records);
    assert_eq!(rebuilt.num_free(), 1);
    assert_eq!(rebuilt.num_active(), 1);
    assert!(rebuilt.is_active(Index { index: 0, generation: 4 }));
    assert_eq!(rebuilt.allocate(), Index { index: 1, generation: 3 });
    assert_eq!(rebuilt.allocate(), Index { index: 3, generation: 0 });
}

#[test]
fn allocator_exhausted_generation_is_never_reused() {
    let records = vec![AllocatedIndex { is_free: false, generation: usize::MAX }];
    let mut allocator = IndexAllocator::from_parts(vec![], records);
    let last = Index { index: 0, generation: usize::MAX };
    assert!(allocator.is_active(last));
    allocator.deallocate(last);
    assert!(!allocator.is_active(last));
    assert_eq!(allocator.num_free(), 0);
    assert_eq!(allocator.num_active(), 0);
    assert_eq!(allocator.allocate(), Index { index: 1, generation: 0 });
}

#[test]
fn allocator_default_is_empty() {
    let mut allocator: IndexAllocator = Default::default();
    assert_eq!(allocator.num_active(), 0);
    assert_eq!(allocator.num_free(), 0);
    assert_eq!(allocator.allocate(), Index { index: 0, generation: 0 });
}
