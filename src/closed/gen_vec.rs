use vstd::prelude::*;

use crate::exposed::gen_vec::{ExposedGenVec, IntoIter, Iter, IterMut};
use crate::exposed::index_allocator::{
    all_freed, count_active, fresh_records, reclaimed, AllocatedIndex, IndexAllocator,
};
use crate::{emptied, grown, resolve, slot_at, Index, Item};

verus! {

/// The slot agrees with its record: empty when the record is free, and
/// holding a value under the record's generation when it is in use.
pub open spec fn agrees<T>(rec: AllocatedIndex, slot: Option<Item<T>>) -> bool {
    if rec.is_free {
        slot is None
    } else {
        slot is Some && slot->0.generation == rec.generation
    }
}

/// A vector that hands out its own `Index`es
#[derive(Debug)]
pub struct ClosedGenVec<T> {
    allocator: IndexAllocator,
    vec: ExposedGenVec<T>,
}

impl<T> ClosedGenVec<T> {
    /// The allocator that issues this vector's indices.
    pub closed spec fn allocator(&self) -> IndexAllocator {
        self.allocator
    }

    /// The slots, by position.
    pub closed spec fn slots(&self) -> Seq<Option<Item<T>>> {
        self.vec@
    }

    /// The allocator is well formed and every slot agrees with its record.
    pub open spec fn wf(&self) -> bool {
        &&& self.allocator().wf()
        &&& self.slots().len() <= self.allocator().records().len()
        &&& forall|i: int|
            0 <= i < self.allocator().records().len() ==> agrees(
                #[trigger] self.allocator().records()[i],
                slot_at(self.slots(), i),
            )
    }

    /// The value that `index` designates, if any.
    pub open spec fn lookup(&self, index: Index) -> Option<T> {
        resolve(self.slots(), index)
    }

    /// In a well-formed vector an index designates a value exactly when the
    /// allocator holds it active.
    pub proof fn lemma_lookup_active(&self, index: Index)
        requires
            self.wf(),
        ensures
            self.lookup(index) is Some <==> self.allocator().active(index),
    {
        if index.index < self.allocator().records().len() {
            assert(agrees(
                self.allocator().records()[index.index as int],
                slot_at(self.slots(), index.index as int),
            ));
        }
    }

    /// What `insert` does: the allocator hands out an index and `value` is
    /// stored under it.
    pub open spec fn insert_spec(&self, post: &Self, value: T, r: Index) -> bool {
        &&& self.allocator().allocate_spec(&post.allocator(), r)
        &&& post.slots() == grown(self.slots(), r.index + 1).update(
            r.index as int,
            Some(Item { value, generation: r.generation }),
        )
    }

    /// What `remove` does: the exact occupant is taken out and its index
    /// freed; any other index changes nothing.
    pub open spec fn remove_spec(&self, post: &Self, index: Index, r: Option<T>) -> bool {
        &&& r == self.lookup(index)
        &&& self.allocator().deallocate_spec(&post.allocator(), index)
        &&& post.slots() == if r is Some {
            self.slots().update(index.index as int, None)
        } else {
            self.slots()
        }
    }

    /// Returns an empty `ClosedGenVec`
    pub fn new() -> (r: ClosedGenVec<T>)
        ensures
            r.wf(),
            r.allocator().records() == Seq::<AllocatedIndex>::empty(),
            r.allocator().free_list() == Seq::<usize>::empty(),
            r.slots() == Seq::<Option<Item<T>>>::empty(),
    {
        ClosedGenVec { allocator: IndexAllocator::new(), vec: ExposedGenVec::new() }
    }

    /// Returns an empty `ClosedGenVec` with room for `capacity` elements
    pub fn with_capacity(capacity: usize) -> (r: ClosedGenVec<T>)
        ensures
            r.wf(),
            r.allocator().records() == Seq::<AllocatedIndex>::empty(),
            r.allocator().free_list() == Seq::<usize>::empty(),
            r.slots() == Seq::<Option<Item<T>>>::empty(),
    {
        ClosedGenVec {
            allocator: IndexAllocator::with_capacity(capacity),
            vec: ExposedGenVec::with_capacity(capacity),
        }
    }

    /// Number of values held
    pub fn len(&self) -> (r: usize)
        requires
            self.wf(),
        ensures
            r == count_active(self.allocator().records()),
    {
        self.allocator.num_active()
    }

    /// Returns `true` if no value is held
    pub fn is_empty(&self) -> (r: bool)
        requires
            self.wf(),
        ensures
            r == (count_active(self.allocator().records()) == 0),
    {
        self.allocator.num_active() == 0
    }

    /// Reserved capacity within the vec
    pub fn capacity(&self) -> (r: usize)
        ensures
            r >= self.allocator().records().len(),
    {
        self.allocator.capacity()
    }

    /// Adds `additional` free positions for later insertions
    ///
    /// More space may be allocated to avoid frequent re-allocations
    pub fn reserve(&mut self, additional: usize)
        requires
            old(self).wf(),
            old(self).allocator().records().len() + additional <= usize::MAX,
        ensures
            final(self).wf(),
            final(self).allocator().records() == old(self).allocator().records()
                + fresh_records(additional as nat),
            final(self).allocator().free_list() == old(self).allocator().free_list()
                + crate::positions(old(self).allocator().records().len() as int, additional as nat),
            final(self).slots() == old(self).slots(),
    {
        self.allocator.reserve(additional);
        self.vec.reserve(additional);
        assert forall|i: int| 0 <= i < self.allocator.records().len() implies agrees(
            #[trigger] self.allocator.records()[i],
            slot_at(self.vec@, i),
        ) by {
            if i < old(self).allocator.records().len() {
                assert(agrees(old(self).allocator.records()[i], slot_at(old(self).vec@, i)));
            }
        }
    }

    /// Inserts `value` and returns its new `Index`
    ///
    /// The longest-freed position is reused under its next generation;
    /// without one, a new position is opened
    pub fn insert(&mut self, value: T) -> (r: Index)
        requires
            old(self).wf(),
        ensures
            final(self).wf(),
            old(self).insert_spec(final(self), value, r),
    {
        let index = self.allocator.allocate();
        proof {
            if old(self).allocator.free_list().len() > 0 {
                let i = old(self).allocator.free_list()[0] as int;
                assert(crate::exposed::index_allocator::reusable(
                    old(self).allocator.records(),
                    i,
                ));
                assert(agrees(old(self).allocator.records()[i], slot_at(old(self).vec@, i)));
            }
        }
        let displaced = self.vec.set(index, value);
        assert forall|i: int| 0 <= i < self.allocator.records().len() implies agrees(
            #[trigger] self.allocator.records()[i],
            slot_at(self.vec@, i),
        ) by {
            if i != index.index && i < old(self).allocator.records().len() {
                assert(agrees(old(self).allocator.records()[i], slot_at(old(self).vec@, i)));
            }
        }
        index
    }

    /// Returns `true` if `index` points to a value within
    pub fn contains(&self, index: Index) -> (r: bool)
        requires
            self.wf(),
        ensures
            r == self.lookup(index) is Some,
    {
        proof {
            self.lemma_lookup_active(index);
        }
        self.allocator.is_active(index)
    }

    /// Removes and returns the value of `index` if `index` is valid
    ///
    /// Afterwards, the position is queued for reuse
    pub fn remove(&mut self, index: Index) -> (r: Option<T>)
        requires
            old(self).wf(),
        ensures
            final(self).wf(),
            old(self).remove_spec(final(self), index, r),
    {
        proof {
            old(self).lemma_lookup_active(index);
        }
        let removed = self.vec.remove(index);
        self.allocator.deallocate(index);
        assert forall|i: int| 0 <= i < self.allocator.records().len() implies agrees(
            #[trigger] self.allocator.records()[i],
            slot_at(self.vec@, i),
        ) by {
            assert(agrees(old(self).allocator.records()[i], slot_at(old(self).vec@, i)));
        }
        removed
    }

    /// Removes every value and queues every position for reuse
    ///
    /// The storage is kept
    pub fn clear(&mut self)
        requires
            old(self).wf(),
        ensures
            final(self).wf(),
            final(self).allocator().records() == all_freed(old(self).allocator().records()),
            final(self).allocator().free_list() == old(self).allocator().free_list() + reclaimed(
                old(self).allocator().records(),
                old(self).allocator().records().len(),
            ),
            final(self).slots() == emptied(old(self).slots()),
    {
        self.allocator.deallocate_all();
        self.vec.clear();
    }

    /// Returns a reference to the value of `index` if `index` is valid
    pub fn get(&self, index: Index) -> (r: Option<&T>)
        ensures
            match r {
                Some(v) => self.lookup(index) == Some(*v),
                None => self.lookup(index) is None,
            },
    {
        self.vec.get(index)
    }

    /// Returns a mutable reference to the value of `index` if `index` is valid
    pub fn get_mut(&mut self, index: Index) -> (r: Option<&mut T>)
        requires
            old(self).wf(),
        ensures
            final(self).wf(),
            final(self).allocator() == old(self).allocator(),
            match r {
                Some(v) => {
                    &&& old(self).lookup(index) == Some(*v)
                    &&& final(self).slots() == old(self).slots().update(
                        index.index as int,
                        Some(Item { value: *final(v), generation: index.generation }),
                    )
                },
                None => {
                    &&& old(self).lookup(index) is None
                    &&& final(self).slots() == old(self).slots()
                },
            },
    {
        let r = self.vec.get_mut(index);
        assert forall|i: int| 0 <= i < self.allocator.records().len() implies agrees(
            #[trigger] self.allocator.records()[i],
            slot_at(after_borrow(self.vec)@, i),
        ) by {
            assert(agrees(old(self).allocator.records()[i], slot_at(old(self).vec@, i)));
        }
        r
    }

    /// Returns the value of `index`, which must be valid
    pub fn index(&self, index: Index) -> (r: &T)
        requires
            self.lookup(index) is Some,
        ensures
            self.lookup(index) == Some(*r),
    {
        self.vec.index(index)
    }

    /// Returns a mutable reference to the value of `index`, which must be valid
    pub fn index_mut(&mut self, index: Index) -> (r: &mut T)
        requires
            old(self).wf(),
            old(self).lookup(index) is Some,
        ensures
            final(self).wf(),
            final(self).allocator() == old(self).allocator(),
            old(self).lookup(index) == Some(*r),
            final(self).slots() == old(self).slots().update(
                index.index as int,
                Some(Item { value: *final(r), generation: index.generation }),
            ),
    {
        self.vec.index_mut(index)
    }

    /// Returns an iterator over `(Index, &T)` for every value, in ascending
    /// order of position
    pub fn iter(&self) -> (r: Iter<'_, T>)
        ensures
            r.slots() == self.slots(),
            r.pos() == 0,
    {
        self.vec.iter()
    }

    /// Returns an iterator over `(Index, &mut T)` for every value, in
    /// ascending order of position
    pub fn iter_mut(&mut self) -> (r: IterMut<'_, T>)
        ensures
            r.slots() == old(self).slots(),
            r.pos() == 0,
    {
        self.vec.iter_mut()
    }

    /// Consumes the vector into an iterator over `(Index, T)` for every value,
    /// in ascending order of position
    pub fn into_iter(self) -> (r: IntoIter<T>)
        ensures
            r.slots() == self.slots(),
            r.pos() == 0,
    {
        self.vec.into_iter()
    }
}

impl<T> Default for ClosedGenVec<T> {
    /// An empty vector, as `new` makes
    fn default() -> (r: ClosedGenVec<T>)
        ensures
            r.wf(),
            r.allocator().records() == Seq::<AllocatedIndex>::empty(),
            r.allocator().free_list() == Seq::<usize>::empty(),
            r.slots() == Seq::<Option<Item<T>>>::empty(),
    {
        ClosedGenVec::new()
    }
}

/// An inserted value is read back by its new index, which named no value
/// before; every value held before keeps its index, and none of those
/// indices equals the new one.
pub proof fn lemma_insert_unique<T>(pre: ClosedGenVec<T>, post: ClosedGenVec<T>, value: T, r: Index)
    requires
        pre.wf(),
        pre.insert_spec(&post, value, r),
    ensures
        pre.lookup(r) is None,
        post.lookup(r) == Some(value),
        forall|h: Index| #[trigger] pre.lookup(h) is Some ==> h != r && post.lookup(h) == pre.lookup(h),
{
    pre.lemma_lookup_active(r);
    crate::exposed::index_allocator::lemma_allocate_unique(pre.allocator(), post.allocator(), r);
    assert forall|h: Index| #[trigger] pre.lookup(h) is Some implies h != r && post.lookup(h)
        == pre.lookup(h) by {
        pre.lemma_lookup_active(h);
        if h.index == r.index {
            if pre.allocator().free_list().len() > 0 {
                assert(crate::exposed::index_allocator::reusable(
                    pre.allocator().records(),
                    pre.allocator().free_list()[0] as int,
                ));
            }
        }
    }
}

/// Once a value is removed its index names nothing, and the next insertion,
/// even one that reuses its position, returns a different index and leaves
/// the removed one naming nothing.
pub proof fn lemma_removed_stays_stale<T>(
    s0: ClosedGenVec<T>,
    s1: ClosedGenVec<T>,
    s2: ClosedGenVec<T>,
    h: Index,
    removed: Option<T>,
    value: T,
    r: Index,
)
    requires
        s0.wf(),
        s0.remove_spec(&s1, h, removed),
        removed is Some,
        s1.wf(),
        s1.insert_spec(&s2, value, r),
    ensures
        s1.lookup(h) is None,
        s2.lookup(h) is None,
        r != h,
{
    s0.lemma_lookup_active(h);
    s1.lemma_lookup_active(h);
    crate::exposed::index_allocator::lemma_deallocated_stays_stale(
        s0.allocator(),
        s1.allocator(),
        s2.allocator(),
        h,
        r,
    );
    lemma_insert_unique(s1, s2, value, r);
    if h.index != r.index {
        assert(slot_at(s2.slots(), h.index as int) == slot_at(s1.slots(), h.index as int));
    }
}

/// A removed value's position, when next handed out, comes back under the
/// next generation.
pub proof fn lemma_reinsert_next_generation<T>(
    s0: ClosedGenVec<T>,
    s1: ClosedGenVec<T>,
    s2: ClosedGenVec<T>,
    h: Index,
    removed: Option<T>,
    value: T,
    r: Index,
)
    requires
        s0.wf(),
        s0.remove_spec(&s1, h, removed),
        removed is Some,
        s1.wf(),
        s1.insert_spec(&s2, value, r),
        r.index == h.index,
    ensures
        r.generation == h.generation + 1,
{
    s0.lemma_lookup_active(h);
    crate::exposed::index_allocator::lemma_reuse_next_generation(
        s0.allocator(),
        s1.allocator(),
        s2.allocator(),
        h,
        r,
    );
}

/// Removing with the same index twice has the effect of removing once; the
/// second removal finds nothing.
pub proof fn lemma_remove_idempotent<T>(
    s0: ClosedGenVec<T>,
    s1: ClosedGenVec<T>,
    s2: ClosedGenVec<T>,
    h: Index,
    r1: Option<T>,
    r2: Option<T>,
)
    requires
        s0.wf(),
        s0.remove_spec(&s1, h, r1),
        s1.remove_spec(&s2, h, r2),
    ensures
        r2 is None,
        s2.slots() == s1.slots(),
        s2.allocator().records() == s1.allocator().records(),
        s2.allocator().free_list() == s1.allocator().free_list(),
{
    crate::exposed::index_allocator::lemma_deallocate_idempotent(
        s0.allocator(),
        s1.allocator(),
        s2.allocator(),
        h,
    );
    if r1 is Some {
        assert(slot_at(s1.slots(), h.index as int) is None);
    }
}

} // verus!
