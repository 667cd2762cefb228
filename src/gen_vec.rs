//! A vector with reusable indices and one generation for the whole structure.
//!
//! Every removal, and every `clear`, moves the structure to a new
//! generation; a value is stored under the generation current when it is
//! inserted. A removed value's index therefore never names a later value.
use std::collections::VecDeque;
use vstd::prelude::*;

use crate::{count_occupied, emptied, positions, resolve, Index, Item};

verus! {

proof fn lemma_count_occupied_update<T>(s: Seq<Option<Item<T>>>, i: int, x: Option<Item<T>>)
    requires
        0 <= i < s.len(),
    ensures
        count_occupied(s.update(i, x)) + (if s[i] is Some {
            1int
        } else {
            0int
        }) == count_occupied(s) + (if x is Some {
            1int
        } else {
            0int
        }),
    decreases s.len(),
{
    let u = s.update(i, x);
    if i == s.len() - 1 {
        assert(u.drop_last() =~= s.drop_last());
    } else {
        assert(u.drop_last() =~= s.drop_last().update(i, x));
        lemma_count_occupied_update(s.drop_last(), i, x);
    }
}

proof fn lemma_count_occupied_push<T>(s: Seq<Option<Item<T>>>, x: Option<Item<T>>)
    ensures
        count_occupied(s.push(x)) == count_occupied(s) + if x is Some {
            1nat
        } else {
            0nat
        },
{
    assert(s.push(x).drop_last() =~= s);
}

proof fn lemma_count_occupied_bound<T>(s: Seq<Option<Item<T>>>)
    ensures
        count_occupied(s) <= s.len(),
        (exists|i: int| 0 <= i < s.len() && s[i] is None) ==> count_occupied(s) < s.len(),
    decreases s.len(),
{
    if s.len() > 0 {
        lemma_count_occupied_bound(s.drop_last());
        if exists|i: int| 0 <= i < s.len() && s[i] is None {
            let i = choose|i: int| 0 <= i < s.len() && s[i] is None;
            if i < s.len() - 1 {
                assert(s.drop_last()[i] is None);
            }
        }
    }
}

proof fn lemma_count_occupied_none<T>(s: Seq<Option<Item<T>>>)
    requires
        forall|i: int| 0 <= i < s.len() ==> s[i] is None,
    ensures
        count_occupied(s) == 0,
    decreases s.len(),
{
    if s.len() > 0 {
        lemma_count_occupied_none(s.drop_last());
    }
}

/// A vector with reusable indices
#[derive(Debug)]
pub struct GenerationalVec<T> {
    free_indices: VecDeque<usize>,
    items: Vec<Option<Item<T>>>,
    generation: usize,
    length: usize,
}

impl<T> GenerationalVec<T> {
    /// The slots, by position.
    pub closed spec fn slots(&self) -> Seq<Option<Item<T>>> {
        self.items@
    }

    /// The queue of empty positions waiting for reuse, front first.
    pub closed spec fn free_list(&self) -> Seq<usize> {
        self.free_indices@
    }

    /// The generation under which the next value is stored.
    pub closed spec fn generation(&self) -> usize {
        self.generation
    }

    /// The count of held values is kept up to date.
    pub closed spec fn counted(&self) -> bool {
        self.length == count_occupied(self.items@)
    }

    /// The queue holds distinct empty positions, and no value is stored
    /// under a generation newer than the current one.
    pub open spec fn wf(&self) -> bool {
        &&& self.counted()
        &&& self.slots().len() <= usize::MAX
        &&& self.free_list().no_duplicates()
        &&& forall|k: int|
            0 <= k < self.free_list().len() ==> {
                let i = #[trigger] self.free_list()[k] as int;
                &&& i < self.slots().len()
                &&& self.slots()[i] is None
            }
        &&& forall|i: int|
            0 <= i < self.slots().len() && #[trigger] self.slots()[i] is Some
                ==> self.slots()[i]->0.generation <= self.generation()
    }

    /// The value that `index` designates, if any.
    pub open spec fn lookup(&self, index: Index) -> Option<T> {
        resolve(self.slots(), index)
    }

    /// What `insert` does: store under the current generation, at the front
    /// of the queue if there is one, else at a new position.
    pub open spec fn insert_spec(&self, post: &Self, value: T, r: Index) -> bool {
        let item = Item { value, generation: self.generation() };
        &&& post.generation() == self.generation()
        &&& r.generation == self.generation()
        &&& if self.free_list().len() > 0 {
            &&& r.index == self.free_list()[0]
            &&& post.slots() == self.slots().update(r.index as int, Some(item))
            &&& post.free_list() == self.free_list().drop_first()
        } else {
            &&& r.index == self.slots().len()
            &&& post.slots() == self.slots().push(Some(item))
            &&& post.free_list() == self.free_list()
        }
    }

    /// What `remove` does: take out the exact occupant, move to the next
    /// generation and queue the position; once the generation can grow no
    /// more, the position is not queued again.
    pub open spec fn remove_spec(&self, post: &Self, index: Index, r: Option<T>) -> bool {
        &&& r == self.lookup(index)
        &&& if r is Some {
            &&& post.slots() == self.slots().update(index.index as int, None)
            &&& if self.generation() < usize::MAX {
                &&& post.generation() == self.generation() + 1
                &&& post.free_list() == self.free_list().push(index.index)
            } else {
                &&& post.generation() == self.generation()
                &&& post.free_list() == self.free_list()
            }
        } else {
            &&& post.slots() == self.slots()
            &&& post.generation() == self.generation()
            &&& post.free_list() == self.free_list()
        }
    }

    /// Create an empty `GenerationalVec`
    pub fn new() -> (r: GenerationalVec<T>)
        ensures
            r.wf(),
            r.slots() == Seq::<Option<Item<T>>>::empty(),
            r.free_list() == Seq::<usize>::empty(),
            r.generation() == 0,
    {
        GenerationalVec { free_indices: VecDeque::new(), items: Vec::new(), generation: 0, length: 0 }
    }

    /// Create an empty `GenerationalVec` and reserve `capacity`
    pub fn with_capacity(capacity: usize) -> (r: GenerationalVec<T>)
        ensures
            r.wf(),
            r.slots() == Seq::<Option<Item<T>>>::empty(),
            r.free_list() == Seq::<usize>::empty(),
            r.generation() == 0,
    {
        GenerationalVec {
            free_indices: VecDeque::with_capacity(capacity),
            items: Vec::with_capacity(capacity),
            generation: 0,
            length: 0,
        }
    }

    /// Number of values held
    pub fn len(&self) -> (r: usize)
        requires
            self.wf(),
        ensures
            r == count_occupied(self.slots()),
    {
        self.length
    }

    /// Are all values removed
    pub fn is_empty(&self) -> (r: bool)
        requires
            self.wf(),
        ensures
            r == (count_occupied(self.slots()) == 0),
    {
        self.length == 0
    }

    /// Number of empty positions waiting for reuse
    pub fn num_free(&self) -> (r: usize)
        ensures
            r == self.free_list().len(),
    {
        self.free_indices.len()
    }

    /// Reserved capacity of the `GenerationalVec`
    pub fn capacity(&self) -> (r: usize)
        ensures
            r >= self.slots().len(),
    {
        crate::vec_capacity(&self.items)
    }

    /// Removes every value and moves to the next generation
    ///
    /// Every position is queued for reuse and the storage is kept. Once the
    /// generation can grow no more, no position is queued again.
    pub fn clear(&mut self)
        requires
            old(self).wf(),
        ensures
            final(self).wf(),
            final(self).slots() == emptied(old(self).slots()),
            if old(self).generation() < usize::MAX {
                &&& final(self).generation() == old(self).generation() + 1
                &&& final(self).free_list() == positions(0, old(self).slots().len())
            } else {
                &&& final(self).generation() == old(self).generation()
                &&& final(self).free_list() == old(self).free_list()
            },
    {
        let n = self.items.len();
        let mut i: usize = 0;
        while i < n
            invariant
                i <= n == self.items@.len() == old(self).items@.len(),
                forall|j: int| 0 <= j < i ==> self.items@[j] is None,
                forall|j: int| i <= j < n ==> self.items@[j] == old(self).items@[j],
                self.generation == old(self).generation,
                self.free_indices@ == old(self).free_indices@,
            decreases n - i,
        {
            self.items.set(i, None);
            i = i + 1;
        }
        assert(self.items@ =~= emptied(old(self).items@));
        proof {
            lemma_count_occupied_none(self.items@);
        }
        self.length = 0;
        if self.generation < usize::MAX {
            self.free_indices.clear();
            let mut k: usize = 0;
            while k < n
                invariant
                    k <= n == self.items@.len(),
                    self.items@ == emptied(old(self).items@),
                    self.generation == old(self).generation < usize::MAX,
                    self.length == 0,
                    self.free_indices@ == positions(0, k as nat),
                decreases n - k,
            {
                self.free_indices.push_back(k);
                k = k + 1;
                assert(self.free_indices@ =~= positions(0, k as nat));
            }
            self.generation = self.generation + 1;
            assert(self.free_indices@.no_duplicates());
        }
    }

    /// Adds `additional` empty positions and queues them for reuse
    pub fn reserve(&mut self, additional: usize)
        requires
            old(self).wf(),
            old(self).slots().len() + additional <= usize::MAX,
        ensures
            final(self).wf(),
            final(self).slots() == old(self).slots() + Seq::<Option<Item<T>>>::new(
                additional as nat,
                |k: int| None,
            ),
            final(self).free_list() == old(self).free_list() + positions(
                old(self).slots().len() as int,
                additional as nat,
            ),
            final(self).generation() == old(self).generation(),
    {
        self.items.reserve(additional);
        self.free_indices.reserve(additional);
        let start = self.items.len();
        let mut k: usize = 0;
        while k < additional
            invariant
                k <= additional,
                start == old(self).items@.len(),
                start + additional <= usize::MAX,
                self.items@ == old(self).items@ + Seq::<Option<Item<T>>>::new(
                    k as nat,
                    |j: int| None,
                ),
                self.free_indices@ == old(self).free_indices@ + positions(start as int, k as nat),
                self.generation == old(self).generation,
                self.length == count_occupied(self.items@),
                self.free_indices@.no_duplicates(),
                forall|j: int|
                    0 <= j < self.free_indices@.len() ==> {
                        let i = #[trigger] self.free_indices@[j] as int;
                        &&& i < self.items@.len()
                        &&& self.items@[i] is None
                    },
                forall|i: int|
                    0 <= i < self.items@.len() && #[trigger] self.items@[i] is Some
                        ==> self.items@[i]->0.generation <= self.generation,
            decreases additional - k,
        {
            let p = start + k;
            proof {
                lemma_count_occupied_push(self.items@, None);
            }
            self.free_indices.push_back(p);
            self.items.push(None);
            k = k + 1;
            assert(self.items@ =~= old(self).items@ + Seq::<Option<Item<T>>>::new(
                k as nat,
                |j: int| None,
            ));
            assert(self.free_indices@ =~= old(self).free_indices@ + positions(
                start as int,
                k as nat,
            ));
        }
    }

    /// Returns `true` if `index` points to a value
    pub fn contains(&self, index: Index) -> (r: bool)
        ensures
            r == self.lookup(index) is Some,
    {
        self.get(index).is_some()
    }

    /// Insert `value` and return its new `Index`
    pub fn insert(&mut self, value: T) -> (r: Index)
        requires
            old(self).wf(),
        ensures
            final(self).wf(),
            old(self).insert_spec(final(self), value, r),
    {
        proof {
            lemma_count_occupied_bound(self.items@);
        }
        let generation = self.generation;
        match self.free_indices.pop_front() {
            Some(i) => {
                proof {
                    lemma_count_occupied_update(
                        self.items@,
                        i as int,
                        Some(Item { value, generation }),
                    );
                }
                self.items.set(i, Some(Item { value, generation }));
                self.length = self.length + 1;
                assert forall|k: int| 0 <= k < self.free_indices@.len() implies {
                    let j = #[trigger] self.free_indices@[k] as int;
                    &&& j < self.items@.len()
                    &&& self.items@[j] is None
                } by {
                    assert(self.free_indices@[k] == old(self).free_indices@[k + 1]);
                }
                Index { index: i, generation }
            },
            None => {
                proof {
                    lemma_count_occupied_push(self.items@, Some(Item { value, generation }));
                }
                self.items.push(Some(Item { value, generation }));
                let n = self.items.len();
                self.length = self.length + 1;
                Index { index: n - 1, generation }
            },
        }
    }

    /// Get a reference to the value of `index` if `index` is valid
    pub fn get(&self, index: Index) -> (r: Option<&T>)
        ensures
            match r {
                Some(v) => self.lookup(index) == Some(*v),
                None => self.lookup(index) is None,
            },
    {
        if index.index < self.items.len() {
            match &self.items[index.index] {
                Some(item) => if item.generation == index.generation {
                    Some(&item.value)
                } else {
                    None
                },
                None => None,
            }
        } else {
            None
        }
    }

    /// Get a mutable reference to the value of `index` if `index` is valid
    pub fn get_mut(&mut self, index: Index) -> (r: Option<&mut T>)
        requires
            old(self).wf(),
        ensures
            final(self).wf(),
            final(self).free_list() == old(self).free_list(),
            final(self).generation() == old(self).generation(),
            match r {
                Some(v) => {
                    &&& old(self).lookup(index) == Some(*v)
                    &&& final(self).slots() == old(self).slots().update(
                        index.index as int,
                        Some(Item { value: *final(v), generation: index.generation }),
                    )
                },
                None => {
                    &&& old(self).lookup(index) is None
                    &&& final(self).slots() == old(self).slots()
                },
            },
    {
        if index.index < self.items.len() {
            let r = match &mut self.items[index.index] {
                Some(item) => if item.generation == index.generation {
                    Some(&mut item.value)
                } else {
                    None
                },
                None => None,
            };
            assert forall|i: int|
                0 <= i < after_borrow(self.items)@.len() && #[trigger] after_borrow(
                    self.items,
                )@[i] is Some implies after_borrow(self.items)@[i]->0.generation
                <= self.generation by {
                assert(old(self).items@[i] is Some);
            }
            proof {
                let fin = after_borrow(self.items)@;
                assert(fin =~= old(self).items@.update(index.index as int, fin[index.index as int]));
                lemma_count_occupied_update(
                    old(self).items@,
                    index.index as int,
                    fin[index.index as int],
                );
            }
            r
        } else {
            None
        }
    }

    /// Removes and returns the value of `index` if `index` is valid
    pub fn remove(&mut self, index: Index) -> (r: Option<T>)
        requires
            old(self).wf(),
        ensures
            final(self).wf(),
            old(self).remove_spec(final(self), index, r),
    {
        if self.contains(index) {
            let i = index.index;
            proof {
                lemma_count_occupied_update(self.items@, i as int, None);
            }
            let removed = self.items[i].take();
            self.length = self.length - 1;
            if self.generation < usize::MAX {
                self.generation = self.generation + 1;
                assert forall|k: int| 0 <= k < self.free_indices@.len() implies
                    #[trigger] self.free_indices@[k] != i by {}
                self.free_indices.push_back(i);
            }
            match removed {
                Some(item) => Some(item.value),
                None => None,
            }
        } else {
            None
        }
    }
}

/// An inserted value is read back by its new index, which named no value
/// before; every value held before keeps its index, and none of those
/// indices equals the new one.
pub proof fn lemma_insert_unique<T>(
    pre: GenerationalVec<T>,
    post: GenerationalVec<T>,
    value: T,
    r: Index,
)
    requires
        pre.wf(),
        pre.insert_spec(&post, value, r),
    ensures
        pre.lookup(r) is None,
        post.lookup(r) == Some(value),
        forall|h: Index| #[trigger] pre.lookup(h) is Some ==> h != r && post.lookup(h) == pre.lookup(h),
{
    if pre.free_list().len() > 0 {
        let i = pre.free_list()[0] as int;
        assert(i < pre.slots().len() && pre.slots()[i] is None);
    }
}

/// Once a value is removed its index names nothing, and the next insertion,
/// even one that reuses its position, returns a different index and leaves
/// the removed one naming nothing.
pub proof fn lemma_removed_stays_stale<T>(
    s0: GenerationalVec<T>,
    s1: GenerationalVec<T>,
    s2: GenerationalVec<T>,
    h: Index,
    removed: Option<T>,
    value: T,
    r: Index,
)
    requires
        s0.wf(),
        s0.remove_spec(&s1, h, removed),
        removed is Some,
        s1.wf(),
        s1.insert_spec(&s2, value, r),
    ensures
        s1.lookup(h) is None,
        s2.lookup(h) is None,
        r != h,
{
    lemma_reinsert_newer_generation(s0, s1, s2, h, removed, value, r);
    if h.index != r.index {
        assert(crate::slot_at(s2.slots(), h.index as int) == crate::slot_at(
            s1.slots(),
            h.index as int,
        ));
    }
}

/// A removed value's position, when next handed out, comes back under a
/// newer generation.
pub proof fn lemma_reinsert_newer_generation<T>(
    s0: GenerationalVec<T>,
    s1: GenerationalVec<T>,
    s2: GenerationalVec<T>,
    h: Index,
    removed: Option<T>,
    value: T,
    r: Index,
)
    requires
        s0.wf(),
        s0.remove_spec(&s1, h, removed),
        removed is Some,
        s1.wf(),
        s1.insert_spec(&s2, value, r),
    ensures
        r.index == h.index ==> r.generation > h.generation,
{
    assert(s0.slots()[h.index as int] is Some);
    if r.index == h.index && s0.generation() == usize::MAX {
        if s1.free_list().len() > 0 {
            assert(s1.free_list() == s0.free_list());
            assert(s0.slots()[s0.free_list()[0] as int] is None);
        }
    }
}

/// Removing with the same index twice has the effect of removing once; the
/// second removal finds nothing.
pub proof fn lemma_remove_idempotent<T>(
    s0: GenerationalVec<T>,
    s1: GenerationalVec<T>,
    s2: GenerationalVec<T>,
    h: Index,
    r1: Option<T>,
    r2: Option<T>,
)
    requires
        s0.remove_spec(&s1, h, r1),
        s1.remove_spec(&s2, h, r2),
    ensures
        r2 is None,
        s2.slots() == s1.slots(),
        s2.free_list() == s1.free_list(),
        s2.generation() == s1.generation(),
{
}

} // verus!
