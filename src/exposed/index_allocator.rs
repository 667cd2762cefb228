//! Hands out and takes back `Index`es, independently of any storage.
use std::collections::VecDeque;
use vstd::prelude::*;

use crate::Index;

verus! {

/// The record of one slot position: whether it is free, and its generation.
#[derive(Clone, Copy, Debug, PartialEq, Eq, Structural)]
pub struct AllocatedIndex {
    pub is_free: bool,
    pub generation: usize,
}

/// The number of records that are in use.
pub open spec fn count_active(records: Seq<AllocatedIndex>) -> nat
    decreases records.len(),
{
    if records.len() == 0 {
        0
    } else {
        count_active(records.drop_last()) + if records.last().is_free {
            0nat
        } else {
            1nat
        }
    }
}

/// Position `i` is free and its generation can still be increased, so it may
/// be handed out again.
pub open spec fn reusable(records: Seq<AllocatedIndex>, i: int) -> bool {
    &&& 0 <= i < records.len()
    &&& records[i].is_free
    &&& records[i].generation < usize::MAX
}

/// The positions below `n` that freeing every record would queue for reuse,
/// in ascending order: those in use whose generation can still grow.
pub open spec fn reclaimed(records: Seq<AllocatedIndex>, n: nat) -> Seq<usize>
    decreases n,
{
    if n == 0 {
        Seq::empty()
    } else {
        let rest = reclaimed(records, (n - 1) as nat);
        let rec = records[n - 1];
        if !rec.is_free && rec.generation < usize::MAX {
            rest.push((n - 1) as usize)
        } else {
            rest
        }
    }
}

/// `records` with every record marked free, generations kept.
pub open spec fn all_freed(records: Seq<AllocatedIndex>) -> Seq<AllocatedIndex> {
    Seq::new(
        records.len(),
        |j: int| AllocatedIndex { is_free: true, generation: records[j].generation },
    )
}

/// `n` new free records at generation zero.
pub open spec fn fresh_records(n: nat) -> Seq<AllocatedIndex> {
    Seq::new(n, |k: int| AllocatedIndex { is_free: true, generation: 0 })
}

/// `k` is the first position at or after `from` whose record is in use.
pub open spec fn first_active_from(records: Seq<AllocatedIndex>, from: int, k: int) -> bool {
    &&& from <= k < records.len()
    &&& !records[k].is_free
    &&& forall|j: int| from <= j < k ==> records[j].is_free
}

/// The entries of `queue` kept when an allocator is rebuilt over `records`:
/// each reusable position, at its first occurrence, in queue order.
pub open spec fn kept(records: Seq<AllocatedIndex>, queue: Seq<usize>) -> Seq<usize>
    decreases queue.len(),
{
    if queue.len() == 0 {
        Seq::empty()
    } else {
        let rest = kept(records, queue.drop_last());
        let i = queue.last();
        if reusable(records, i as int) && !rest.contains(i) {
            rest.push(i)
        } else {
            rest
        }
    }
}

proof fn lemma_kept_unchanged(records: Seq<AllocatedIndex>, queue: Seq<usize>)
    requires
        queue.no_duplicates(),
        forall|k: int| 0 <= k < queue.len() ==> reusable(records, #[trigger] queue[k] as int),
    ensures
        kept(records, queue) == queue,
    decreases queue.len(),
{
    if queue.len() > 0 {
        let front = queue.drop_last();
        assert forall|k: int| 0 <= k < front.len() implies reusable(
            records,
            #[trigger] front[k] as int,
        ) by {
            assert(front[k] == queue[k]);
        }
        lemma_kept_unchanged(records, front);
        assert(reusable(records, queue[queue.len() - 1] as int));
        if front.contains(queue.last()) {
            let k = choose|k: int| 0 <= k < front.len() && front[k] == queue.last();
            assert(queue[k] == queue[queue.len() - 1]);
        }
        assert(front.push(queue.last()) =~= queue);
    }
}

proof fn lemma_count_active_update(s: Seq<AllocatedIndex>, i: int, x: AllocatedIndex)
    requires
        0 <= i < s.len(),
    ensures
        count_active(s.update(i, x)) + (if s[i].is_free {
            0int
        } else {
            1int
        }) == count_active(s) + (if x.is_free {
            0int
        } else {
            1int
        }),
    decreases s.len(),
{
    let u = s.update(i, x);
    if i == s.len() - 1 {
        assert(u.drop_last() =~= s.drop_last());
    } else {
        assert(u.drop_last() =~= s.drop_last().update(i, x));
        lemma_count_active_update(s.drop_last(), i, x);
    }
}

proof fn lemma_count_active_push(s: Seq<AllocatedIndex>, x: AllocatedIndex)
    ensures
        count_active(s.push(x)) == count_active(s) + if x.is_free {
            0nat
        } else {
            1nat
        },
{
    assert(s.push(x).drop_last() =~= s);
}

proof fn lemma_count_active_bound(s: Seq<AllocatedIndex>)
    ensures
        count_active(s) <= s.len(),
        (exists|i: int| 0 <= i < s.len() && s[i].is_free) ==> count_active(s) < s.len(),
    decreases s.len(),
{
    if s.len() > 0 {
        lemma_count_active_bound(s.drop_last());
        if exists|i: int| 0 <= i < s.len() && s[i].is_free {
            let i = choose|i: int| 0 <= i < s.len() && s[i].is_free;
            if i < s.len() - 1 {
                assert(s.drop_last()[i].is_free);
            }
        }
    }
}

proof fn lemma_count_active_all_free(s: Seq<AllocatedIndex>)
    requires
        forall|i: int| 0 <= i < s.len() ==> s[i].is_free,
    ensures
        count_active(s) == 0,
    decreases s.len(),
{
    if s.len() > 0 {
        lemma_count_active_all_free(s.drop_last());
    }
}

proof fn lemma_reclaimed(records: Seq<AllocatedIndex>, n: nat)
    requires
        n <= records.len() <= usize::MAX,
    ensures
        forall|k: int|
            0 <= k < reclaimed(records, n).len() ==> {
                let i = #[trigger] reclaimed(records, n)[k];
                &&& i < n
                &&& !records[i as int].is_free
                &&& records[i as int].generation < usize::MAX
            },
        reclaimed(records, n).no_duplicates(),
    decreases n,
{
    if n > 0 {
        let rest = reclaimed(records, (n - 1) as nat);
        lemma_reclaimed(records, (n - 1) as nat);
        let all = reclaimed(records, n);
        assert forall|k: int| 0 <= k < all.len() implies {
            let i = #[trigger] all[k];
            &&& i < n
            &&& !records[i as int].is_free
            &&& records[i as int].generation < usize::MAX
        } by {
            if k < rest.len() {
                assert(all[k] == rest[k]);
            }
        }
        assert forall|a: int, b: int| 0 <= a < all.len() && 0 <= b < all.len() && a != b
            implies all[a] != all[b] by {
            if a < rest.len() && b < rest.len() {
                assert(all[a] == rest[a] && all[b] == rest[b]);
            } else if a < rest.len() {
                assert(all[a] == rest[a]);
            } else if b < rest.len() {
                assert(all[b] == rest[b]);
            }
        }
    }
}

/// Allocates and frees `Index`es for `ExposedGenVec`s.
///
/// Every position ever used keeps a record. A freed position waits in a
/// first-in first-out queue and, when handed out again, gets the next
/// generation. A position whose generation has reached `usize::MAX` is never
/// queued again, so no two handles for it can ever be equal.
#[derive(Debug)]
pub struct IndexAllocator {
    free_indices: VecDeque<usize>,
    slots: Vec<AllocatedIndex>,
    active: usize,
}

impl IndexAllocator {
    /// The record of every position ever used, by position.
    pub closed spec fn records(&self) -> Seq<AllocatedIndex> {
        self.slots@
    }

    /// The queue of positions waiting to be handed out again, front first.
    pub closed spec fn free_list(&self) -> Seq<usize> {
        self.free_indices@
    }

    /// The count of records in use is kept up to date.
    pub closed spec fn counted(&self) -> bool {
        self.active == count_active(self.slots@)
    }

    /// The queue holds distinct positions, each free and reusable.
    pub open spec fn wf(&self) -> bool {
        &&& self.counted()
        &&& self.records().len() <= usize::MAX
        &&& self.free_list().no_duplicates()
        &&& forall|k: int|
            0 <= k < self.free_list().len() ==> reusable(
                self.records(),
                #[trigger] self.free_list()[k] as int,
            )
    }

    /// `index` names a position in use under exactly its generation.
    pub open spec fn active(&self, index: Index) -> bool {
        &&& index.index < self.records().len()
        &&& !self.records()[index.index as int].is_free
        &&& self.records()[index.index as int].generation == index.generation
    }

    /// What `allocate` does: reuse the front of the queue under the next
    /// generation, or else open a new position at generation zero.
    pub open spec fn allocate_spec(&self, post: &Self, r: Index) -> bool {
        if self.free_list().len() > 0 {
            let i = self.free_list()[0];
            let generation = self.records()[i as int].generation + 1;
            &&& r.index == i
            &&& r.generation == generation
            &&& post.records() == self.records().update(
                i as int,
                AllocatedIndex { is_free: false, generation: generation as usize },
            )
            &&& post.free_list() == self.free_list().drop_first()
        } else {
            &&& r.index == self.records().len()
            &&& r.generation == 0
            &&& post.records() == self.records().push(
                AllocatedIndex { is_free: false, generation: 0 },
            )
            &&& post.free_list() == self.free_list()
        }
    }

    /// What `deallocate` does: an active `index` is marked free and queued
    /// (unless its generation is exhausted); anything else changes nothing.
    pub open spec fn deallocate_spec(&self, post: &Self, index: Index) -> bool {
        if self.active(index) {
            &&& post.records() == self.records().update(
                index.index as int,
                AllocatedIndex { is_free: true, generation: index.generation },
            )
            &&& post.free_list() == if index.generation < usize::MAX {
                self.free_list().push(index.index)
            } else {
                self.free_list()
            }
        } else {
            &&& post.records() == self.records()
            &&& post.free_list() == self.free_list()
        }
    }

    /// Returns a new empty `IndexAllocator`
    pub fn new() -> (r: IndexAllocator)
        ensures
            r.wf(),
            r.records() == Seq::<AllocatedIndex>::empty(),
            r.free_list() == Seq::<usize>::empty(),
    {
        IndexAllocator { free_indices: VecDeque::new(), slots: Vec::new(), active: 0 }
    }

    /// Returns an empty `IndexAllocator` with room for `capacity` positions
    pub fn with_capacity(capacity: usize) -> (r: IndexAllocator)
        ensures
            r.wf(),
            r.records() == Seq::<AllocatedIndex>::empty(),
            r.free_list() == Seq::<usize>::empty(),
    {
        IndexAllocator {
            free_indices: VecDeque::with_capacity(capacity),
            slots: Vec::with_capacity(capacity),
            active: 0,
        }
    }

    /// Allocates and returns a new `Index`
    ///
    /// Reuses the longest-waiting freed position if there is one, otherwise
    /// opens a new position
    pub fn allocate(&mut self) -> (r: Index)
        requires
            old(self).wf(),
        ensures
            final(self).wf(),
            old(self).allocate_spec(final(self), r),
    {
        proof {
            lemma_count_active_bound(self.slots@);
        }
        match self.free_indices.pop_front() {
            Some(i) => {
                assert(reusable(self.slots@, old(self).free_indices@[0] as int));
                let generation = self.slots[i].generation + 1;
                proof {
                    lemma_count_active_update(
                        self.slots@,
                        i as int,
                        AllocatedIndex { is_free: false, generation },
                    );
                }
                self.slots.set(i, AllocatedIndex { is_free: false, generation });
                self.active = self.active + 1;
                assert forall|k: int| 0 <= k < self.free_indices@.len() implies reusable(
                    self.slots@,
                    #[trigger] self.free_indices@[k] as int,
                ) by {
                    assert(self.free_indices@[k] == old(self).free_indices@[k + 1]);
                    assert(reusable(old(self).slots@, old(self).free_indices@[k + 1] as int));
                }
                Index { index: i, generation }
            },
            None => {
                proof {
                    lemma_count_active_push(
                        self.slots@,
                        AllocatedIndex { is_free: false, generation: 0 },
                    );
                }
                self.slots.push(AllocatedIndex { is_free: false, generation: 0 });
                let n = self.slots.len();
                self.active = self.active + 1;
                assert forall|k: int| 0 <= k < self.free_indices@.len() implies reusable(
                    self.slots@,
                    #[trigger] self.free_indices@[k] as int,
                ) by {
                    assert(reusable(old(self).slots@, old(self).free_indices@[k] as int));
                }
                Index { index: n - 1, generation: 0 }
            },
        }
    }

    /// Frees `index` if it is active; otherwise does nothing
    ///
    /// Afterwards, the position is queued for reuse
    pub fn deallocate(&mut self, index: Index)
        requires
            old(self).wf(),
        ensures
            final(self).wf(),
            old(self).deallocate_spec(final(self), index),
    {
        if self.is_active(index) {
            let i = index.index;
            let generation = index.generation;
            proof {
                lemma_count_active_update(
                    self.slots@,
                    i as int,
                    AllocatedIndex { is_free: true, generation },
                );
                lemma_count_active_bound(self.slots@);
            }
            self.slots.set(i, AllocatedIndex { is_free: true, generation });
            self.active = self.active - 1;
            if generation < usize::MAX {
                self.free_indices.push_back(i);
            }
            assert forall|k: int| 0 <= k < self.free_indices@.len() implies reusable(
                self.slots@,
                #[trigger] self.free_indices@[k] as int,
            ) by {
                if k < old(self).free_indices@.len() {
                    assert(reusable(old(self).slots@, old(self).free_indices@[k] as int));
                }
            }
            assert(self.free_indices@.no_duplicates()) by {
                if generation < usize::MAX {
                    assert forall|k: int| 0 <= k < old(self).free_indices@.len() implies
                        #[trigger] old(self).free_indices@[k] != i by {
                        assert(reusable(old(self).slots@, old(self).free_indices@[k] as int));
                    }
                }
            }
        }
    }

    /// Frees every active index and queues each for reuse, in ascending order
    /// of position
    ///
    /// Generations are left as they are; they grow when a position is
    /// handed out again
    pub fn deallocate_all(&mut self)
        requires
            old(self).wf(),
        ensures
            final(self).wf(),
            final(self).records() == all_freed(old(self).records()),
            final(self).free_list() == old(self).free_list() + reclaimed(
                old(self).records(),
                old(self).records().len(),
            ),
    {
        let n = self.slots.len();
        let mut i: usize = 0;
        while i < n
            invariant
                i <= n == self.slots@.len() == old(self).slots@.len(),
                forall|j: int|
                    0 <= j < i ==> #[trigger] self.slots@[j] == (AllocatedIndex {
                        is_free: true,
                        generation: old(self).slots@[j].generation,
                    }),
                forall|j: int| i <= j < n ==> #[trigger] self.slots@[j] == old(self).slots@[j],
                self.free_indices@ == old(self).free_indices@ + reclaimed(
                    old(self).slots@,
                    i as nat,
                ),
                self.free_indices@.no_duplicates(),
                forall|k: int|
                    0 <= k < self.free_indices@.len() ==> reusable(
                        self.slots@,
                        #[trigger] self.free_indices@[k] as int,
                    ),
                old(self).wf(),
            decreases n - i,
        {
            let rec = self.slots[i];
            proof {
                lemma_reclaimed(old(self).slots@, i as nat);
            }
            if !rec.is_free {
                self.slots.set(i, AllocatedIndex { is_free: true, generation: rec.generation });
                if rec.generation < usize::MAX {
                    assert forall|k: int| 0 <= k < self.free_indices@.len() implies
                        #[trigger] self.free_indices@[k] != i by {
                        if k < old(self).free_indices@.len() {
                            assert(reusable(old(self).slots@, old(self).free_indices@[k] as int));
                        } else {
                            let m = k - old(self).free_indices@.len();
                            assert(self.free_indices@[k] == reclaimed(old(self).slots@, i as nat)[m]);
                        }
                    }
                    self.free_indices.push_back(i);
                }
            }
            assert(reclaimed(old(self).slots@, (i + 1) as nat) == if !rec.is_free
                && rec.generation < usize::MAX {
                reclaimed(old(self).slots@, i as nat).push(i)
            } else {
                reclaimed(old(self).slots@, i as nat)
            });
            assert forall|k: int| 0 <= k < self.free_indices@.len() implies reusable(
                self.slots@,
                #[trigger] self.free_indices@[k] as int,
            ) by {
                let p = self.free_indices@[k] as int;
                if p != i {
                    assert(self.slots@[p].is_free);
                }
            }
            i = i + 1;
        }
        self.active = 0;
        proof {
            assert(self.slots@ =~= all_freed(old(self).slots@));
            lemma_count_active_all_free(self.slots@);
        }
    }

    /// Reserved capacity within the `IndexAllocator`
    pub fn capacity(&self) -> (r: usize)
        ensures
            r >= self.records().len(),
    {
        crate::vec_capacity(&self.slots)
    }

    /// Adds `additional` fresh free positions and queues them for reuse
    ///
    /// More space may be allocated to avoid frequent re-allocations
    pub fn reserve(&mut self, additional: usize)
        requires
            old(self).wf(),
            old(self).records().len() + additional <= usize::MAX,
        ensures
            final(self).wf(),
            final(self).records() == old(self).records() + fresh_records(additional as nat),
            final(self).free_list() == old(self).free_list() + crate::positions(
                old(self).records().len() as int,
                additional as nat,
            ),
    {
        self.slots.reserve(additional);
        self.free_indices.reserve(additional);
        let start = self.slots.len();
        let mut k: usize = 0;
        while k < additional
            invariant
                k <= additional,
                start == old(self).slots@.len(),
                start + additional <= usize::MAX,
                self.slots@ == old(self).slots@ + fresh_records(k as nat),
                self.free_indices@ == old(self).free_indices@ + crate::positions(
                    start as int,
                    k as nat,
                ),
                self.active == count_active(self.slots@),
                self.free_indices@.no_duplicates(),
                forall|j: int|
                    0 <= j < self.free_indices@.len() ==> reusable(
                        self.slots@,
                        #[trigger] self.free_indices@[j] as int,
                    ),
            decreases additional - k,
        {
            let p = start + k;
            assert forall|j: int| 0 <= j < self.free_indices@.len() implies
                #[trigger] self.free_indices@[j] != p by {
                assert(reusable(self.slots@, self.free_indices@[j] as int));
            }
            proof {
                lemma_count_active_push(self.slots@, AllocatedIndex { is_free: true, generation: 0 });
            }
            self.free_indices.push_back(p);
            self.slots.push(AllocatedIndex { is_free: true, generation: 0 });
            k = k + 1;
            assert(self.slots@ =~= old(self).slots@ + fresh_records(k as nat));
            assert(self.free_indices@ =~= old(self).free_indices@ + crate::positions(
                start as int,
                k as nat,
            ));
        }
    }

    /// Returns whether `index` is still active and hasn't been deallocated
    pub fn is_active(&self, index: Index) -> (r: bool)
        ensures
            r == self.active(index),
    {
        if index.index < self.slots.len() {
            let rec = self.slots[index.index];
            rec.generation == index.generation && !rec.is_free
        } else {
            false
        }
    }

    /// Returns the number of free indices waiting to be allocated and reused
    pub fn num_free(&self) -> (r: usize)
        ensures
            r == self.free_list().len(),
    {
        self.free_indices.len()
    }

    /// Returns the number of active indices
    pub fn num_active(&self) -> (r: usize)
        requires
            self.wf(),
        ensures
            r == count_active(self.records()),
    {
        self.active
    }

    /// Returns the queue of free positions, front first, and the records of
    /// every position, as they stand
    pub fn to_parts(&self) -> (r: (Vec<usize>, Vec<AllocatedIndex>))
        ensures
            r.0@ == self.free_list(),
            r.1@ == self.records(),
    {
        let mut queue: Vec<usize> = Vec::with_capacity(self.free_indices.len());
        let mut k: usize = 0;
        while k < self.free_indices.len()
            invariant
                k <= self.free_indices@.len(),
                queue@ == self.free_indices@.take(k as int),
            decreases self.free_indices@.len() - k,
        {
            queue.push(self.free_indices[k]);
            k = k + 1;
            assert(queue@ =~= self.free_indices@.take(k as int));
        }
        assert(queue@ =~= self.free_indices@);
        let mut records: Vec<AllocatedIndex> = Vec::with_capacity(self.slots.len());
        let mut j: usize = 0;
        while j < self.slots.len()
            invariant
                j <= self.slots@.len(),
                records@ == self.slots@.take(j as int),
            decreases self.slots@.len() - j,
        {
            records.push(self.slots[j]);
            j = j + 1;
            assert(records@ =~= self.slots@.take(j as int));
        }
        assert(records@ =~= self.slots@);
        (queue, records)
    }

    /// Rebuilds an allocator from a queue of free positions and the records
    /// of every position, such as `to_parts` returns
    ///
    /// The records are taken as they are. Queue entries that name no free,
    /// reusable position, and repeated entries, are dropped
    pub fn from_parts(free_indices: Vec<usize>, records: Vec<AllocatedIndex>) -> (r: IndexAllocator)
        ensures
            r.wf(),
            r.records() == records@,
            r.free_list() == kept(records@, free_indices@),
    {
        let n = records.len();
        let mut queued: Vec<bool> = Vec::with_capacity(n);
        while queued.len() < n
            invariant
                queued@.len() <= n,
                forall|p: int| 0 <= p < queued@.len() ==> !queued@[p],
            decreases n - queued@.len(),
        {
            queued.push(false);
        }
        let mut queue: VecDeque<usize> = VecDeque::with_capacity(free_indices.len());
        let mut k: usize = 0;
        while k < free_indices.len()
            invariant
                k <= free_indices@.len(),
                n == records@.len(),
                queued@.len() == n,
                queue@ == kept(records@, free_indices@.take(k as int)),
                queue@.no_duplicates(),
                forall|j: int|
                    0 <= j < queue@.len() ==> reusable(records@, #[trigger] queue@[j] as int),
                forall|p: int| 0 <= p < n ==> (#[trigger] queued@[p] <==> queue@.contains(p as usize)),
            decreases free_indices@.len() - k,
        {
            let p = free_indices[k];
            assert(free_indices@.take(k + 1).drop_last() =~= free_indices@.take(k as int));
            if p < n && records[p].is_free && records[p].generation < usize::MAX && !queued[p] {
                let ghost prev = queue@;
                let ghost marks = queued@;
                queued.set(p, true);
                queue.push_back(p);
                assert forall|q: int| 0 <= q < n implies (#[trigger] queued@[q]
                    <==> queue@.contains(q as usize)) by {
                    assert(marks[q] <==> prev.contains(q as usize));
                    if prev.contains(q as usize) {
                        let j = choose|j: int| 0 <= j < prev.len() && prev[j] == q as usize;
                        assert(queue@[j] == q as usize);
                    }
                    if queue@.contains(q as usize) {
                        let j = choose|j: int| 0 <= j < queue@.len() && queue@[j] == q as usize;
                        if j < prev.len() {
                            assert(prev[j] == q as usize);
                        }
                    }
                    if q == p {
                        assert(queue@[prev.len() as int] == p);
                    }
                }
            } else {
                if p < n {
                    assert(queued@[p as int] ==> queue@.contains(p));
                }
            }
            k = k + 1;
        }
        assert(free_indices@.take(k as int) =~= free_indices@);
        let mut active: usize = 0;
        let mut i: usize = 0;
        while i < n
            invariant
                i <= n == records@.len(),
                active == count_active(records@.take(i as int)),
                active <= i,
            decreases n - i,
        {
            assert(records@.take(i + 1).drop_last() =~= records@.take(i as int));
            if !records[i].is_free {
                active = active + 1;
            }
            i = i + 1;
        }
        assert(records@.take(n as int) =~= records@);
        IndexAllocator { free_indices: queue, slots: records, active }
    }

    /// Returns an iterator over the active indices, in ascending order of
    /// position
    pub fn iter(&self) -> (r: Iter<'_>)
        ensures
            r.records() == self.records(),
            r.pos() == 0,
    {
        Iter { slots: &self.slots, pos: 0 }
    }

    /// Consumes the allocator into an iterator over its active indices, in
    /// ascending order of position
    pub fn into_iter(self) -> (r: IntoIter)
        ensures
            r.records() == self.records(),
            r.pos() == 0,
    {
        IntoIter { slots: self.slots, pos: 0 }
    }
}

/// A freshly allocated index was not active before, is active after, and
/// differs from every index that was already active, which all stay active.
pub proof fn lemma_allocate_unique(pre: IndexAllocator, post: IndexAllocator, r: Index)
    requires
        pre.wf(),
        pre.allocate_spec(&post, r),
    ensures
        !pre.active(r),
        post.active(r),
        forall|h: Index| pre.active(h) ==> h != r && post.active(h),
{
    if pre.free_list().len() > 0 {
        assert(reusable(pre.records(), pre.free_list()[0] as int));
    }
}

/// Once an active index is freed it is no longer active, and the next
/// allocation, even one that reuses its position, returns a different index
/// and leaves the freed one inactive.
pub proof fn lemma_deallocated_stays_stale(
    s0: IndexAllocator,
    s1: IndexAllocator,
    s2: IndexAllocator,
    h: Index,
    r: Index,
)
    requires
        s0.wf(),
        s0.active(h),
        s0.deallocate_spec(&s1, h),
        s1.wf(),
        s1.allocate_spec(&s2, r),
    ensures
        !s1.active(h),
        !s2.active(h),
        r != h,
{
    lemma_allocate_unique(s1, s2, r);
    if s1.free_list().len() > 0 {
        assert(reusable(s1.records(), s1.free_list()[0] as int));
    }
}

/// Freeing an active index and then handing its position out again yields
/// the same position under the next generation.
pub proof fn lemma_reuse_next_generation(
    s0: IndexAllocator,
    s1: IndexAllocator,
    s2: IndexAllocator,
    h: Index,
    r: Index,
)
    requires
        s0.wf(),
        s0.active(h),
        s0.deallocate_spec(&s1, h),
        s1.wf(),
        s1.allocate_spec(&s2, r),
        r.index == h.index,
    ensures
        r.generation == h.generation + 1,
{
}

/// Freeing the same index twice has the effect of freeing it once.
pub proof fn lemma_deallocate_idempotent(
    s0: IndexAllocator,
    s1: IndexAllocator,
    s2: IndexAllocator,
    h: Index,
)
    requires
        s0.wf(),
        s0.deallocate_spec(&s1, h),
        s1.deallocate_spec(&s2, h),
    ensures
        s2.records() == s1.records(),
        s2.free_list() == s1.free_list(),
{
}

/// Taking an allocator apart and rebuilding it gives back the same records
/// and the same queue.
pub proof fn lemma_parts_round_trip(
    a: IndexAllocator,
    free_indices: Seq<usize>,
    records: Seq<AllocatedIndex>,
    b: IndexAllocator,
)
    requires
        a.wf(),
        free_indices == a.free_list(),
        records == a.records(),
        b.records() == records,
        b.free_list() == kept(records, free_indices),
    ensures
        b.records() == a.records(),
        b.free_list() == a.free_list(),
{
    lemma_kept_unchanged(a.records(), a.free_list());
}

impl Default for IndexAllocator {
    /// An empty allocator, as `new` makes
    fn default() -> (r: IndexAllocator)
        ensures
            r.wf(),
            r.records() == Seq::<AllocatedIndex>::empty(),
            r.free_list() == Seq::<usize>::empty(),
    {
        IndexAllocator::new()
    }
}

/// Iterator over the active indices of a borrowed `IndexAllocator`
#[derive(Debug)]
pub struct Iter<'a> {
    slots: &'a Vec<AllocatedIndex>,
    pos: usize,
}

impl<'a> Iter<'a> {
    /// The records being walked.
    pub closed spec fn records(&self) -> Seq<AllocatedIndex> {
        self.slots@
    }

    /// The position at which the walk resumes.
    pub closed spec fn pos(&self) -> int {
        self.pos as int
    }

    /// Returns the next active index at or after the current position
    pub fn next(&mut self) -> (r: Option<Index>)
        ensures
            final(self).records() == old(self).records(),
            match r {
                Some(index) => {
                    &&& first_active_from(old(self).records(), old(self).pos(), index.index as int)
                    &&& index.generation == old(self).records()[index.index as int].generation
                    &&& final(self).pos() == index.index + 1
                },
                None => {
                    &&& forall|j: int|
                        old(self).pos() <= j < old(self).records().len()
                            ==> old(self).records()[j].is_free
                    &&& final(self).pos() >= old(self).records().len()
                },
            },
    {
        let start = self.pos;
        while self.pos < self.slots.len()
            invariant_except_break
                start == old(self).pos,
                self.slots@ == old(self).slots@,
                start <= self.pos,
                forall|j: int| start <= j < self.pos ==> self.slots@[j].is_free,
            ensures
                start == old(self).pos,
                self.slots@ == old(self).slots@,
                start <= self.pos,
                forall|j: int| start <= j < self.pos ==> self.slots@[j].is_free,
                self.pos >= self.slots@.len() || !self.slots@[self.pos as int].is_free,
            decreases self.slots@.len() - self.pos,
        {
            if !self.slots[self.pos].is_free {
                break;
            }
            self.pos = self.pos + 1;
        }
        if self.pos < self.slots.len() {
            let index = Index { index: self.pos, generation: self.slots[self.pos].generation };
            self.pos = self.pos + 1;
            Some(index)
        } else {
            None
        }
    }
}

/// Iterator over the active indices of a consumed `IndexAllocator`
#[derive(Debug)]
pub struct IntoIter {
    slots: Vec<AllocatedIndex>,
    pos: usize,
}

impl IntoIter {
    /// The records being walked.
    pub closed spec fn records(&self) -> Seq<AllocatedIndex> {
        self.slots@
    }

    /// The position at which the walk resumes.
    pub closed spec fn pos(&self) -> int {
        self.pos as int
    }

    /// Returns the next active index at or after the current position
    pub fn next(&mut self) -> (r: Option<Index>)
        ensures
            final(self).records() == old(self).records(),
            match r {
                Some(index) => {
                    &&& first_active_from(old(self).records(), old(self).pos(), index.index as int)
                    &&& index.generation == old(self).records()[index.index as int].generation
                    &&& final(self).pos() == index.index + 1
                },
                None => {
                    &&& forall|j: int|
                        old(self).pos() <= j < old(self).records().len()
                            ==> old(self).records()[j].is_free
                    &&& final(self).pos() >= old(self).records().len()
                },
            },
    {
        let start = self.pos;
        while self.pos < self.slots.len()
            invariant_except_break
                start == old(self).pos,
                self.slots@ == old(self).slots@,
                start <= self.pos,
                forall|j: int| start <= j < self.pos ==> self.slots@[j].is_free,
            ensures
                start == old(self).pos,
                self.slots@ == old(self).slots@,
                start <= self.pos,
                forall|j: int| start <= j < self.pos ==> self.slots@[j].is_free,
                self.pos >= self.slots@.len() || !self.slots@[self.pos as int].is_free,
            decreases self.slots@.len() - self.pos,
        {
            if !self.slots[self.pos].is_free {
                break;
            }
            self.pos = self.pos + 1;
        }
        if self.pos < self.slots.len() {
            let index = Index { index: self.pos, generation: self.slots[self.pos].generation };
            self.pos = self.pos + 1;
            Some(index)
        } else {
            None
        }
    }
}

} // verus!
