//! A vector addressed by `Index`es that an outside allocator hands out.
use vstd::prelude::*;

use crate::{emptied, grown, resolve, slot_at, Index, Item};

verus! {

/// `k` is the first position at or after `from` that holds a value.
pub open spec fn first_occupied_from<T>(slots: Seq<Option<Item<T>>>, from: int, k: int) -> bool {
    &&& from <= k < slots.len()
    &&& slots[k] is Some
    &&& forall|j: int| from <= j < k ==> slots[j] is None
}

/// No position at or after `from` holds a value.
pub open spec fn none_from<T>(slots: Seq<Option<Item<T>>>, from: int) -> bool {
    forall|j: int| from <= j < slots.len() ==> slots[j] is None
}

/// Generationally indexed vector
///
/// Holds no allocator of its own: the `Index`es come from an
/// `IndexAllocator` that the caller owns and may share between vectors.
#[derive(Debug)]
pub struct ExposedGenVec<T> {
    items: Vec<Option<Item<T>>>,
}

impl<T> View for ExposedGenVec<T> {
    type V = Seq<Option<Item<T>>>;

    closed spec fn view(&self) -> Seq<Option<Item<T>>> {
        self.items@
    }
}

impl<T> ExposedGenVec<T> {
    /// What `set` does: a write under a generation older than the one held
    /// at the position is ignored; any other write stores `value` under
    /// `index.generation`, growing the vector with empty slots as needed,
    /// and hands back the value it displaced.
    pub open spec fn set_spec(&self, post: &Self, index: Index, value: T, r: Option<T>) -> bool {
        let i = index.index as int;
        let held = slot_at(self@, i);
        if held is Some && held->0.generation > index.generation {
            &&& post@ == self@
            &&& r is None
        } else {
            &&& post@ == grown(self@, i + 1).update(
                i,
                Some(Item { value, generation: index.generation }),
            )
            &&& r == match held {
                Some(item) => Some(item.value),
                None => None,
            }
        }
    }

    /// What `remove` does: only the exact current occupant is taken out.
    pub open spec fn remove_spec(&self, post: &Self, index: Index, r: Option<T>) -> bool {
        match resolve(self@, index) {
            Some(v) => {
                &&& post@ == self@.update(index.index as int, None)
                &&& r == Some(v)
            },
            None => {
                &&& post@ == self@
                &&& r is None
            },
        }
    }

    /// Returns an empty `ExposedGenVec`
    pub fn new() -> (r: ExposedGenVec<T>)
        ensures
            r@ == Seq::<Option<Item<T>>>::empty(),
    {
        ExposedGenVec { items: Vec::new() }
    }

    /// Returns an empty `ExposedGenVec` with room for `capacity` elements
    pub fn with_capacity(capacity: usize) -> (r: ExposedGenVec<T>)
        ensures
            r@ == Seq::<Option<Item<T>>>::empty(),
    {
        ExposedGenVec { items: Vec::with_capacity(capacity) }
    }

    /// Reserved capacity within the `ExposedGenVec`
    pub fn capacity(&self) -> (r: usize)
        ensures
            r >= self@.len(),
    {
        crate::vec_capacity(&self.items)
    }

    /// Reserves extra space for *at least* `additional` more elements
    pub fn reserve(&mut self, additional: usize)
        ensures
            final(self)@ == old(self)@,
    {
        self.items.reserve(additional)
    }

    /// Returns `true` if `index` points to a value
    pub fn contains(&self, index: Index) -> (r: bool)
        ensures
            r == resolve(self@, index) is Some,
    {
        self.get(index).is_some()
    }

    /// Sets the value for `index` and returns the value it displaced (if any)
    ///
    /// This may overwrite past (but not future) generations
    pub fn set(&mut self, index: Index, value: T) -> (r: Option<T>)
        requires
            index.index < usize::MAX,
        ensures
            old(self).set_spec(final(self), index, value, r),
    {
        let i = index.index;
        while self.items.len() <= i
            invariant
                i < usize::MAX,
                old(self).items@.len() <= self.items@.len(),
                self.items@.len() <= old(self).items@.len() || self.items@.len() <= i + 1,
                self.items@ == grown(old(self).items@, self.items@.len() as int),
            decreases i + 1 - self.items@.len(),
        {
            self.items.push(None);
            assert(self.items@ =~= grown(old(self).items@, self.items@.len() as int));
        }
        assert(self.items@ =~= grown(old(self).items@, i + 1));
        let rejected = match &self.items[i] {
            Some(item) => item.generation > index.generation,
            None => false,
        };
        if rejected {
            None
        } else {
            let held = self.items[i].take();
            let ghost grown_slots = grown(old(self).items@, i + 1);
            self.items.set(i, Some(Item { value, generation: index.generation }));
            assert(self.items@ =~= grown_slots.update(
                i as int,
                Some(Item { value, generation: index.generation }),
            ));
            match held {
                Some(item) => Some(item.value),
                None => None,
            }
        }
    }

    /// Removes the value of `index` if `index` names it exactly
    pub fn remove(&mut self, index: Index) -> (r: Option<T>)
        ensures
            old(self).remove_spec(final(self), index, r),
    {
        if self.contains(index) {
            match self.items[index.index].take() {
                Some(item) => Some(item.value),
                None => None,
            }
        } else {
            None
        }
    }

    /// Returns a reference to the value of `index` if `index` is valid
    pub fn get(&self, index: Index) -> (r: Option<&T>)
        ensures
            match r {
                Some(v) => resolve(self@, index) == Some(*v),
                None => resolve(self@, index) is None,
            },
    {
        if index.index < self.items.len() {
            match &self.items[index.index] {
                Some(item) => if item.generation == index.generation {
                    Some(&item.value)
                } else {
                    None
                },
                None => None,
            }
        } else {
            None
        }
    }

    /// Returns a mutable reference to the value of `index` if `index` is valid
    pub fn get_mut(&mut self, index: Index) -> (r: Option<&mut T>)
        ensures
            match r {
                Some(v) => {
                    &&& resolve(old(self)@, index) == Some(*v)
                    &&& final(self)@ == old(self)@.update(
                        index.index as int,
                        Some(Item { value: *final(v), generation: index.generation }),
                    )
                },
                None => {
                    &&& resolve(old(self)@, index) is None
                    &&& final(self)@ == old(self)@
                },
            },
    {
        if index.index < self.items.len() {
            match &mut self.items[index.index] {
                Some(item) => if item.generation == index.generation {
                    Some(&mut item.value)
                } else {
                    None
                },
                None => None,
            }
        } else {
            None
        }
    }

    /// Returns the value of `index`, which must be valid
    pub fn index(&self, index: Index) -> (r: &T)
        requires
            resolve(self@, index) is Some,
        ensures
            resolve(self@, index) == Some(*r),
    {
        self.get(index).expect("invalid index")
    }

    /// Returns a mutable reference to the value of `index`, which must be valid
    pub fn index_mut(&mut self, index: Index) -> (r: &mut T)
        requires
            resolve(old(self)@, index) is Some,
        ensures
            resolve(old(self)@, index) == Some(*r),
            final(self)@ == old(self)@.update(
                index.index as int,
                Some(Item { value: *final(r), generation: index.generation }),
            ),
    {
        self.get_mut(index).expect("invalid index")
    }

    /// Empties every slot, keeping the length and the storage
    pub(crate) fn clear(&mut self)
        ensures
            final(self)@ == emptied(old(self)@),
    {
        let n = self.items.len();
        let mut i: usize = 0;
        while i < n
            invariant
                i <= n == self.items@.len() == old(self).items@.len(),
                forall|j: int| 0 <= j < i ==> self.items@[j] is None,
            decreases n - i,
        {
            self.items.set(i, None);
            i = i + 1;
        }
        assert(self.items@ =~= emptied(old(self).items@));
    }

    /// Returns an iterator over `(Index, &T)` for every held value, in
    /// ascending order of position
    pub fn iter(&self) -> (r: Iter<'_, T>)
        ensures
            r.slots() == self@,
            r.pos() == 0,
    {
        Iter { items: &self.items, pos: 0 }
    }

    /// Returns an iterator over `(Index, &mut T)` for every held value, in
    /// ascending order of position
    pub fn iter_mut(&mut self) -> (r: IterMut<'_, T>)
        ensures
            r.slots() == old(self)@,
            r.pos() == 0,
    {
        IterMut { items: &mut self.items, pos: 0 }
    }

    /// Consumes the vector into an iterator over `(Index, T)` for every held
    /// value, in ascending order of position
    pub fn into_iter(self) -> (r: IntoIter<T>)
        ensures
            r.slots() == self@,
            r.pos() == 0,
    {
        IntoIter { items: self.items, pos: 0 }
    }
}

/// A write with an index that is not older than the slot's occupant is read
/// back by that index.
pub proof fn lemma_set_then_get<T>(
    pre: ExposedGenVec<T>,
    post: ExposedGenVec<T>,
    index: Index,
    value: T,
    r: Option<T>,
)
    requires
        index.index < usize::MAX,
        pre.set_spec(&post, index, value, r),
        slot_at(pre@, index.index as int) is Some ==> slot_at(pre@, index.index as int)->0.generation
            <= index.generation,
    ensures
        resolve(post@, index) == Some(value),
{
}

/// After a value is removed, its index no longer resolves, also once the
/// position is written again under another generation.
pub proof fn lemma_removed_stays_stale<T>(
    s0: ExposedGenVec<T>,
    s1: ExposedGenVec<T>,
    s2: ExposedGenVec<T>,
    h: Index,
    removed: Option<T>,
    newer: Index,
    value: T,
    displaced: Option<T>,
)
    requires
        s0.remove_spec(&s1, h, removed),
        removed is Some,
        newer.index < usize::MAX,
        s1.set_spec(&s2, newer, value, displaced),
        newer.generation != h.generation,
    ensures
        resolve(s1@, h) is None,
        resolve(s2@, h) is None,
{
    if newer.index != h.index {
        assert(slot_at(s2@, h.index as int) == slot_at(s1@, h.index as int));
    }
}

/// Removing with the same index twice has the effect of removing once; the
/// second removal finds nothing.
pub proof fn lemma_remove_idempotent<T>(
    s0: ExposedGenVec<T>,
    s1: ExposedGenVec<T>,
    s2: ExposedGenVec<T>,
    h: Index,
    r1: Option<T>,
    r2: Option<T>,
)
    requires
        s0.remove_spec(&s1, h, r1),
        s1.remove_spec(&s2, h, r2),
    ensures
        r2 is None,
        s2@ == s1@,
{
}

/// Iterator over the values of a borrowed `ExposedGenVec`
pub struct Iter<'a, T> {
    items: &'a Vec<Option<Item<T>>>,
    pos: usize,
}

impl<'a, T> Iter<'a, T> {
    /// The slots being walked.
    pub closed spec fn slots(&self) -> Seq<Option<Item<T>>> {
        self.items@
    }

    /// The position at which the walk resumes.
    pub closed spec fn pos(&self) -> int {
        self.pos as int
    }

    /// Returns the next held value at or after the current position
    pub fn next(&mut self) -> (r: Option<(Index, &'a T)>)
        ensures
            final(self).slots() == old(self).slots(),
            match r {
                Some((index, v)) => {
                    let k = index.index as int;
                    &&& first_occupied_from(old(self).slots(), old(self).pos(), k)
                    &&& index.generation == old(self).slots()[k]->0.generation
                    &&& *v == old(self).slots()[k]->0.value
                    &&& final(self).pos() == k + 1
                },
                None => {
                    &&& none_from(old(self).slots(), old(self).pos())
                    &&& final(self).pos() >= old(self).slots().len()
                },
            },
    {
        let items: &'a Vec<Option<Item<T>>> = self.items;
        let start = self.pos;
        while self.pos < items.len()
            invariant_except_break
                start == old(self).pos,
                items@ == old(self).items@,
                self.items@ == old(self).items@,
                start <= self.pos,
                forall|j: int| start <= j < self.pos ==> items@[j] is None,
            ensures
                start == old(self).pos,
                items@ == old(self).items@,
                self.items@ == old(self).items@,
                start <= self.pos,
                forall|j: int| start <= j < self.pos ==> items@[j] is None,
                self.pos >= items@.len() || items@[self.pos as int] is Some,
            decreases items@.len() - self.pos,
        {
            if items[self.pos].is_some() {
                break;
            }
            self.pos = self.pos + 1;
        }
        if self.pos < items.len() {
            let k = self.pos;
            self.pos = self.pos + 1;
            match &items[k] {
                Some(item) => Some((Index { index: k, generation: item.generation }, &item.value)),
                None => None,
            }
        } else {
            None
        }
    }
}

/// Iterator over the values of a mutably borrowed `ExposedGenVec`
pub struct IterMut<'a, T> {
    items: &'a mut Vec<Option<Item<T>>>,
    pos: usize,
}

impl<'a, T> IterMut<'a, T> {
    /// The slots being walked, as changed so far through this iterator.
    pub closed spec fn slots(&self) -> Seq<Option<Item<T>>> {
        self.items@
    }

    /// The position at which the walk resumes.
    pub closed spec fn pos(&self) -> int {
        self.pos as int
    }

    /// Returns the next held value at or after the current position, by
    /// mutable reference
    pub fn next(&mut self) -> (r: Option<(Index, &mut T)>)
        ensures
            match r {
                Some((index, v)) => {
                    let k = index.index as int;
                    &&& first_occupied_from(old(self).slots(), old(self).pos(), k)
                    &&& index.generation == old(self).slots()[k]->0.generation
                    &&& *v == old(self).slots()[k]->0.value
                    &&& final(self).slots() == old(self).slots().update(
                        k,
                        Some(Item { value: *final(v), generation: index.generation }),
                    )
                    &&& final(self).pos() == k + 1
                },
                None => {
                    &&& none_from(old(self).slots(), old(self).pos())
                    &&& final(self).slots() == old(self).slots()
                    &&& final(self).pos() >= old(self).slots().len()
                },
            },
    {
        let start = self.pos;
        while self.pos < self.items.len()
            invariant_except_break
                start == old(self).pos,
                self.items@ == old(self).items@,
                start <= self.pos,
                forall|j: int| start <= j < self.pos ==> self.items@[j] is None,
            ensures
                start == old(self).pos,
                self.items@ == old(self).items@,
                start <= self.pos,
                forall|j: int| start <= j < self.pos ==> self.items@[j] is None,
                self.pos >= self.items@.len() || self.items@[self.pos as int] is Some,
            decreases self.items@.len() - self.pos,
        {
            if self.items[self.pos].is_some() {
                break;
            }
            self.pos = self.pos + 1;
        }
        if self.pos < self.items.len() {
            let k = self.pos;
            self.pos = self.pos + 1;
            match &mut self.items[k] {
                Some(item) => Some((Index { index: k, generation: item.generation }, &mut item.value)),
                None => None,
            }
        } else {
            None
        }
    }
}

/// Iterator over the values of a consumed `ExposedGenVec`
pub struct IntoIter<T> {
    items: Vec<Option<Item<T>>>,
    pos: usize,
}

impl<T> IntoIter<T> {
    /// The slots not yet handed out.
    pub closed spec fn slots(&self) -> Seq<Option<Item<T>>> {
        self.items@
    }

    /// The position at which the walk resumes.
    pub closed spec fn pos(&self) -> int {
        self.pos as int
    }

    /// Takes out the next held value at or after the current position
    pub fn next(&mut self) -> (r: Option<(Index, T)>)
        ensures
            match r {
                Some((index, v)) => {
                    let k = index.index as int;
                    &&& first_occupied_from(old(self).slots(), old(self).pos(), k)
                    &&& old(self).slots()[k] == Some(Item { value: v, generation: index.generation })
                    &&& final(self).slots() == old(self).slots().update(k, None)
                    &&& final(self).pos() == k + 1
                },
                None => {
                    &&& none_from(old(self).slots(), old(self).pos())
                    &&& final(self).slots() == old(self).slots()
                    &&& final(self).pos() >= old(self).slots().len()
                },
            },
    {
        let start = self.pos;
        while self.pos < self.items.len()
            invariant_except_break
                start == old(self).pos,
                self.items@ == old(self).items@,
                start <= self.pos,
                forall|j: int| start <= j < self.pos ==> self.items@[j] is None,
            ensures
                start == old(self).pos,
                self.items@ == old(self).items@,
                start <= self.pos,
                forall|j: int| start <= j < self.pos ==> self.items@[j] is None,
                self.pos >= self.items@.len() || self.items@[self.pos as int] is Some,
            decreases self.items@.len() - self.pos,
        {
            if self.items[self.pos].is_some() {
                break;
            }
            self.pos = self.pos + 1;
        }
        if self.pos < self.items.len() {
            let k = self.pos;
            self.pos = self.pos + 1;
            match self.items[k].take() {
                Some(item) => Some((Index { index: k, generation: item.generation }, item.value)),
                None => None,
            }
        } else {
            None
        }
    }
}

} // verus!
