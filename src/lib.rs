//! Vectors addressed by reusable, generational indices.
//!
//! An `Index` names a slot position together with the generation under which
//! a value was stored there. Freed positions are reused, and each reuse gets a
//! newer generation, so an `Index` handed out for an older occupant never
//! resolves to a newer one.
//!
//! * `closed::ClosedGenVec` allocates its own indices.
//! * `exposed::ExposedGenVec` takes indices from a separate
//!   `exposed::IndexAllocator`, which several vectors may share.
//! * `gen_vec::GenerationalVec` uses one generation counter for the whole
//!   structure instead of one per slot.
use vstd::prelude::*;

pub mod closed;
pub mod exposed;
pub mod gen_vec;

verus! {

/// A handle to a value: a slot position and the generation it was issued for.
#[derive(PartialEq, Eq, Structural, PartialOrd, Ord, Hash, Clone, Copy, Debug)]
pub struct Index {
    pub index: usize,
    pub generation: usize,
}

/// A value held in a slot, with the generation it was stored under.
#[derive(Debug)]
pub struct Item<T> {
    pub value: T,
    pub generation: usize,
}

/// The slot at position `i`; positions past the end are empty.
pub open spec fn slot_at<T>(slots: Seq<Option<Item<T>>>, i: int) -> Option<Item<T>> {
    if 0 <= i < slots.len() {
        slots[i]
    } else {
        None
    }
}

/// The value that `index` designates among `slots`: present only when the
/// slot is occupied under exactly `index.generation`.
pub open spec fn resolve<T>(slots: Seq<Option<Item<T>>>, index: Index) -> Option<T> {
    match slot_at(slots, index.index as int) {
        Some(item) => if item.generation == index.generation {
            Some(item.value)
        } else {
            None
        },
        None => None,
    }
}

/// `slots` extended with empty slots up to length `n`.
pub open spec fn grown<T>(slots: Seq<Option<Item<T>>>, n: int) -> Seq<Option<Item<T>>> {
    if n <= slots.len() {
        slots
    } else {
        slots + Seq::new((n - slots.len()) as nat, |k: int| None)
    }
}

/// Every slot of `slots` emptied, the length kept.
pub open spec fn emptied<T>(slots: Seq<Option<Item<T>>>) -> Seq<Option<Item<T>>> {
    Seq::new(slots.len(), |k: int| None)
}

/// The number of occupied slots.
pub open spec fn count_occupied<T>(slots: Seq<Option<Item<T>>>) -> nat
    decreases slots.len(),
{
    if slots.len() == 0 {
        0
    } else {
        count_occupied(slots.drop_last()) + if slots.last() is Some {
            1nat
        } else {
            0nat
        }
    }
}

/// The positions `start`, `start + 1`, ..., `start + n - 1`.
pub open spec fn positions(start: int, n: nat) -> Seq<usize> {
    Seq::new(n, |k: int| (start + k) as usize)
}

/// Relies on `Vec::capacity`: a vector can always hold at least as many
/// elements as it holds now.
#[verifier::external_body]
pub(crate) fn vec_capacity<T>(v: &Vec<T>) -> (r: usize)
    ensures
        r >= v@.len(),
{
    v.capacity()
}

} // verus!
