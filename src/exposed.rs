//! Vectors whose indices come from a separate, shareable allocator.
pub mod gen_vec;
pub mod index_allocator;

pub use self::gen_vec::ExposedGenVec;
pub use self::index_allocator::{AllocatedIndex, IndexAllocator};
