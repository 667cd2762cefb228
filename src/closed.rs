//! A vector that allocates its own indices.
mod gen_vec;

pub use self::gen_vec::ClosedGenVec;
