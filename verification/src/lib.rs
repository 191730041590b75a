//! Arrays whose length is part of their type.
//!
//! A length is written in ternary, least significant digit first, by nesting
//! [`ZeroNode`](storage::ZeroNode), [`OneNode`](storage::OneNode) and
//! [`TwoNode`](storage::TwoNode) around [`TermNode`](storage::TermNode). The
//! nested type is at the same time the storage: a block that holds exactly
//! that many elements and nothing else. An [`Array`] wraps such a block. It
//! can be read and written by position, grown by one element, split into its
//! first or last element and an array of the next smaller length, and turned
//! into an [`ArrayIter`] that gives its elements out one at a time.
pub mod array;
pub mod guillotine;
pub mod length;
pub mod slots;
pub mod storage;

pub use crate::array::{Array, ArrayIter, ArraySplit, ArrayUnroll};
