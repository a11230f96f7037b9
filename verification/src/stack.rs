//! Stacks: a bounded one over a buffer of fixed capacity, and an unbounded one.

pub mod array;
pub mod linked_list;
