//! Queues: first in, first out.

pub mod array;
pub mod linked_list;
