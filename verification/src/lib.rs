//! Verified data structures. The centrepiece is an arbitrary-precision signed
//! integer whose every operation is specified against mathematical integers.

pub mod bigint;
pub mod iter;
pub mod linked_list;
pub mod queue;
pub mod slices;
pub mod stack;
