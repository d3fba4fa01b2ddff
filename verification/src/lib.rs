//! A queue of `u32` items over a doubly linked chain of heap nodes, with insertion and removal
//! at its head.
//!
//! Every node is owned by two half shares: one held by whatever stands before it (the head
//! handle, or the `prev` field of the node in front), one held by whatever stands behind it (the
//! `next` field of the node behind, or the tail handle). A node is released by joining its two
//! half shares back into a full share.
//!
//! * [`share`]: the shares themselves, and what is taken on trust about them.
//! * [`chain`]: a chain that always holds at least one node.
//! * [`dequeue`]: the queue, which is either empty or holds a chain.
//! * [`model`]: the queue as a sequence of items, and runs of steps on it.
//! * [`laws`]: what holds of every run of insertions and removals.

pub mod chain;
pub mod dequeue;
pub mod laws;
pub mod model;
pub mod share;

pub use dequeue::Dequeue;
