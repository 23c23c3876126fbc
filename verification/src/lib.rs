//! Two small containers with machine-checked contracts: a stack that is built
//! from two FIFO queues, and a binary heap ordered by a priority rule.

pub mod heap;
pub mod heap_laws;
pub mod heap_order;
pub mod priority;
pub mod queue;
pub mod stack;
pub mod stack_laws;
