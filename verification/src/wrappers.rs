//! Structures built on a window of memory.

pub mod stack;
