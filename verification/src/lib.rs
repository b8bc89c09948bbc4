//! Memory and execution substrate of a small software CPU: a flat byte
//! memory, bounded windows into it, a bump allocator of such windows, a stack
//! on one window, and a core that fetches, decodes and executes fixed-width
//! instructions.
//!
//! Every operation that can fail returns a [`fault::Fault`]; none panics.
//! Operations on a window, a stack or a core take the memory as an argument:
//! what they read and write is then stated exactly. Where several holders
//! share one memory, each takes it from under the lock of [`shared::Memory`]
//! for the length of an operation.

pub mod codec;
pub mod cpu;
pub mod fault;
pub mod mem;
pub mod pointer;
pub mod register;
pub mod shared;
pub mod text;
pub mod vmem;
pub mod wrappers;
