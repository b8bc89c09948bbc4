//! One memory for many holders.
//!
//! A `Memory` is a counted handle on a lock around a buffer. Whoever holds a
//! handle may take the lock, work on the buffer alone, and give it back. The
//! lock's rule is that the buffer keeps its size, so every holder can rely on
//! the size while knowing nothing of the bytes, which the others may change.

use crate::mem::_Memory;
use std::sync::Arc;
use vstd::prelude::*;
use vstd::rwlock::{RwLock, WriteHandle};

verus! {

/// A handle on a shared memory of `len()` bytes.
pub struct Memory {
    lock: Arc<RwLock<_Memory, spec_fn(_Memory) -> bool>>,
    size: usize,
}

/// The buffer of a shared memory, taken out from under its lock. While this
/// value lives no other holder has the buffer; `release` gives it back, and
/// the buffer must then have the size that it came with.
pub struct Access<'a> {
    pub memory: _Memory,
    pub handle: WriteHandle<'a, _Memory, spec_fn(_Memory) -> bool>,
    pub size: Ghost<nat>,
}

impl Memory {
    #[verifier::type_invariant]
    spec fn well_formed(&self) -> bool {
        forall|buffer: _Memory| #[trigger] self.lock.inv(buffer) <==> buffer@.len() == self.size
    }

    /// The number of bytes of the memory.
    pub closed spec fn spec_len(&self) -> usize {
        self.size
    }

    /// The lock that the handle is a handle on.
    pub closed spec fn lock(&self) -> RwLock<_Memory, spec_fn(_Memory) -> bool> {
        *self.lock
    }

    /// The number of bytes of the memory.
    #[verifier::when_used_as_spec(spec_len)]
    pub fn len(&self) -> (size: usize)
        ensures
            size == self.spec_len(),
    {
        self.size
    }

    /// Another handle on the same memory.
    pub fn share(&self) -> (other: Memory)
        ensures
            other.len() == self.len(),
            other.lock() == self.lock(),
    {
        proof {
            use_type_invariant(self);
        }
        Memory { lock: Arc::clone(&self.lock), size: self.size }
    }

    /// Takes the lock and the buffer from under it; waits while another
    /// holder has them. The buffer has the memory's size.
    pub fn access(&self) -> (access: Access<'_>)
        ensures
            access.well_formed(),
            access.size@ == self.len(),
            access.memory@.len() == self.len(),
            access.handle.rwlock() == self.lock(),
    {
        proof {
            use_type_invariant(self);
        }
        let (memory, handle) = self.lock.acquire_write();
        Access { memory, handle, size: Ghost(self.size as nat) }
    }
}

impl<'a> Access<'a> {
    /// The lock takes back a buffer exactly when it has the size that the
    /// buffer came with.
    pub open spec fn well_formed(&self) -> bool {
        forall|buffer: _Memory| #[trigger]
            self.handle.rwlock().inv(buffer) <==> buffer@.len() == self.size@
    }

    /// Gives the buffer back and lets go of the lock.
    pub fn release(self)
        requires
            self.well_formed(),
            self.memory@.len() == self.size@,
    {
        let Access { memory, handle, size } = self;
        handle.release_write(memory);
    }
}

/// A shared memory of `size` zero bytes, and the first handle on it.
pub fn create_memory(size: usize) -> (memory: Memory)
    ensures
        memory.len() == size,
{
    let ghost rule = |buffer: _Memory| buffer@.len() == size as nat;
    let lock = RwLock::new(_Memory::new(size), Ghost(rule));
    Memory { lock: Arc::new(lock), size }
}

} // verus!
