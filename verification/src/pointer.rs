//! A bounded window into a memory: the capability to read and write the
//! bytes of one range and no others.

use crate::codec::{be_bytes, be_value, le_bytes, le_value, signed_of, unsigned_of};
use crate::fault::{out_of_bounds, Fault};
use crate::mem::{splice, window, _Memory};
use crate::text::text_of;
use vstd::prelude::*;
use vstd::utf8::encode_utf8;

verus! {

/// A window of `len()` bytes that starts at the absolute address
/// `address()` of a memory. Offsets given to its accessors count from
/// `address()`. The memory is handed to each accessor; the window itself
/// holds no bytes.
#[derive(Debug)]
pub struct Pointer {
    address: usize,
    size: usize,
}

impl Pointer {
    /// The absolute address of the window's first byte.
    pub closed spec fn spec_address(&self) -> usize {
        self.address
    }

    /// The number of bytes in the window.
    pub closed spec fn spec_len(&self) -> usize {
        self.size
    }

    /// Whether an access of `length` bytes at offset `at` lies inside the
    /// window.
    pub open spec fn in_window(&self, at: usize, length: usize) -> bool {
        at + length <= self.len()
    }

    /// Whether an access of `length` bytes at offset `at` lies inside the
    /// window and inside a memory of `size` bytes.
    pub open spec fn admits(&self, size: nat, at: usize, length: usize) -> bool {
        at + length <= self.len() && self.address() + at + length <= size
    }

    /// The fault that an access outside the window is answered with.
    pub open spec fn window_fault(&self, at: usize, length: usize) -> Fault {
        out_of_bounds(self.address(), self.len(), at, length)
    }

    /// The fault that an access is answered with which the window or a
    /// memory of `size` bytes does not admit. It names the window where the
    /// access leaves the window; else it names what the memory holds from
    /// the window's address on.
    pub open spec fn refusal(&self, size: nat, at: usize, length: usize) -> Fault {
        if !self.in_window(at, length) {
            self.window_fault(at, length)
        } else if self.address() <= size {
            out_of_bounds(self.address(), (size - self.address()) as usize, at, length)
        } else {
            out_of_bounds(self.address(), 0, at, length)
        }
    }

    /// A window of `size` bytes at `address`.
    pub fn new(address: usize, size: usize) -> (pointer: Self)
        ensures
            pointer.address() == address,
            pointer.len() == size,
    {
        Pointer { address, size }
    }

    /// The absolute address of the window's first byte.
    #[verifier::when_used_as_spec(spec_address)]
    pub fn address(&self) -> (address: usize)
        ensures
            address == self.spec_address(),
    {
        self.address
    }

    /// The number of bytes in the window.
    #[verifier::when_used_as_spec(spec_len)]
    pub fn len(&self) -> (size: usize)
        ensures
            size == self.spec_len(),
    {
        self.size
    }

    /// Shrinks the window to no bytes, so that it admits no access of one
    /// byte or more.
    pub(crate) fn revoke(&mut self)
        ensures
            final(self).address() == old(self).address(),
            final(self).len() == 0,
    {
        self.size = 0;
    }

    /// Checks that an access of `length` bytes at offset `at` lies inside
    /// the window.
    pub fn assert_access_range(&self, at: usize, length: usize) -> (r: Result<(), Fault>)
        ensures
            self.in_window(at, length) ==> r == Ok::<(), Fault>(()),
            !self.in_window(at, length) ==> r == Err::<(), Fault>(self.window_fault(at, length)),
    {
        if length > self.size || at > self.size - length {
            Err(
                Fault::OutOfBounds {
                    base: self.address as u64,
                    size: self.size as u64,
                    at: at as u64,
                    length: length as u64,
                },
            )
        } else {
            Ok(())
        }
    }

    /// The absolute address of offset `at`, where the window and `memory`
    /// admit an access of `length` bytes there.
    fn locate(&self, memory: &_Memory, at: usize, length: usize) -> (r: Result<usize, Fault>)
        ensures
            self.admits(memory@.len(), at, length) ==> (r matches Ok(target) && target
                == self.address() + at),
            !self.admits(memory@.len(), at, length) ==> r == Err::<usize, Fault>(
                self.refusal(memory@.len(), at, length),
            ),
    {
        self.assert_access_range(at, length)?;
        let size = memory.len();
        let held = if self.address <= size {
            size - self.address
        } else {
            0
        };
        if self.address > size || length > held || at > held - length {
            Err(
                Fault::OutOfBounds {
                    base: self.address as u64,
                    size: held as u64,
                    at: at as u64,
                    length: length as u64,
                },
            )
        } else {
            Ok(self.address + at)
        }
    }

    /// The byte at offset `at`.
    pub fn read_u8(&self, memory: &_Memory, at: usize) -> (r: Result<u8, Fault>)
        ensures
            self.admits(memory@.len(), at, 1) ==> r == Ok::<u8, Fault>(
                memory@[self.address() + at],
            ),
            !self.admits(memory@.len(), at, 1) ==> r == Err::<u8, Fault>(
                self.refusal(memory@.len(), at, 1),
            ),
    {
        let target = self.locate(memory, at, 1)?;
        memory.read_u8(target)
    }

    /// The byte at offset `at`, read as a signed integer in two's complement.
    pub fn read_i8(&self, memory: &_Memory, at: usize) -> (r: Result<i8, Fault>)
        ensures
            self.admits(memory@.len(), at, 1) ==> r == Ok::<i8, Fault>(
                signed_of(memory@[self.address() + at] as nat, 1) as i8,
            ),
            !self.admits(memory@.len(), at, 1) ==> r == Err::<i8, Fault>(
                self.refusal(memory@.len(), at, 1),
            ),
    {
        let target = self.locate(memory, at, 1)?;
        memory.read_i8(target)
    }

    /// Stores a byte at offset `at`.
    pub fn write_u8(&self, memory: &mut _Memory, at: usize, value: u8) -> (r: Result<(), Fault>)
        ensures
            final(memory)@.len() == old(memory)@.len(),
            self.admits(old(memory)@.len(), at, 1) ==> r == Ok::<(), Fault>(())
                && final(memory)@ == old(memory)@.update(
                self.address() + at,
                value,
            ),
            !self.admits(old(memory)@.len(), at, 1) ==> r == Err::<(), Fault>(
                self.refusal(old(memory)@.len(), at, 1),
            ) && final(memory)@ == old(memory)@,
    {
        let target = self.locate(memory, at, 1)?;
        memory.write_u8(target, value)
    }

    /// Stores a signed byte at offset `at`, in two's complement.
    pub fn write_i8(&self, memory: &mut _Memory, at: usize, value: i8) -> (r: Result<(), Fault>)
        ensures
            final(memory)@.len() == old(memory)@.len(),
            self.admits(old(memory)@.len(), at, 1) ==> r == Ok::<(), Fault>(())
                && final(memory)@ == old(memory)@.update(
                self.address() + at,
                unsigned_of(value as int, 1) as u8,
            ),
            !self.admits(old(memory)@.len(), at, 1) ==> r == Err::<(), Fault>(
                self.refusal(old(memory)@.len(), at, 1),
            ) && final(memory)@ == old(memory)@,
    {
        let target = self.locate(memory, at, 1)?;
        memory.write_i8(target, value)
    }

    /// The unsigned 16-bit integer stored at offset `at`, most-significant
    /// byte first.
    pub fn read_u16(&self, memory: &_Memory, at: usize) -> (r: Result<u16, Fault>)
        ensures
            self.admits(memory@.len(), at, 2) ==> r == Ok::<u16, Fault>(
                be_value(window(memory@, self.address() + at, 2)) as u16,
            ),
            !self.admits(memory@.len(), at, 2) ==> r == Err::<u16, Fault>(
                self.refusal(memory@.len(), at, 2),
            ),
    {
        let target = self.locate(memory, at, 2)?;
        memory.read_u16(target)
    }

    /// The signed 16-bit integer stored at offset `at`, most-significant
    /// byte first, in two's complement.
    pub fn read_i16(&self, memory: &_Memory, at: usize) -> (r: Result<i16, Fault>)
        ensures
            self.admits(memory@.len(), at, 2) ==> r == Ok::<i16, Fault>(
                signed_of(be_value(window(memory@, self.address() + at, 2)), 2) as i16,
            ),
            !self.admits(memory@.len(), at, 2) ==> r == Err::<i16, Fault>(
                self.refusal(memory@.len(), at, 2),
            ),
    {
        let target = self.locate(memory, at, 2)?;
        memory.read_i16(target)
    }

    /// Stores an unsigned 16-bit integer at offset `at`, most-significant
    /// byte first.
    pub fn write_u16(&self, memory: &mut _Memory, at: usize, value: u16) -> (r: Result<(), Fault>)
        ensures
            final(memory)@.len() == old(memory)@.len(),
            self.admits(old(memory)@.len(), at, 2) ==> r == Ok::<(), Fault>(())
                && final(memory)@ == splice(
                old(memory)@,
                self.address() + at,
                be_bytes(value as nat, 2),
            ),
            !self.admits(old(memory)@.len(), at, 2) ==> r == Err::<(), Fault>(
                self.refusal(old(memory)@.len(), at, 2),
            ) && final(memory)@ == old(memory)@,
    {
        let target = self.locate(memory, at, 2)?;
        memory.write_u16(target, value)
    }

    /// Stores a signed 16-bit integer at offset `at`, most-significant
    /// byte first, in two's complement.
    pub fn write_i16(&self, memory: &mut _Memory, at: usize, value: i16) -> (r: Result<(), Fault>)
        ensures
            final(memory)@.len() == old(memory)@.len(),
            self.admits(old(memory)@.len(), at, 2) ==> r == Ok::<(), Fault>(())
                && final(memory)@ == splice(
                old(memory)@,
                self.address() + at,
                be_bytes(unsigned_of(value as int, 2), 2),
            ),
            !self.admits(old(memory)@.len(), at, 2) ==> r == Err::<(), Fault>(
                self.refusal(old(memory)@.len(), at, 2),
            ) && final(memory)@ == old(memory)@,
    {
        let target = self.locate(memory, at, 2)?;
        memory.write_i16(target, value)
    }

    /// The unsigned 32-bit integer stored at offset `at`, most-significant
    /// byte first.
    pub fn read_u32(&self, memory: &_Memory, at: usize) -> (r: Result<u32, Fault>)
        ensures
            self.admits(memory@.len(), at, 4) ==> r == Ok::<u32, Fault>(
                be_value(window(memory@, self.address() + at, 4)) as u32,
            ),
            !self.admits(memory@.len(), at, 4) ==> r == Err::<u32, Fault>(
                self.refusal(memory@.len(), at, 4),
            ),
    {
        let target = self.locate(memory, at, 4)?;
        memory.read_u32(target)
    }

    /// The signed 32-bit integer stored at offset `at`, most-significant
    /// byte first, in two's complement.
    pub fn read_i32(&self, memory: &_Memory, at: usize) -> (r: Result<i32, Fault>)
        ensures
            self.admits(memory@.len(), at, 4) ==> r == Ok::<i32, Fault>(
                signed_of(be_value(window(memory@, self.address() + at, 4)), 4) as i32,
            ),
            !self.admits(memory@.len(), at, 4) ==> r == Err::<i32, Fault>(
                self.refusal(memory@.len(), at, 4),
            ),
    {
        let target = self.locate(memory, at, 4)?;
        memory.read_i32(target)
    }

    /// Stores an unsigned 32-bit integer at offset `at`, most-significant
    /// byte first.
    pub fn write_u32(&self, memory: &mut _Memory, at: usize, value: u32) -> (r: Result<(), Fault>)
        ensures
            final(memory)@.len() == old(memory)@.len(),
            self.admits(old(memory)@.len(), at, 4) ==> r == Ok::<(), Fault>(())
                && final(memory)@ == splice(
                old(memory)@,
                self.address() + at,
                be_bytes(value as nat, 4),
            ),
            !self.admits(old(memory)@.len(), at, 4) ==> r == Err::<(), Fault>(
                self.refusal(old(memory)@.len(), at, 4),
            ) && final(memory)@ == old(memory)@,
    {
        let target = self.locate(memory, at, 4)?;
        memory.write_u32(target, value)
    }

    /// Stores a signed 32-bit integer at offset `at`, most-significant
    /// byte first, in two's complement.
    pub fn write_i32(&self, memory: &mut _Memory, at: usize, value: i32) -> (r: Result<(), Fault>)
        ensures
            final(memory)@.len() == old(memory)@.len(),
            self.admits(old(memory)@.len(), at, 4) ==> r == Ok::<(), Fault>(())
                && final(memory)@ == splice(
                old(memory)@,
                self.address() + at,
                be_bytes(unsigned_of(value as int, 4), 4),
            ),
            !self.admits(old(memory)@.len(), at, 4) ==> r == Err::<(), Fault>(
                self.refusal(old(memory)@.len(), at, 4),
            ) && final(memory)@ == old(memory)@,
    {
        let target = self.locate(memory, at, 4)?;
        memory.write_i32(target, value)
    }

    /// The unsigned 64-bit integer stored at offset `at`, most-significant
    /// byte first.
    pub fn read_u64(&self, memory: &_Memory, at: usize) -> (r: Result<u64, Fault>)
        ensures
            self.admits(memory@.len(), at, 8) ==> r == Ok::<u64, Fault>(
                be_value(window(memory@, self.address() + at, 8)) as u64,
            ),
            !self.admits(memory@.len(), at, 8) ==> r == Err::<u64, Fault>(
                self.refusal(memory@.len(), at, 8),
            ),
    {
        let target = self.locate(memory, at, 8)?;
        memory.read_u64(target)
    }

    /// The signed 64-bit integer stored at offset `at`, most-significant
    /// byte first, in two's complement.
    pub fn read_i64(&self, memory: &_Memory, at: usize) -> (r: Result<i64, Fault>)
        ensures
            self.admits(memory@.len(), at, 8) ==> r == Ok::<i64, Fault>(
                signed_of(be_value(window(memory@, self.address() + at, 8)), 8) as i64,
            ),
            !self.admits(memory@.len(), at, 8) ==> r == Err::<i64, Fault>(
                self.refusal(memory@.len(), at, 8),
            ),
    {
        let target = self.locate(memory, at, 8)?;
        memory.read_i64(target)
    }

    /// Stores an unsigned 64-bit integer at offset `at`, most-significant
    /// byte first.
    pub fn write_u64(&self, memory: &mut _Memory, at: usize, value: u64) -> (r: Result<(), Fault>)
        ensures
            final(memory)@.len() == old(memory)@.len(),
            self.admits(old(memory)@.len(), at, 8) ==> r == Ok::<(), Fault>(())
                && final(memory)@ == splice(
                old(memory)@,
                self.address() + at,
                be_bytes(value as nat, 8),
            ),
            !self.admits(old(memory)@.len(), at, 8) ==> r == Err::<(), Fault>(
                self.refusal(old(memory)@.len(), at, 8),
            ) && final(memory)@ == old(memory)@,
    {
        let target = self.locate(memory, at, 8)?;
        memory.write_u64(target, value)
    }

    /// Stores a signed 64-bit integer at offset `at`, most-significant
    /// byte first, in two's complement.
    pub fn write_i64(&self, memory: &mut _Memory, at: usize, value: i64) -> (r: Result<(), Fault>)
        ensures
            final(memory)@.len() == old(memory)@.len(),
            self.admits(old(memory)@.len(), at, 8) ==> r == Ok::<(), Fault>(())
                && final(memory)@ == splice(
                old(memory)@,
                self.address() + at,
                be_bytes(unsigned_of(value as int, 8), 8),
            ),
            !self.admits(old(memory)@.len(), at, 8) ==> r == Err::<(), Fault>(
                self.refusal(old(memory)@.len(), at, 8),
            ) && final(memory)@ == old(memory)@,
    {
        let target = self.locate(memory, at, 8)?;
        memory.write_i64(target, value)
    }

    /// The unsigned 128-bit integer stored at offset `at`, most-significant
    /// byte first.
    pub fn read_u128(&self, memory: &_Memory, at: usize) -> (r: Result<u128, Fault>)
        ensures
            self.admits(memory@.len(), at, 16) ==> r == Ok::<u128, Fault>(
                be_value(window(memory@, self.address() + at, 16)) as u128,
            ),
            !self.admits(memory@.len(), at, 16) ==> r == Err::<u128, Fault>(
                self.refusal(memory@.len(), at, 16),
            ),
    {
        let target = self.locate(memory, at, 16)?;
        memory.read_u128(target)
    }

    /// The signed 128-bit integer stored at offset `at`, most-significant
    /// byte first, in two's complement.
    pub fn read_i128(&self, memory: &_Memory, at: usize) -> (r: Result<i128, Fault>)
        ensures
            self.admits(memory@.len(), at, 16) ==> r == Ok::<i128, Fault>(
                signed_of(be_value(window(memory@, self.address() + at, 16)), 16) as i128,
            ),
            !self.admits(memory@.len(), at, 16) ==> r == Err::<i128, Fault>(
                self.refusal(memory@.len(), at, 16),
            ),
    {
        let target = self.locate(memory, at, 16)?;
        memory.read_i128(target)
    }

    /// Stores an unsigned 128-bit integer at offset `at`, most-significant
    /// byte first.
    pub fn write_u128(&self, memory: &mut _Memory, at: usize, value: u128) -> (r: Result<(), Fault>)
        ensures
            final(memory)@.len() == old(memory)@.len(),
            self.admits(old(memory)@.len(), at, 16) ==> r == Ok::<(), Fault>(())
                && final(memory)@ == splice(
                old(memory)@,
                self.address() + at,
                be_bytes(value as nat, 16),
            ),
            !self.admits(old(memory)@.len(), at, 16) ==> r == Err::<(), Fault>(
                self.refusal(old(memory)@.len(), at, 16),
            ) && final(memory)@ == old(memory)@,
    {
        let target = self.locate(memory, at, 16)?;
        memory.write_u128(target, value)
    }

    /// Stores a signed 128-bit integer at offset `at`, most-significant
    /// byte first, in two's complement.
    pub fn write_i128(&self, memory: &mut _Memory, at: usize, value: i128) -> (r: Result<(), Fault>)
        ensures
            final(memory)@.len() == old(memory)@.len(),
            self.admits(old(memory)@.len(), at, 16) ==> r == Ok::<(), Fault>(())
                && final(memory)@ == splice(
                old(memory)@,
                self.address() + at,
                be_bytes(unsigned_of(value as int, 16), 16),
            ),
            !self.admits(old(memory)@.len(), at, 16) ==> r == Err::<(), Fault>(
                self.refusal(old(memory)@.len(), at, 16),
            ) && final(memory)@ == old(memory)@,
    {
        let target = self.locate(memory, at, 16)?;
        memory.write_i128(target, value)
    }

    /// The bit pattern of the 32-bit floating-point value stored at offset
    /// `at`, least-significant byte first.
    pub fn read_f32(&self, memory: &_Memory, at: usize) -> (r: Result<u32, Fault>)
        ensures
            self.admits(memory@.len(), at, 4) ==> r == Ok::<u32, Fault>(
                le_value(window(memory@, self.address() + at, 4)) as u32,
            ),
            !self.admits(memory@.len(), at, 4) ==> r == Err::<u32, Fault>(
                self.refusal(memory@.len(), at, 4),
            ),
    {
        let target = self.locate(memory, at, 4)?;
        memory.read_f32(target)
    }

    /// Stores the bit pattern of a 32-bit floating-point value at offset
    /// `at`, least-significant byte first.
    pub fn write_f32(&self, memory: &mut _Memory, at: usize, bits: u32) -> (r: Result<(), Fault>)
        ensures
            final(memory)@.len() == old(memory)@.len(),
            self.admits(old(memory)@.len(), at, 4) ==> r == Ok::<(), Fault>(())
                && final(memory)@ == splice(
                old(memory)@,
                self.address() + at,
                le_bytes(bits as nat, 4),
            ),
            !self.admits(old(memory)@.len(), at, 4) ==> r == Err::<(), Fault>(
                self.refusal(old(memory)@.len(), at, 4),
            ) && final(memory)@ == old(memory)@,
    {
        let target = self.locate(memory, at, 4)?;
        memory.write_f32(target, bits)
    }

    /// The bit pattern of the 64-bit floating-point value stored at offset
    /// `at`, least-significant byte first.
    pub fn read_f64(&self, memory: &_Memory, at: usize) -> (r: Result<u64, Fault>)
        ensures
            self.admits(memory@.len(), at, 8) ==> r == Ok::<u64, Fault>(
                le_value(window(memory@, self.address() + at, 8)) as u64,
            ),
            !self.admits(memory@.len(), at, 8) ==> r == Err::<u64, Fault>(
                self.refusal(memory@.len(), at, 8),
            ),
    {
        let target = self.locate(memory, at, 8)?;
        memory.read_f64(target)
    }

    /// Stores the bit pattern of a 64-bit floating-point value at offset
    /// `at`, least-significant byte first.
    pub fn write_f64(&self, memory: &mut _Memory, at: usize, bits: u64) -> (r: Result<(), Fault>)
        ensures
            final(memory)@.len() == old(memory)@.len(),
            self.admits(old(memory)@.len(), at, 8) ==> r == Ok::<(), Fault>(())
                && final(memory)@ == splice(
                old(memory)@,
                self.address() + at,
                le_bytes(bits as nat, 8),
            ),
            !self.admits(old(memory)@.len(), at, 8) ==> r == Err::<(), Fault>(
                self.refusal(old(memory)@.len(), at, 8),
            ) && final(memory)@ == old(memory)@,
    {
        let target = self.locate(memory, at, 8)?;
        memory.write_f64(target, bits)
    }

    /// A copy of the `length` bytes at offset `at`.
    pub fn read_bytes(&self, memory: &_Memory, at: usize, length: usize) -> (r: Result<
        Vec<u8>,
        Fault,
    >)
        ensures
            self.admits(memory@.len(), at, length) ==> (r matches Ok(bytes) && bytes@ == window(
                memory@,
                self.address() + at,
                length as int,
            )),
            !self.admits(memory@.len(), at, length) ==> (r matches Err(fault) && fault
                == self.refusal(memory@.len(), at, length)),
    {
        let target = self.locate(memory, at, length)?;
        memory.read_bytes(target, length)
    }

    /// Stores `value` at offset `at`.
    pub fn write_bytes(&self, memory: &mut _Memory, at: usize, value: &[u8]) -> (r: Result<
        (),
        Fault,
    >)
        ensures
            final(memory)@.len() == old(memory)@.len(),
            self.admits(old(memory)@.len(), at, value@.len() as usize) ==> r == Ok::<(), Fault>(())
                && final(memory)@ == splice(old(memory)@, self.address() + at, value@),
            !self.admits(old(memory)@.len(), at, value@.len() as usize) ==> r == Err::<(), Fault>(
                self.refusal(old(memory)@.len(), at, value@.len() as usize),
            ) && final(memory)@ == old(memory)@,
    {
        let target = self.locate(memory, at, value.len())?;
        memory.write_bytes(target, value)
    }

    /// The `length` bytes at offset `at`, decoded as UTF-8 text; each
    /// ill-formed part is replaced as [`text_of`] says.
    pub fn read_string(&self, memory: &_Memory, at: usize, length: usize) -> (r: Result<
        String,
        Fault,
    >)
        ensures
            self.admits(memory@.len(), at, length) ==> (r matches Ok(text) && text@ == text_of(
                window(memory@, self.address() + at, length as int),
            )),
            !self.admits(memory@.len(), at, length) ==> (r matches Err(fault) && fault
                == self.refusal(memory@.len(), at, length)),
    {
        let target = self.locate(memory, at, length)?;
        memory.read_string(target, length)
    }

    /// Stores the UTF-8 encoding of `value` at offset `at`.
    pub fn write_string(&self, memory: &mut _Memory, at: usize, value: &str) -> (r: Result<
        (),
        Fault,
    >)
        ensures
            final(memory)@.len() == old(memory)@.len(),
            self.admits(old(memory)@.len(), at, encode_utf8(value@).len() as usize) ==> r == Ok::<
                (),
                Fault,
            >(()) && final(memory)@ == splice(
                old(memory)@,
                self.address() + at,
                encode_utf8(value@),
            ),
            !self.admits(old(memory)@.len(), at, encode_utf8(value@).len() as usize) ==> r == Err::<
                (),
                Fault,
            >(self.refusal(old(memory)@.len(), at, encode_utf8(value@).len() as usize))
                && final(memory)@ == old(memory)@,
    {
        self.write_bytes(memory, at, value.as_bytes())
    }
}

} // verus!
