//! A stack of values in one window of a memory.
//!
//! A push stores a value at the cursor and moves the cursor up by the
//! value's width; a pop moves the cursor down and reads the value there.
//! What comes out is what went in last.

use crate::codec::{
    be_bytes, be_value, le_bytes, le_value, lemma_be_bytes_len, lemma_be_value_of_bytes,
    lemma_le_bytes_len, lemma_le_value_of_bytes, lemma_radix_values, lemma_signed_of_unsigned,
    signed_of, unsigned_of,
};
use crate::fault::Fault;
use crate::mem::{splice, window, _Memory};
use crate::pointer::Pointer;
use crate::text::text_of;
use vstd::prelude::*;
use vstd::utf8::{encode_utf8, encode_utf8_decode_utf8, encode_utf8_valid_utf8};

verus! {

/// A stack and the memory under it, as numbers and bytes: the window's
/// first address and size, the cursor as an offset into the window, and the
/// bytes of the memory.
pub struct Frame {
    pub base: nat,
    pub limit: nat,
    pub top: nat,
    pub memory: Seq<u8>,
}

impl Frame {
    /// The frame after `bytes` were pushed; none where the window or the
    /// memory has no room for them above the cursor.
    pub open spec fn push(self, bytes: Seq<u8>) -> Option<Frame> {
        if self.top + bytes.len() <= self.limit && self.base + self.top + bytes.len()
            <= self.memory.len() {
            Some(
                Frame {
                    top: self.top + bytes.len(),
                    memory: splice(self.memory, (self.base + self.top) as int, bytes),
                    ..self
                },
            )
        } else {
            None
        }
    }

    /// The frame after `length` bytes were popped, and those bytes; none
    /// where fewer bytes lie under the cursor, or the cursor is outside the
    /// window or the memory.
    pub open spec fn pop(self, length: nat) -> Option<(Frame, Seq<u8>)> {
        if length <= self.top <= self.limit && self.base + self.top <= self.memory.len() {
            Some(
                (
                    Frame { top: (self.top - length) as nat, ..self },
                    window(self.memory, self.base + self.top - length, length as int),
                ),
            )
        } else {
            None
        }
    }
}

/// A stack: a window and a cursor in it. The window's bytes below the
/// cursor are the stack's contents; the memory is handed to each push and
/// pop.
#[derive(Debug)]
pub struct Stack {
    pub pointer: Pointer,
    top: usize,
}

impl Stack {
    /// The cursor: the offset in the window at which the next push stores.
    pub closed spec fn spec_top(&self) -> usize {
        self.top
    }

    /// The window that holds the stack: the field `pointer`.
    pub closed spec fn window(&self) -> Pointer {
        self.pointer
    }

    /// The stack together with the bytes of the memory under it.
    pub open spec fn frame(&self, memory: Seq<u8>) -> Frame {
        Frame {
            base: self.window().address() as nat,
            limit: self.window().len() as nat,
            top: self.top() as nat,
            memory,
        }
    }

    /// The fault that a push of `length` bytes is answered with which a
    /// memory of `size` bytes has no room for: an overflow where the window
    /// ends before, else what the window says of the access.
    pub open spec fn push_fault(&self, size: nat, length: usize) -> Fault {
        if self.top() + length > self.window().len() {
            Fault::StackOverflow
        } else {
            self.window().refusal(size, self.top(), length)
        }
    }

    /// The fault that a pop of `length` bytes is answered with which cannot
    /// be had from a memory of `size` bytes: an underflow where fewer bytes
    /// lie under the cursor, else what the window says of the access.
    pub open spec fn pop_fault(&self, size: nat, length: usize) -> Fault {
        if length > self.top() {
            Fault::StackUnderflow
        } else {
            self.window().refusal(size, (self.top() - length) as usize, length)
        }
    }

    /// What a push of `bytes` does to a stack and the memory under it, and
    /// what it answers.
    pub open spec fn push_outcome(
        before: Stack,
        after: Stack,
        memory_before: Seq<u8>,
        memory_after: Seq<u8>,
        bytes: Seq<u8>,
        r: Result<(), Fault>,
    ) -> bool {
        match before.frame(memory_before).push(bytes) {
            Some(next) => r == Ok::<(), Fault>(()) && after.frame(memory_after) == next
                && after.window() == before.window(),
            None => r == Err::<(), Fault>(
                before.push_fault(memory_before.len(), bytes.len() as usize),
            ) && after == before && memory_after == memory_before,
        }
    }

    /// An empty stack in the window `pointer`.
    pub fn new(pointer: Pointer) -> (stack: Self)
        ensures
            stack.window() == pointer,
            stack.top() == 0,
    {
        Stack { pointer, top: 0 }
    }

    /// The cursor: the offset in the window at which the next push stores.
    #[verifier::when_used_as_spec(spec_top)]
    pub fn top(&self) -> (top: usize)
        ensures
            top == self.spec_top(),
    {
        self.top
    }

    /// Empties the stack: the cursor goes back to the window's start.
    pub fn reset(&mut self)
        ensures
            final(self).top() == 0,
            final(self).window() == old(self).window(),
    {
        self.top = 0;
    }

    /// Moves the cursor to `top`. Refused where the cursor is past the
    /// window's end already, or would be.
    pub fn set_top(&mut self, top: usize) -> (r: Result<(), Fault>)
        ensures
            final(self).window() == old(self).window(),
            old(self).top() <= old(self).window().len() && top <= old(self).window().len() ==> r
                == Ok::<(), Fault>(()) && final(self).top() == top,
            old(self).top() > old(self).window().len() || top > old(self).window().len() ==> r
                == Err::<(), Fault>(Fault::StackOverflow) && final(self).top() == old(self).top(),
    {
        if self.top > self.pointer.len() || top > self.pointer.len() {
            return Err(Fault::StackOverflow);
        }
        self.top = top;
        Ok(())
    }

    /// Whether the window has room for `length` more bytes above the cursor.
    fn has_room(&self, length: usize) -> (room: bool)
        ensures
            room == (self.top() + length <= self.window().len()),
    {
        let size = self.pointer.len();
        length <= size && self.top <= size - length
    }

    /// Pushes a byte.
    pub fn push_u8(&mut self, memory: &mut _Memory, value: u8) -> (r: Result<(), Fault>)
        ensures
            final(memory)@.len() == old(memory)@.len(),
            Stack::push_outcome(
                *old(self),
                *final(self),
                old(memory)@,
                final(memory)@,
                seq![value],
                r,
            ),
    {
        if !self.has_room(1) {
            return Err(Fault::StackOverflow);
        }
        self.pointer.write_u8(memory, self.top, value)?;
        assert(memory@ =~= splice(
            old(memory)@,
            old(self).window().address() + old(self).top(),
            seq![value],
        ));
        self.top = self.top + 1;
        Ok(())
    }

    /// Pops a byte.
    pub fn pop_u8(&mut self, memory: &_Memory) -> (r: Result<u8, Fault>)
        ensures
            match old(self).frame(memory@).pop(1) {
                Some((next, bytes)) => r == Ok::<u8, Fault>(bytes[0])
                    && final(self).frame(memory@) == next
                    && final(self).window() == old(self).window(),
                None => r == Err::<u8, Fault>(old(self).pop_fault(memory@.len(), 1))
                    && *final(self) == *old(self),
            },
    {
        if self.top < 1 {
            return Err(Fault::StackUnderflow);
        }
        let at = self.top - 1;
        let value = self.pointer.read_u8(memory, at)?;
        self.top = at;
        Ok(value)
    }

    /// Pushes an unsigned 16-bit integer, most-significant byte first.
    pub fn push_u16(&mut self, memory: &mut _Memory, value: u16) -> (r: Result<(), Fault>)
        ensures
            final(memory)@.len() == old(memory)@.len(),
            Stack::push_outcome(
                *old(self),
                *final(self),
                old(memory)@,
                final(memory)@,
                be_bytes(value as nat, 2),
                r,
            ),
    {
        proof {
            lemma_be_bytes_len(value as nat, 2);
        }
        if !self.has_room(2) {
            return Err(Fault::StackOverflow);
        }
        self.pointer.write_u16(memory, self.top, value)?;
        assert(memory@ =~= splice(
            old(memory)@,
            old(self).window().address() + old(self).top(),
            be_bytes(value as nat, 2),
        ));
        self.top = self.top + 2;
        Ok(())
    }

    /// Pops an unsigned 16-bit integer.
    pub fn pop_u16(&mut self, memory: &_Memory) -> (r: Result<u16, Fault>)
        ensures
            match old(self).frame(memory@).pop(2) {
                Some((next, bytes)) => r == Ok::<u16, Fault>(be_value(bytes) as u16)
                    && final(self).frame(memory@) == next
                    && final(self).window() == old(self).window(),
                None => r == Err::<u16, Fault>(old(self).pop_fault(memory@.len(), 2))
                    && *final(self) == *old(self),
            },
    {
        if self.top < 2 {
            return Err(Fault::StackUnderflow);
        }
        let at = self.top - 2;
        let value = self.pointer.read_u16(memory, at)?;
        self.top = at;
        Ok(value)
    }

    /// Pushes an unsigned 32-bit integer, most-significant byte first.
    pub fn push_u32(&mut self, memory: &mut _Memory, value: u32) -> (r: Result<(), Fault>)
        ensures
            final(memory)@.len() == old(memory)@.len(),
            Stack::push_outcome(
                *old(self),
                *final(self),
                old(memory)@,
                final(memory)@,
                be_bytes(value as nat, 4),
                r,
            ),
    {
        proof {
            lemma_be_bytes_len(value as nat, 4);
        }
        if !self.has_room(4) {
            return Err(Fault::StackOverflow);
        }
        self.pointer.write_u32(memory, self.top, value)?;
        assert(memory@ =~= splice(
            old(memory)@,
            old(self).window().address() + old(self).top(),
            be_bytes(value as nat, 4),
        ));
        self.top = self.top + 4;
        Ok(())
    }

    /// Pops an unsigned 32-bit integer.
    pub fn pop_u32(&mut self, memory: &_Memory) -> (r: Result<u32, Fault>)
        ensures
            match old(self).frame(memory@).pop(4) {
                Some((next, bytes)) => r == Ok::<u32, Fault>(be_value(bytes) as u32)
                    && final(self).frame(memory@) == next
                    && final(self).window() == old(self).window(),
                None => r == Err::<u32, Fault>(old(self).pop_fault(memory@.len(), 4))
                    && *final(self) == *old(self),
            },
    {
        if self.top < 4 {
            return Err(Fault::StackUnderflow);
        }
        let at = self.top - 4;
        let value = self.pointer.read_u32(memory, at)?;
        self.top = at;
        Ok(value)
    }

    /// Pushes an unsigned 64-bit integer, most-significant byte first.
    pub fn push_u64(&mut self, memory: &mut _Memory, value: u64) -> (r: Result<(), Fault>)
        ensures
            final(memory)@.len() == old(memory)@.len(),
            Stack::push_outcome(
                *old(self),
                *final(self),
                old(memory)@,
                final(memory)@,
                be_bytes(value as nat, 8),
                r,
            ),
    {
        proof {
            lemma_be_bytes_len(value as nat, 8);
        }
        if !self.has_room(8) {
            return Err(Fault::StackOverflow);
        }
        self.pointer.write_u64(memory, self.top, value)?;
        assert(memory@ =~= splice(
            old(memory)@,
            old(self).window().address() + old(self).top(),
            be_bytes(value as nat, 8),
        ));
        self.top = self.top + 8;
        Ok(())
    }

    /// Pops an unsigned 64-bit integer.
    pub fn pop_u64(&mut self, memory: &_Memory) -> (r: Result<u64, Fault>)
        ensures
            match old(self).frame(memory@).pop(8) {
                Some((next, bytes)) => r == Ok::<u64, Fault>(be_value(bytes) as u64)
                    && final(self).frame(memory@) == next
                    && final(self).window() == old(self).window(),
                None => r == Err::<u64, Fault>(old(self).pop_fault(memory@.len(), 8))
                    && *final(self) == *old(self),
            },
    {
        if self.top < 8 {
            return Err(Fault::StackUnderflow);
        }
        let at = self.top - 8;
        let value = self.pointer.read_u64(memory, at)?;
        self.top = at;
        Ok(value)
    }

    /// Pushes an unsigned 128-bit integer, most-significant byte first.
    pub fn push_u128(&mut self, memory: &mut _Memory, value: u128) -> (r: Result<(), Fault>)
        ensures
            final(memory)@.len() == old(memory)@.len(),
            Stack::push_outcome(
                *old(self),
                *final(self),
                old(memory)@,
                final(memory)@,
                be_bytes(value as nat, 16),
                r,
            ),
    {
        proof {
            lemma_be_bytes_len(value as nat, 16);
        }
        if !self.has_room(16) {
            return Err(Fault::StackOverflow);
        }
        self.pointer.write_u128(memory, self.top, value)?;
        assert(memory@ =~= splice(
            old(memory)@,
            old(self).window().address() + old(self).top(),
            be_bytes(value as nat, 16),
        ));
        self.top = self.top + 16;
        Ok(())
    }

    /// Pops an unsigned 128-bit integer.
    pub fn pop_u128(&mut self, memory: &_Memory) -> (r: Result<u128, Fault>)
        ensures
            match old(self).frame(memory@).pop(16) {
                Some((next, bytes)) => r == Ok::<u128, Fault>(be_value(bytes) as u128)
                    && final(self).frame(memory@) == next
                    && final(self).window() == old(self).window(),
                None => r == Err::<u128, Fault>(old(self).pop_fault(memory@.len(), 16))
                    && *final(self) == *old(self),
            },
    {
        if self.top < 16 {
            return Err(Fault::StackUnderflow);
        }
        let at = self.top - 16;
        let value = self.pointer.read_u128(memory, at)?;
        self.top = at;
        Ok(value)
    }

    /// Pushes a signed 128-bit integer, most-significant byte first, in two's
    /// complement.
    pub fn push_i128(&mut self, memory: &mut _Memory, value: i128) -> (r: Result<(), Fault>)
        ensures
            final(memory)@.len() == old(memory)@.len(),
            Stack::push_outcome(
                *old(self),
                *final(self),
                old(memory)@,
                final(memory)@,
                be_bytes(unsigned_of(value as int, 16), 16),
                r,
            ),
    {
        proof {
            lemma_be_bytes_len(unsigned_of(value as int, 16), 16);
        }
        if !self.has_room(16) {
            return Err(Fault::StackOverflow);
        }
        self.pointer.write_i128(memory, self.top, value)?;
        assert(memory@ =~= splice(
            old(memory)@,
            old(self).window().address() + old(self).top(),
            be_bytes(unsigned_of(value as int, 16), 16),
        ));
        self.top = self.top + 16;
        Ok(())
    }

    /// Pops a signed 128-bit integer.
    pub fn pop_i128(&mut self, memory: &_Memory) -> (r: Result<i128, Fault>)
        ensures
            match old(self).frame(memory@).pop(16) {
                Some((next, bytes)) => r == Ok::<i128, Fault>(signed_of(be_value(bytes), 16) as i128)
                    && final(self).frame(memory@) == next
                    && final(self).window() == old(self).window(),
                None => r == Err::<i128, Fault>(old(self).pop_fault(memory@.len(), 16))
                    && *final(self) == *old(self),
            },
    {
        if self.top < 16 {
            return Err(Fault::StackUnderflow);
        }
        let at = self.top - 16;
        let value = self.pointer.read_i128(memory, at)?;
        self.top = at;
        Ok(value)
    }

    /// Pushes the bit pattern of a 32-bit floating-point value,
    /// least-significant byte first.
    pub fn push_f32(&mut self, memory: &mut _Memory, bits: u32) -> (r: Result<(), Fault>)
        ensures
            final(memory)@.len() == old(memory)@.len(),
            Stack::push_outcome(
                *old(self),
                *final(self),
                old(memory)@,
                final(memory)@,
                le_bytes(bits as nat, 4),
                r,
            ),
    {
        proof {
            lemma_le_bytes_len(bits as nat, 4);
        }
        if !self.has_room(4) {
            return Err(Fault::StackOverflow);
        }
        self.pointer.write_f32(memory, self.top, bits)?;
        assert(memory@ =~= splice(
            old(memory)@,
            old(self).window().address() + old(self).top(),
            le_bytes(bits as nat, 4),
        ));
        self.top = self.top + 4;
        Ok(())
    }

    /// Pops the bit pattern of a 32-bit floating-point value.
    pub fn pop_f32(&mut self, memory: &_Memory) -> (r: Result<u32, Fault>)
        ensures
            match old(self).frame(memory@).pop(4) {
                Some((next, bytes)) => r == Ok::<u32, Fault>(le_value(bytes) as u32)
                    && final(self).frame(memory@) == next
                    && final(self).window() == old(self).window(),
                None => r == Err::<u32, Fault>(old(self).pop_fault(memory@.len(), 4))
                    && *final(self) == *old(self),
            },
    {
        if self.top < 4 {
            return Err(Fault::StackUnderflow);
        }
        let at = self.top - 4;
        let value = self.pointer.read_f32(memory, at)?;
        self.top = at;
        Ok(value)
    }

    /// Pushes the bit pattern of a 64-bit floating-point value,
    /// least-significant byte first.
    pub fn push_f64(&mut self, memory: &mut _Memory, bits: u64) -> (r: Result<(), Fault>)
        ensures
            final(memory)@.len() == old(memory)@.len(),
            Stack::push_outcome(
                *old(self),
                *final(self),
                old(memory)@,
                final(memory)@,
                le_bytes(bits as nat, 8),
                r,
            ),
    {
        proof {
            lemma_le_bytes_len(bits as nat, 8);
        }
        if !self.has_room(8) {
            return Err(Fault::StackOverflow);
        }
        self.pointer.write_f64(memory, self.top, bits)?;
        assert(memory@ =~= splice(
            old(memory)@,
            old(self).window().address() + old(self).top(),
            le_bytes(bits as nat, 8),
        ));
        self.top = self.top + 8;
        Ok(())
    }

    /// Pops the bit pattern of a 64-bit floating-point value.
    pub fn pop_f64(&mut self, memory: &_Memory) -> (r: Result<u64, Fault>)
        ensures
            match old(self).frame(memory@).pop(8) {
                Some((next, bytes)) => r == Ok::<u64, Fault>(le_value(bytes) as u64)
                    && final(self).frame(memory@) == next
                    && final(self).window() == old(self).window(),
                None => r == Err::<u64, Fault>(old(self).pop_fault(memory@.len(), 8))
                    && *final(self) == *old(self),
            },
    {
        if self.top < 8 {
            return Err(Fault::StackUnderflow);
        }
        let at = self.top - 8;
        let value = self.pointer.read_f64(memory, at)?;
        self.top = at;
        Ok(value)
    }

    /// Pushes `bytes`, the first of them lowest.
    pub fn push_bytes(&mut self, memory: &mut _Memory, bytes: &[u8]) -> (r: Result<(), Fault>)
        ensures
            final(memory)@.len() == old(memory)@.len(),
            Stack::push_outcome(*old(self), *final(self), old(memory)@, final(memory)@, bytes@, r),
    {
        let length = bytes.len();
        if !self.has_room(length) {
            return Err(Fault::StackOverflow);
        }
        self.pointer.write_bytes(memory, self.top, bytes)?;
        self.top = self.top + length;
        Ok(())
    }

    /// Pops `length` bytes, the lowest of them first.
    pub fn pop_bytes(&mut self, memory: &_Memory, length: usize) -> (r: Result<Vec<u8>, Fault>)
        ensures
            match old(self).frame(memory@).pop(length as nat) {
                Some((next, bytes)) => (r matches Ok(popped) && popped@ == bytes)
                    && final(self).frame(memory@) == next
                    && final(self).window() == old(self).window(),
                None => (r matches Err(fault) && fault == old(self).pop_fault(
                    memory@.len(),
                    length,
                )) && *final(self) == *old(self),
            },
    {
        if self.top < length {
            return Err(Fault::StackUnderflow);
        }
        let at = self.top - length;
        let bytes = self.pointer.read_bytes(memory, at, length)?;
        self.top = at;
        Ok(bytes)
    }

    /// Pushes the UTF-8 encoding of `string`.
    pub fn push_string(&mut self, memory: &mut _Memory, string: &str) -> (r: Result<(), Fault>)
        ensures
            final(memory)@.len() == old(memory)@.len(),
            Stack::push_outcome(
                *old(self),
                *final(self),
                old(memory)@,
                final(memory)@,
                encode_utf8(string@),
                r,
            ),
    {
        self.push_bytes(memory, string.as_bytes())
    }

    /// Pops `length` bytes and decodes them as UTF-8 text; each ill-formed
    /// part is replaced as [`text_of`] says.
    pub fn pop_string(&mut self, memory: &_Memory, length: usize) -> (r: Result<String, Fault>)
        ensures
            match old(self).frame(memory@).pop(length as nat) {
                Some((next, bytes)) => (r matches Ok(text) && text@ == text_of(bytes))
                    && final(self).frame(memory@) == next
                    && final(self).window() == old(self).window(),
                None => (r matches Err(fault) && fault == old(self).pop_fault(
                    memory@.len(),
                    length,
                )) && *final(self) == *old(self),
            },
    {
        if self.top < length {
            return Err(Fault::StackUnderflow);
        }
        let at = self.top - length;
        let text = self.pointer.read_string(memory, at, length)?;
        self.top = at;
        Ok(text)
    }
}

/// A value on a stack. Floating-point values stand as their bit patterns.
pub enum Item {
    U8(u8),
    U16(u16),
    U32(u32),
    U64(u64),
    U128(u128),
    I128(i128),
    F32(u32),
    F64(u64),
    Bytes(Seq<u8>),
    Text(Seq<char>),
}

/// What a pop asks for: a kind of value and, for bytes and text, a length
/// in bytes.
pub enum Shape {
    U8,
    U16,
    U32,
    U64,
    U128,
    I128,
    F32,
    F64,
    Bytes(nat),
    Text(nat),
}

impl Item {
    /// The bytes that a push of the value stores.
    pub open spec fn encoding(self) -> Seq<u8> {
        match self {
            Item::U8(value) => seq![value],
            Item::U16(value) => be_bytes(value as nat, 2),
            Item::U32(value) => be_bytes(value as nat, 4),
            Item::U64(value) => be_bytes(value as nat, 8),
            Item::U128(value) => be_bytes(value as nat, 16),
            Item::I128(value) => be_bytes(unsigned_of(value as int, 16), 16),
            Item::F32(bits) => le_bytes(bits as nat, 4),
            Item::F64(bits) => le_bytes(bits as nat, 8),
            Item::Bytes(bytes) => bytes,
            Item::Text(text) => encode_utf8(text),
        }
    }

    /// What the pop asks for that takes the value off again.
    pub open spec fn shape(self) -> Shape {
        match self {
            Item::U8(_) => Shape::U8,
            Item::U16(_) => Shape::U16,
            Item::U32(_) => Shape::U32,
            Item::U64(_) => Shape::U64,
            Item::U128(_) => Shape::U128,
            Item::I128(_) => Shape::I128,
            Item::F32(_) => Shape::F32,
            Item::F64(_) => Shape::F64,
            Item::Bytes(bytes) => Shape::Bytes(bytes.len()),
            Item::Text(text) => Shape::Text(encode_utf8(text).len()),
        }
    }
}

impl Shape {
    /// The number of bytes that the pop takes.
    pub open spec fn width(self) -> nat {
        match self {
            Shape::U8 => 1,
            Shape::U16 => 2,
            Shape::U32 => 4,
            Shape::U64 => 8,
            Shape::U128 => 16,
            Shape::I128 => 16,
            Shape::F32 => 4,
            Shape::F64 => 8,
            Shape::Bytes(length) => length,
            Shape::Text(length) => length,
        }
    }

    /// The value that the pop makes of the bytes it takes.
    pub open spec fn decode(self, bytes: Seq<u8>) -> Item {
        match self {
            Shape::U8 => Item::U8(bytes[0]),
            Shape::U16 => Item::U16(be_value(bytes) as u16),
            Shape::U32 => Item::U32(be_value(bytes) as u32),
            Shape::U64 => Item::U64(be_value(bytes) as u64),
            Shape::U128 => Item::U128(be_value(bytes) as u128),
            Shape::I128 => Item::I128(signed_of(be_value(bytes), 16) as i128),
            Shape::F32 => Item::F32(le_value(bytes) as u32),
            Shape::F64 => Item::F64(le_value(bytes) as u64),
            Shape::Bytes(_) => Item::Bytes(bytes),
            Shape::Text(_) => Item::Text(text_of(bytes)),
        }
    }
}

/// What the pops ask for that take the values off again, in the order of
/// the values.
pub open spec fn shapes_of(items: Seq<Item>) -> Seq<Shape> {
    Seq::new(items.len(), |i: int| items[i].shape())
}

/// The number of bytes that the values take on a stack.
pub open spec fn total_width(items: Seq<Item>) -> nat
    decreases items.len(),
{
    if items.len() == 0 {
        0
    } else {
        total_width(items.drop_last()) + items.last().encoding().len()
    }
}

impl Frame {
    /// The frame after the values were pushed, the first of them first; none
    /// where a push is refused.
    pub open spec fn push_all(self, items: Seq<Item>) -> Option<Frame>
        decreases items.len(),
    {
        if items.len() == 0 {
            Some(self)
        } else {
            match self.push_all(items.drop_last()) {
                Some(frame) => frame.push(items.last().encoding()),
                None => None,
            }
        }
    }

    /// The frame after pops of the shapes, the first of them first, and the
    /// values that came off, in that order; none where a pop is refused.
    pub open spec fn pop_all(self, shapes: Seq<Shape>) -> Option<(Frame, Seq<Item>)>
        decreases shapes.len(),
    {
        if shapes.len() == 0 {
            Some((self, Seq::empty()))
        } else {
            match self.pop(shapes.first().width()) {
                Some((frame, bytes)) => match frame.pop_all(shapes.drop_first()) {
                    Some((rest, items)) => Some(
                        (rest, seq![shapes.first().decode(bytes)] + items),
                    ),
                    None => None,
                },
                None => None,
            }
        }
    }

    /// The two frames are frames of one window with one cursor, on memories
    /// of one size that hold the same bytes in the window under the cursor.
    pub open spec fn same_contents(self, other: Frame) -> bool {
        &&& self.base == other.base
        &&& self.limit == other.limit
        &&& self.top == other.top
        &&& self.memory.len() == other.memory.len()
        &&& forall|i: int|
            self.base <= i < self.base + self.top ==> self.memory[i] == other.memory[i]
    }
}

/// A push or a pop that is granted leaves the cursor inside the window.
pub proof fn lemma_cursor_stays_in_window(frame: Frame, bytes: Seq<u8>, length: nat)
    ensures
        frame.push(bytes) matches Some(next) ==> next.top <= next.limit,
        frame.pop(length) matches Some((next, _)) ==> next.top <= next.limit,
{
}

/// The bytes that a value is stored as are as many as its pop takes, and
/// the pop makes the value of them again.
pub proof fn lemma_decode_encoding(item: Item)
    ensures
        item.encoding().len() == item.shape().width(),
        item.shape().decode(item.encoding()) == item,
{
    lemma_radix_values();
    match item {
        Item::U8(value) => {},
        Item::U16(value) => {
            lemma_be_bytes_len(value as nat, 2);
            lemma_be_value_of_bytes(value as nat, 2);
        },
        Item::U32(value) => {
            lemma_be_bytes_len(value as nat, 4);
            lemma_be_value_of_bytes(value as nat, 4);
        },
        Item::U64(value) => {
            lemma_be_bytes_len(value as nat, 8);
            lemma_be_value_of_bytes(value as nat, 8);
        },
        Item::U128(value) => {
            lemma_be_bytes_len(value as nat, 16);
            lemma_be_value_of_bytes(value as nat, 16);
        },
        Item::I128(value) => {
            lemma_signed_of_unsigned(value as int, 16);
            lemma_be_bytes_len(unsigned_of(value as int, 16), 16);
            lemma_be_value_of_bytes(unsigned_of(value as int, 16), 16);
        },
        Item::F32(bits) => {
            lemma_le_bytes_len(bits as nat, 4);
            lemma_le_value_of_bytes(bits as nat, 4);
        },
        Item::F64(bits) => {
            lemma_le_bytes_len(bits as nat, 8);
            lemma_le_value_of_bytes(bits as nat, 8);
        },
        Item::Bytes(bytes) => {},
        Item::Text(text) => {
            encode_utf8_valid_utf8(text);
            encode_utf8_decode_utf8(text);
        },
    }
}

/// Pushes that fit in the window, itself inside the memory, are all
/// granted. They move the cursor up by the bytes of the values and leave the
/// bytes under the old cursor as they were.
pub proof fn lemma_push_all_granted(frame: Frame, items: Seq<Item>)
    requires
        frame.top + total_width(items) <= frame.limit,
        frame.base + frame.limit <= frame.memory.len(),
    ensures
        frame.push_all(items) matches Some(full) && full.base == frame.base && full.limit
            == frame.limit && full.top == frame.top + total_width(items) && full.memory.len()
            == frame.memory.len() && (forall|i: int|
            0 <= i < frame.base + frame.top ==> full.memory[i] == frame.memory[i]),
    decreases items.len(),
{
    if items.len() > 0 {
        lemma_push_all_granted(frame, items.drop_last());
    }
}

/// Where values were pushed, and the bytes under the cursor are still those
/// that the pushes left, the matching pops in reverse order give the values
/// back, the last of them first, and bring the cursor back to where it was
/// before the pushes, over the bytes that lay under it then.
pub proof fn lemma_pops_undo_pushes(frame: Frame, items: Seq<Item>, now: Frame)
    requires
        frame.top + total_width(items) <= frame.limit,
        frame.base + frame.limit <= frame.memory.len(),
        frame.push_all(items) matches Some(full) && now.same_contents(full),
    ensures
        now.pop_all(shapes_of(items).reverse()) matches Some((rest, popped)) && popped
            == items.reverse() && rest.same_contents(frame),
    decreases items.len(),
{
    let shapes = shapes_of(items).reverse();
    if items.len() == 0 {
        lemma_push_all_granted(frame, items);
        assert(now.pop_all(shapes).unwrap().1 =~= items.reverse());
    } else {
        let earlier = items.drop_last();
        let last = items.last();
        lemma_push_all_granted(frame, earlier);
        lemma_push_all_granted(frame, items);
        lemma_decode_encoding(last);
        let below = frame.push_all(earlier).unwrap();
        let full = frame.push_all(items).unwrap();
        assert(shapes.first() == last.shape());
        assert(shapes.drop_first() =~= shapes_of(earlier).reverse());
        let (next, bytes) = now.pop(last.shape().width()).unwrap();
        assert(bytes =~= last.encoding());
        lemma_pops_undo_pushes(frame, earlier, next);
        let (rest, popped) = next.pop_all(shapes_of(earlier).reverse()).unwrap();
        assert(seq![last] + popped =~= items.reverse());
    }
}

/// Values that are pushed onto a stack whose window, itself inside the
/// memory, has room for them all come back from the matching pops in reverse
/// order, the last of them first, and the cursor is then where it was before
/// the pushes: at the window's start where the stack was empty.
pub proof fn lemma_last_in_first_out(frame: Frame, items: Seq<Item>)
    requires
        frame.top + total_width(items) <= frame.limit,
        frame.base + frame.limit <= frame.memory.len(),
    ensures
        frame.push_all(items) matches Some(full) && (full.pop_all(
            shapes_of(items).reverse(),
        ) matches Some((rest, popped)) && popped == items.reverse() && rest.top == frame.top),
{
    lemma_push_all_granted(frame, items);
    lemma_pops_undo_pushes(frame, items, frame.push_all(items).unwrap());
}

} // verus!
