//! The failures that memory, allocator, stack and core report.

use crate::text::{decimal, hex_upper_4, push_decimal, push_hex_upper_4};
use vstd::prelude::*;
use vstd::string::StringExecFns;

verus! {

/// Why an operation was refused. A refused operation changes nothing.
///
/// Addresses and lengths are widened to 64 bits, so that a fault raised on a
/// 64-bit instruction pointer carries the register's full value.
#[derive(Debug, Clone, Copy, PartialEq, Eq)]
pub enum Fault {
    /// An access of `length` bytes at offset `at` does not fit in a region of
    /// `size` bytes that starts at the absolute address `base`.
    OutOfBounds { base: u64, size: u64, at: u64, length: u64 },
    /// An allocation of `requested` bytes with only `left` bytes remaining.
    OutOfMemory { left: u64, requested: u64 },
    /// No live mapping contains `address`.
    UnmappedAddress { address: u64 },
    /// A pop of more bytes than the stack holds.
    StackUnderflow,
    /// The stack cursor is, or would be, past the end of the stack's window.
    StackOverflow,
    /// No instruction has this opcode, or this sub-operation under it.
    UnknownInstruction { opcode: u8, subop: Option<u8> },
    /// An instruction names a register that the register file does not have.
    InvalidRegister { index: u8 },
}

impl Fault {
    /// The absolute address of the first byte of a refused access: the
    /// region's base plus the offset into it.
    pub open spec fn absolute_address(self) -> int {
        match self {
            Fault::OutOfBounds { base, at, .. } => base + at,
            _ => 0,
        }
    }
}

/// A number as diagnostics show it: in hexadecimal of four digits or more
/// after `0x`, then in decimal between brackets.
pub open spec fn both_ways(n: nat) -> Seq<char> {
    "0x"@ + hex_upper_4(n) + "("@ + decimal(n) + ")"@
}

/// Appends `n` as [`both_ways`] shows it.
fn push_both_ways(text: &mut String, n: u128)
    ensures
        final(text)@ == old(text)@ + both_ways(n as nat),
{
    text.append("0x");
    push_hex_upper_4(text, n);
    text.append("(");
    push_decimal(text, n);
    text.append(")");
    assert(text@ =~= old(text)@ + both_ways(n as nat));
}

impl Fault {
    /// The message for the fault. A refused access to a region that starts
    /// at address zero is told as one to the memory itself, with the
    /// memory's size; one to any other region is told by its absolute
    /// address.
    pub open spec fn message(self) -> Seq<char> {
        match self {
            Fault::OutOfBounds { base, size, at, length } => if base == 0 {
                "Memory size is "@ + both_ways(size as nat) + ", but trying to access at "@
                    + both_ways(at as nat) + " with "@ + both_ways(length as nat) + " bytes"@
            } else {
                "Access volatile memory at "@ + both_ways((base + at) as nat) + " with "@
                    + both_ways(length as nat) + " bytes"@
            },
            Fault::OutOfMemory { left, requested } => "Out of memory, memory left is "@
                + both_ways(left as nat) + " but trying to allocate "@ + both_ways(
                requested as nat,
            ),
            Fault::UnmappedAddress { address } => "Unmapped address: 0x"@ + hex_upper_4(
                address as nat,
            ),
            Fault::StackUnderflow => "Stack underflow"@,
            Fault::StackOverflow => "Stack overflow"@,
            Fault::UnknownInstruction { opcode, subop } => match subop {
                Some(subop) => "Unknown instruction: "@ + decimal(opcode as nat) + ":"@
                    + decimal(subop as nat),
                None => "Unknown instruction: "@ + decimal(opcode as nat),
            },
            Fault::InvalidRegister { index } => "Unknown register: "@ + decimal(index as nat),
        }
    }

    /// The message for the fault.
    pub fn to_string(&self) -> (text: String)
        ensures
            text@ == self.message(),
    {
        let mut text = String::new();
        match *self {
            Fault::OutOfBounds { base, size, at, length } => {
                if base == 0 {
                    text.append("Memory size is ");
                    push_both_ways(&mut text, size as u128);
                    text.append(", but trying to access at ");
                    push_both_ways(&mut text, at as u128);
                } else {
                    text.append("Access volatile memory at ");
                    push_both_ways(&mut text, base as u128 + at as u128);
                }
                text.append(" with ");
                push_both_ways(&mut text, length as u128);
                text.append(" bytes");
            },
            Fault::OutOfMemory { left, requested } => {
                text.append("Out of memory, memory left is ");
                push_both_ways(&mut text, left as u128);
                text.append(" but trying to allocate ");
                push_both_ways(&mut text, requested as u128);
            },
            Fault::UnmappedAddress { address } => {
                text.append("Unmapped address: 0x");
                push_hex_upper_4(&mut text, address as u128);
            },
            Fault::StackUnderflow => {
                text.append("Stack underflow");
            },
            Fault::StackOverflow => {
                text.append("Stack overflow");
            },
            Fault::UnknownInstruction { opcode, subop } => {
                text.append("Unknown instruction: ");
                push_decimal(&mut text, opcode as u128);
                match subop {
                    Some(subop) => {
                        text.append(":");
                        push_decimal(&mut text, subop as u128);
                    },
                    None => {},
                }
            },
            Fault::InvalidRegister { index } => {
                text.append("Unknown register: ");
                push_decimal(&mut text, index as u128);
            },
        }
        assert(text@ =~= self.message());
        text
    }
}

/// The fault for an access of `length` bytes at `at` in a region of `size`
/// bytes that starts at `base`.
pub open spec fn out_of_bounds(base: usize, size: usize, at: usize, length: usize) -> Fault {
    Fault::OutOfBounds { base: base as u64, size: size as u64, at: at as u64, length: length as u64 }
}

} // verus!
