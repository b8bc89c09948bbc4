//! Registers: cells that hold one number each, and the file of cells that
//! a core works on.

use crate::fault::Fault;
use vstd::prelude::*;

verus! {

/// A cell that holds one value of type `T`.
pub trait RegisterTrait<T> {
    /// The value in the cell.
    spec fn value(&self) -> T;

    /// The value in the cell.
    fn get(&self) -> (value: T)
        ensures
            value == self.value(),
    ;

    /// Puts `value` in the cell.
    fn set(&mut self, value: T)
        ensures
            final(self).value() == value,
    ;
}

/// A cell for an unsigned 8-bit integer.
#[derive(Debug, Clone, Copy, PartialEq, Eq)]
pub struct RegisterU8(pub u8);

impl RegisterTrait<u8> for RegisterU8 {
    open spec fn value(&self) -> u8 {
        self.0
    }

    fn get(&self) -> (value: u8) {
        self.0
    }

    fn set(&mut self, value: u8) {
        self.0 = value;
    }
}

/// A cell for an unsigned 16-bit integer.
#[derive(Debug, Clone, Copy, PartialEq, Eq)]
pub struct RegisterU16(pub u16);

impl RegisterTrait<u16> for RegisterU16 {
    open spec fn value(&self) -> u16 {
        self.0
    }

    fn get(&self) -> (value: u16) {
        self.0
    }

    fn set(&mut self, value: u16) {
        self.0 = value;
    }
}

/// A cell for an unsigned 32-bit integer.
#[derive(Debug, Clone, Copy, PartialEq, Eq)]
pub struct RegisterU32(pub u32);

impl RegisterTrait<u32> for RegisterU32 {
    open spec fn value(&self) -> u32 {
        self.0
    }

    fn get(&self) -> (value: u32) {
        self.0
    }

    fn set(&mut self, value: u32) {
        self.0 = value;
    }
}

/// A cell for an unsigned 64-bit integer.
#[derive(Debug, Clone, Copy, PartialEq, Eq)]
pub struct RegisterU64(pub u64);

impl RegisterTrait<u64> for RegisterU64 {
    open spec fn value(&self) -> u64 {
        self.0
    }

    fn get(&self) -> (value: u64) {
        self.0
    }

    fn set(&mut self, value: u64) {
        self.0 = value;
    }
}

/// A cell for an unsigned 128-bit integer.
#[derive(Debug, Clone, Copy, PartialEq, Eq)]
pub struct RegisterU128(pub u128);

impl RegisterTrait<u128> for RegisterU128 {
    open spec fn value(&self) -> u128 {
        self.0
    }

    fn get(&self) -> (value: u128) {
        self.0
    }

    fn set(&mut self, value: u128) {
        self.0 = value;
    }
}

/// A cell for a signed 8-bit integer.
#[derive(Debug, Clone, Copy, PartialEq, Eq)]
pub struct RegisterI8(pub i8);

impl RegisterTrait<i8> for RegisterI8 {
    open spec fn value(&self) -> i8 {
        self.0
    }

    fn get(&self) -> (value: i8) {
        self.0
    }

    fn set(&mut self, value: i8) {
        self.0 = value;
    }
}

/// A cell for a signed 16-bit integer.
#[derive(Debug, Clone, Copy, PartialEq, Eq)]
pub struct RegisterI16(pub i16);

impl RegisterTrait<i16> for RegisterI16 {
    open spec fn value(&self) -> i16 {
        self.0
    }

    fn get(&self) -> (value: i16) {
        self.0
    }

    fn set(&mut self, value: i16) {
        self.0 = value;
    }
}

/// A cell for a signed 32-bit integer.
#[derive(Debug, Clone, Copy, PartialEq, Eq)]
pub struct RegisterI32(pub i32);

impl RegisterTrait<i32> for RegisterI32 {
    open spec fn value(&self) -> i32 {
        self.0
    }

    fn get(&self) -> (value: i32) {
        self.0
    }

    fn set(&mut self, value: i32) {
        self.0 = value;
    }
}

/// A cell for a signed 64-bit integer.
#[derive(Debug, Clone, Copy, PartialEq, Eq)]
pub struct RegisterI64(pub i64);

impl RegisterTrait<i64> for RegisterI64 {
    open spec fn value(&self) -> i64 {
        self.0
    }

    fn get(&self) -> (value: i64) {
        self.0
    }

    fn set(&mut self, value: i64) {
        self.0 = value;
    }
}

/// A cell for a signed 128-bit integer.
#[derive(Debug, Clone, Copy, PartialEq, Eq)]
pub struct RegisterI128(pub i128);

impl RegisterTrait<i128> for RegisterI128 {
    open spec fn value(&self) -> i128 {
        self.0
    }

    fn get(&self) -> (value: i128) {
        self.0
    }

    fn set(&mut self, value: i128) {
        self.0 = value;
    }
}

/// A cell for the bit pattern of a 32-bit floating-point value.
#[derive(Debug, Clone, Copy, PartialEq, Eq)]
pub struct RegisterF32(pub u32);

impl RegisterTrait<u32> for RegisterF32 {
    open spec fn value(&self) -> u32 {
        self.0
    }

    fn get(&self) -> (value: u32) {
        self.0
    }

    fn set(&mut self, value: u32) {
        self.0 = value;
    }
}

/// A cell for the bit pattern of a 64-bit floating-point value.
#[derive(Debug, Clone, Copy, PartialEq, Eq)]
pub struct RegisterF64(pub u64);

impl RegisterTrait<u64> for RegisterF64 {
    open spec fn value(&self) -> u64 {
        self.0
    }

    fn get(&self) -> (value: u64) {
        self.0
    }

    fn set(&mut self, value: u64) {
        self.0 = value;
    }
}

/// The number of integer registers.
pub const INTEGER_REGISTERS: usize = 8;

/// The number of floating-point registers.
pub const FLOAT_REGISTERS: usize = 4;

/// The integer register that holds the stack pointer.
pub const STACK_POINTER: usize = 5;

/// The integer register that holds the instruction pointer.
pub const INSTRUCTION_POINTER: usize = 6;

/// The integer register that holds the flags.
pub const FLAGS: usize = 7;

/// The values of a register file: those of the integer registers and the
/// bit patterns of the floating-point registers, each by index.
pub struct Registers {
    pub integers: Seq<u64>,
    pub floats: Seq<u64>,
}

/// The registers of a core: eight integer registers, of which the last
/// three have the roles that `STACK_POINTER`, `INSTRUCTION_POINTER` and
/// `FLAGS` name, and four floating-point registers.
#[derive(Debug, Clone, Copy, PartialEq, Eq)]
pub struct RegisterFile {
    pub ru64: [RegisterU64; 8],
    pub fu64: [RegisterF64; 4],
}

impl View for RegisterFile {
    type V = Registers;

    open spec fn view(&self) -> Registers {
        Registers {
            integers: Seq::new(INTEGER_REGISTERS as nat, |i: int| self.ru64[i].0),
            floats: Seq::new(FLOAT_REGISTERS as nat, |i: int| self.fu64[i].0),
        }
    }
}

impl RegisterFile {
    /// A register file with zero in every register.
    pub fn new() -> (file: Self)
        ensures
            file@.integers == Seq::new(INTEGER_REGISTERS as nat, |i: int| 0u64),
            file@.floats == Seq::new(FLOAT_REGISTERS as nat, |i: int| 0u64),
    {
        let file = RegisterFile {
            ru64: [
                RegisterU64(0),
                RegisterU64(0),
                RegisterU64(0),
                RegisterU64(0),
                RegisterU64(0),
                RegisterU64(0),
                RegisterU64(0),
                RegisterU64(0),
            ],
            fu64: [RegisterF64(0), RegisterF64(0), RegisterF64(0), RegisterF64(0)],
        };
        assert(file@.integers =~= Seq::new(INTEGER_REGISTERS as nat, |i: int| 0u64));
        assert(file@.floats =~= Seq::new(FLOAT_REGISTERS as nat, |i: int| 0u64));
        file
    }

    /// The value of the integer register `index`. Refused where there is
    /// no such register.
    pub fn integer(&self, index: u8) -> (r: Result<u64, Fault>)
        ensures
            index < INTEGER_REGISTERS ==> r == Ok::<u64, Fault>(self@.integers[index as int]),
            index >= INTEGER_REGISTERS ==> r == Err::<u64, Fault>(Fault::InvalidRegister { index }),
    {
        if index as usize >= INTEGER_REGISTERS {
            return Err(Fault::InvalidRegister { index });
        }
        Ok(self.ru64[index as usize].get())
    }

    /// Puts `value` in the integer register `index`. Refused where there is
    /// no such register.
    pub fn set_integer(&mut self, index: u8, value: u64) -> (r: Result<(), Fault>)
        ensures
            index < INTEGER_REGISTERS ==> r == Ok::<(), Fault>(()) && final(self)@ == (Registers {
                integers: old(self)@.integers.update(index as int, value),
                ..old(self)@
            }),
            index >= INTEGER_REGISTERS ==> r == Err::<(), Fault>(Fault::InvalidRegister { index })
                && *final(self) == *old(self),
    {
        if index as usize >= INTEGER_REGISTERS {
            return Err(Fault::InvalidRegister { index });
        }
        self.ru64[index as usize] = RegisterU64(value);
        assert(self@.integers =~= old(self)@.integers.update(index as int, value));
        assert(self@.floats =~= old(self)@.floats);
        Ok(())
    }

    /// The bit pattern in the floating-point register `index`. Refused
    /// where there is no such register.
    pub fn float(&self, index: u8) -> (r: Result<u64, Fault>)
        ensures
            index < FLOAT_REGISTERS ==> r == Ok::<u64, Fault>(self@.floats[index as int]),
            index >= FLOAT_REGISTERS ==> r == Err::<u64, Fault>(Fault::InvalidRegister { index }),
    {
        if index as usize >= FLOAT_REGISTERS {
            return Err(Fault::InvalidRegister { index });
        }
        Ok(self.fu64[index as usize].get())
    }

    /// Puts the bit pattern `bits` in the floating-point register `index`.
    /// Refused where there is no such register.
    pub fn set_float(&mut self, index: u8, bits: u64) -> (r: Result<(), Fault>)
        ensures
            index < FLOAT_REGISTERS ==> r == Ok::<(), Fault>(()) && final(self)@ == (Registers {
                floats: old(self)@.floats.update(index as int, bits),
                ..old(self)@
            }),
            index >= FLOAT_REGISTERS ==> r == Err::<(), Fault>(Fault::InvalidRegister { index })
                && *final(self) == *old(self),
    {
        if index as usize >= FLOAT_REGISTERS {
            return Err(Fault::InvalidRegister { index });
        }
        self.fu64[index as usize] = RegisterF64(bits);
        assert(self@.floats =~= old(self)@.floats.update(index as int, bits));
        assert(self@.integers =~= old(self)@.integers);
        Ok(())
    }
}

} // verus!
