//! The core: it fetches an instruction word from memory, decodes it, and
//! executes it on its registers.
//!
//! An instruction is four bytes: the operation, the sub-operation and two
//! arguments. The instruction pointer counts from the core's code offset.
//! A step that is refused leaves the core as it was.

use crate::codec::{be_value, lemma_be_value_bound, lemma_radix_values};
use crate::fault::Fault;
use crate::mem::{window, _Memory};
use crate::register::{
    RegisterFile, RegisterTrait, RegisterU64, Registers, FLOAT_REGISTERS, INSTRUCTION_POINTER,
    INTEGER_REGISTERS,
};
use crate::wrappers::stack::Stack;
use vstd::prelude::*;

verus! {

/// The operation that copies and loads registers.
pub const OPCODE_MOV: u8 = 1;

/// Under `OPCODE_MOV`: copy the integer register `arg1` to the integer
/// register `arg0`.
pub const MOV_INTEGER: u8 = 0;

/// Under `OPCODE_MOV`: copy the floating-point register `arg1` to the
/// floating-point register `arg0`.
pub const MOV_FLOAT: u8 = 1;

/// Under `OPCODE_MOV`: load the product of `arg0` and `arg1` into the
/// integer register 0.
pub const MOV_IMMEDIATE: u8 = 2;

/// The number of bytes of an instruction.
pub const INSTRUCTION_BYTES: usize = 4;

/// The four fields of an instruction.
#[derive(Debug, Clone, Copy, PartialEq, Eq)]
pub struct Instruction {
    pub opcode: u8,
    pub subop: u8,
    pub arg0: u8,
    pub arg1: u8,
}

/// The instruction in a word: its four bytes, the most significant first,
/// are the operation, the sub-operation and the two arguments.
pub open spec fn decoded(word: u32) -> Instruction {
    Instruction {
        opcode: (word / 0x100_0000) as u8,
        subop: (word / 0x1_0000 % 0x100) as u8,
        arg0: (word / 0x100 % 0x100) as u8,
        arg1: (word % 0x100) as u8,
    }
}

/// What an instruction makes of the registers, or the fault that it is
/// refused with.
pub open spec fn executed(registers: Registers, instruction: Instruction) -> Result<
    Registers,
    Fault,
> {
    let Instruction { opcode, subop, arg0, arg1 } = instruction;
    if opcode != OPCODE_MOV {
        Err(Fault::UnknownInstruction { opcode, subop: None })
    } else if subop == MOV_INTEGER {
        if arg1 >= INTEGER_REGISTERS {
            Err(Fault::InvalidRegister { index: arg1 })
        } else if arg0 >= INTEGER_REGISTERS {
            Err(Fault::InvalidRegister { index: arg0 })
        } else {
            Ok(
                Registers {
                    integers: registers.integers.update(
                        arg0 as int,
                        registers.integers[arg1 as int],
                    ),
                    ..registers
                },
            )
        }
    } else if subop == MOV_FLOAT {
        if arg1 >= FLOAT_REGISTERS {
            Err(Fault::InvalidRegister { index: arg1 })
        } else if arg0 >= FLOAT_REGISTERS {
            Err(Fault::InvalidRegister { index: arg0 })
        } else {
            Ok(
                Registers {
                    floats: registers.floats.update(arg0 as int, registers.floats[arg1 as int]),
                    ..registers
                },
            )
        }
    } else if subop == MOV_IMMEDIATE {
        Ok(Registers { integers: registers.integers.update(0, (arg0 * arg1) as u64), ..registers })
    } else {
        Err(Fault::UnknownInstruction { opcode, subop: Some(subop) })
    }
}

/// The registers after a reset: zero in the instruction pointer, the others
/// as they were.
pub open spec fn restarted(registers: Registers) -> Registers {
    Registers { integers: registers.integers.update(INSTRUCTION_POINTER as int, 0), ..registers }
}

/// Splits a word into the four fields of an instruction.
pub fn decode(word: u32) -> (instruction: Instruction)
    ensures
        instruction == decoded(word),
{
    Instruction {
        opcode: (word / 0x100_0000) as u8,
        subop: (word / 0x1_0000 % 0x100) as u8,
        arg0: (word / 0x100 % 0x100) as u8,
        arg1: (word % 0x100) as u8,
    }
}

/// Executes one instruction on the registers. Refused, with the registers
/// as they were, where the instruction is unknown or names a register that
/// the file does not have.
pub fn execute(registers: &mut RegisterFile, instruction: Instruction) -> (r: Result<(), Fault>)
    ensures
        match executed(old(registers)@, instruction) {
            Ok(next) => r == Ok::<(), Fault>(()) && final(registers)@ == next,
            Err(fault) => r == Err::<(), Fault>(fault) && *final(registers) == *old(registers),
        },
{
    let Instruction { opcode, subop, arg0, arg1 } = instruction;
    if opcode != OPCODE_MOV {
        return Err(Fault::UnknownInstruction { opcode, subop: None });
    }
    if subop == MOV_INTEGER {
        let value = registers.integer(arg1)?;
        registers.set_integer(arg0, value)
    } else if subop == MOV_FLOAT {
        let bits = registers.float(arg1)?;
        registers.set_float(arg0, bits)
    } else if subop == MOV_IMMEDIATE {
        assert(arg0 * arg1 <= 255 * 255) by (nonlinear_arith)
            requires
                arg0 <= 255,
                arg1 <= 255,
        ;
        registers.set_integer(0, arg0 as u64 * arg1 as u64)
    } else {
        Err(Fault::UnknownInstruction { opcode, subop: Some(subop) })
    }
}

/// What a core does in a cycle, and how it is brought back to its start.
pub trait CPUTrait {
    /// Fetches, decodes and executes one instruction.
    fn step(&mut self, memory: &mut _Memory) -> (r: Result<(), Fault>);

    /// Brings the core back to the start of its program.
    fn reset(&mut self);
}

/// A core with a register file, a stack, and the offset in memory from
/// which its instruction pointer counts.
#[derive(Debug)]
pub struct MiniCPU {
    pub registers: RegisterFile,
    pub stack: Stack,
    pub ipoffset: usize,
}

impl MiniCPU {
    /// The value of the instruction pointer register.
    pub open spec fn instruction_pointer(&self) -> u64 {
        self.registers@.integers[INSTRUCTION_POINTER as int]
    }

    /// Whether a memory of `size` bytes holds a whole instruction at the
    /// instruction pointer.
    pub open spec fn can_fetch(&self, size: nat) -> bool {
        self.ipoffset + self.instruction_pointer() + INSTRUCTION_BYTES <= size
    }

    /// The fault that a fetch is answered with where a memory of `size`
    /// bytes holds no whole instruction at the instruction pointer. It
    /// names the part of the memory from the code offset on.
    pub open spec fn fetch_fault(&self, size: nat) -> Fault {
        Fault::OutOfBounds {
            base: self.ipoffset as u64,
            size: if self.ipoffset <= size {
                (size - self.ipoffset) as u64
            } else {
                0
            },
            at: self.instruction_pointer(),
            length: INSTRUCTION_BYTES as u64,
        }
    }

    /// The instruction word at the address `at` of the memory.
    pub open spec fn fetched_at(&self, memory: Seq<u8>, at: int) -> u32 {
        be_value(window(memory, at, INSTRUCTION_BYTES as int)) as u32
    }

    /// The instruction word at the instruction pointer.
    pub open spec fn fetched(&self, memory: Seq<u8>) -> u32 {
        self.fetched_at(memory, self.ipoffset + self.instruction_pointer())
    }

    /// The registers with the instruction pointer moved past one
    /// instruction.
    pub open spec fn advanced(&self) -> Registers {
        Registers {
            integers: self.registers@.integers.update(
                INSTRUCTION_POINTER as int,
                (self.instruction_pointer() + INSTRUCTION_BYTES) as u64,
            ),
            ..self.registers@
        }
    }

    /// The registers after a step on `memory`, or the fault that the step
    /// is refused with: the instruction at the instruction pointer,
    /// executed on the registers with the pointer moved past it.
    pub open spec fn stepped(&self, memory: Seq<u8>) -> Result<Registers, Fault> {
        if self.can_fetch(memory.len()) {
            executed(self.advanced(), decoded(self.fetched(memory)))
        } else {
            Err(self.fetch_fault(memory.len()))
        }
    }

    /// A core on `stack`, with zero in every register and the code offset
    /// at zero.
    pub fn new(stack: Stack) -> (cpu: Self)
        ensures
            cpu.registers@.integers == Seq::new(INTEGER_REGISTERS as nat, |i: int| 0u64),
            cpu.registers@.floats == Seq::new(FLOAT_REGISTERS as nat, |i: int| 0u64),
            cpu.stack == stack,
            cpu.ipoffset == 0,
    {
        MiniCPU { registers: RegisterFile::new(), stack, ipoffset: 0 }
    }

    /// Sets the offset in memory from which the instruction pointer counts.
    pub fn start_at(&mut self, offset: usize)
        ensures
            final(self).ipoffset == offset,
            final(self).registers == old(self).registers,
            final(self).stack == old(self).stack,
    {
        self.ipoffset = offset;
    }

    /// Reads the instruction at the instruction pointer. Refused where the
    /// memory holds no whole instruction there.
    pub fn fetch_instruction(&self, memory: &_Memory) -> (r: Result<Instruction, Fault>)
        ensures
            self.can_fetch(memory@.len()) ==> r == Ok::<Instruction, Fault>(
                decoded(self.fetched(memory@)),
            ),
            !self.can_fetch(memory@.len()) ==> r == Err::<Instruction, Fault>(
                self.fetch_fault(memory@.len()),
            ),
    {
        let pointer = self.registers.ru64[INSTRUCTION_POINTER].get();
        let size = memory.len();
        let held = if self.ipoffset <= size {
            size - self.ipoffset
        } else {
            0
        };
        if held < INSTRUCTION_BYTES || pointer > (held - INSTRUCTION_BYTES) as u64 {
            return Err(
                Fault::OutOfBounds {
                    base: self.ipoffset as u64,
                    size: held as u64,
                    at: pointer,
                    length: INSTRUCTION_BYTES as u64,
                },
            );
        }
        let word = memory.read_u32(self.ipoffset + pointer as usize)?;
        Ok(decode(word))
    }
}

impl CPUTrait for MiniCPU {
    /// Fetches the instruction at the instruction pointer, moves the
    /// pointer past it, and executes it. Refused, with the core as it was,
    /// where the fetch or the instruction is. The memory stays as it was.
    fn step(&mut self, memory: &mut _Memory) -> (r: Result<(), Fault>)
        ensures
            final(memory)@ == old(memory)@,
            match old(self).stepped(old(memory)@) {
                Ok(next) => r == Ok::<(), Fault>(()) && final(self).registers@ == next
                    && final(self).stack == old(self).stack
                    && final(self).ipoffset == old(self).ipoffset,
                Err(fault) => r == Err::<(), Fault>(fault) && *final(self) == *old(self),
            },
    {
        let instruction = self.fetch_instruction(memory)?;
        let pointer = self.registers.ru64[INSTRUCTION_POINTER].get();
        proof {
            memory.lemma_length_fits();
        }
        let mut next = self.registers;
        next.ru64[INSTRUCTION_POINTER] = RegisterU64(pointer + 4);
        assert(next@.integers =~= self.advanced().integers);
        assert(next@.floats =~= self.advanced().floats);
        execute(&mut next, instruction)?;
        self.registers = next;
        Ok(())
    }

    /// Puts zero in the instruction pointer and empties the stack. The
    /// other registers and the code offset stay as they were.
    fn reset(&mut self)
        ensures
            final(self).registers@ == restarted(old(self).registers@),
            final(self).stack.top() == 0,
            final(self).stack.window() == old(self).stack.window(),
            final(self).ipoffset == old(self).ipoffset,
    {
        self.stack.reset();
        self.registers.ru64[INSTRUCTION_POINTER] = RegisterU64(0);
        assert(self.registers@.integers =~= old(self).registers@.integers.update(
            INSTRUCTION_POINTER as int,
            0,
        ));
        assert(self.registers@.floats =~= old(self).registers@.floats);
    }
}

/// The fields of the instruction in a word are the word's four bytes, the
/// most significant first.
pub proof fn lemma_decoded_bytes(bytes: Seq<u8>)
    requires
        bytes.len() == INSTRUCTION_BYTES,
    ensures
        decoded(be_value(bytes) as u32) == (Instruction {
            opcode: bytes[0],
            subop: bytes[1],
            arg0: bytes[2],
            arg1: bytes[3],
        }),
{
    let three = bytes.drop_last();
    let two = three.drop_last();
    let one = two.drop_last();
    assert(be_value(one.drop_last()) == 0);
    assert(be_value(one) == bytes[0]);
    assert(be_value(two) == bytes[0] * 0x100 + bytes[1]);
    assert(be_value(three) == bytes[0] * 0x1_0000 + bytes[1] * 0x100 + bytes[2]);
    assert(be_value(bytes) == bytes[0] * 0x100_0000 + bytes[1] * 0x1_0000 + bytes[2] * 0x100
        + bytes[3]);
}

/// The instruction that a core fetches is made of the four bytes of the
/// memory at the code offset plus the instruction pointer.
pub proof fn lemma_fetched_fields(cpu: MiniCPU, memory: Seq<u8>)
    requires
        cpu.can_fetch(memory.len()),
    ensures
        decoded(cpu.fetched(memory)) == (Instruction {
            opcode: memory[cpu.ipoffset + cpu.instruction_pointer()],
            subop: memory[cpu.ipoffset + cpu.instruction_pointer() + 1],
            arg0: memory[cpu.ipoffset + cpu.instruction_pointer() + 2],
            arg1: memory[cpu.ipoffset + cpu.instruction_pointer() + 3],
        }),
{
    lemma_decoded_bytes(
        window(memory, cpu.ipoffset + cpu.instruction_pointer(), INSTRUCTION_BYTES as int),
    );
}

/// Whatever a core did before, after a reset its step fetches the
/// instruction at the code offset itself: the four bytes of the memory
/// there decide what the step does.
pub proof fn lemma_step_after_reset_fetches_at_offset(
    cpu: MiniCPU,
    earlier: Registers,
    memory: Seq<u8>,
)
    requires
        earlier.integers.len() == INTEGER_REGISTERS,
        cpu.registers@ == restarted(earlier),
    ensures
        cpu.instruction_pointer() == 0,
        cpu.can_fetch(memory.len()) <==> cpu.ipoffset + INSTRUCTION_BYTES <= memory.len(),
        cpu.fetched(memory) == cpu.fetched_at(memory, cpu.ipoffset as int),
        cpu.can_fetch(memory.len()) ==> cpu.stepped(memory) == executed(
            cpu.advanced(),
            Instruction {
                opcode: memory[cpu.ipoffset as int],
                subop: memory[cpu.ipoffset + 1],
                arg0: memory[cpu.ipoffset + 2],
                arg1: memory[cpu.ipoffset + 3],
            },
        ),
        cpu.advanced().integers[INSTRUCTION_POINTER as int] == INSTRUCTION_BYTES,
{
    if cpu.can_fetch(memory.len()) {
        lemma_fetched_fields(cpu, memory);
    }
}

} // verus!
