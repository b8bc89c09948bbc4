use avm_rs::cpu::{decode, execute, CPUTrait, Instruction, MiniCPU};
use avm_rs::fault::Fault;
use avm_rs::mem::_Memory;
use avm_rs::register::{
    RegisterF64, RegisterFile, RegisterI16, RegisterTrait, RegisterU64, RegisterU8, FLAGS,
    INSTRUCTION_POINTER, STACK_POINTER,
};
use avm_rs::vmem::VirtualMemory;
use avm_rs::wrappers::stack::Stack;

fn machine(program: &[u8]) -> (_Memory, MiniCPU) {
    let mut m = _Memory::new(1024);
    let mut vm = VirtualMemory::new(&m);
    let code = vm.allocate(256).unwrap();
    code.write_bytes(&mut m, 0, program).unwrap();
    let stack = Stack::new(vm.allocate(256).unwrap());
    (m, MiniCPU::new(stack))
}

fn integers(cpu: &MiniCPU) -> Vec<u64> {
    cpu.registers.ru64.iter().map(|r| r.get()).collect()
}

fn floats(cpu: &MiniCPU) -> Vec<u64> {
    cpu.registers.fu64.iter().map(|r| r.get()).collect()
}

#[test]
fn mov_copies_an_integer_register() {
    let (mut m, mut cpu) = machine(&[0x01, 0x00, 0x02, 0x03]);
    cpu.registers.ru64[3].set(0xFEED);
    cpu.registers.ru64[1].set(11);
    cpu.registers.fu64[2].set(2.5f64.to_bits());
    assert_eq!(cpu.step(&mut m), Ok(()));
    assert_eq!(integers(&cpu), vec![0, 11, 0xFEED, 0xFEED, 0, 0, 4, 0]);
    assert_eq!(floats(&cpu), vec![0, 0, 2.5f64.to_bits(), 0]);
}

#[test]
fn mov_loads_the_product_of_its_arguments() {
    let (mut m, mut cpu) = machine(&[0x01, 0x02, 0x05, 0x07]);
    cpu.registers.ru64[0].set(999);
    assert_eq!(cpu.step(&mut m), Ok(()));
    assert_eq!(integers(&cpu), vec![35, 0, 0, 0, 0, 0, 4, 0]);
    let (mut m, mut cpu) = machine(&[0x01, 0x02, 0xFF, 0xFF]);
    assert_eq!(cpu.step(&mut m), Ok(()));
    assert_eq!(cpu.registers.ru64[0].get(), 65025);
}

#[test]
fn mov_copies_a_float_register() {
    let (mut m, mut cpu) = machine(&[0x01, 0x01, 0x00, 0x03]);
    cpu.registers.fu64[3].set(1.25f64.to_bits());
    assert_eq!(cpu.step(&mut m), Ok(()));
    assert_eq!(f64::from_bits(cpu.registers.fu64[0].get()), 1.25f64);
    assert_eq!(floats(&cpu), vec![1.25f64.to_bits(), 0, 0, 1.25f64.to_bits()]);
    assert_eq!(integers(&cpu), vec![0, 0, 0, 0, 0, 0, 4, 0]);
}

#[test]
fn an_unknown_opcode_is_refused_and_changes_no_register() {
    let (mut m, mut cpu) = machine(&[0xFF, 0x00, 0x02, 0x03]);
    cpu.registers.ru64[3].set(5);
    assert_eq!(
        cpu.step(&mut m),
        Err(Fault::UnknownInstruction { opcode: 0xFF, subop: None })
    );
    assert_eq!(integers(&cpu), vec![0, 0, 0, 5, 0, 0, 0, 0]);
    let (mut m, mut cpu) = machine(&[0x00, 0x00, 0x00, 0x00]);
    assert_eq!(
        cpu.step(&mut m),
        Err(Fault::UnknownInstruction { opcode: 0, subop: None })
    );
}

#[test]
fn an_unknown_suboperation_is_refused_and_changes_no_register() {
    let (mut m, mut cpu) = machine(&[0x01, 0x03, 0x02, 0x03]);
    cpu.registers.ru64[3].set(5);
    assert_eq!(
        cpu.step(&mut m),
        Err(Fault::UnknownInstruction { opcode: 1, subop: Some(3) })
    );
    assert_eq!(integers(&cpu), vec![0, 0, 0, 5, 0, 0, 0, 0]);
}

#[test]
fn a_register_that_does_not_exist_is_refused() {
    let (mut m, mut cpu) = machine(&[0x01, 0x00, 0x02, 0x08]);
    assert_eq!(cpu.step(&mut m), Err(Fault::InvalidRegister { index: 8 }));
    let (mut m, mut cpu) = machine(&[0x01, 0x00, 0x09, 0x07]);
    assert_eq!(cpu.step(&mut m), Err(Fault::InvalidRegister { index: 9 }));
    let (mut m, mut cpu) = machine(&[0x01, 0x00, 0x09, 0x0A]);
    assert_eq!(cpu.step(&mut m), Err(Fault::InvalidRegister { index: 10 }));
    let (mut m, mut cpu) = machine(&[0x01, 0x01, 0x04, 0x00]);
    assert_eq!(cpu.step(&mut m), Err(Fault::InvalidRegister { index: 4 }));
    let (mut m, mut cpu) = machine(&[0x01, 0x01, 0x00, 0x04]);
    assert_eq!(cpu.step(&mut m), Err(Fault::InvalidRegister { index: 4 }));
    assert_eq!(integers(&cpu), vec![0; 8]);
    assert_eq!(floats(&cpu), vec![0; 4]);
}

#[test]
fn steps_walk_through_the_program() {
    let (mut m, mut cpu) = machine(&[
        0x01, 0x02, 0x03, 0x04, // r0 = 12
        0x01, 0x00, 0x01, 0x00, // r1 = r0
        0x01, 0x02, 0x02, 0x02, // r0 = 4
        0x02, 0x00, 0x00, 0x00, // unknown
    ]);
    assert_eq!(cpu.step(&mut m), Ok(()));
    assert_eq!(cpu.step(&mut m), Ok(()));
    assert_eq!(cpu.step(&mut m), Ok(()));
    assert_eq!(integers(&cpu), vec![4, 12, 0, 0, 0, 0, 12, 0]);
    assert_eq!(
        cpu.step(&mut m),
        Err(Fault::UnknownInstruction { opcode: 2, subop: None })
    );
    assert_eq!(integers(&cpu), vec![4, 12, 0, 0, 0, 0, 12, 0]);
}

#[test]
fn reset_then_step_fetches_at_the_code_offset() {
    let (mut m, mut cpu) = machine(&[
        0x01, 0x02, 0x03, 0x04, // r0 = 12
        0x01, 0x02, 0x05, 0x05, // r0 = 25
        0x01, 0x02, 0x06, 0x06, // r0 = 36
    ]);
    cpu.step(&mut m).unwrap();
    cpu.step(&mut m).unwrap();
    assert_eq!(cpu.registers.ru64[0].get(), 25);
    cpu.reset();
    assert_eq!(integers(&cpu), vec![25, 0, 0, 0, 0, 0, 0, 0]);
    cpu.step(&mut m).unwrap();
    assert_eq!(integers(&cpu), vec![12, 0, 0, 0, 0, 0, 4, 0]);
    cpu.start_at(8);
    cpu.reset();
    cpu.step(&mut m).unwrap();
    assert_eq!(integers(&cpu), vec![36, 0, 0, 0, 0, 0, 4, 0]);
}

#[test]
fn reset_empties_the_stack_and_keeps_the_other_registers() {
    let (mut m, mut cpu) = machine(&[]);
    cpu.stack.push_u32(&mut m, 9).unwrap();
    cpu.registers.ru64[STACK_POINTER].set(4);
    cpu.registers.ru64[FLAGS].set(1);
    cpu.registers.ru64[INSTRUCTION_POINTER].set(400);
    cpu.registers.fu64[1].set(77);
    cpu.reset();
    assert_eq!(cpu.stack.top(), 0);
    assert_eq!(integers(&cpu), vec![0, 0, 0, 0, 0, 4, 0, 1]);
    assert_eq!(floats(&cpu), vec![0, 77, 0, 0]);
}

#[test]
fn a_mov_into_the_instruction_pointer_jumps() {
    let (mut m, mut cpu) = machine(&[
        0x01, 0x00, 0x06, 0x01, // ip = r1
        0xFF, 0xFF, 0xFF, 0xFF,
        0x01, 0x00, 0x02, 0x06, // r2 = ip
    ]);
    cpu.registers.ru64[1].set(8);
    cpu.step(&mut m).unwrap();
    assert_eq!(cpu.registers.ru64[INSTRUCTION_POINTER].get(), 8);
    cpu.step(&mut m).unwrap();
    assert_eq!(integers(&cpu), vec![0, 8, 12, 0, 0, 0, 12, 0]);
}

#[test]
fn a_fetch_past_the_memory_is_refused() {
    let mut m = _Memory::new(10);
    let mut cpu = MiniCPU::new(Stack::new(avm_rs::pointer::Pointer::new(0, 0)));
    m.write_bytes(6, &[1, 2, 3, 4]).unwrap();
    cpu.start_at(2);
    cpu.registers.ru64[INSTRUCTION_POINTER].set(5);
    assert_eq!(
        cpu.step(&mut m),
        Err(Fault::OutOfBounds { base: 2, size: 8, at: 5, length: 4 })
    );
    assert_eq!(cpu.registers.ru64[INSTRUCTION_POINTER].get(), 5);
    cpu.registers.ru64[INSTRUCTION_POINTER].set(u64::MAX);
    assert_eq!(
        cpu.fetch_instruction(&m),
        Err(Fault::OutOfBounds { base: 2, size: 8, at: u64::MAX, length: 4 })
    );
    cpu.registers.ru64[INSTRUCTION_POINTER].set(4);
    assert_eq!(
        cpu.fetch_instruction(&m),
        Ok(Instruction { opcode: 1, subop: 2, arg0: 3, arg1: 4 })
    );
    cpu.start_at(11);
    cpu.reset();
    assert_eq!(
        cpu.step(&mut m),
        Err(Fault::OutOfBounds { base: 11, size: 0, at: 0, length: 4 })
    );
    cpu.start_at(usize::MAX);
    assert_eq!(
        cpu.step(&mut m),
        Err(Fault::OutOfBounds { base: usize::MAX as u64, size: 0, at: 0, length: 4 })
    );
}

#[test]
fn a_step_leaves_the_memory_as_it_was() {
    let (mut m, mut cpu) = machine(&[0x01, 0x02, 0x05, 0x07]);
    let before = m.read_bytes(0, 1024).unwrap();
    cpu.step(&mut m).unwrap();
    assert_eq!(m.read_bytes(0, 1024).unwrap(), before);
}

#[test]
fn decode_splits_a_word_most_significant_byte_first() {
    assert_eq!(
        decode(0x0102_0507),
        Instruction { opcode: 1, subop: 2, arg0: 5, arg1: 7 }
    );
    assert_eq!(
        decode(0xFFEE_DDCC),
        Instruction { opcode: 0xFF, subop: 0xEE, arg0: 0xDD, arg1: 0xCC }
    );
}

#[test]
fn execute_works_on_a_register_file() {
    let mut file = RegisterFile::new();
    file.set_integer(7, 70).unwrap();
    file.set_float(3, 30).unwrap();
    assert_eq!(
        execute(&mut file, Instruction { opcode: 1, subop: 0, arg0: 0, arg1: 7 }),
        Ok(())
    );
    assert_eq!(
        execute(&mut file, Instruction { opcode: 1, subop: 1, arg0: 1, arg1: 3 }),
        Ok(())
    );
    assert_eq!(file.integer(0), Ok(70));
    assert_eq!(file.float(1), Ok(30));
    assert_eq!(file.integer(8), Err(Fault::InvalidRegister { index: 8 }));
    assert_eq!(file.float(4), Err(Fault::InvalidRegister { index: 4 }));
    assert_eq!(file.set_integer(255, 1), Err(Fault::InvalidRegister { index: 255 }));
    assert_eq!(file.set_float(4, 1), Err(Fault::InvalidRegister { index: 4 }));
}

#[test]
fn a_cell_gives_back_what_was_set() {
    let mut a = RegisterU8(1);
    a.set(200);
    assert_eq!(a.get(), 200);
    let mut b = RegisterI16(0);
    b.set(-5);
    assert_eq!(b.get(), -5);
    let mut c = RegisterU64(0);
    c.set(u64::MAX);
    assert_eq!(c, RegisterU64(u64::MAX));
    let mut d = RegisterF64(0);
    d.set(6.5f64.to_bits());
    assert_eq!(f64::from_bits(d.get()), 6.5);
}
