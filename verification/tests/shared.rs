use avm_rs::cpu::{CPUTrait, MiniCPU};
use avm_rs::fault::Fault;
use avm_rs::register::RegisterTrait;
use avm_rs::shared::create_memory;
use avm_rs::vmem::VirtualMemory;
use avm_rs::wrappers::stack::Stack;

#[test]
fn a_created_memory_is_zeroed_and_keeps_its_size() {
    let memory = create_memory(48);
    assert_eq!(memory.len(), 48);
    let access = memory.access();
    assert_eq!(access.memory.len(), 48);
    assert_eq!(access.memory.read_bytes(0, 48).unwrap(), vec![0u8; 48]);
    access.release();
    assert_eq!(create_memory(0).len(), 0);
}

#[test]
fn handles_share_one_buffer() {
    let memory = create_memory(16);
    let other = memory.share();
    assert_eq!(other.len(), 16);
    let mut access = memory.access();
    access.memory.write_u32(4, 0xCAFEBABE).unwrap();
    access.release();
    let access = other.access();
    assert_eq!(access.memory.read_u32(4), Ok(0xCAFEBABE));
    assert_eq!(
        access.memory.read_u32(13),
        Err(Fault::OutOfBounds { base: 0, size: 16, at: 13, length: 4 })
    );
    access.release();
    drop(memory);
    let access = other.access();
    assert_eq!(access.memory.read_u8(4), Ok(0xCA));
    access.release();
}

#[test]
fn the_lock_can_be_taken_again_after_release() {
    let memory = create_memory(8);
    for round in 0..5u8 {
        let mut access = memory.access();
        assert_eq!(access.memory.read_u8(0), Ok(round));
        access.memory.write_u8(0, round + 1).unwrap();
        access.release();
    }
}

#[test]
fn a_core_steps_on_a_shared_memory() {
    let memory = create_memory(1024 * 512);
    let mut access = memory.access();
    let mut virtual_memory = VirtualMemory::new(&access.memory);
    let stack = Stack::new(virtual_memory.allocate(1024).unwrap());
    access.memory.write_bytes(0, &[1, 2, 3, 4]).unwrap();
    access.release();
    let mut cpu = MiniCPU::new(stack);
    cpu.reset();
    let other = memory.share();
    let mut access = other.access();
    assert_eq!(cpu.step(&mut access.memory), Ok(()));
    let shown = access.memory.to_string();
    access.release();
    assert_eq!(cpu.registers.ru64[0].get(), 12);
    assert!(shown.starts_with("01 02 03 04 00 00 00 00 00 00 00 00 00 00 00 00 | ................\n"));
    assert!(shown.ends_with("\n... (+ 524160 more bytes)"));
}
