use avm_rs::fault::Fault;
use avm_rs::mem::_Memory;
use avm_rs::pointer::Pointer;
use avm_rs::vmem::VirtualMemory;
use avm_rs::wrappers::stack::Stack;

fn fixture(size: usize, window: usize) -> (_Memory, Stack) {
    let m = _Memory::new(size);
    let mut vm = VirtualMemory::new(&m);
    vm.allocate(3).unwrap();
    let stack = Stack::new(vm.allocate(window).unwrap());
    (m, stack)
}

#[test]
fn pushes_come_back_in_reverse_order() {
    let (mut m, mut s) = fixture(128, 100);
    assert_eq!(s.top(), 0);
    s.push_u8(&mut m, 0x11).unwrap();
    s.push_u16(&mut m, 0x2233).unwrap();
    s.push_u32(&mut m, 0x44556677).unwrap();
    s.push_u64(&mut m, 0x8899AABBCCDDEEFF).unwrap();
    s.push_u128(&mut m, 0x0102030405060708090A0B0C0D0E0F10).unwrap();
    s.push_i128(&mut m, -42).unwrap();
    s.push_f32(&mut m, 0.5f32.to_bits()).unwrap();
    s.push_f64(&mut m, (-7.75f64).to_bits()).unwrap();
    s.push_bytes(&mut m, &[1, 2, 3]).unwrap();
    s.push_string(&mut m, "añb").unwrap();
    assert_eq!(s.top(), 1 + 2 + 4 + 8 + 16 + 16 + 4 + 8 + 3 + 4);
    assert_eq!(s.pop_string(&m, 4).unwrap(), "añb");
    assert_eq!(s.pop_bytes(&m, 3).unwrap(), vec![1, 2, 3]);
    assert_eq!(f64::from_bits(s.pop_f64(&m).unwrap()), -7.75f64);
    assert_eq!(f32::from_bits(s.pop_f32(&m).unwrap()), 0.5f32);
    assert_eq!(s.pop_i128(&m), Ok(-42));
    assert_eq!(s.pop_u128(&m), Ok(0x0102030405060708090A0B0C0D0E0F10));
    assert_eq!(s.pop_u64(&m), Ok(0x8899AABBCCDDEEFF));
    assert_eq!(s.pop_u32(&m), Ok(0x44556677));
    assert_eq!(s.pop_u16(&m), Ok(0x2233));
    assert_eq!(s.pop_u8(&m), Ok(0x11));
    assert_eq!(s.top(), 0);
}

#[test]
fn a_push_stores_at_the_cursor_inside_the_window() {
    let (mut m, mut s) = fixture(32, 8);
    s.push_u16(&mut m, 0xA1B2).unwrap();
    s.push_u8(&mut m, 0xC3).unwrap();
    assert_eq!(m.read_bytes(0, 8).unwrap(), vec![0, 0, 0, 0xA1, 0xB2, 0xC3, 0, 0]);
    assert_eq!(s.top(), 3);
    assert_eq!(s.pointer.address(), 3);
}

#[test]
fn a_push_past_the_window_overflows_and_changes_nothing() {
    let (mut m, mut s) = fixture(32, 6);
    s.push_u32(&mut m, 1).unwrap();
    assert_eq!(s.push_u32(&mut m, 2), Err(Fault::StackOverflow));
    assert_eq!(s.push_u64(&mut m, 2), Err(Fault::StackOverflow));
    assert_eq!(s.push_u128(&mut m, 2), Err(Fault::StackOverflow));
    assert_eq!(s.push_i128(&mut m, 2), Err(Fault::StackOverflow));
    assert_eq!(s.push_f32(&mut m, 2), Err(Fault::StackOverflow));
    assert_eq!(s.push_f64(&mut m, 2), Err(Fault::StackOverflow));
    assert_eq!(s.push_bytes(&mut m, &[1, 2, 3]), Err(Fault::StackOverflow));
    assert_eq!(s.push_string(&mut m, "abc"), Err(Fault::StackOverflow));
    assert_eq!(s.top(), 4);
    s.push_u16(&mut m, 0x0506).unwrap();
    assert_eq!(s.push_u8(&mut m, 9), Err(Fault::StackOverflow));
    assert_eq!(s.push_u16(&mut m, 9), Err(Fault::StackOverflow));
    assert_eq!(s.top(), 6);
    assert_eq!(m.read_bytes(0, 12).unwrap(), vec![0, 0, 0, 0, 0, 0, 1, 5, 6, 0, 0, 0]);
}

#[test]
fn a_pop_of_more_than_was_pushed_underflows() {
    let (mut m, mut s) = fixture(32, 16);
    assert_eq!(s.pop_u8(&m), Err(Fault::StackUnderflow));
    s.push_u16(&mut m, 7).unwrap();
    assert_eq!(s.pop_u32(&m), Err(Fault::StackUnderflow));
    assert_eq!(s.pop_u64(&m), Err(Fault::StackUnderflow));
    assert_eq!(s.pop_u128(&m), Err(Fault::StackUnderflow));
    assert_eq!(s.pop_i128(&m), Err(Fault::StackUnderflow));
    assert_eq!(s.pop_f32(&m), Err(Fault::StackUnderflow));
    assert_eq!(s.pop_f64(&m), Err(Fault::StackUnderflow));
    assert_eq!(s.pop_bytes(&m, 3), Err(Fault::StackUnderflow));
    assert_eq!(s.pop_string(&m, 3), Err(Fault::StackUnderflow));
    assert_eq!(s.top(), 2);
    assert_eq!(s.pop_u16(&m), Ok(7));
    assert_eq!(s.pop_u16(&m), Err(Fault::StackUnderflow));
    assert_eq!(s.top(), 0);
}

#[test]
fn reset_empties_the_stack() {
    let (mut m, mut s) = fixture(32, 16);
    s.push_u64(&mut m, 1).unwrap();
    s.reset();
    assert_eq!(s.top(), 0);
    assert_eq!(s.pointer.len(), 16);
    assert_eq!(s.pop_u8(&m), Err(Fault::StackUnderflow));
}

#[test]
fn set_top_moves_the_cursor_inside_the_window() {
    let (mut m, mut s) = fixture(32, 16);
    s.push_u32(&mut m, 0x01020304).unwrap();
    assert_eq!(s.set_top(2), Ok(()));
    assert_eq!(s.pop_u16(&m), Ok(0x0102));
    assert_eq!(s.set_top(16), Ok(()));
    assert_eq!(s.top(), 16);
    assert_eq!(s.set_top(17), Err(Fault::StackOverflow));
    assert_eq!(s.top(), 16);
    assert_eq!(s.set_top(0), Ok(()));
}

#[test]
fn a_stack_on_a_freed_window_refuses_everything() {
    let mut m = _Memory::new(32);
    let mut vm = VirtualMemory::new(&m);
    let mut s = Stack::new(vm.allocate(16).unwrap());
    s.push_u32(&mut m, 5).unwrap();
    vm.free(&mut s.pointer).unwrap();
    assert_eq!(s.set_top(0), Err(Fault::StackOverflow));
    assert_eq!(s.push_u8(&mut m, 1), Err(Fault::StackOverflow));
    assert_eq!(
        s.pop_u32(&m),
        Err(Fault::OutOfBounds { base: 0, size: 0, at: 0, length: 4 })
    );
    assert_eq!(s.top(), 4);
    s.reset();
    assert_eq!(s.set_top(0), Ok(()));
    assert_eq!(s.push_bytes(&mut m, &[]), Ok(()));
}

#[test]
fn a_stack_whose_window_passes_the_memory_is_refused_by_the_memory() {
    let mut m = _Memory::new(10);
    let mut s = Stack::new(Pointer::new(8, 8));
    s.push_u16(&mut m, 0xFFEE).unwrap();
    assert_eq!(
        s.push_u16(&mut m, 1),
        Err(Fault::OutOfBounds { base: 8, size: 2, at: 2, length: 2 })
    );
    assert_eq!(s.top(), 2);
    assert_eq!(s.set_top(4), Ok(()));
    assert_eq!(
        s.pop_u16(&m),
        Err(Fault::OutOfBounds { base: 8, size: 2, at: 2, length: 2 })
    );
    assert_eq!(s.top(), 4);
    assert_eq!(m.read_u16(8), Ok(0xFFEE));
}

#[test]
fn popped_text_replaces_ill_formed_bytes() {
    let (mut m, mut s) = fixture(32, 16);
    s.push_bytes(&mut m, &[0xC3, b'x']).unwrap();
    assert_eq!(s.pop_string(&m, 2).unwrap(), "\u{FFFD}x");
    assert_eq!(s.top(), 0);
}
