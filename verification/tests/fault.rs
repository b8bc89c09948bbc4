use avm_rs::fault::Fault;
use avm_rs::mem::_Memory;
use avm_rs::pointer::Pointer;

#[test]
fn a_refused_memory_access_tells_size_place_and_length() {
    let m = _Memory::new(8);
    assert_eq!(
        m.read_u32(6).unwrap_err().to_string(),
        "Memory size is 0x0008(8), but trying to access at 0x0006(6) with 0x0004(4) bytes"
    );
    let big = _Memory::new(0x12345);
    assert_eq!(
        big.read_bytes(0xFFFFF, 0x10000).unwrap_err().to_string(),
        "Memory size is 0x12345(74565), but trying to access at 0xFFFFF(1048575) with 0x10000(65536) bytes"
    );
}

#[test]
fn a_refused_window_access_tells_the_absolute_address() {
    let m = _Memory::new(64);
    let p = Pointer::new(16, 8);
    assert_eq!(
        p.read_u32(&m, 5).unwrap_err().to_string(),
        "Access volatile memory at 0x0015(21) with 0x0004(4) bytes"
    );
    assert_eq!(
        Fault::OutOfBounds { base: u64::MAX, size: 0, at: u64::MAX, length: 1 }.to_string(),
        "Access volatile memory at 0x1FFFFFFFFFFFFFFFE(36893488147419103230) with 0x0001(1) bytes"
    );
}

#[test]
fn the_other_faults_have_their_messages() {
    assert_eq!(
        Fault::OutOfMemory { left: 40, requested: 41 }.to_string(),
        "Out of memory, memory left is 0x0028(40) but trying to allocate 0x0029(41)"
    );
    assert_eq!(Fault::UnmappedAddress { address: 15 }.to_string(), "Unmapped address: 0x000F");
    assert_eq!(
        Fault::UnmappedAddress { address: 0x1ABCD }.to_string(),
        "Unmapped address: 0x1ABCD"
    );
    assert_eq!(Fault::StackOverflow.to_string(), "Stack overflow");
    assert_eq!(Fault::StackUnderflow.to_string(), "Stack underflow");
    assert_eq!(
        Fault::UnknownInstruction { opcode: 255, subop: None }.to_string(),
        "Unknown instruction: 255"
    );
    assert_eq!(
        Fault::UnknownInstruction { opcode: 1, subop: Some(30) }.to_string(),
        "Unknown instruction: 1:30"
    );
    assert_eq!(Fault::InvalidRegister { index: 9 }.to_string(), "Unknown register: 9");
    assert_eq!(Fault::InvalidRegister { index: 0 }.to_string(), "Unknown register: 0");
}
