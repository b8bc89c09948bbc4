use avm_rs::fault::Fault;
use avm_rs::mem::_Memory;
use avm_rs::vmem::{MappedMemory, VirtualMemory};

#[test]
fn windows_are_handed_out_one_after_the_other() {
    let m = _Memory::new(100);
    let mut vm = VirtualMemory::new(&m);
    let a = vm.allocate(10).unwrap();
    let b = vm.allocate(20).unwrap();
    let c = vm.allocate(0).unwrap();
    let d = vm.allocate(70).unwrap();
    assert_eq!((a.address(), a.len()), (0, 10));
    assert_eq!((b.address(), b.len()), (10, 20));
    assert_eq!((c.address(), c.len()), (30, 0));
    assert_eq!((d.address(), d.len()), (30, 70));
}

#[test]
fn allocation_is_refused_when_the_total_would_pass_the_memory() {
    let m = _Memory::new(100);
    let mut vm = VirtualMemory::new(&m);
    vm.allocate(60).unwrap();
    assert_eq!(
        vm.allocate(41).unwrap_err(),
        Fault::OutOfMemory { left: 40, requested: 41 }
    );
    assert_eq!(
        vm.allocate(usize::MAX).unwrap_err(),
        Fault::OutOfMemory { left: 40, requested: usize::MAX as u64 }
    );
    let p = vm.allocate(40).unwrap();
    assert_eq!((p.address(), p.len()), (60, 40));
    assert_eq!(
        vm.allocate(1).unwrap_err(),
        Fault::OutOfMemory { left: 0, requested: 1 }
    );
    assert_eq!(vm.allocate(0).unwrap().address(), 100);
}

#[test]
fn freed_bytes_are_not_handed_out_again() {
    let m = _Memory::new(100);
    let mut vm = VirtualMemory::new(&m);
    let mut a = vm.allocate(50).unwrap();
    assert_eq!(vm.free(&mut a), Ok(()));
    assert_eq!(a.len(), 0);
    assert_eq!(a.address(), 0);
    let b = vm.allocate(50).unwrap();
    assert_eq!(b.address(), 50);
    assert_eq!(
        vm.allocate(1).unwrap_err(),
        Fault::OutOfMemory { left: 0, requested: 1 }
    );
}

#[test]
fn a_freed_window_refuses_access() {
    let mut m = _Memory::new(100);
    let mut vm = VirtualMemory::new(&m);
    let mut a = vm.allocate(8).unwrap();
    a.write_u64(&mut m, 0, 77).unwrap();
    vm.free(&mut a).unwrap();
    assert_eq!(
        a.read_u64(&m, 0),
        Err(Fault::OutOfBounds { base: 0, size: 0, at: 0, length: 8 })
    );
    assert_eq!(
        a.write_u8(&mut m, 0, 1),
        Err(Fault::OutOfBounds { base: 0, size: 0, at: 0, length: 1 })
    );
    assert_eq!(m.read_u64(0), Ok(77));
}

#[test]
fn deallocate_takes_the_range_that_covers_the_address() {
    let m = _Memory::new(100);
    let mut vm = VirtualMemory::new(&m);
    vm.allocate(10).unwrap();
    vm.allocate(10).unwrap();
    vm.allocate(10).unwrap();
    assert_eq!(vm.deallocate(15), Ok(()));
    assert_eq!(vm.to_string(), "address: 0x0000, size: 0x000A\naddress: 0x0014, size: 0x001E");
    assert_eq!(vm.deallocate(15), Err(Fault::UnmappedAddress { address: 15 }));
    assert_eq!(vm.deallocate(10), Err(Fault::UnmappedAddress { address: 10 }));
    assert_eq!(vm.deallocate(19), Err(Fault::UnmappedAddress { address: 19 }));
    assert_eq!(vm.deallocate(30), Err(Fault::UnmappedAddress { address: 30 }));
    assert_eq!(vm.deallocate(29), Ok(()));
    assert_eq!(vm.deallocate(0), Ok(()));
    assert_eq!(vm.to_string(), "");
    assert_eq!(vm.deallocate(0), Err(Fault::UnmappedAddress { address: 0 }));
}

#[test]
fn freeing_twice_is_refused() {
    let m = _Memory::new(16);
    let mut vm = VirtualMemory::new(&m);
    let mut a = vm.allocate(4).unwrap();
    let mut b = vm.allocate(4).unwrap();
    assert_eq!(vm.free(&mut a), Ok(()));
    assert_eq!(vm.free(&mut a), Err(Fault::UnmappedAddress { address: 0 }));
    assert_eq!(b.len(), 4);
    assert_eq!(vm.free(&mut b), Ok(()));
    assert_eq!(b.len(), 0);
    assert_eq!(b.address(), 4);
}

#[test]
fn an_empty_range_cannot_be_given_back() {
    let m = _Memory::new(16);
    let mut vm = VirtualMemory::new(&m);
    let mut empty = vm.allocate(0).unwrap();
    assert_eq!(vm.free(&mut empty), Err(Fault::UnmappedAddress { address: 0 }));
    assert_eq!(vm.to_string(), "address: 0x0000, size: 0x0000");
}

#[test]
fn the_listing_shows_each_range_with_its_end() {
    let m = _Memory::new(0x20000);
    let mut vm = VirtualMemory::new(&m);
    assert_eq!(vm.to_string(), "");
    vm.allocate(0x1F).unwrap();
    assert_eq!(vm.to_string(), "address: 0x0000, size: 0x001F");
    vm.allocate(0xABCD).unwrap();
    vm.allocate(0x10000).unwrap();
    assert_eq!(
        vm.to_string(),
        "address: 0x0000, size: 0x001F\naddress: 0x001F, size: 0xABEC\naddress: 0xABEC, size: 0x1ABEC"
    );
}

#[test]
fn windows_never_overlap_across_allocations_and_frees() {
    let m = _Memory::new(1000);
    let mut vm = VirtualMemory::new(&m);
    let mut handed: Vec<MappedMemory> = Vec::new();
    let sizes = [7usize, 0, 13, 100, 1, 64, 300, 5];
    for (i, size) in sizes.iter().enumerate() {
        let mut p = vm.allocate(*size).unwrap();
        handed.push(MappedMemory { address: p.address(), size: p.len() });
        if i % 2 == 0 {
            vm.free(&mut p).unwrap();
        }
    }
    for i in 0..handed.len() {
        for j in (i + 1)..handed.len() {
            let (a, b) = (handed[i], handed[j]);
            assert!(a.address + a.size <= b.address);
        }
    }
    let total: usize = sizes.iter().sum();
    assert_eq!(
        vm.allocate(1000 - total + 1).unwrap_err(),
        Fault::OutOfMemory { left: (1000 - total) as u64, requested: (1000 - total + 1) as u64 }
    );
    assert_eq!(vm.allocate(1000 - total).unwrap().address(), total);
}
