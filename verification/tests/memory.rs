use avm_rs::fault::Fault;
use avm_rs::mem::_Memory;

fn oob(size: u64, at: u64, length: u64) -> Fault {
    Fault::OutOfBounds { base: 0, size, at, length }
}

#[test]
fn new_memory_is_zeroed() {
    let m = _Memory::new(64);
    assert_eq!(m.len(), 64);
    assert_eq!(m.read_bytes(0, 64).unwrap(), vec![0u8; 64]);
    assert_eq!(_Memory::new(0).len(), 0);
}

#[test]
fn integers_are_stored_most_significant_byte_first() {
    let mut m = _Memory::new(32);
    m.write_u16(0, 0x0102).unwrap();
    assert_eq!(m.read_bytes(0, 2).unwrap(), vec![1, 2]);
    m.write_u32(2, 0x0A0B0C0D).unwrap();
    assert_eq!(m.read_bytes(2, 4).unwrap(), vec![0x0A, 0x0B, 0x0C, 0x0D]);
    m.write_u64(6, 0x0102030405060708).unwrap();
    assert_eq!(m.read_bytes(6, 8).unwrap(), vec![1, 2, 3, 4, 5, 6, 7, 8]);
    m.write_u128(14, 0x0102030405060708090A0B0C0D0E0F10).unwrap();
    assert_eq!(
        m.read_bytes(14, 16).unwrap(),
        vec![1, 2, 3, 4, 5, 6, 7, 8, 9, 10, 11, 12, 13, 14, 15, 16]
    );
    assert_eq!(m.read_u16(0), Ok(0x0102));
    assert_eq!(m.read_u32(2), Ok(0x0A0B0C0D));
    assert_eq!(m.read_u64(6), Ok(0x0102030405060708));
    assert_eq!(m.read_u128(14), Ok(0x0102030405060708090A0B0C0D0E0F10));
    assert_eq!(m.read_u32(0), Ok(0x01020A0B));
}

#[test]
fn signed_integers_round_trip() {
    let mut m = _Memory::new(40);
    m.write_i8(0, -1).unwrap();
    assert_eq!(m.read_u8(0), Ok(0xFF));
    assert_eq!(m.read_i8(0), Ok(-1));
    m.write_i8(0, i8::MIN).unwrap();
    assert_eq!(m.read_i8(0), Ok(i8::MIN));
    m.write_i16(1, -2).unwrap();
    assert_eq!(m.read_bytes(1, 2).unwrap(), vec![0xFF, 0xFE]);
    assert_eq!(m.read_i16(1), Ok(-2));
    m.write_i32(3, i32::MIN).unwrap();
    assert_eq!(m.read_i32(3), Ok(i32::MIN));
    assert_eq!(m.read_u32(3), Ok(0x8000_0000));
    m.write_i64(7, -0x0102030405060708).unwrap();
    assert_eq!(m.read_i64(7), Ok(-0x0102030405060708));
    m.write_i128(15, i128::MAX).unwrap();
    assert_eq!(m.read_i128(15), Ok(i128::MAX));
    m.write_i128(15, -5).unwrap();
    assert_eq!(m.read_i128(15), Ok(-5));
    assert_eq!(m.read_u128(15), Ok(u128::MAX - 4));
}

#[test]
fn float_patterns_are_stored_least_significant_byte_first() {
    let mut m = _Memory::new(16);
    m.write_f32(0, 1.5f32.to_bits()).unwrap();
    assert_eq!(m.read_bytes(0, 4).unwrap(), 1.5f32.to_le_bytes().to_vec());
    assert_eq!(f32::from_bits(m.read_f32(0).unwrap()), 1.5f32);
    m.write_f64(4, (-2.25f64).to_bits()).unwrap();
    assert_eq!(m.read_bytes(4, 8).unwrap(), (-2.25f64).to_le_bytes().to_vec());
    assert_eq!(f64::from_bits(m.read_f64(4).unwrap()), -2.25f64);
    m.write_f32(12, 0x01020304).unwrap();
    assert_eq!(m.read_bytes(12, 4).unwrap(), vec![4, 3, 2, 1]);
}

#[test]
fn access_past_the_end_is_refused_and_changes_nothing() {
    let mut m = _Memory::new(8);
    m.write_bytes(0, &[1, 2, 3, 4, 5, 6, 7, 8]).unwrap();
    assert_eq!(m.read_u8(8), Err(oob(8, 8, 1)));
    assert_eq!(m.read_i8(9), Err(oob(8, 9, 1)));
    assert_eq!(m.read_u16(7), Err(oob(8, 7, 2)));
    assert_eq!(m.read_i32(5), Err(oob(8, 5, 4)));
    assert_eq!(m.read_u64(1), Err(oob(8, 1, 8)));
    assert_eq!(m.read_u128(0), Err(oob(8, 0, 16)));
    assert_eq!(m.read_f32(6), Err(oob(8, 6, 4)));
    assert_eq!(m.read_f64(usize::MAX), Err(oob(8, usize::MAX as u64, 8)));
    assert_eq!(m.read_bytes(4, 5), Err(oob(8, 4, 5)));
    assert_eq!(m.read_string(usize::MAX, usize::MAX), Err(oob(8, usize::MAX as u64, usize::MAX as u64)));
    assert_eq!(m.display(0, 9), Err(oob(8, 0, 9)));
    assert_eq!(m.write_u8(8, 9), Err(oob(8, 8, 1)));
    assert_eq!(m.write_i16(7, 9), Err(oob(8, 7, 2)));
    assert_eq!(m.write_u32(6, 9), Err(oob(8, 6, 4)));
    assert_eq!(m.write_i64(2, 9), Err(oob(8, 2, 8)));
    assert_eq!(m.write_u128(0, 9), Err(oob(8, 0, 16)));
    assert_eq!(m.write_f32(5, 9), Err(oob(8, 5, 4)));
    assert_eq!(m.write_f64(1, 9), Err(oob(8, 1, 8)));
    assert_eq!(m.write_bytes(6, &[0, 0, 0]), Err(oob(8, 6, 3)));
    assert_eq!(m.write_string(7, "ab"), Err(oob(8, 7, 2)));
    assert_eq!(m.assert_access_range(8, 1), Err(oob(8, 8, 1)));
    assert_eq!(m.assert_access_range(8, 0), Ok(()));
    assert_eq!(m.read_bytes(0, 8).unwrap(), vec![1, 2, 3, 4, 5, 6, 7, 8]);
}

#[test]
fn strings_round_trip_and_ill_formed_bytes_are_replaced() {
    let mut m = _Memory::new(32);
    m.write_string(3, "héllo").unwrap();
    assert_eq!(m.read_bytes(3, 6).unwrap(), "héllo".as_bytes().to_vec());
    assert_eq!(m.read_string(3, 6).unwrap(), "héllo");
    m.write_bytes(20, &[b'a', 0xFF, b'b']).unwrap();
    assert_eq!(m.read_string(20, 3).unwrap(), "a\u{FFFD}b");
    assert_eq!(m.read_string(5, 0).unwrap(), "");
}

#[test]
fn display_of_a_whole_small_buffer() {
    let mut m = _Memory::new(4);
    m.write_bytes(0, &[1, 2, 3, 4]).unwrap();
    assert_eq!(m.display(0, 4).unwrap(), "01 02 03 04 ");
    assert_eq!(m.to_string(), "01 02 03 04 ");
    assert_eq!(m.display(0, 0).unwrap(), "\n... (+ 4 more bytes)");
    assert_eq!(m.display(4, 0).unwrap(), "\n... (- 4 bytes)\n");
}

#[test]
fn display_shows_full_rows_with_their_characters() {
    let mut m = _Memory::new(40);
    m.write_string(0, "Hello, world!!!!").unwrap();
    m.write_bytes(16, &[0x7E, 0x7F, 0x1F, 0x20, 0xAB]).unwrap();
    assert_eq!(
        m.display(0, 16).unwrap(),
        "48 65 6c 6c 6f 2c 20 77 6f 72 6c 64 21 21 21 21 | Hello, world!!!!\n... (+ 24 more bytes)"
    );
    assert_eq!(
        m.display(0, 21).unwrap(),
        "48 65 6c 6c 6f 2c 20 77 6f 72 6c 64 21 21 21 21 | Hello, world!!!!\n7e 7f 1f 20 ab \n... (+ 19 more bytes)"
    );
    assert_eq!(
        m.display(8, 32).unwrap(),
        "\n... (- 8 bytes)\n6f 72 6c 64 21 21 21 21 7e 7f 1f 20 ab 00 00 00 | orld!!!!~.. ....\n00 00 00 00 00 00 00 00 00 00 00 00 00 00 00 00 | ................"
    );
    assert_eq!(
        m.display(1, 2).unwrap(),
        "\n... (- 1 bytes)\n65 6c \n... (+ 37 more bytes)"
    );
}

#[test]
fn to_string_shows_at_most_128_bytes() {
    let m = _Memory::new(130);
    let text = m.to_string();
    assert!(text.ends_with("| ................\n... (+ 2 more bytes)"));
    assert_eq!(text.matches('\n').count(), 8);
    assert_eq!(text, m.display(0, 128).unwrap());
}
