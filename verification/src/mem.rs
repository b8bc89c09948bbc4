//! The flat, fixed-size, byte-addressable memory.

use crate::codec::{
    be_bytes, be_value, le_bytes, le_value, lemma_be_bytes_len, lemma_be_value_bound,
    lemma_be_value_of_bytes, lemma_casts_128, lemma_casts_16, lemma_casts_32, lemma_casts_64,
    lemma_casts_8, lemma_le_bytes_len, lemma_le_value_bound, lemma_le_value_of_bytes,
    lemma_radix_monotonic, lemma_radix_values, lemma_signed_of_unsigned, radix, signed_of,
    unsigned_of,
};
use crate::fault::{out_of_bounds, Fault};
use crate::text::{decimal, decode_lossy, dump_rows, push_decimal, push_dump_rows, text_of};
use vstd::utf8::{encode_utf8, encode_utf8_decode_utf8, encode_utf8_valid_utf8};
use vstd::prelude::*;

verus! {

/// The `length` bytes of `mem` that start at `at`.
pub open spec fn window(mem: Seq<u8>, at: int, length: int) -> Seq<u8> {
    mem.subrange(at, at + length)
}

/// `mem` with the bytes from `at` on replaced by `bytes`.
pub open spec fn splice(mem: Seq<u8>, at: int, bytes: Seq<u8>) -> Seq<u8> {
    mem.subrange(0, at) + bytes + mem.subrange(at + bytes.len(), mem.len() as int)
}

/// The dump of the `length` bytes of `mem` that start at `at`: the rows of
/// [`dump_rows`], after a line that counts the bytes before them where there
/// are any, and before a line that counts the bytes after them where there
/// are any.
pub open spec fn dump(mem: Seq<u8>, at: int, length: int) -> Seq<char> {
    (if at > 0 {
        "\n... (- "@ + decimal(at as nat) + " bytes)\n"@
    } else {
        Seq::empty()
    }) + dump_rows(window(mem, at, length)) + (if at + length < mem.len() {
        "\n... (+ "@ + decimal((mem.len() - at - length) as nat) + " more bytes)"@
    } else {
        Seq::empty()
    })
}

/// A byte buffer whose length is fixed when it is made. Its view is the
/// sequence of its bytes.
#[derive(Debug)]
pub struct _Memory(Vec<u8>);

impl View for _Memory {
    type V = Seq<u8>;

    closed spec fn view(&self) -> Seq<u8> {
        self.0@
    }
}

impl _Memory {
    /// Whether an access of `length` bytes at `at` lies inside the buffer.
    pub open spec fn in_range(&self, at: usize, length: usize) -> bool {
        at + length <= self@.len()
    }

    /// The fault that an access outside the buffer is answered with.
    pub open spec fn range_fault(&self, at: usize, length: usize) -> Fault {
        out_of_bounds(0, self@.len() as usize, at, length)
    }

    /// A buffer of `size` zero bytes.
    pub fn new(size: usize) -> (memory: Self)
        ensures
            memory@.len() == size,
            forall|i: int| 0 <= i < size ==> memory@[i] == 0,
    {
        let mut bytes: Vec<u8> = Vec::new();
        let mut filled: usize = 0;
        while filled < size
            invariant
                filled <= size,
                bytes@.len() == filled,
                forall|i: int| 0 <= i < filled ==> bytes@[i] == 0,
            decreases size - filled,
        {
            bytes.push(0);
            filled += 1;
        }
        _Memory(bytes)
    }

    /// A buffer's length is one that a machine address can hold.
    pub proof fn lemma_length_fits(&self)
        ensures
            self@.len() <= usize::MAX,
    {
        assert(self.0@.len() == self.0.len());
    }

    /// The number of bytes in the buffer.
    pub fn len(&self) -> (size: usize)
        ensures
            size == self@.len(),
    {
        self.0.len()
    }

    /// Checks that an access of `length` bytes at `at` lies inside the buffer.
    pub fn assert_access_range(&self, at: usize, length: usize) -> (r: Result<(), Fault>)
        ensures
            self.in_range(at, length) ==> r == Ok::<(), Fault>(()),
            !self.in_range(at, length) ==> r == Err::<(), Fault>(self.range_fault(at, length)),
    {
        let size = self.0.len();
        if length > size || at > size - length {
            Err(
                Fault::OutOfBounds {
                    base: 0,
                    size: size as u64,
                    at: at as u64,
                    length: length as u64,
                },
            )
        } else {
            Ok(())
        }
    }

    /// The number stored most-significant byte first in `width` bytes at `at`.
    fn load_be(&self, at: usize, width: usize) -> (value: u128)
        requires
            width <= 16,
            at + width <= self@.len(),
        ensures
            value == be_value(window(self@, at as int, width as int)),
    {
        let mut value: u128 = 0;
        let mut taken: usize = 0;
        while taken < width
            invariant
                taken <= width <= 16,
                at + width <= self.0.len(),
                value == be_value(window(self@, at as int, taken as int)),
            decreases width - taken,
        {
            proof {
                let before = window(self@, at as int, taken as int);
                let after = window(self@, at as int, taken + 1);
                assert(after.drop_last() =~= before);
                lemma_be_value_bound(before);
                lemma_radix_monotonic(taken as nat, 15);
                lemma_radix_monotonic(15, 16);
                lemma_radix_values();
            }
            value = value * 256 + self.0[at + taken] as u128;
            taken += 1;
        }
        value
    }

    /// Stores the low `width` bytes of `value` at `at`, most-significant
    /// byte first.
    fn store_be(&mut self, at: usize, width: usize, value: u128)
        requires
            at + width <= old(self)@.len(),
        ensures
            final(self)@.len() == old(self)@.len(),
            final(self)@ == splice(old(self)@, at as int, be_bytes(value as nat, width as nat)),
    {
        let mut rest: u128 = value;
        let mut left: usize = width;
        let ghost done: Seq<u8> = Seq::empty();
        while left > 0
            invariant
                left <= width,
                at + width <= self.0.len(),
                self@.len() == old(self)@.len(),
                be_bytes(value as nat, width as nat) == be_bytes(rest as nat, left as nat) + done,
                done.len() == width - left,
                self@ == splice(old(self)@, at + left, done),
            decreases left,
        {
            let ghost before = self@;
            let byte: u8 = (rest % 256) as u8;
            left -= 1;
            self.0.set(at + left, byte);
            proof {
                assert(be_bytes(rest as nat, (left + 1) as nat) == be_bytes(
                    rest as nat / 256,
                    left as nat,
                ).push(byte));
                assert(be_bytes(rest as nat / 256, left as nat).push(byte) + done =~= be_bytes(
                    rest as nat / 256,
                    left as nat,
                ) + (seq![byte] + done));
                assert(self@ =~= splice(old(self)@, at + left, seq![byte] + done));
                done = seq![byte] + done;
            }
            rest = rest / 256;
        }
        proof {
            assert(be_bytes(rest as nat, 0) + done =~= done);
        }
    }

    /// The number stored least-significant byte first in `width` bytes at
    /// `at`.
    fn load_le(&self, at: usize, width: usize) -> (value: u128)
        requires
            width <= 16,
            at + width <= self@.len(),
        ensures
            value == le_value(window(self@, at as int, width as int)),
    {
        let mut value: u128 = 0;
        let mut left: usize = width;
        while left > 0
            invariant
                left <= width <= 16,
                at + width <= self.0.len(),
                value == le_value(window(self@, at + left, width - left)),
            decreases left,
        {
            proof {
                let before = window(self@, at + left, width - left);
                let after = window(self@, at + left - 1, width - left + 1);
                assert(after.drop_first() =~= before);
                lemma_le_value_bound(before);
                lemma_radix_monotonic((width - left) as nat, 15);
                lemma_radix_monotonic(15, 16);
                lemma_radix_values();
            }
            left -= 1;
            value = value * 256 + self.0[at + left] as u128;
        }
        value
    }

    /// Stores the low `width` bytes of `value` at `at`, least-significant
    /// byte first.
    fn store_le(&mut self, at: usize, width: usize, value: u128)
        requires
            at + width <= old(self)@.len(),
        ensures
            final(self)@.len() == old(self)@.len(),
            final(self)@ == splice(old(self)@, at as int, le_bytes(value as nat, width as nat)),
    {
        let mut rest: u128 = value;
        let mut put: usize = 0;
        let ghost done: Seq<u8> = Seq::empty();
        while put < width
            invariant
                put <= width,
                at + width <= self.0.len(),
                self@.len() == old(self)@.len(),
                le_bytes(value as nat, width as nat) == done + le_bytes(
                    rest as nat,
                    (width - put) as nat,
                ),
                done.len() == put,
                self@ == splice(old(self)@, at as int, done),
            decreases width - put,
        {
            let byte: u8 = (rest % 256) as u8;
            self.0.set(at + put, byte);
            proof {
                assert(done + (seq![byte] + le_bytes(
                    rest as nat / 256,
                    (width - put - 1) as nat,
                )) =~= done.push(byte) + le_bytes(rest as nat / 256, (width - put - 1) as nat));
                assert(self@ =~= splice(old(self)@, at as int, done.push(byte)));
                done = done.push(byte);
            }
            put += 1;
            rest = rest / 256;
        }
        proof {
            assert(done + le_bytes(rest as nat, 0) =~= done);
        }
    }

    /// The byte at `at`.
    pub fn read_u8(&self, at: usize) -> (r: Result<u8, Fault>)
        ensures
            self.in_range(at, 1) ==> r == Ok::<u8, Fault>(self@[at as int]),
            !self.in_range(at, 1) ==> r == Err::<u8, Fault>(self.range_fault(at, 1)),
    {
        self.assert_access_range(at, 1)?;
        Ok(self.0[at])
    }

    /// The byte at `at`, read as a signed integer in two's complement.
    pub fn read_i8(&self, at: usize) -> (r: Result<i8, Fault>)
        ensures
            self.in_range(at, 1) ==> r == Ok::<i8, Fault>(signed_of(self@[at as int] as nat, 1) as i8),
            !self.in_range(at, 1) ==> r == Err::<i8, Fault>(self.range_fault(at, 1)),
    {
        let value = self.read_u8(at)?;
        proof {
            lemma_casts_8(0, value);
            lemma_radix_values();
        }
        Ok(value as i8)
    }

    /// Stores a byte at `at`.
    pub fn write_u8(&mut self, at: usize, value: u8) -> (r: Result<(), Fault>)
        ensures
            final(self)@.len() == old(self)@.len(),
            old(self).in_range(at, 1) ==> r == Ok::<(), Fault>(()) && final(self)@ == old(self)@.update(
                at as int,
                value,
            ),
            !old(self).in_range(at, 1) ==> r == Err::<(), Fault>(old(self).range_fault(at, 1))
                && final(self)@ == old(self)@,
    {
        self.assert_access_range(at, 1)?;
        self.0.set(at, value);
        Ok(())
    }

    /// Stores a signed byte at `at`, in two's complement.
    pub fn write_i8(&mut self, at: usize, value: i8) -> (r: Result<(), Fault>)
        ensures
            final(self)@.len() == old(self)@.len(),
            old(self).in_range(at, 1) ==> r == Ok::<(), Fault>(()) && final(self)@ == old(self)@.update(
                at as int,
                unsigned_of(value as int, 1) as u8,
            ),
            !old(self).in_range(at, 1) ==> r == Err::<(), Fault>(old(self).range_fault(at, 1))
                && final(self)@ == old(self)@,
    {
        proof {
            lemma_casts_8(value, 0);
            lemma_radix_values();
        }
        self.write_u8(at, value as u8)
    }

    /// The unsigned 16-bit integer stored at `at`, most-significant byte first.
    pub fn read_u16(&self, at: usize) -> (r: Result<u16, Fault>)
        ensures
            self.in_range(at, 2) ==> r == Ok::<u16, Fault>(
                be_value(window(self@, at as int, 2)) as u16,
            ),
            !self.in_range(at, 2) ==> r == Err::<u16, Fault>(self.range_fault(at, 2)),
    {
        self.assert_access_range(at, 2)?;
        let value = self.load_be(at, 2);
        proof {
            lemma_be_value_bound(window(self@, at as int, 2));
            lemma_radix_values();
        }
        Ok(value as u16)
    }

    /// The signed 16-bit integer stored at `at`, most-significant byte first.
    /// The bytes hold its two's-complement pattern.
    pub fn read_i16(&self, at: usize) -> (r: Result<i16, Fault>)
        ensures
            self.in_range(at, 2) ==> r == Ok::<i16, Fault>(
                signed_of(be_value(window(self@, at as int, 2)), 2) as i16,
            ),
            !self.in_range(at, 2) ==> r == Err::<i16, Fault>(self.range_fault(at, 2)),
    {
        let value = self.read_u16(at)?;
        proof {
            lemma_be_value_bound(window(self@, at as int, 2));
            lemma_casts_16(0, value);
            lemma_radix_values();
        }
        Ok(value as i16)
    }

    /// Stores a unsigned 16-bit integer at `at`, most-significant byte first.
    pub fn write_u16(&mut self, at: usize, value: u16) -> (r: Result<(), Fault>)
        ensures
            final(self)@.len() == old(self)@.len(),
            old(self).in_range(at, 2) ==> r == Ok::<(), Fault>(()) && final(self)@ == splice(
                old(self)@,
                at as int,
                be_bytes(value as nat, 2),
            ),
            !old(self).in_range(at, 2) ==> r == Err::<(), Fault>(old(self).range_fault(at, 2))
                && final(self)@ == old(self)@,
    {
        self.assert_access_range(at, 2)?;
        self.store_be(at, 2, value as u128);
        Ok(())
    }

    /// Stores a signed 16-bit integer at `at`, most-significant byte first.
    /// The bytes hold its two's-complement pattern.
    pub fn write_i16(&mut self, at: usize, value: i16) -> (r: Result<(), Fault>)
        ensures
            final(self)@.len() == old(self)@.len(),
            old(self).in_range(at, 2) ==> r == Ok::<(), Fault>(()) && final(self)@ == splice(
                old(self)@,
                at as int,
                be_bytes(unsigned_of(value as int, 2), 2),
            ),
            !old(self).in_range(at, 2) ==> r == Err::<(), Fault>(old(self).range_fault(at, 2))
                && final(self)@ == old(self)@,
    {
        proof {
            lemma_casts_16(value, 0);
            lemma_radix_values();
        }
        self.write_u16(at, value as u16)
    }

    /// The unsigned 32-bit integer stored at `at`, most-significant byte first.
    pub fn read_u32(&self, at: usize) -> (r: Result<u32, Fault>)
        ensures
            self.in_range(at, 4) ==> r == Ok::<u32, Fault>(
                be_value(window(self@, at as int, 4)) as u32,
            ),
            !self.in_range(at, 4) ==> r == Err::<u32, Fault>(self.range_fault(at, 4)),
    {
        self.assert_access_range(at, 4)?;
        let value = self.load_be(at, 4);
        proof {
            lemma_be_value_bound(window(self@, at as int, 4));
            lemma_radix_values();
        }
        Ok(value as u32)
    }

    /// The signed 32-bit integer stored at `at`, most-significant byte first.
    /// The bytes hold its two's-complement pattern.
    pub fn read_i32(&self, at: usize) -> (r: Result<i32, Fault>)
        ensures
            self.in_range(at, 4) ==> r == Ok::<i32, Fault>(
                signed_of(be_value(window(self@, at as int, 4)), 4) as i32,
            ),
            !self.in_range(at, 4) ==> r == Err::<i32, Fault>(self.range_fault(at, 4)),
    {
        let value = self.read_u32(at)?;
        proof {
            lemma_be_value_bound(window(self@, at as int, 4));
            lemma_casts_32(0, value);
            lemma_radix_values();
        }
        Ok(value as i32)
    }

    /// Stores a unsigned 32-bit integer at `at`, most-significant byte first.
    pub fn write_u32(&mut self, at: usize, value: u32) -> (r: Result<(), Fault>)
        ensures
            final(self)@.len() == old(self)@.len(),
            old(self).in_range(at, 4) ==> r == Ok::<(), Fault>(()) && final(self)@ == splice(
                old(self)@,
                at as int,
                be_bytes(value as nat, 4),
            ),
            !old(self).in_range(at, 4) ==> r == Err::<(), Fault>(old(self).range_fault(at, 4))
                && final(self)@ == old(self)@,
    {
        self.assert_access_range(at, 4)?;
        self.store_be(at, 4, value as u128);
        Ok(())
    }

    /// Stores a signed 32-bit integer at `at`, most-significant byte first.
    /// The bytes hold its two's-complement pattern.
    pub fn write_i32(&mut self, at: usize, value: i32) -> (r: Result<(), Fault>)
        ensures
            final(self)@.len() == old(self)@.len(),
            old(self).in_range(at, 4) ==> r == Ok::<(), Fault>(()) && final(self)@ == splice(
                old(self)@,
                at as int,
                be_bytes(unsigned_of(value as int, 4), 4),
            ),
            !old(self).in_range(at, 4) ==> r == Err::<(), Fault>(old(self).range_fault(at, 4))
                && final(self)@ == old(self)@,
    {
        proof {
            lemma_casts_32(value, 0);
            lemma_radix_values();
        }
        self.write_u32(at, value as u32)
    }

    /// The unsigned 64-bit integer stored at `at`, most-significant byte first.
    pub fn read_u64(&self, at: usize) -> (r: Result<u64, Fault>)
        ensures
            self.in_range(at, 8) ==> r == Ok::<u64, Fault>(
                be_value(window(self@, at as int, 8)) as u64,
            ),
            !self.in_range(at, 8) ==> r == Err::<u64, Fault>(self.range_fault(at, 8)),
    {
        self.assert_access_range(at, 8)?;
        let value = self.load_be(at, 8);
        proof {
            lemma_be_value_bound(window(self@, at as int, 8));
            lemma_radix_values();
        }
        Ok(value as u64)
    }

    /// The signed 64-bit integer stored at `at`, most-significant byte first.
    /// The bytes hold its two's-complement pattern.
    pub fn read_i64(&self, at: usize) -> (r: Result<i64, Fault>)
        ensures
            self.in_range(at, 8) ==> r == Ok::<i64, Fault>(
                signed_of(be_value(window(self@, at as int, 8)), 8) as i64,
            ),
            !self.in_range(at, 8) ==> r == Err::<i64, Fault>(self.range_fault(at, 8)),
    {
        let value = self.read_u64(at)?;
        proof {
            lemma_be_value_bound(window(self@, at as int, 8));
            lemma_casts_64(0, value);
            lemma_radix_values();
        }
        Ok(value as i64)
    }

    /// Stores a unsigned 64-bit integer at `at`, most-significant byte first.
    pub fn write_u64(&mut self, at: usize, value: u64) -> (r: Result<(), Fault>)
        ensures
            final(self)@.len() == old(self)@.len(),
            old(self).in_range(at, 8) ==> r == Ok::<(), Fault>(()) && final(self)@ == splice(
                old(self)@,
                at as int,
                be_bytes(value as nat, 8),
            ),
            !old(self).in_range(at, 8) ==> r == Err::<(), Fault>(old(self).range_fault(at, 8))
                && final(self)@ == old(self)@,
    {
        self.assert_access_range(at, 8)?;
        self.store_be(at, 8, value as u128);
        Ok(())
    }

    /// Stores a signed 64-bit integer at `at`, most-significant byte first.
    /// The bytes hold its two's-complement pattern.
    pub fn write_i64(&mut self, at: usize, value: i64) -> (r: Result<(), Fault>)
        ensures
            final(self)@.len() == old(self)@.len(),
            old(self).in_range(at, 8) ==> r == Ok::<(), Fault>(()) && final(self)@ == splice(
                old(self)@,
                at as int,
                be_bytes(unsigned_of(value as int, 8), 8),
            ),
            !old(self).in_range(at, 8) ==> r == Err::<(), Fault>(old(self).range_fault(at, 8))
                && final(self)@ == old(self)@,
    {
        proof {
            lemma_casts_64(value, 0);
            lemma_radix_values();
        }
        self.write_u64(at, value as u64)
    }

    /// The unsigned 128-bit integer stored at `at`, most-significant byte first.
    pub fn read_u128(&self, at: usize) -> (r: Result<u128, Fault>)
        ensures
            self.in_range(at, 16) ==> r == Ok::<u128, Fault>(
                be_value(window(self@, at as int, 16)) as u128,
            ),
            !self.in_range(at, 16) ==> r == Err::<u128, Fault>(self.range_fault(at, 16)),
    {
        self.assert_access_range(at, 16)?;
        let value = self.load_be(at, 16);
        proof {
            lemma_be_value_bound(window(self@, at as int, 16));
            lemma_radix_values();
        }
        Ok(value as u128)
    }

    /// The signed 128-bit integer stored at `at`, most-significant byte first.
    /// The bytes hold its two's-complement pattern.
    pub fn read_i128(&self, at: usize) -> (r: Result<i128, Fault>)
        ensures
            self.in_range(at, 16) ==> r == Ok::<i128, Fault>(
                signed_of(be_value(window(self@, at as int, 16)), 16) as i128,
            ),
            !self.in_range(at, 16) ==> r == Err::<i128, Fault>(self.range_fault(at, 16)),
    {
        let value = self.read_u128(at)?;
        proof {
            lemma_be_value_bound(window(self@, at as int, 16));
            lemma_casts_128(0, value);
            lemma_radix_values();
        }
        Ok(value as i128)
    }

    /// Stores a unsigned 128-bit integer at `at`, most-significant byte first.
    pub fn write_u128(&mut self, at: usize, value: u128) -> (r: Result<(), Fault>)
        ensures
            final(self)@.len() == old(self)@.len(),
            old(self).in_range(at, 16) ==> r == Ok::<(), Fault>(()) && final(self)@ == splice(
                old(self)@,
                at as int,
                be_bytes(value as nat, 16),
            ),
            !old(self).in_range(at, 16) ==> r == Err::<(), Fault>(old(self).range_fault(at, 16))
                && final(self)@ == old(self)@,
    {
        self.assert_access_range(at, 16)?;
        self.store_be(at, 16, value as u128);
        Ok(())
    }

    /// Stores a signed 128-bit integer at `at`, most-significant byte first.
    /// The bytes hold its two's-complement pattern.
    pub fn write_i128(&mut self, at: usize, value: i128) -> (r: Result<(), Fault>)
        ensures
            final(self)@.len() == old(self)@.len(),
            old(self).in_range(at, 16) ==> r == Ok::<(), Fault>(()) && final(self)@ == splice(
                old(self)@,
                at as int,
                be_bytes(unsigned_of(value as int, 16), 16),
            ),
            !old(self).in_range(at, 16) ==> r == Err::<(), Fault>(old(self).range_fault(at, 16))
                && final(self)@ == old(self)@,
    {
        proof {
            lemma_casts_128(value, 0);
            lemma_radix_values();
        }
        self.write_u128(at, value as u128)
    }

    /// The bit pattern of the 32-bit floating-point value stored at `at`,
    /// least-significant byte first.
    pub fn read_f32(&self, at: usize) -> (r: Result<u32, Fault>)
        ensures
            self.in_range(at, 4) ==> r == Ok::<u32, Fault>(
                le_value(window(self@, at as int, 4)) as u32,
            ),
            !self.in_range(at, 4) ==> r == Err::<u32, Fault>(self.range_fault(at, 4)),
    {
        self.assert_access_range(at, 4)?;
        let bits = self.load_le(at, 4);
        proof {
            lemma_le_value_bound(window(self@, at as int, 4));
            lemma_radix_values();
        }
        Ok(bits as u32)
    }

    /// Stores the bit pattern of a 32-bit floating-point value at `at`,
    /// least-significant byte first.
    pub fn write_f32(&mut self, at: usize, bits: u32) -> (r: Result<(), Fault>)
        ensures
            final(self)@.len() == old(self)@.len(),
            old(self).in_range(at, 4) ==> r == Ok::<(), Fault>(()) && final(self)@ == splice(
                old(self)@,
                at as int,
                le_bytes(bits as nat, 4),
            ),
            !old(self).in_range(at, 4) ==> r == Err::<(), Fault>(old(self).range_fault(at, 4))
                && final(self)@ == old(self)@,
    {
        self.assert_access_range(at, 4)?;
        self.store_le(at, 4, bits as u128);
        Ok(())
    }

    /// The bit pattern of the 64-bit floating-point value stored at `at`,
    /// least-significant byte first.
    pub fn read_f64(&self, at: usize) -> (r: Result<u64, Fault>)
        ensures
            self.in_range(at, 8) ==> r == Ok::<u64, Fault>(
                le_value(window(self@, at as int, 8)) as u64,
            ),
            !self.in_range(at, 8) ==> r == Err::<u64, Fault>(self.range_fault(at, 8)),
    {
        self.assert_access_range(at, 8)?;
        let bits = self.load_le(at, 8);
        proof {
            lemma_le_value_bound(window(self@, at as int, 8));
            lemma_radix_values();
        }
        Ok(bits as u64)
    }

    /// Stores the bit pattern of a 64-bit floating-point value at `at`,
    /// least-significant byte first.
    pub fn write_f64(&mut self, at: usize, bits: u64) -> (r: Result<(), Fault>)
        ensures
            final(self)@.len() == old(self)@.len(),
            old(self).in_range(at, 8) ==> r == Ok::<(), Fault>(()) && final(self)@ == splice(
                old(self)@,
                at as int,
                le_bytes(bits as nat, 8),
            ),
            !old(self).in_range(at, 8) ==> r == Err::<(), Fault>(old(self).range_fault(at, 8))
                && final(self)@ == old(self)@,
    {
        self.assert_access_range(at, 8)?;
        self.store_le(at, 8, bits as u128);
        Ok(())
    }

    /// A copy of the `length` bytes at `at`.
    pub fn read_bytes(&self, at: usize, length: usize) -> (r: Result<Vec<u8>, Fault>)
        ensures
            self.in_range(at, length) ==> (r matches Ok(bytes) && bytes@ == window(
                self@,
                at as int,
                length as int,
            )),
            !self.in_range(at, length) ==> (r matches Err(fault) && fault == self.range_fault(
                at,
                length,
            )),
    {
        self.assert_access_range(at, length)?;
        let mut bytes: Vec<u8> = Vec::new();
        let mut copied: usize = 0;
        while copied < length
            invariant
                copied <= length,
                at + length <= self.0.len(),
                bytes@ == window(self@, at as int, copied as int),
            decreases length - copied,
        {
            bytes.push(self.0[at + copied]);
            copied += 1;
            assert(bytes@ =~= window(self@, at as int, copied as int));
        }
        Ok(bytes)
    }

    /// Stores `value` at `at`.
    pub fn write_bytes(&mut self, at: usize, value: &[u8]) -> (r: Result<(), Fault>)
        ensures
            final(self)@.len() == old(self)@.len(),
            old(self).in_range(at, value@.len() as usize) ==> r == Ok::<(), Fault>(())
                && final(self)@ == splice(old(self)@, at as int, value@),
            !old(self).in_range(at, value@.len() as usize) ==> r == Err::<(), Fault>(
                old(self).range_fault(at, value@.len() as usize),
            ) && final(self)@ == old(self)@,
    {
        let length = value.len();
        self.assert_access_range(at, length)?;
        let mut copied: usize = 0;
        while copied < length
            invariant
                copied <= length == value@.len(),
                at + length <= self.0.len(),
                self@.len() == old(self)@.len(),
                self@ == splice(old(self)@, at as int, value@.subrange(0, copied as int)),
            decreases length - copied,
        {
            self.0.set(at + copied, value[copied]);
            copied += 1;
            assert(self@ =~= splice(old(self)@, at as int, value@.subrange(0, copied as int)));
        }
        assert(value@.subrange(0, length as int) =~= value@);
        Ok(())
    }

    /// The `length` bytes at `at`, decoded as UTF-8 text; each ill-formed
    /// part is replaced as [`text_of`] says.
    pub fn read_string(&self, at: usize, length: usize) -> (r: Result<String, Fault>)
        ensures
            self.in_range(at, length) ==> (r matches Ok(text) && text@ == text_of(
                window(self@, at as int, length as int),
            )),
            !self.in_range(at, length) ==> (r matches Err(fault) && fault == self.range_fault(
                at,
                length,
            )),
    {
        let bytes = self.read_bytes(at, length)?;
        Ok(decode_lossy(bytes.as_slice()))
    }

    /// Stores the UTF-8 encoding of `value` at `at`.
    pub fn write_string(&mut self, at: usize, value: &str) -> (r: Result<(), Fault>)
        ensures
            final(self)@.len() == old(self)@.len(),
            old(self).in_range(at, encode_utf8(value@).len() as usize) ==> r == Ok::<(), Fault>(())
                && final(self)@ == splice(old(self)@, at as int, encode_utf8(value@)),
            !old(self).in_range(at, encode_utf8(value@).len() as usize) ==> r == Err::<(), Fault>(
                old(self).range_fault(at, encode_utf8(value@).len() as usize),
            ) && final(self)@ == old(self)@,
    {
        self.write_bytes(at, value.as_bytes())
    }

    /// A dump of the `length` bytes at `at`, in hexadecimal and as
    /// characters, for a reader.
    pub fn display(&self, at: usize, length: usize) -> (r: Result<String, Fault>)
        ensures
            self.in_range(at, length) ==> (r matches Ok(text) && text@ == dump(
                self@,
                at as int,
                length as int,
            )),
            !self.in_range(at, length) ==> (r matches Err(fault) && fault == self.range_fault(
                at,
                length,
            )),
    {
        self.assert_access_range(at, length)?;
        let size = self.0.len();
        let mut text = String::new();
        if at > 0 {
            text.append("\n... (- ");
            push_decimal(&mut text, at as u128);
            text.append(" bytes)\n");
        }
        push_dump_rows(&mut text, self.0.as_slice(), at, at + length);
        if length < size - at {
            text.append("\n... (+ ");
            push_decimal(&mut text, (size - at - length) as u128);
            text.append(" more bytes)");
        }
        assert(text@ =~= dump(self@, at as int, length as int));
        Ok(text)
    }

    /// A dump of the buffer's first 128 bytes, or of all of them where it
    /// has fewer.
    pub fn to_string(&self) -> (text: String)
        ensures
            text@ == dump(self@, 0, if self@.len() < 128 { self@.len() as int } else { 128 }),
    {
        let size = self.0.len();
        let shown = if size < 128 {
            size
        } else {
            128
        };
        match self.display(0, shown) {
            Ok(text) => text,
            Err(_) => String::new(),
        }
    }
}

/// Bytes stored at a place that holds them are the bytes found there
/// afterwards, and the memory keeps its length.
pub proof fn lemma_store_then_load_bytes(mem: Seq<u8>, at: int, bytes: Seq<u8>)
    requires
        0 <= at,
        at + bytes.len() <= mem.len(),
    ensures
        splice(mem, at, bytes).len() == mem.len(),
        window(splice(mem, at, bytes), at, bytes.len() as int) == bytes,
{
    assert(window(splice(mem, at, bytes), at, bytes.len() as int) =~= bytes);
}

/// A byte stored at a place inside the memory is the byte found there
/// afterwards, and so is a signed byte.
pub proof fn lemma_store_then_load_byte(mem: Seq<u8>, at: int, value: u8, signed: i8)
    requires
        0 <= at < mem.len(),
    ensures
        mem.update(at, value)[at] == value,
        signed_of(mem.update(at, unsigned_of(signed as int, 1) as u8)[at] as nat, 1) == signed,
{
    lemma_radix_values();
}

/// An unsigned integer of `width` bytes that is stored most-significant
/// byte first at a place that holds it is the integer read there afterwards.
pub proof fn lemma_store_then_load_unsigned(mem: Seq<u8>, at: int, value: nat, width: nat)
    requires
        0 <= at,
        at + width <= mem.len(),
        value < radix(width),
    ensures
        be_value(window(splice(mem, at, be_bytes(value, width)), at, width as int)) == value,
{
    lemma_be_bytes_len(value, width);
    lemma_store_then_load_bytes(mem, at, be_bytes(value, width));
    lemma_be_value_of_bytes(value, width);
    vstd::arithmetic::div_mod::lemma_small_mod(value, radix(width));
}

/// A signed integer of `width` bytes that is stored most-significant byte
/// first, in two's complement, at a place that holds it is the integer read
/// there afterwards.
pub proof fn lemma_store_then_load_signed(mem: Seq<u8>, at: int, value: int, width: nat)
    requires
        0 <= at,
        at + width <= mem.len(),
        -(radix(width) as int) <= 2 * value < radix(width),
    ensures
        signed_of(
            be_value(
                window(
                    splice(mem, at, be_bytes(unsigned_of(value, width), width)),
                    at,
                    width as int,
                ),
            ),
            width,
        ) == value,
{
    lemma_signed_of_unsigned(value, width);
    lemma_store_then_load_unsigned(mem, at, unsigned_of(value, width), width);
}

/// A bit pattern of `width` bytes that is stored least-significant byte
/// first at a place that holds it is the pattern read there afterwards.
pub proof fn lemma_store_then_load_pattern(mem: Seq<u8>, at: int, bits: nat, width: nat)
    requires
        0 <= at,
        at + width <= mem.len(),
        bits < radix(width),
    ensures
        le_value(window(splice(mem, at, le_bytes(bits, width)), at, width as int)) == bits,
{
    lemma_le_bytes_len(bits, width);
    lemma_store_then_load_bytes(mem, at, le_bytes(bits, width));
    lemma_le_value_of_bytes(bits, width);
    vstd::arithmetic::div_mod::lemma_small_mod(bits, radix(width));
}

/// A text whose encoding is stored at a place that holds it is the text
/// read there afterwards, at the length of its encoding.
pub proof fn lemma_store_then_load_text(mem: Seq<u8>, at: int, text: Seq<char>)
    requires
        0 <= at,
        at + encode_utf8(text).len() <= mem.len(),
    ensures
        text_of(
            window(splice(mem, at, encode_utf8(text)), at, encode_utf8(text).len() as int),
        ) == text,
{
    lemma_store_then_load_bytes(mem, at, encode_utf8(text));
    encode_utf8_valid_utf8(text);
    encode_utf8_decode_utf8(text);
}

} // verus!
