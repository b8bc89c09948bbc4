//! How integers are laid out in memory, as functions on byte sequences.
//!
//! Integers are stored most-significant byte first. The bit patterns of
//! floating-point values are stored least-significant byte first.

use vstd::prelude::*;

verus! {

/// 256 to the power `width`: the number of values that `width` bytes hold.
pub open spec fn radix(width: nat) -> nat
    decreases width,
{
    if width == 0 {
        1
    } else {
        256 * radix((width - 1) as nat)
    }
}

/// The number that `bytes` denote, most-significant byte first.
pub open spec fn be_value(bytes: Seq<u8>) -> nat
    decreases bytes.len(),
{
    if bytes.len() == 0 {
        0
    } else {
        be_value(bytes.drop_last()) * 256 + bytes.last() as nat
    }
}

/// The low `width` bytes of `value`, most-significant byte first.
pub open spec fn be_bytes(value: nat, width: nat) -> Seq<u8>
    decreases width,
{
    if width == 0 {
        Seq::empty()
    } else {
        be_bytes(value / 256, (width - 1) as nat).push((value % 256) as u8)
    }
}

/// The number that `bytes` denote, least-significant byte first.
pub open spec fn le_value(bytes: Seq<u8>) -> nat
    decreases bytes.len(),
{
    if bytes.len() == 0 {
        0
    } else {
        bytes.first() as nat + 256 * le_value(bytes.drop_first())
    }
}

/// The low `width` bytes of `value`, least-significant byte first.
pub open spec fn le_bytes(value: nat, width: nat) -> Seq<u8>
    decreases width,
{
    if width == 0 {
        Seq::empty()
    } else {
        seq![(value % 256) as u8] + le_bytes(value / 256, (width - 1) as nat)
    }
}

/// The unsigned number with the same `width`-byte two's-complement pattern
/// as `value`.
pub open spec fn unsigned_of(value: int, width: nat) -> nat {
    if value >= 0 {
        value as nat
    } else {
        (value + radix(width)) as nat
    }
}

/// The signed number with the same `width`-byte two's-complement pattern as
/// `value`.
pub open spec fn signed_of(value: nat, width: nat) -> int {
    if 2 * value < radix(width) {
        value as int
    } else {
        value - radix(width)
    }
}

/// The values of `radix` at the widths that the memory stores.
pub proof fn lemma_radix_values()
    ensures
        radix(0) == 1,
        radix(1) == 0x100,
        radix(2) == 0x1_0000,
        radix(4) == 0x1_0000_0000,
        radix(8) == 0x1_0000_0000_0000_0000,
        radix(16) == 0x1_0000_0000_0000_0000_0000_0000_0000_0000,
{
    reveal_with_fuel(radix, 17);
}

/// `radix` grows with the width.
pub proof fn lemma_radix_monotonic(a: nat, b: nat)
    requires
        a <= b,
    ensures
        0 < radix(a) <= radix(b),
    decreases b,
{
    if a < b {
        lemma_radix_monotonic(a, (b - 1) as nat);
    } else if a > 0 {
        lemma_radix_monotonic((a - 1) as nat, (a - 1) as nat);
    }
}

/// An encoding has exactly the width asked for.
pub proof fn lemma_be_bytes_len(value: nat, width: nat)
    ensures
        be_bytes(value, width).len() == width,
    decreases width,
{
    if width > 0 {
        lemma_be_bytes_len(value / 256, (width - 1) as nat);
    }
}

/// What `n` bytes denote is below `radix(n)`.
pub proof fn lemma_be_value_bound(bytes: Seq<u8>)
    ensures
        be_value(bytes) < radix(bytes.len()),
    decreases bytes.len(),
{
    if bytes.len() > 0 {
        lemma_be_value_bound(bytes.drop_last());
    }
}

/// Decoding an encoding gives the value back, reduced to the width.
pub proof fn lemma_be_value_of_bytes(value: nat, width: nat)
    ensures
        be_value(be_bytes(value, width)) == value % radix(width),
    decreases width,
{
    if width > 0 {
        let rest = be_bytes(value / 256, (width - 1) as nat);
        lemma_be_value_of_bytes(value / 256, (width - 1) as nat);
        lemma_radix_monotonic(0, (width - 1) as nat);
        assert(be_bytes(value, width).drop_last() =~= rest);
        vstd::arithmetic::div_mod::lemma_breakdown(
            value as int,
            256,
            radix((width - 1) as nat) as int,
        );
    }
}

/// An encoding has exactly the width asked for.
pub proof fn lemma_le_bytes_len(value: nat, width: nat)
    ensures
        le_bytes(value, width).len() == width,
    decreases width,
{
    if width > 0 {
        lemma_le_bytes_len(value / 256, (width - 1) as nat);
    }
}

/// What `n` bytes denote is below `radix(n)`.
pub proof fn lemma_le_value_bound(bytes: Seq<u8>)
    ensures
        le_value(bytes) < radix(bytes.len()),
    decreases bytes.len(),
{
    if bytes.len() > 0 {
        lemma_le_value_bound(bytes.drop_first());
    }
}

/// Decoding an encoding gives the value back, reduced to the width.
pub proof fn lemma_le_value_of_bytes(value: nat, width: nat)
    ensures
        le_value(le_bytes(value, width)) == value % radix(width),
    decreases width,
{
    if width > 0 {
        let rest = le_bytes(value / 256, (width - 1) as nat);
        lemma_le_value_of_bytes(value / 256, (width - 1) as nat);
        lemma_radix_monotonic(0, (width - 1) as nat);
        assert(le_bytes(value, width).drop_first() =~= rest);
        vstd::arithmetic::div_mod::lemma_breakdown(
            value as int,
            256,
            radix((width - 1) as nat) as int,
        );
    }
}

/// A signed value and its unsigned pattern determine each other.
pub proof fn lemma_signed_of_unsigned(value: int, width: nat)
    requires
        -(radix(width) as int) <= 2 * value < radix(width),
    ensures
        unsigned_of(value, width) < radix(width),
        signed_of(unsigned_of(value, width), width) == value,
{
}

/// What the casts between the signed and the unsigned integers of 8 bits
/// compute, in arithmetic.
pub proof fn lemma_casts_8(s: i8, u: u8)
    by (bit_vector)
    ensures
        (s as u8) as int == (if s >= 0 { s as int } else { s as int + 0x100 }),
        (u as i8) as int == (if u < 0x80 { u as int } else { u as int - 0x100 }),
{
}

/// The same for 16 bits.
pub proof fn lemma_casts_16(s: i16, u: u16)
    by (bit_vector)
    ensures
        (s as u16) as int == (if s >= 0 { s as int } else { s as int + 0x1_0000 }),
        (u as i16) as int == (if u < 0x8000 { u as int } else { u as int - 0x1_0000 }),
{
}

/// The same for 32 bits.
pub proof fn lemma_casts_32(s: i32, u: u32)
    by (bit_vector)
    ensures
        (s as u32) as int == (if s >= 0 { s as int } else { s as int + 0x1_0000_0000 }),
        (u as i32) as int == (if u < 0x8000_0000 { u as int } else { u as int - 0x1_0000_0000 }),
{
}

/// The same for 64 bits.
pub proof fn lemma_casts_64(s: i64, u: u64)
    by (bit_vector)
    ensures
        (s as u64) as int == (if s >= 0 { s as int } else { s as int + 0x1_0000_0000_0000_0000 }),
        (u as i64) as int == (if u < 0x8000_0000_0000_0000 { u as int } else {
            u as int - 0x1_0000_0000_0000_0000
        }),
{
}

/// The same for 128 bits.
pub proof fn lemma_casts_128(s: i128, u: u128)
    by (bit_vector)
    ensures
        (s as u128) as int == (if s >= 0 { s as int } else {
            s as int + 0x1_0000_0000_0000_0000_0000_0000_0000_0000
        }),
        (u as i128) as int == (if u < 0x8000_0000_0000_0000_0000_0000_0000_0000 { u as int } else {
            u as int - 0x1_0000_0000_0000_0000_0000_0000_0000_0000
        }),
{
}

} // verus!
