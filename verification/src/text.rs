//! Text: decoding bytes, and rendering numbers and bytes for diagnostics.

use vstd::prelude::*;
use vstd::string::StringExecFns;
use vstd::utf8::{decode_utf8, valid_utf8};

verus! {

/// The text that `String::from_utf8_lossy` makes of `bytes`: the decoding of
/// its well-formed UTF-8 parts, with U+FFFD in place of each ill-formed one.
pub uninterp spec fn utf8_lossy(bytes: Seq<u8>) -> Seq<char>;

/// The text that bytes are read as: their decoding where they are
/// well-formed UTF-8, else what [`utf8_lossy`] makes of them.
pub open spec fn text_of(bytes: Seq<u8>) -> Seq<char> {
    if valid_utf8(bytes) {
        decode_utf8(bytes)
    } else {
        utf8_lossy(bytes)
    }
}

/// Calls `String::from_utf8_lossy` and takes the text as an owned `String`.
/// The result is a function of the bytes alone, named [`utf8_lossy`]; on
/// well-formed UTF-8 it is the exact decoding, as the function's
/// documentation says.
#[verifier::external_body]
pub(crate) fn decode_lossy(bytes: &[u8]) -> (text: String)
    ensures
        text@ == utf8_lossy(bytes@),
        valid_utf8(bytes@) ==> text@ == decode_utf8(bytes@),
{
    String::from_utf8_lossy(bytes).into_owned()
}

/// `String::push` appends one character to the text.
pub assume_specification[ String::push ](text: &mut String, c: char)
    ensures
        final(text)@ == old(text)@.push(c),
;

/// The digit for `n` below 16; the letters are capitals where `upper` holds.
pub open spec fn digit(n: nat, upper: bool) -> char {
    if n < 10 {
        (48 + n) as char
    } else if upper {
        (55 + n) as char
    } else {
        (87 + n) as char
    }
}

/// `n` in decimal, without leading zeros.
pub open spec fn decimal(n: nat) -> Seq<char>
    decreases n,
{
    if n < 10 {
        seq![digit(n, false)]
    } else {
        decimal(n / 10).push(digit(n % 10, false))
    }
}

/// `n` in hexadecimal with capital letters, without leading zeros.
pub open spec fn hex_upper(n: nat) -> Seq<char>
    decreases n,
{
    if n < 16 {
        seq![digit(n, true)]
    } else {
        hex_upper(n / 16).push(digit(n % 16, true))
    }
}

/// `n` in hexadecimal with capital letters, filled with zeros on the left to
/// four digits.
pub open spec fn hex_upper_4(n: nat) -> Seq<char> {
    if n < 0x1_0000 {
        seq![
            digit(n / 0x1000, true),
            digit(n / 0x100 % 16, true),
            digit(n / 0x10 % 16, true),
            digit(n % 16, true),
        ]
    } else {
        hex_upper(n)
    }
}

/// A byte as two hexadecimal digits with small letters.
pub open spec fn hex_byte(byte: u8) -> Seq<char> {
    seq![digit(byte as nat / 16, false), digit(byte as nat % 16, false)]
}

/// The character that shows a byte in a dump: itself where it is printable
/// ASCII, else a dot.
pub open spec fn printable(byte: u8) -> char {
    if byte < 32 || byte > 126 {
        '.'
    } else {
        byte as char
    }
}

/// Each byte as two hexadecimal digits and a space.
pub open spec fn hex_cells(bytes: Seq<u8>) -> Seq<char>
    decreases bytes.len(),
{
    if bytes.len() == 0 {
        Seq::empty()
    } else {
        hex_cells(bytes.drop_last()) + hex_byte(bytes.last()).push(' ')
    }
}

/// Each byte as the character that shows it.
pub open spec fn ascii_column(bytes: Seq<u8>) -> Seq<char> {
    Seq::new(bytes.len(), |i: int| printable(bytes[i]))
}

/// The digit for `n`, which is below 16.
fn digit_char(n: u8, upper: bool) -> (c: char)
    requires
        n < 16,
    ensures
        c == digit(n as nat, upper),
{
    if n < 10 {
        (48 + n) as char
    } else if upper {
        (55 + n) as char
    } else {
        (87 + n) as char
    }
}

/// Appends `n` in decimal.
pub(crate) fn push_decimal(text: &mut String, n: u128)
    ensures
        final(text)@ == old(text)@ + decimal(n as nat),
    decreases n,
{
    if n >= 10 {
        push_decimal(text, n / 10);
    }
    text.push(digit_char((n % 10) as u8, false));
    assert(text@ =~= old(text)@ + decimal(n as nat));
}

/// Appends `n` in hexadecimal with capital letters.
fn push_hex_upper(text: &mut String, n: u128)
    ensures
        final(text)@ == old(text)@ + hex_upper(n as nat),
    decreases n,
{
    if n >= 16 {
        push_hex_upper(text, n / 16);
    }
    text.push(digit_char((n % 16) as u8, true));
    assert(text@ =~= old(text)@ + hex_upper(n as nat));
}

/// Appends `n` in hexadecimal with capital letters, filled with zeros on the
/// left to four digits.
pub(crate) fn push_hex_upper_4(text: &mut String, n: u128)
    ensures
        final(text)@ == old(text)@ + hex_upper_4(n as nat),
{
    if n < 0x1_0000 {
        text.push(digit_char((n / 0x1000) as u8, true));
        text.push(digit_char((n / 0x100 % 16) as u8, true));
        text.push(digit_char((n / 0x10 % 16) as u8, true));
        text.push(digit_char((n % 16) as u8, true));
        assert(text@ =~= old(text)@ + hex_upper_4(n as nat));
    } else {
        push_hex_upper(text, n);
    }
}

/// Appends the bytes of `bytes` from `from` up to `to`, each as two
/// hexadecimal digits and a space.
pub(crate) fn push_hex_cells(text: &mut String, bytes: &[u8], from: usize, to: usize)
    requires
        from <= to <= bytes@.len(),
    ensures
        final(text)@ == old(text)@ + hex_cells(bytes@.subrange(from as int, to as int)),
{
    let mut next: usize = from;
    while next < to
        invariant
            from <= next <= to <= bytes@.len(),
            text@ == old(text)@ + hex_cells(bytes@.subrange(from as int, next as int)),
        decreases to - next,
    {
        let byte = bytes[next];
        let ghost before = text@;
        text.push(digit_char(byte / 16, false));
        text.push(digit_char(byte % 16, false));
        text.push(' ');
        proof {
            let done = bytes@.subrange(from as int, next as int);
            let more = bytes@.subrange(from as int, next + 1);
            assert(more.drop_last() =~= done);
            assert(text@ =~= before + hex_byte(byte).push(' '));
            assert(text@ =~= old(text)@ + hex_cells(more));
        }
        next += 1;
    }
    assert(hex_cells(bytes@.subrange(from as int, from as int)) =~= Seq::<char>::empty());
}

/// Appends the bytes of `bytes` from `from` up to `to`, each as the
/// character that shows it.
pub(crate) fn push_ascii_column(text: &mut String, bytes: &[u8], from: usize, to: usize)
    requires
        from <= to <= bytes@.len(),
    ensures
        final(text)@ == old(text)@ + ascii_column(bytes@.subrange(from as int, to as int)),
{
    let mut next: usize = from;
    while next < to
        invariant
            from <= next <= to <= bytes@.len(),
            text@ == old(text)@ + ascii_column(bytes@.subrange(from as int, next as int)),
        decreases to - next,
    {
        let byte = bytes[next];
        let shown = if byte < 32 || byte > 126 {
            '.'
        } else {
            byte as char
        };
        text.push(shown);
        proof {
            let done = bytes@.subrange(from as int, next as int);
            let more = bytes@.subrange(from as int, next + 1);
            assert(ascii_column(more) =~= ascii_column(done).push(printable(byte)));
        }
        next += 1;
        assert(text@ =~= old(text)@ + ascii_column(bytes@.subrange(from as int, next as int)));
    }
}

/// A dump of `bytes` in rows of sixteen. A full row shows its bytes as
/// hexadecimal cells, then a bar, then the same bytes as characters; rows are
/// parted by line breaks. A last row of fewer bytes shows its cells alone.
pub open spec fn dump_rows(bytes: Seq<u8>) -> Seq<char>
    decreases bytes.len(),
{
    if bytes.len() < 16 {
        hex_cells(bytes)
    } else {
        let row = bytes.subrange(0, 16);
        let rest = bytes.subrange(16, bytes.len() as int);
        hex_cells(row) + "| "@ + ascii_column(row) + (if rest.len() > 0 {
            "\n"@
        } else {
            Seq::empty()
        }) + dump_rows(rest)
    }
}

/// Appends the dump of the bytes of `bytes` from `from` up to `to`.
pub(crate) fn push_dump_rows(text: &mut String, bytes: &[u8], from: usize, to: usize)
    requires
        from <= to <= bytes@.len(),
    ensures
        final(text)@ == old(text)@ + dump_rows(bytes@.subrange(from as int, to as int)),
{
    let mut next: usize = from;
    while to - next >= 16
        invariant
            from <= next <= to <= bytes@.len(),
            text@ + dump_rows(bytes@.subrange(next as int, to as int)) == old(text)@ + dump_rows(
                bytes@.subrange(from as int, to as int),
            ),
        decreases to - next,
    {
        let ghost before = text@;
        let ghost left = bytes@.subrange(next as int, to as int);
        push_hex_cells(text, bytes, next, next + 16);
        text.append("| ");
        push_ascii_column(text, bytes, next, next + 16);
        if to - next > 16 {
            text.append("\n");
        }
        proof {
            assert(left.subrange(0, 16) =~= bytes@.subrange(next as int, next + 16));
            assert(left.subrange(16, left.len() as int) =~= bytes@.subrange(next + 16, to as int));
            assert(text@ + dump_rows(bytes@.subrange(next + 16, to as int)) =~= before + dump_rows(
                left,
            ));
        }
        next += 16;
    }
    let ghost before = text@;
    push_hex_cells(text, bytes, next, to);
    assert(text@ =~= before + dump_rows(bytes@.subrange(next as int, to as int)));
}

} // verus!
