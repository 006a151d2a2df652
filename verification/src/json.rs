//! Compact JSON text for the records that are hashed or signed: unsigned
//! numbers, strings, byte arrays and booleans, without insignificant
//! white space.

use vstd::prelude::*;
use crate::bytes::{append, str_bytes, utf8};

verus! {

/// The decimal digits of a number.
#[verifier::opaque]
pub open spec fn decimal(n: nat) -> Seq<u8>
    decreases n,
{
    if n < 10 {
        seq![(0x30 + n) as u8]
    } else {
        decimal(n / 10).push((0x30 + n % 10) as u8)
    }
}

/// The lower-case hexadecimal digit of a value below 16.
pub open spec fn hex_digit(n: int) -> u8 {
    if n < 10 {
        (0x30 + n) as u8
    } else {
        (0x61 + n - 10) as u8
    }
}

/// How one byte of a string stands in JSON text: quotation mark, reverse
/// solidus and the control characters are escaped, every other byte stands
/// for itself.
pub open spec fn escape_byte(b: u8) -> Seq<u8> {
    if b == 0x22 {
        seq![0x5cu8, 0x22u8]
    } else if b == 0x5c {
        seq![0x5cu8, 0x5cu8]
    } else if b == 0x08 {
        seq![0x5cu8, 0x62u8]
    } else if b == 0x0c {
        seq![0x5cu8, 0x66u8]
    } else if b == 0x0a {
        seq![0x5cu8, 0x6eu8]
    } else if b == 0x0d {
        seq![0x5cu8, 0x72u8]
    } else if b == 0x09 {
        seq![0x5cu8, 0x74u8]
    } else if b < 0x20 {
        seq![0x5cu8, 0x75u8, 0x30u8, 0x30u8, hex_digit(b as int / 16), hex_digit(b as int % 16)]
    } else {
        seq![b]
    }
}

/// The bytes of a string with each byte escaped.
#[verifier::opaque]
pub open spec fn escaped(s: Seq<u8>) -> Seq<u8>
    decreases s.len(),
{
    if s.len() == 0 {
        Seq::empty()
    } else {
        escaped(s.drop_last()) + escape_byte(s.last())
    }
}

/// A JSON string: the escaped UTF-8 form of the text between quotation
/// marks.
pub open spec fn json_string(text: Seq<char>) -> Seq<u8> {
    seq![0x22u8] + escaped(utf8(text)) + seq![0x22u8]
}

/// The numbers of a byte string, each followed by a comma but the last.
#[verifier::opaque]
pub open spec fn joined(bytes: Seq<u8>) -> Seq<u8>
    decreases bytes.len(),
{
    if bytes.len() == 0 {
        Seq::empty()
    } else if bytes.len() == 1 {
        decimal(bytes[0] as nat)
    } else {
        joined(bytes.drop_last()) + seq![0x2cu8] + decimal(bytes.last() as nat)
    }
}

/// A byte string as a JSON array of numbers.
pub open spec fn json_bytes(bytes: Seq<u8>) -> Seq<u8> {
    seq![0x5bu8] + joined(bytes) + seq![0x5du8]
}

/// A JSON boolean.
#[verifier::opaque]
pub open spec fn json_bool(value: bool) -> Seq<u8> {
    if value {
        utf8("true"@)
    } else {
        utf8("false"@)
    }
}

/// Appends the decimal digits of `n` to `out`.
pub fn write_decimal(out: &mut Vec<u8>, n: u64)
    ensures
        final(out)@ == old(out)@ + decimal(n as nat),
    decreases n,
{
    if n >= 10 {
        write_decimal(out, n / 10);
    }
    out.push(0x30 + (n % 10) as u8);
    reveal_with_fuel(decimal, 2);
    assert(out@ =~= old(out)@ + decimal(n as nat));
}

/// Appends fixed text to `out`.
pub fn write_raw(out: &mut Vec<u8>, text: &str)
    ensures
        final(out)@ == old(out)@ + utf8(text@),
{
    append(out, str_bytes(text));
}

fn hex_digit_of(n: u8) -> (d: u8)
    requires
        n < 16,
    ensures
        d == hex_digit(n as int),
{
    if n < 10 {
        0x30 + n
    } else {
        0x61 + (n - 10)
    }
}

/// Appends one byte of a string to `out`, escaped.
fn write_escaped_byte(out: &mut Vec<u8>, b: u8)
    ensures
        final(out)@ == old(out)@ + escape_byte(b),
{
    if b == 0x22 || b == 0x5c {
        out.push(0x5c);
        out.push(b);
    } else if b == 0x08 {
        out.push(0x5c);
        out.push(0x62);
    } else if b == 0x0c {
        out.push(0x5c);
        out.push(0x66);
    } else if b == 0x0a {
        out.push(0x5c);
        out.push(0x6e);
    } else if b == 0x0d {
        out.push(0x5c);
        out.push(0x72);
    } else if b == 0x09 {
        out.push(0x5c);
        out.push(0x74);
    } else if b < 0x20 {
        out.push(0x5c);
        out.push(0x75);
        out.push(0x30);
        out.push(0x30);
        out.push(hex_digit_of(b / 16));
        out.push(hex_digit_of(b % 16));
    } else {
        out.push(b);
    }
    assert(out@ =~= old(out)@ + escape_byte(b));
}

/// Appends a JSON string to `out`.
pub fn write_string(out: &mut Vec<u8>, text: &str)
    ensures
        final(out)@ == old(out)@ + json_string(text@),
{
    let bytes = str_bytes(text);
    out.push(0x22);
    let ghost start = out@;
    let mut i: usize = 0;
    proof {
        reveal_with_fuel(escaped, 2);
        assert(start =~= start + escaped(bytes@.subrange(0, 0)));
    }
    while i < bytes.len()
        invariant
            i <= bytes@.len(),
            out@ == start + escaped(bytes@.subrange(0, i as int)),
        decreases bytes@.len() - i,
    {
        let ghost before = out@;
        write_escaped_byte(out, bytes[i]);
        proof {
            reveal_with_fuel(escaped, 2);
            let grown = bytes@.subrange(0, i + 1);
            assert(grown.drop_last() =~= bytes@.subrange(0, i as int));
            assert(grown.last() == bytes@[i as int]);
            assert(out@ =~= start + escaped(grown));
        }
        i += 1;
    }
    assert(bytes@.subrange(0, i as int) =~= bytes@);
    out.push(0x22);
    assert(out@ =~= old(out)@ + json_string(text@));
}

/// Appends a byte string to `out` as a JSON array of numbers.
pub fn write_byte_array(out: &mut Vec<u8>, bytes: &[u8])
    ensures
        final(out)@ == old(out)@ + json_bytes(bytes@),
{
    out.push(0x5b);
    let ghost start = out@;
    let mut i: usize = 0;
    proof {
        reveal_with_fuel(joined, 2);
        assert(start =~= start + joined(bytes@.subrange(0, 0)));
    }
    while i < bytes.len()
        invariant
            i <= bytes@.len(),
            out@ == start + joined(bytes@.subrange(0, i as int)),
        decreases bytes@.len() - i,
    {
        if i > 0 {
            out.push(0x2c);
        }
        write_decimal(out, bytes[i] as u64);
        proof {
            reveal_with_fuel(joined, 2);
            let grown = bytes@.subrange(0, i + 1);
            assert(grown.drop_last() =~= bytes@.subrange(0, i as int));
            assert(grown.last() == bytes@[i as int]);
            assert(out@ =~= start + joined(grown));
        }
        i += 1;
    }
    assert(bytes@.subrange(0, i as int) =~= bytes@);
    out.push(0x5d);
    assert(out@ =~= old(out)@ + json_bytes(bytes@));
}

/// Appends a JSON boolean to `out`.
pub fn write_bool(out: &mut Vec<u8>, value: bool)
    ensures
        final(out)@ == old(out)@ + json_bool(value),
{
    reveal(json_bool);
    if value {
        write_raw(out, "true");
    } else {
        write_raw(out, "false");
    }
}

} // verus!
