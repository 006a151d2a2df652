//! The canonical binary encoding of the wire formats: the deterministic
//! subset of CBOR (definite lengths, shortest-form heads) for unsigned
//! integers, byte strings, text strings, booleans and map headers.

use vstd::prelude::*;
use crate::bytes::{append, str_bytes, to_vec, utf8};

verus! {

pub const MAJOR_UINT: u8 = 0;

pub const MAJOR_BYTES: u8 = 2;

pub const MAJOR_TEXT: u8 = 3;

pub const MAJOR_MAP: u8 = 5;

pub const SIMPLE_FALSE: u8 = 0xf4;

pub const SIMPLE_TRUE: u8 = 0xf5;

/// The initial byte of an item: the major type in the high three bits, the
/// additional information in the low five.
pub open spec fn initial_byte(major: u8, info: int) -> u8 {
    (major as int * 32 + info) as u8
}

/// The byte of `value` that stands `index` bytes above the lowest.
#[verifier::opaque]
pub open spec fn byte_at(value: int, index: nat) -> u8
    decreases index,
{
    if index == 0 {
        (value % 0x100) as u8
    } else {
        byte_at(value / 0x100, (index - 1) as nat)
    }
}

/// The head of an item: major type and argument, the argument in the
/// shortest of the five forms that holds it, big-endian.
#[verifier::opaque]
pub open spec fn head(major: u8, arg: u64) -> Seq<u8> {
    let a = arg as int;
    if a < 24 {
        seq![initial_byte(major, a)]
    } else if a < 0x100 {
        seq![initial_byte(major, 24), byte_at(a, 0)]
    } else if a < 0x1_0000 {
        seq![initial_byte(major, 25), byte_at(a, 1), byte_at(a, 0)]
    } else if a < 0x1_0000_0000 {
        seq![initial_byte(major, 26), byte_at(a, 3), byte_at(a, 2), byte_at(a, 1), byte_at(a, 0)]
    } else {
        seq![
            initial_byte(major, 27),
            byte_at(a, 7),
            byte_at(a, 6),
            byte_at(a, 5),
            byte_at(a, 4),
            byte_at(a, 3),
            byte_at(a, 2),
            byte_at(a, 1),
            byte_at(a, 0),
        ]
    }
}

/// An unsigned integer.
pub open spec fn uint_item(value: u64) -> Seq<u8> {
    head(MAJOR_UINT, value)
}

/// A byte string: its length, then its bytes.
pub open spec fn bytes_item(bytes: Seq<u8>) -> Seq<u8> {
    head(MAJOR_BYTES, bytes.len() as u64) + bytes
}

/// A text string: the length of its UTF-8 form, then that form.
pub open spec fn text_item(text: Seq<char>) -> Seq<u8> {
    head(MAJOR_TEXT, utf8(text).len() as u64) + utf8(text)
}

/// A boolean.
pub open spec fn bool_item(value: bool) -> Seq<u8> {
    seq![if value { SIMPLE_TRUE } else { SIMPLE_FALSE }]
}

/// The header of a map of `pairs` key-value pairs.
pub open spec fn map_head(pairs: u64) -> Seq<u8> {
    head(MAJOR_MAP, pairs)
}

/// Whether `s` begins with `p`.
pub open spec fn starts_with(s: Seq<u8>, p: Seq<u8>) -> bool {
    p.len() <= s.len() && s.subrange(0, p.len() as int) == p
}

/// The byte of `value` that stands `index` bytes above the lowest.
fn byte_of(value: u64, index: u8) -> (byte: u8)
    requires
        index < 8,
    ensures
        byte == byte_at(value as int, index as nat),
{
    let mut v: u64 = value;
    let mut i: u8 = index;
    while i > 0
        invariant
            byte_at(value as int, index as nat) == byte_at(v as int, i as nat),
        decreases i,
    {
        proof {
            reveal(byte_at);
        }
        v = v / 0x100;
        i -= 1;
    }
    proof {
        reveal(byte_at);
    }
    (v % 0x100) as u8
}

/// Appends the head of an item to `out`.
pub fn write_head(out: &mut Vec<u8>, major: u8, arg: u64)
    requires
        major < 8,
    ensures
        final(out)@ == old(out)@ + head(major, arg),
{
    proof {
        reveal(head);
    }
    let m: u8 = major * 32;
    if arg < 24 {
        out.push(m + (arg as u8));
    } else if arg < 0x100 {
        out.push(m + 24);
        out.push(byte_of(arg, 0));
    } else if arg < 0x1_0000 {
        out.push(m + 25);
        out.push(byte_of(arg, 1));
        out.push(byte_of(arg, 0));
    } else if arg < 0x1_0000_0000 {
        out.push(m + 26);
        out.push(byte_of(arg, 3));
        out.push(byte_of(arg, 2));
        out.push(byte_of(arg, 1));
        out.push(byte_of(arg, 0));
    } else {
        out.push(m + 27);
        out.push(byte_of(arg, 7));
        out.push(byte_of(arg, 6));
        out.push(byte_of(arg, 5));
        out.push(byte_of(arg, 4));
        out.push(byte_of(arg, 3));
        out.push(byte_of(arg, 2));
        out.push(byte_of(arg, 1));
        out.push(byte_of(arg, 0));
    }
    assert(out@ =~= old(out)@ + head(major, arg));
}

/// Appends an unsigned integer to `out`.
pub fn write_uint(out: &mut Vec<u8>, value: u64)
    ensures
        final(out)@ == old(out)@ + uint_item(value),
{
    write_head(out, MAJOR_UINT, value);
}

/// Appends a byte string to `out`.
pub fn write_bytes(out: &mut Vec<u8>, bytes: &[u8])
    ensures
        final(out)@ == old(out)@ + bytes_item(bytes@),
        bytes@.len() <= u64::MAX,
{
    write_head(out, MAJOR_BYTES, bytes.len() as u64);
    append(out, bytes);
    assert(out@ =~= old(out)@ + bytes_item(bytes@));
}

/// Appends a text string to `out`.
pub fn write_text(out: &mut Vec<u8>, text: &str)
    ensures
        final(out)@ == old(out)@ + text_item(text@),
        utf8(text@).len() <= u64::MAX,
{
    let bytes = str_bytes(text);
    write_head(out, MAJOR_TEXT, bytes.len() as u64);
    append(out, bytes);
    assert(out@ =~= old(out)@ + text_item(text@));
}

/// Appends a boolean to `out`.
pub fn write_bool(out: &mut Vec<u8>, value: bool)
    ensures
        final(out)@ == old(out)@ + bool_item(value),
{
    out.push(if value { SIMPLE_TRUE } else { SIMPLE_FALSE });
    assert(out@ =~= old(out)@ + bool_item(value));
}

/// Appends the header of a map of `pairs` pairs to `out`.
pub fn write_map_head(out: &mut Vec<u8>, pairs: u64)
    ensures
        final(out)@ == old(out)@ + map_head(pairs),
{
    write_head(out, MAJOR_MAP, pairs);
}

/// The value of big-endian bytes.
pub open spec fn be_value(bytes: Seq<u8>) -> int
    decreases bytes.len(),
{
    if bytes.len() == 0 {
        0
    } else {
        be_value(bytes.drop_last()) * 0x100 + bytes.last() as int
    }
}

/// The number of argument bytes that follow an initial byte with this
/// additional information, where it announces any.
pub open spec fn arg_width(info: int) -> int {
    if info == 24 {
        1
    } else if info == 25 {
        2
    } else if info == 26 {
        4
    } else {
        8
    }
}

/// What reading a head from the front of `s` gives: the major type, the
/// argument, and what follows the head.
pub open spec fn parse_head(s: Seq<u8>) -> Option<(u8, u64, Seq<u8>)> {
    if s.len() == 0 {
        None
    } else {
        let major = s[0] / 32;
        let info = (s[0] % 32) as int;
        if info < 24 {
            Some((major, info as u64, s.skip(1)))
        } else if info <= 27 && s.len() >= 1 + arg_width(info) {
            Some(
                (major, be_value(s.subrange(1, 1 + arg_width(info))) as u64, s.skip(1 + arg_width(info))),
            )
        } else {
            None
        }
    }
}

/// What reading an unsigned integer from the front of `s` gives.
pub open spec fn parse_uint(s: Seq<u8>) -> Option<(u64, Seq<u8>)> {
    match parse_head(s) {
        Some((major, arg, rest)) => if major == MAJOR_UINT {
            Some((arg, rest))
        } else {
            None
        },
        None => None,
    }
}

/// What reading a byte string from the front of `s` gives.
pub open spec fn parse_bytes(s: Seq<u8>) -> Option<(Seq<u8>, Seq<u8>)> {
    match parse_head(s) {
        Some((major, arg, rest)) => if major == MAJOR_BYTES && arg <= rest.len() {
            Some((rest.take(arg as int), rest.skip(arg as int)))
        } else {
            None
        },
        None => None,
    }
}

/// What reading a text string from the front of `s` gives.
pub open spec fn parse_text(s: Seq<u8>) -> Option<(Seq<char>, Seq<u8>)> {
    match parse_head(s) {
        Some((major, arg, rest)) => if major == MAJOR_TEXT && arg <= rest.len()
            && vstd::utf8::valid_utf8(rest.take(arg as int)) {
            Some((vstd::utf8::decode_utf8(rest.take(arg as int)), rest.skip(arg as int)))
        } else {
            None
        },
        None => None,
    }
}

/// What reading a boolean from the front of `s` gives.
pub open spec fn parse_bool(s: Seq<u8>) -> Option<(bool, Seq<u8>)> {
    if s.len() > 0 && s[0] == SIMPLE_TRUE {
        Some((true, s.skip(1)))
    } else if s.len() > 0 && s[0] == SIMPLE_FALSE {
        Some((false, s.skip(1)))
    } else {
        None
    }
}

/// What follows the fixed bytes `item` at the front of `s`, where `s`
/// begins with them.
pub open spec fn parse_literal(s: Seq<u8>, item: Seq<u8>) -> Option<Seq<u8>> {
    if starts_with(s, item) {
        Some(s.skip(item.len() as int))
    } else {
        None
    }
}

/// 256 to the power `n`.
pub open spec fn pow256(n: nat) -> int
    decreases n,
{
    if n == 0 {
        1
    } else {
        pow256((n - 1) as nat) * 0x100
    }
}

/// The big-endian bytes of a value that fits in them have that value.
proof fn lemma_be_value(value: int, width: nat, bytes: Seq<u8>)
    requires
        0 <= value < pow256(width),
        bytes.len() == width,
        forall|k: int| 0 <= k < width ==> bytes[k] == byte_at(value, (width - 1 - k) as nat),
    ensures
        be_value(bytes) == value,
    decreases width,
{
    reveal(byte_at);
    if width == 0 {
    } else {
        let init = bytes.drop_last();
        assert forall|k: int| 0 <= k < width - 1 implies init[k] == byte_at(
            value / 0x100,
            (width - 2 - k) as nat,
        ) by {
            assert(init[k] == bytes[k]);
        }
        lemma_be_value(value / 0x100, (width - 1) as nat, init);
        assert(bytes.last() == byte_at(value, 0));
    }
}

/// Reading a head back gives its major type and argument.
pub proof fn lemma_parse_head(major: u8, arg: u64, rest: Seq<u8>)
    requires
        major < 8,
    ensures
        parse_head(head(major, arg) + rest) == Some((major, arg, rest)),
{
    reveal(head);
    let h = head(major, arg);
    let s = h + rest;
    assert(s[0] == h[0]);
    assert(s.skip(h.len() as int) =~= rest);
    if arg >= 24 {
        let width: nat = (h.len() - 1) as nat;
        let bytes = s.subrange(1, 1 + width as int);
        assert(bytes =~= h.subrange(1, h.len() as int));
        lemma_pow256_values();
        lemma_be_value(arg as int, width, bytes);
    }
}

/// Reading an unsigned integer back gives its value.
pub proof fn lemma_parse_uint(value: u64, rest: Seq<u8>)
    ensures
        parse_uint(uint_item(value) + rest) == Some((value, rest)),
{
    lemma_parse_head(MAJOR_UINT, value, rest);
}

/// Reading a byte string back gives its bytes.
pub proof fn lemma_parse_bytes(bytes: Seq<u8>, rest: Seq<u8>)
    requires
        bytes.len() <= u64::MAX,
    ensures
        parse_bytes(bytes_item(bytes) + rest) == Some((bytes, rest)),
{
    let h = head(MAJOR_BYTES, bytes.len() as u64);
    let tail = bytes + rest;
    lemma_parse_head(MAJOR_BYTES, bytes.len() as u64, tail);
    assert(bytes_item(bytes) + rest =~= h + tail);
    assert(tail.take(bytes.len() as int) =~= bytes);
    assert(tail.skip(bytes.len() as int) =~= rest);
}

/// Reading a text string back gives its text.
pub proof fn lemma_parse_text(text: Seq<char>, rest: Seq<u8>)
    requires
        utf8(text).len() <= u64::MAX,
    ensures
        parse_text(text_item(text) + rest) == Some((text, rest)),
{
    let bytes = utf8(text);
    let h = head(MAJOR_TEXT, bytes.len() as u64);
    let tail = bytes + rest;
    lemma_parse_head(MAJOR_TEXT, bytes.len() as u64, tail);
    assert(text_item(text) + rest =~= h + tail);
    assert(tail.take(bytes.len() as int) =~= bytes);
    assert(tail.skip(bytes.len() as int) =~= rest);
    crate::bytes::lemma_utf8_decodes(text);
}

/// Reading a boolean back gives its value.
pub proof fn lemma_parse_bool(value: bool, rest: Seq<u8>)
    ensures
        parse_bool(bool_item(value) + rest) == Some((value, rest)),
{
    let s = bool_item(value) + rest;
    assert(s[0] == bool_item(value)[0]);
    assert(s.skip(1) =~= rest);
}

/// Fixed bytes at the front are recognised, and what follows them is left.
pub proof fn lemma_parse_literal(item: Seq<u8>, rest: Seq<u8>)
    ensures
        parse_literal(item + rest, item) == Some(rest),
{
    assert((item + rest).subrange(0, item.len() as int) =~= item);
    assert((item + rest).skip(item.len() as int) =~= rest);
}

/// The powers of 256 up to the eighth.
proof fn lemma_pow256_values()
    ensures
        pow256(0) == 1,
        pow256(1) == 0x100,
        pow256(2) == 0x1_0000,
        pow256(3) == 0x100_0000,
        pow256(4) == 0x1_0000_0000,
        pow256(5) == 0x100_0000_0000,
        pow256(6) == 0x1_0000_0000_0000,
        pow256(7) == 0x100_0000_0000_0000,
        pow256(8) == 0x1_0000_0000_0000_0000,
{
    reveal_with_fuel(pow256, 10);
}

/// Below the eighth, a power of 256 leaves room for one more byte.
proof fn lemma_pow256_step(n: nat)
    requires
        n <= 7,
    ensures
        0 < pow256(n) <= 0x100_0000_0000_0000,
        pow256(n + 1) == pow256(n) * 0x100,
{
    lemma_pow256_values();
    reveal_with_fuel(pow256, 2);
    if n == 0 {
    } else if n == 1 {
    } else if n == 2 {
    } else if n == 3 {
    } else if n == 4 {
    } else if n == 5 {
    } else if n == 6 {
    } else {
    }
}

/// Reads the head of an item at `pos`: major type, argument and the
/// position after the head.
pub fn read_head(data: &[u8], pos: usize) -> (res: Option<(u8, u64, usize)>)
    requires
        pos <= data@.len(),
    ensures
        match parse_head(data@.skip(pos as int)) {
            Some((major, arg, rest)) => res matches Some((m, a, next)) && m == major && a == arg
                && pos <= next <= data@.len() && data@.skip(next as int) == rest,
            None => res is None,
        },
{
    let ghost s = data@.skip(pos as int);
    if pos >= data.len() {
        return None;
    }
    let first = data[pos];
    assert(s[0] == first);
    let major: u8 = first / 32;
    let info: u8 = first % 32;
    if info < 24 {
        assert(s.skip(1) =~= data@.skip(pos + 1));
        return Some((major, info as u64, pos + 1));
    }
    if info > 27 {
        return None;
    }
    let width: usize = if info == 24 {
        1
    } else if info == 25 {
        2
    } else if info == 26 {
        4
    } else {
        8
    };
    if data.len() - pos - 1 < width {
        return None;
    }
    let start: usize = pos + 1;
    let mut value: u64 = 0;
    let mut i: usize = 0;
    while i < width
        invariant
            i <= width <= 8,
            start + width <= data@.len() <= usize::MAX,
            value as int == be_value(data@.subrange(start as int, start + i)),
            0 <= (value as int) && (value as int) < pow256(i as nat),
        decreases width - i,
    {
        proof {
            lemma_pow256_step(i as nat);
            let grown = data@.subrange(start as int, start + i + 1);
            assert(grown.drop_last() =~= data@.subrange(start as int, start + i));
            assert(grown.last() == data@[start + i]);
        }
        value = value * 0x100 + data[start + i] as u64;
        i += 1;
    }
    proof {
        assert(s.subrange(1, 1 + width as int) =~= data@.subrange(start as int, start + width));
        assert(s.skip(1 + width as int) =~= data@.skip(start + width));
    }
    Some((major, value, start + width))
}

/// Reads an unsigned integer at `pos`.
pub fn read_uint(data: &[u8], pos: usize) -> (res: Option<(u64, usize)>)
    requires
        pos <= data@.len(),
    ensures
        match parse_uint(data@.skip(pos as int)) {
            Some((value, rest)) => res matches Some((v, next)) && v == value && pos <= next
                <= data@.len() && data@.skip(next as int) == rest,
            None => res is None,
        },
{
    match read_head(data, pos) {
        Some((major, arg, next)) => if major == MAJOR_UINT {
            Some((arg, next))
        } else {
            None
        },
        None => None,
    }
}

/// Reads the payload of a string item whose head announced `len` bytes.
fn read_payload(data: &[u8], pos: usize, len: u64) -> (res: Option<(Vec<u8>, usize)>)
    requires
        pos <= data@.len(),
    ensures
        res is Some <==> len <= data@.skip(pos as int).len(),
        res matches Some((bytes, next)) ==> bytes@ == data@.skip(pos as int).take(len as int) && pos
            <= next <= data@.len() && data@.skip(next as int) == data@.skip(pos as int).skip(
            len as int,
        ),
{
    if len > (data.len() - pos) as u64 {
        return None;
    }
    let n: usize = len as usize;
    let bytes = to_vec(&data[pos..pos + n]);
    proof {
        assert(data@.skip(pos as int).take(len as int) =~= data@.subrange(pos as int, pos + n));
        assert(data@.skip(pos as int).skip(len as int) =~= data@.skip(pos + n));
    }
    Some((bytes, pos + n))
}

/// Reads a byte string at `pos`.
pub fn read_bytes(data: &[u8], pos: usize) -> (res: Option<(Vec<u8>, usize)>)
    requires
        pos <= data@.len(),
    ensures
        match parse_bytes(data@.skip(pos as int)) {
            Some((bytes, rest)) => res matches Some((b, next)) && b@ == bytes && pos <= next
                <= data@.len() && data@.skip(next as int) == rest,
            None => res is None,
        },
{
    match read_head(data, pos) {
        Some((major, arg, next)) => if major == MAJOR_BYTES {
            read_payload(data, next, arg)
        } else {
            None
        },
        None => None,
    }
}

/// Reads a text string at `pos`.
pub fn read_text(data: &[u8], pos: usize) -> (res: Option<(String, usize)>)
    requires
        pos <= data@.len(),
    ensures
        match parse_text(data@.skip(pos as int)) {
            Some((text, rest)) => res matches Some((t, next)) && t@ == text && pos <= next
                <= data@.len() && data@.skip(next as int) == rest,
            None => res is None,
        },
{
    match read_head(data, pos) {
        Some((major, arg, next)) => if major == MAJOR_TEXT {
            match read_payload(data, next, arg) {
                Some((bytes, after)) => {
                    let ghost raw = bytes@;
                    match crate::bytes::string_from_utf8(bytes) {
                        Some(text) => {
                            proof {
                                crate::bytes::lemma_utf8_decodes(text@);
                            }
                            Some((text, after))
                        },
                        None => None,
                    }
                },
                None => None,
            }
        } else {
            None
        },
        None => None,
    }
}

/// Reads a boolean at `pos`.
pub fn read_bool(data: &[u8], pos: usize) -> (res: Option<(bool, usize)>)
    requires
        pos <= data@.len(),
    ensures
        match parse_bool(data@.skip(pos as int)) {
            Some((value, rest)) => res matches Some((v, next)) && v == value && pos <= next
                <= data@.len() && data@.skip(next as int) == rest,
            None => res is None,
        },
{
    if pos >= data.len() {
        return None;
    }
    let first = data[pos];
    assert(data@.skip(pos as int)[0] == first);
    assert(data@.skip(pos as int).skip(1) =~= data@.skip(pos + 1));
    if first == SIMPLE_TRUE {
        Some((true, pos + 1))
    } else if first == SIMPLE_FALSE {
        Some((false, pos + 1))
    } else {
        None
    }
}

/// Passes over the fixed bytes `item` at `pos`, where the input has them
/// there.
pub fn read_literal(data: &[u8], pos: usize, item: &[u8]) -> (res: Option<usize>)
    requires
        pos <= data@.len(),
    ensures
        match parse_literal(data@.skip(pos as int), item@) {
            Some(rest) => res matches Some(next) && pos <= next <= data@.len() && data@.skip(
                next as int,
            ) == rest,
            None => res is None,
        },
{
    if item.len() > data.len() - pos {
        return None;
    }
    let end: usize = pos + item.len();
    proof {
        assert(data@.skip(pos as int).subrange(0, item@.len() as int) =~= data@.subrange(
            pos as int,
            end as int,
        ));
        assert(data@.skip(pos as int).skip(item@.len() as int) =~= data@.skip(end as int));
    }
    if crate::bytes::bytes_eq(&data[pos..end], item) {
        Some(end)
    } else {
        None
    }
}

/// A key, the item under it, and what follows the pair.
pub open spec fn keyed(key: Seq<u8>, item: Seq<u8>, rest: Seq<u8>) -> Seq<u8> {
    key + (item + rest)
}

/// What reading an unsigned integer under `key` gives.
pub open spec fn parse_keyed_uint(s: Seq<u8>, key: Seq<u8>) -> Option<(u64, Seq<u8>)> {
    match parse_literal(s, key) {
        Some(rest) => parse_uint(rest),
        None => None,
    }
}

/// What reading a byte string under `key` gives.
pub open spec fn parse_keyed_bytes(s: Seq<u8>, key: Seq<u8>) -> Option<(Seq<u8>, Seq<u8>)> {
    match parse_literal(s, key) {
        Some(rest) => parse_bytes(rest),
        None => None,
    }
}

/// What reading a text string under `key` gives.
pub open spec fn parse_keyed_text(s: Seq<u8>, key: Seq<u8>) -> Option<(Seq<char>, Seq<u8>)> {
    match parse_literal(s, key) {
        Some(rest) => parse_text(rest),
        None => None,
    }
}

/// What reading a boolean under `key` gives.
pub open spec fn parse_keyed_bool(s: Seq<u8>, key: Seq<u8>) -> Option<(bool, Seq<u8>)> {
    match parse_literal(s, key) {
        Some(rest) => parse_bool(rest),
        None => None,
    }
}

/// What reading a map header under `key` gives: the number of pairs.
pub open spec fn parse_keyed_map(s: Seq<u8>, key: Seq<u8>) -> Option<(u64, Seq<u8>)> {
    match parse_literal(s, key) {
        Some(rest) => match parse_head(rest) {
            Some((major, arg, after)) => if major == MAJOR_MAP {
                Some((arg, after))
            } else {
                None
            },
            None => None,
        },
        None => None,
    }
}

/// Reading an unsigned integer under its key gives it back.
pub proof fn lemma_keyed_uint(key: Seq<u8>, value: u64, rest: Seq<u8>)
    ensures
        parse_keyed_uint(keyed(key, uint_item(value), rest), key) == Some((value, rest)),
{
    lemma_parse_literal(key, uint_item(value) + rest);
    lemma_parse_uint(value, rest);
}

/// Reading a byte string under its key gives it back.
pub proof fn lemma_keyed_bytes(key: Seq<u8>, bytes: Seq<u8>, rest: Seq<u8>)
    requires
        bytes.len() <= u64::MAX,
    ensures
        parse_keyed_bytes(keyed(key, bytes_item(bytes), rest), key) == Some((bytes, rest)),
{
    lemma_parse_literal(key, bytes_item(bytes) + rest);
    lemma_parse_bytes(bytes, rest);
}

/// Reading a text string under its key gives it back.
pub proof fn lemma_keyed_text(key: Seq<u8>, text: Seq<char>, rest: Seq<u8>)
    requires
        utf8(text).len() <= u64::MAX,
    ensures
        parse_keyed_text(keyed(key, text_item(text), rest), key) == Some((text, rest)),
{
    lemma_parse_literal(key, text_item(text) + rest);
    lemma_parse_text(text, rest);
}

/// Reading a boolean under its key gives it back.
pub proof fn lemma_keyed_bool(key: Seq<u8>, value: bool, rest: Seq<u8>)
    ensures
        parse_keyed_bool(keyed(key, bool_item(value), rest), key) == Some((value, rest)),
{
    lemma_parse_literal(key, bool_item(value) + rest);
    lemma_parse_bool(value, rest);
}

/// Reading a map header under its key gives the number of pairs back.
pub proof fn lemma_keyed_map(key: Seq<u8>, pairs: u64, rest: Seq<u8>)
    ensures
        parse_keyed_map(keyed(key, map_head(pairs), rest), key) == Some((pairs, rest)),
{
    lemma_parse_literal(key, map_head(pairs) + rest);
    lemma_parse_head(MAJOR_MAP, pairs, rest);
}

/// The encoding of an unsigned-integer key.
pub fn uint_key(key: u64) -> (bytes: Vec<u8>)
    ensures
        bytes@ == uint_item(key),
{
    let mut bytes: Vec<u8> = Vec::new();
    write_uint(&mut bytes, key);
    bytes
}

/// The encoding of a text key.
pub fn text_key(name: &str) -> (bytes: Vec<u8>)
    ensures
        bytes@ == text_item(name@),
{
    let mut bytes: Vec<u8> = Vec::new();
    write_text(&mut bytes, name);
    bytes
}

/// Reads an unsigned integer under `key` at `pos`.
pub fn read_keyed_uint(data: &[u8], pos: usize, key: &[u8]) -> (res: Option<(u64, usize)>)
    requires
        pos <= data@.len(),
    ensures
        match parse_keyed_uint(data@.skip(pos as int), key@) {
            Some((value, rest)) => res matches Some((v, next)) && v == value && pos <= next
                <= data@.len() && data@.skip(next as int) == rest,
            None => res is None,
        },
{
    match read_literal(data, pos, key) {
        Some(next) => read_uint(data, next),
        None => None,
    }
}

/// Reads a byte string under `key` at `pos`.
pub fn read_keyed_bytes(data: &[u8], pos: usize, key: &[u8]) -> (res: Option<(Vec<u8>, usize)>)
    requires
        pos <= data@.len(),
    ensures
        match parse_keyed_bytes(data@.skip(pos as int), key@) {
            Some((bytes, rest)) => res matches Some((b, next)) && b@ == bytes && pos <= next
                <= data@.len() && data@.skip(next as int) == rest,
            None => res is None,
        },
{
    match read_literal(data, pos, key) {
        Some(next) => read_bytes(data, next),
        None => None,
    }
}

/// Reads a text string under `key` at `pos`.
pub fn read_keyed_text(data: &[u8], pos: usize, key: &[u8]) -> (res: Option<(String, usize)>)
    requires
        pos <= data@.len(),
    ensures
        match parse_keyed_text(data@.skip(pos as int), key@) {
            Some((text, rest)) => res matches Some((t, next)) && t@ == text && pos <= next
                <= data@.len() && data@.skip(next as int) == rest,
            None => res is None,
        },
{
    match read_literal(data, pos, key) {
        Some(next) => read_text(data, next),
        None => None,
    }
}

/// Reads a boolean under `key` at `pos`.
pub fn read_keyed_bool(data: &[u8], pos: usize, key: &[u8]) -> (res: Option<(bool, usize)>)
    requires
        pos <= data@.len(),
    ensures
        match parse_keyed_bool(data@.skip(pos as int), key@) {
            Some((value, rest)) => res matches Some((v, next)) && v == value && pos <= next
                <= data@.len() && data@.skip(next as int) == rest,
            None => res is None,
        },
{
    match read_literal(data, pos, key) {
        Some(next) => read_bool(data, next),
        None => None,
    }
}

/// Reads a map header under `key` at `pos`: the number of pairs.
pub fn read_keyed_map(data: &[u8], pos: usize, key: &[u8]) -> (res: Option<(u64, usize)>)
    requires
        pos <= data@.len(),
    ensures
        match parse_keyed_map(data@.skip(pos as int), key@) {
            Some((pairs, rest)) => res matches Some((n, next)) && n == pairs && pos <= next
                <= data@.len() && data@.skip(next as int) == rest,
            None => res is None,
        },
{
    match read_literal(data, pos, key) {
        Some(next) => match read_head(data, next) {
            Some((major, arg, after)) => if major == MAJOR_MAP {
                Some((arg, after))
            } else {
                None
            },
            None => None,
        },
        None => None,
    }
}

} // verus!
