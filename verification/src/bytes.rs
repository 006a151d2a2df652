//! Byte-string helpers shared by the encoders and the key-derivation code.

use vstd::prelude::*;
use vstd::string::StringExecFns;

verus! {

/// The UTF-8 bytes of a text.
#[verifier::opaque]
pub open spec fn utf8(text: Seq<char>) -> Seq<u8> {
    vstd::utf8::encode_utf8(text)
}

/// The UTF-8 form of a text is valid UTF-8 and decodes to the text.
pub proof fn lemma_utf8_decodes(text: Seq<char>)
    ensures
        vstd::utf8::valid_utf8(utf8(text)),
        vstd::utf8::decode_utf8(utf8(text)) == text,
{
    reveal(utf8);
    vstd::utf8::encode_utf8_valid_utf8(text);
    vstd::utf8::encode_utf8_decode_utf8(text);
}

/// Texts with the same UTF-8 form are the same text.
pub proof fn lemma_utf8_injective(a: Seq<char>, b: Seq<char>)
    requires
        utf8(a) == utf8(b),
    ensures
        a == b,
{
    lemma_utf8_decodes(a);
    lemma_utf8_decodes(b);
}

/// The UTF-8 bytes of `text`.
pub fn str_bytes(text: &str) -> (bytes: &[u8])
    ensures
        bytes@ == utf8(text@),
{
    proof {
        reveal(utf8);
    }
    text.as_bytes()
}

/// Appends `data` to `out`.
pub fn append(out: &mut Vec<u8>, data: &[u8])
    ensures
        final(out)@ == old(out)@ + data@,
{
    out.extend_from_slice(data);
    assert(out@ =~= old(out)@ + data@);
}

/// A fresh vector holding `a` followed by `b`.
pub fn concat(a: &[u8], b: &[u8]) -> (out: Vec<u8>)
    ensures
        out@ == a@ + b@,
{
    let mut out: Vec<u8> = Vec::new();
    append(&mut out, a);
    append(&mut out, b);
    out
}

/// A fresh vector holding the bytes of `data`.
pub fn to_vec(data: &[u8]) -> (out: Vec<u8>)
    ensures
        out@ == data@,
{
    let mut out: Vec<u8> = Vec::new();
    append(&mut out, data);
    out
}

/// Whether two byte strings are equal.
pub fn bytes_eq(a: &[u8], b: &[u8]) -> (same: bool)
    ensures
        same == (a@ == b@),
{
    if a.len() != b.len() {
        return false;
    }
    let mut i: usize = 0;
    while i < a.len()
        invariant
            a@.len() == b@.len(),
            i <= a@.len(),
            a@.subrange(0, i as int) == b@.subrange(0, i as int),
        decreases a@.len() - i,
    {
        if a[i] != b[i] {
            return false;
        }
        assert(a@.subrange(0, i + 1) =~= a@.subrange(0, i as int).push(a@[i as int]));
        assert(b@.subrange(0, i + 1) =~= b@.subrange(0, i as int).push(b@[i as int]));
        i += 1;
    }
    assert(a@ =~= a@.subrange(0, i as int));
    assert(b@ =~= b@.subrange(0, i as int));
    true
}

/// The first `n` bytes of `data`, or all of it where it is shorter.
pub fn prefix(data: &[u8], n: usize) -> (out: Vec<u8>)
    ensures
        out@ == data@.take(if n <= data@.len() { n as int } else { data@.len() as int }),
{
    let k: usize = if n <= data.len() { n } else { data.len() };
    let out = to_vec(&data[0..k]);
    assert(data@.subrange(0, k as int) =~= data@.take(k as int));
    out
}

/// Whether two texts are equal.
pub fn str_eq(a: &str, b: &str) -> (same: bool)
    ensures
        same == (a@ == b@),
{
    let same = bytes_eq(str_bytes(a), str_bytes(b));
    proof {
        if same {
            lemma_utf8_injective(a@, b@);
        }
    }
    same
}

/// `String::from_utf8`: the text whose UTF-8 form is `bytes`, where `bytes`
/// is valid UTF-8, and nothing otherwise.
#[verifier::external_body]
fn string_from_utf8_std(bytes: Vec<u8>) -> (text: Option<String>)
    ensures
        text is Some <==> vstd::utf8::valid_utf8(bytes@),
        text matches Some(t) ==> utf8(t@) == bytes@,
{
    String::from_utf8(bytes).ok()
}

/// The text whose UTF-8 form is `bytes`, where `bytes` is valid UTF-8.
pub fn string_from_utf8(bytes: Vec<u8>) -> (text: Option<String>)
    ensures
        text is Some <==> vstd::utf8::valid_utf8(bytes@),
        text matches Some(t) ==> utf8(t@) == bytes@,
{
    string_from_utf8_std(bytes)
}

/// The character of a decimal digit.
pub open spec fn digit_char(d: int) -> char {
    "0123456789"@[d]
}

/// The decimal text of a number.
pub open spec fn decimal_text(n: nat) -> Seq<char>
    decreases n,
{
    if n < 10 {
        seq![digit_char(n as int)]
    } else {
        decimal_text(n / 10).push(digit_char((n % 10) as int))
    }
}

/// The text of a decimal digit.
fn digit_text(d: u64) -> (text: &'static str)
    requires
        d < 10,
    ensures
        text@ == seq![digit_char(d as int)],
{
    proof {
        reveal_strlit("0123456789");
        reveal_strlit("0");
        reveal_strlit("1");
        reveal_strlit("2");
        reveal_strlit("3");
        reveal_strlit("4");
        reveal_strlit("5");
        reveal_strlit("6");
        reveal_strlit("7");
        reveal_strlit("8");
        reveal_strlit("9");
    }
    let text = if d == 0 {
        "0"
    } else if d == 1 {
        "1"
    } else if d == 2 {
        "2"
    } else if d == 3 {
        "3"
    } else if d == 4 {
        "4"
    } else if d == 5 {
        "5"
    } else if d == 6 {
        "6"
    } else if d == 7 {
        "7"
    } else if d == 8 {
        "8"
    } else {
        "9"
    };
    assert(text@ =~= seq![digit_char(d as int)]);
    text
}

/// The decimal text of `n`.
pub fn number_text(n: u64) -> (text: String)
    ensures
        text@ == decimal_text(n as nat),
    decreases n,
{
    let mut text = if n >= 10 {
        number_text(n / 10)
    } else {
        proof {
            reveal_strlit("");
        }
        "".to_owned()
    };
    text.append(digit_text(n % 10));
    assert(text@ =~= decimal_text(n as nat));
    text
}

/// Appends `tail` to `text`.
pub fn push_text(text: &mut String, tail: &str)
    ensures
        final(text)@ == old(text)@ + tail@,
{
    text.append(tail)
}

} // verus!
