//! Lower-case hexadecimal text of byte strings.

use vstd::prelude::*;

verus! {

/// The sixteen hexadecimal digits, in order.
pub open spec fn hex_digits() -> Seq<char> {
    "0123456789abcdef"@
}

/// The lower-case hexadecimal text of a byte string, two digits a byte, the
/// high half first.
pub open spec fn hex_chars(data: Seq<u8>) -> Seq<char> {
    Seq::new(
        2 * data.len(),
        |i: int|
            if i % 2 == 0 {
                hex_digits()[data[i / 2] as int / 16]
            } else {
                hex_digits()[data[i / 2] as int % 16]
            },
    )
}

/// `hex::encode`: the lower-case hexadecimal text of `data`.
#[verifier::external_body]
fn hex_crate_encode(data: &[u8]) -> (text: String)
    ensures
        text@ == hex_chars(data@),
{
    hex::encode(data)
}

/// The lower-case hexadecimal text of `data`.
pub fn hex_encode(data: &[u8]) -> (text: String)
    ensures
        text@ == hex_chars(data@),
        text@.len() == 2 * data@.len(),
{
    hex_crate_encode(data)
}

/// The hexadecimal text of the first four bytes of an identifier, or of all
/// of it where it is shorter.
pub open spec fn hex_prefix4(id: Seq<u8>) -> Seq<char> {
    hex_chars(id.take(if id.len() >= 4 { 4 } else { id.len() as int }))
}

/// The hexadecimal text of the first four bytes of `id`.
pub fn hex_prefix(id: &[u8]) -> (text: String)
    ensures
        text@ == hex_prefix4(id@),
{
    let head = crate::bytes::prefix(id, 4);
    hex_encode(head.as_slice())
}

} // verus!
