//! ASCII text as bytes.

use crate::table::bytes_equal;
use vstd::prelude::*;

verus! {

/// The bytes of a text that holds only ASCII characters.
pub open spec fn ascii(text: Seq<char>) -> Seq<u8> {
    Seq::new(text.len(), |i: int| text[i] as u8)
}

/// The bytes of `text`.
pub fn ascii_bytes(text: &str) -> (bytes: Vec<u8>)
    requires
        vstd::utf8::is_ascii_chars(text@),
    ensures
        bytes@ == ascii(text@),
{
    broadcast use vstd::string::is_ascii_spec_bytes;

    assert(vstd::string::is_ascii(text));
    let bytes = vstd::slice::slice_to_vec(text.as_bytes());
    assert(bytes@ =~= ascii(text@));
    bytes
}

/// Whether `bytes` are those of `text`.
pub fn is_ascii_text(bytes: &[u8], text: &str) -> (same: bool)
    requires
        vstd::utf8::is_ascii_chars(text@),
    ensures
        same == (bytes@ == ascii(text@)),
{
    bytes_equal(bytes, ascii_bytes(text).as_slice())
}

} // verus!
