//! Conversions between bytes and text that the standard library and the
//! `Inflector` crate compute. Verus takes their contracts on trust.

use vstd::prelude::*;
use vstd::utf8::{decode_utf8, valid_utf8};

verus! {

/// The text that `String::from_utf8_lossy` makes of a byte string.
pub uninterp spec fn utf8_lossy(bytes: Seq<u8>) -> Seq<char>;

/// Calls `String::from_utf8_lossy` and makes a `String` of what it returns.
/// Trusted: the text depends on the bytes alone, and bytes that are valid
/// UTF-8 give the text that they encode.
#[verifier::external_body]
pub(crate) fn from_utf8_lossy(bytes: &[u8]) -> (text: String)
    ensures
        text@ == utf8_lossy(bytes@),
        valid_utf8(bytes@) ==> text@ == decode_utf8(bytes@),
{
    String::from_utf8_lossy(bytes).to_string()
}

/// The lower-case form of an ASCII capital letter; any other character itself.
pub open spec fn ascii_lower_char(c: char) -> char {
    if 65 <= c as u32 <= 90 {
        ((c as u32) + 32) as char
    } else {
        c
    }
}

/// A text with every ASCII capital letter replaced by its lower-case form.
pub open spec fn ascii_lowercase(text: Seq<char>) -> Seq<char> {
    Seq::new(text.len(), |i: int| ascii_lower_char(text[i]))
}

/// Calls `str::to_ascii_lowercase`. Trusted: the result has the letters `A` to
/// `Z` replaced by `a` to `z` and every other character as it was.
#[verifier::external_body]
pub(crate) fn to_ascii_lowercase(text: &str) -> (lower: String)
    ensures
        lower@ == ascii_lowercase(text@),
{
    text.to_ascii_lowercase()
}

/// The kebab-case form that `Inflector` gives a text.
pub uninterp spec fn kebab_case_of(text: Seq<char>) -> Seq<char>;

/// Calls `inflector::cases::kebabcase::to_kebab_case`. Trusted: the result
/// depends on the text alone.
#[verifier::external_body]
pub(crate) fn to_kebab_case(text: &str) -> (kebab: String)
    ensures
        kebab@ == kebab_case_of(text@),
{
    inflector::cases::kebabcase::to_kebab_case(text)
}

} // verus!
