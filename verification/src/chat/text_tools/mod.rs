//! Small string operations of the standard library, with what they compute.
pub mod color_strings;

use vstd::prelude::*;
use vstd::string::StringExecFns;

verus! {

/// Whether two string slices hold the same characters.
pub(crate) fn str_equals(a: &str, b: &str) -> (equal: bool)
    ensures
        equal == (a@ == b@),
{
    String::from_str(a) == String::from_str(b)
}

/// Calls `std::str::from_utf8`, keeping the text and dropping the error. The
/// contract claims the call succeeds exactly on well-formed UTF-8 (vstd's
/// `valid_utf8`: no overlong form, no surrogate, nothing above U+10FFFF) and
/// that the text is then the characters those bytes encode.
#[verifier::external_body]
pub(crate) fn str_from_utf8(bytes: &[u8]) -> (text: Option<&str>)
    ensures
        text is Some <==> vstd::utf8::valid_utf8(bytes@),
        text matches Some(t) ==> t@ == vstd::utf8::decode_utf8(bytes@),
{
    std::str::from_utf8(bytes).ok()
}

/// Appends one character with `String::push`: the contract claims the string
/// afterwards holds its former characters followed by `c`.
#[verifier::external_body]
pub(crate) fn push_char(s: &mut String, c: char)
    ensures
        final(s)@ == old(s)@.push(c),
{
    s.push(c);
}

/// What `str::to_lowercase` makes of a string: the lowercase mapping of the
/// Unicode standard, applied to each character in turn (with its
/// context-dependent rule for a final capital sigma).
pub uninterp spec fn lowercase(s: Seq<char>) -> Seq<char>;

/// Calls `str::to_lowercase`. The contract claims only that the result is the
/// lowercase form `lowercase` of the argument's characters, a function of those
/// characters alone; what that form is, character by character, is left unsaid.
#[verifier::external_body]
pub(crate) fn to_lowercase(s: &str) -> (lower: String)
    ensures
        lower@ == lowercase(s@),
{
    s.to_lowercase()
}

} // verus!
