//! Text operations that the standard library and the `regex` crate carry
//! out. Their contracts are stated here and taken on trust, but for the
//! trimming of zero characters, which is verified.

use vstd::prelude::*;
use vstd::string::StrSliceExecFns;
use vstd::utf8::{decode_utf8, valid_utf8};

verus! {

/// The characters that lossy decoding makes of a byte sequence, in which
/// every malformed part of the input has become a replacement character.
pub uninterp spec fn utf8_lossy(bytes: Seq<u8>) -> Seq<char>;

/// The characters that lossy decoding makes of a sequence of UTF-16 units,
/// in which every unpaired surrogate has become a replacement character.
pub uninterp spec fn utf16_lossy(units: Seq<u16>) -> Seq<char>;

/// The lower-case form of a character sequence.
pub uninterp spec fn lowercase(text: Seq<char>) -> Seq<char>;

/// Whether a pattern is a regular expression that can be compiled.
pub uninterp spec fn regex_compiles(pattern: Seq<char>) -> bool;

/// Whether the regular expression `pattern` matches somewhere in `text`.
pub uninterp spec fn regex_is_match(pattern: Seq<char>, text: Seq<char>) -> bool;

/// The characters without the zero characters at their end.
pub open spec fn trim_end_nul(text: Seq<char>) -> Seq<char>
    decreases text.len(),
{
    if text.len() > 0 && text.last() == '\0' {
        trim_end_nul(text.drop_last())
    } else {
        text
    }
}

/// Calls `core::str::from_utf8`. Trusted: the call succeeds exactly on
/// well-formed UTF-8, and the string it returns holds the characters that the
/// bytes encode.
#[verifier::external_body]
pub(crate) fn decode_strict<'a>(bytes: &'a [u8]) -> (text: Option<&'a str>)
    ensures
        text is Some <==> valid_utf8(bytes@),
        text matches Some(decoded) ==> decoded@ == decode_utf8(bytes@),
{
    core::str::from_utf8(bytes).ok()
}

/// Calls `String::from_utf8_lossy`. Trusted: the result is a function of
/// the bytes alone, named `utf8_lossy`, and on well-formed UTF-8 it holds
/// the characters that the bytes encode.
#[verifier::external_body]
pub(crate) fn decode_lossy(bytes: &[u8]) -> (text: String)
    ensures
        text@ == utf8_lossy(bytes@),
        valid_utf8(bytes@) ==> text@ == decode_utf8(bytes@),
{
    String::from_utf8_lossy(bytes).into_owned()
}

/// Calls `String::from_utf16_lossy`. Trusted: the result is a function of
/// the units alone, named `utf16_lossy`.
#[verifier::external_body]
pub(crate) fn decode_utf16_lossy(units: &[u16]) -> (text: String)
    ensures
        text@ == utf16_lossy(units@),
{
    String::from_utf16_lossy(units)
}

/// The text without the zero characters at its end.
pub(crate) fn trim_end_nul_chars<'a>(text: &'a str) -> (trimmed: &'a str)
    ensures
        trimmed@ == trim_end_nul(text@),
{
    let mut end: usize = text.unicode_len();
    assert(text@.take(end as int) == text@);
    while end > 0 && text.get_char(end - 1) == '\0'
        invariant
            end <= text@.len(),
            trim_end_nul(text@) == trim_end_nul(text@.take(end as int)),
        decreases end,
    {
        assert(text@.take(end as int).drop_last() == text@.take(end as int - 1));
        end = end - 1;
    }
    text.substring_char(0, end)
}

/// Calls `str::to_lowercase`. Trusted: the result is a function of the
/// characters alone, named `lowercase`.
#[verifier::external_body]
pub(crate) fn to_lowercase(text: &str) -> (lower: String)
    ensures
        lower@ == lowercase(text@),
{
    text.to_lowercase()
}

/// Calls `regex::Regex::new` on the pattern and, where that succeeds,
/// `regex::Regex::is_match` on the text. Trusted: whether the pattern
/// compiles depends on the pattern alone, and whether the compiled
/// expression matches depends on the pattern and the text alone.
#[verifier::external_body]
pub(crate) fn pattern_matches(pattern: &str, text: &str) -> (found: Option<bool>)
    ensures
        found is Some <==> regex_compiles(pattern@),
        found matches Some(matched) ==> matched == regex_is_match(pattern@, text@),
{
    match regex::Regex::new(pattern) {
        Ok(expression) => Some(expression.is_match(text)),
        Err(_) => None,
    }
}

} // verus!
