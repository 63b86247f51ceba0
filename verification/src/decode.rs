//! Decoders that the request framer takes from elsewhere: UTF-8 from the
//! standard library, JSON from `serde_json`. Their contracts are believed,
//! not proved.

use vstd::prelude::*;
use vstd::string::*;
use vstd::utf8::*;

verus! {

/// The text that `String::from_utf8_lossy` gives for `bytes`: the decoded
/// characters, with U+FFFD in place of each ill-formed part.
pub uninterp spec fn utf8_lossy(bytes: Seq<u8>) -> Seq<char>;

/// Whether `serde_json` reads `text` as one JSON value with nothing but
/// whitespace around it.
pub uninterp spec fn is_json_text(text: Seq<char>) -> bool;

/// `std::str::from_utf8`: the bytes seen as text. The result is `Some`
/// exactly for well-formed UTF-8, and the text then has these very bytes.
#[verifier::external_body]
pub(crate) fn utf8_text(bytes: &[u8]) -> (text: Option<&str>)
    ensures
        text is Some <==> valid_utf8(bytes@),
        text matches Some(t) ==> t.spec_bytes() == bytes@,
{
    std::str::from_utf8(bytes).ok()
}

/// `String::from_utf8_lossy`: the bytes decoded with replacement. The
/// result is named by `utf8_lossy`; well-formed UTF-8 decodes to itself.
#[verifier::external_body]
pub(crate) fn lossy_text(bytes: &[u8]) -> (text: String)
    ensures
        text@ == utf8_lossy(bytes@),
        valid_utf8(bytes@) ==> text@ == decode_utf8(bytes@),
{
    String::from_utf8_lossy(bytes).into_owned()
}

/// `serde_json::from_str` at `serde_json::Value`: whether the text parses.
/// The answer is named by `is_json_text`.
#[verifier::external_body]
pub(crate) fn is_json(text: &str) -> (ok: bool)
    ensures
        ok == is_json_text(text@),
{
    serde_json::from_str::<serde_json::Value>(text).is_ok()
}

} // verus!
