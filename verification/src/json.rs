//! Reading JSON text and decoding payload bytes.
use vstd::prelude::*;

verus! {

/// The pretty-printed form that `serde_json` gives a JSON text, or none
/// when the text is not JSON.
pub uninterp spec fn pretty_json_of(text: Seq<char>) -> Option<Seq<char>>;

/// Reads `text` with `serde_json::from_str::<serde_json::Value>` and, when
/// that succeeds, prints the value with `serde_json::to_string_pretty`
/// (which cannot fail on a `Value`). The result is none exactly when the
/// text is not JSON; the grammar and the printed layout are given a name
/// here, not written out. Values are maps ordered by key, so the result
/// depends on the text alone.
#[verifier::external_body]
pub(crate) fn pretty_json(text: &str) -> (res: Option<String>)
    ensures
        res.deep_view() == pretty_json_of(text@),
{
    match serde_json::from_str::<serde_json::Value>(text) {
        Ok(v) => serde_json::to_string_pretty(&v).ok(),
        Err(_) => None,
    }
}

/// Whether a text is JSON.
pub open spec fn is_json(text: Seq<char>) -> bool {
    pretty_json_of(text) is Some
}

/// The text that `String::from_utf8_lossy` makes of some bytes.
pub uninterp spec fn lossy_utf8_of(bytes: Seq<u8>) -> Seq<char>;

/// Calls `String::from_utf8_lossy`: valid UTF-8 is decoded as it is; each
/// invalid sequence becomes U+FFFD (which sequences count as one is given a
/// name here, not written out).
#[verifier::external_body]
pub(crate) fn decode_lossy(bytes: &[u8]) -> (res: String)
    ensures
        res@ == lossy_utf8_of(bytes@),
        vstd::utf8::valid_utf8(bytes@) ==> res@ == vstd::utf8::decode_utf8(bytes@),
{
    String::from_utf8_lossy(bytes).into_owned()
}

} // verus!
