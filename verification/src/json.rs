//! The boundary to `serde_json`, which parses a text into a JSON value and
//! renders a value back to text, and to the UTF-8 decoder of the standard
//! library. Nothing here is proved; each item states what the source or the
//! documentation shows of the function it stands for.

use vstd::prelude::*;

verus! {

/// `serde_json::Value`, any JSON value. Its inside is not visible to the
/// verifier; the library carries such values from a parser to a renderer.
#[verifier::external_type_specification]
#[verifier::external_body]
pub struct ExJsonValue(serde_json::Value);

/// `serde_json::Error`, the reason a text was rejected.
#[verifier::external_type_specification]
#[verifier::external_body]
pub struct ExJsonError(serde_json::Error);

/// What a JSON value holds, written as compact JSON text: the text that the
/// value's `Display` implementation produces.
pub uninterp spec fn json_text(value: serde_json::Value) -> Seq<char>;

/// What `serde_json::from_str` makes of a text: `None` where it rejects the
/// text, else the compact text of the value that it returns.
pub uninterp spec fn json_parse(text: Seq<char>) -> Option<Seq<char>>;

/// `serde_json::from_str::<Value>` parses one JSON value that spans the whole
/// text, or returns an error. The result is a function of the text alone.
#[verifier::external_body]
pub(crate) fn json_from_str(text: &str) -> (parsed: Result<serde_json::Value, serde_json::Error>)
    ensures
        parsed is Ok <==> json_parse(text@) is Some,
        parsed matches Ok(value) ==> json_parse(text@) == Some(json_text(value)),
{
    serde_json::from_str::<serde_json::Value>(text)
}

/// `Value`'s `Display` implementation, through `to_string`, renders the value
/// as compact JSON.
#[verifier::external_body]
pub(crate) fn json_to_string(value: &serde_json::Value) -> (text: String)
    ensures
        text@ == json_text(*value),
{
    value.to_string()
}

/// `std::str::from_utf8` of the standard library accepts exactly the byte
/// strings that are valid UTF-8 and returns the text that they encode.
#[verifier::external_body]
pub(crate) fn utf8_text(bytes: &[u8]) -> (text: Option<&str>)
    ensures
        text is Some <==> vstd::utf8::valid_utf8(bytes@),
        text matches Some(s) ==> s@ == vstd::utf8::decode_utf8(bytes@),
{
    std::str::from_utf8(bytes).ok()
}

/// `Value::default()` is `Value::Null`, which renders as `null`.
#[verifier::external_body]
pub(crate) fn json_null() -> (value: serde_json::Value)
    ensures
        json_text(value) == "null"@,
{
    serde_json::Value::default()
}

} // verus!
