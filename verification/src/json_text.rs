//! JSON documents in texts.
use crate::json::{JsonMember, JsonNumber, JsonValue, JsonView};
use crate::json_laws::distinct;
use crate::text::{trim, trimmed};
use serde_json::Value;
use vstd::prelude::*;

verus! {

/// A document as `serde_json` holds it.
#[verifier::external_type_specification]
#[verifier::external_body]
pub struct ExValue(serde_json::Value);

/// The document that stands in a text, if the text is one.
pub uninterp spec fn document_in(text: Seq<char>) -> Option<JsonView>;

/// What is wrong with a text that is no document.
pub uninterp spec fn complaint_about(text: Seq<char>) -> Seq<char>;

/// A `serde_json::Value` as a document of this library, part by part: a whole number that is not
/// below 0 as `as_u64` gives it, one that is below 0 as `as_i64` gives it, any other as the bit
/// pattern of `as_f64`, and the members of an object in the order of its map. Nothing is claimed
/// of the result.
#[verifier::external_body]
fn into_document(value: Value) -> (v: JsonValue) {
    match value {
        Value::Null => JsonValue::Null,
        Value::Bool(b) => JsonValue::Bool(b),
        Value::Number(n) => JsonValue::Number(match (n.as_u64(), n.as_i64()) {
            (Some(u), _) => JsonNumber::Unsigned(u),
            (None, Some(i)) => JsonNumber::Negative(i),
            (None, None) => JsonNumber::Double(n.as_f64().unwrap_or_default().to_bits()),
        }),
        Value::String(t) => JsonValue::Text(t),
        Value::Array(a) => JsonValue::Array(a.into_iter().map(into_document).collect()),
        Value::Object(o) => JsonValue::Object(o.into_iter().map(
            |(key, value)| JsonMember { key, value: into_document(value) },
        ).collect()),
    }
}

/// `serde_json::from_str` into a `serde_json::Value`, and the text of its error. Both depend on
/// the text alone. An object's map holds no key twice: of members with the same key the last one
/// counts.
#[verifier::external_body]
fn parse_document(text: &str) -> (r: Result<JsonValue, String>)
    ensures
        match r {
            Ok(v) => document_in(text@) == Some(v@) && distinct(v@),
            Err(why) => document_in(text@) is None && why@ == complaint_about(text@),
        },
{
    match serde_json::from_str::<serde_json::Value>(text) {
        Ok(value) => Ok(into_document(value)),
        Err(why) => Err(why.to_string()),
    }
}

/// Reads a document. White space around it does not count.
pub fn read_document(text: &str) -> (r: Result<JsonValue, String>)
    ensures
        match r {
            Ok(v) => document_in(trimmed(text@)) == Some(v@) && distinct(v@),
            Err(why) => document_in(trimmed(text@)) is None && why@ == complaint_about(
                trimmed(text@),
            ),
        },
{
    let plain = trim(text);
    parse_document(plain.as_str())
}

} // verus!
