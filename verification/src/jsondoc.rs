//! The boundary to `serde_json`: turning manifest text into the plain JSON
//! tree of `crate::json`. What the grammar makes of a given text is only
//! given a name; the library's own logic starts from the tree.

use vstd::prelude::*;
use crate::json::JsonValue;

verus! {

#[verifier::external_type_specification]
#[verifier::external_body]
pub struct ExSerdeJsonError(serde_json::Error);

#[verifier::external_type_specification]
#[verifier::external_body]
pub struct ExSerdeJsonValue(serde_json::Value);

/// What the JSON grammar makes of a manifest text: the document as a plain
/// tree (objects in document order, numbers as their canonical text), or the
/// syntax error reported.
pub uninterp spec fn json_document_of(s: Seq<char>) -> Result<JsonValue, serde_json::Error>;

/// Relies on serde_json::from_str: the outcome depends on the text alone.
#[verifier::external_body]
pub(crate) fn parse_json_text(text: &str) -> (r: Result<JsonValue, serde_json::Error>)
    ensures
        r == json_document_of(text@),
{
    match serde_json::from_str::<serde_json::Value>(text) {
        Ok(v) => Ok(from_serde_value(v)),
        Err(e) => Err(e),
    }
}

/// Relies on serde_json::Value only as a shape to move out of: one arm per
/// variant, numbers through their canonical text, order preserved.
#[verifier::external_body]
fn from_serde_value(v: serde_json::Value) -> JsonValue {
    match v {
        serde_json::Value::Null => JsonValue::Null,
        serde_json::Value::Bool(b) => JsonValue::Bool(b),
        serde_json::Value::Number(n) => JsonValue::Num(n.to_string()),
        serde_json::Value::String(s) => JsonValue::Str(s),
        serde_json::Value::Array(a) => JsonValue::Arr(
            a.into_iter().map(from_serde_value).collect(),
        ),
        serde_json::Value::Object(o) => JsonValue::Obj(
            o.into_iter().map(|(k, w)| (k, from_serde_value(w))).collect(),
        ),
    }
}

} // verus!
