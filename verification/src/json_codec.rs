//! JSON text: reading a document into the library's `Json` model and
//! writing one out, through `serde_json`.
use vstd::prelude::*;
use crate::json::{jview, Json, JsonView};
use crate::text::{chars_of, trim, trim_range};
use serde_json::Value;

verus! {

/// `serde_json::Value`, carried through the conversions below.
#[verifier::external_type_specification]
#[verifier::external_body]
pub struct ExValue(Value);

/// The JSON value that `serde_json` reads from `text` (as a
/// `serde_json::Value`, in the library's model), or `None` where `text`
/// is not a JSON document.
pub uninterp spec fn json_text(text: Seq<char>) -> Option<Json>;

/// The compact text that `serde_json` writes for a JSON value.
pub uninterp spec fn json_string(j: JsonView) -> Seq<char>;

/// The library's model of a `serde_json::Value`: one arm per variant, a
/// number kept as its `as_i64` and `as_u64` readings, array items and
/// object members in the order the value holds them. This is the
/// conversion half of `read_json` and is not called elsewhere.
#[verifier::external_body]
fn value_json(v: &Value) -> Json {
    match v {
        Value::Null => Json::Null,
        Value::Bool(b) => Json::Bool(*b),
        Value::Number(n) => Json::Number(n.as_i64(), n.as_u64()),
        Value::String(s) => Json::Str(s.clone()),
        Value::Array(a) => Json::Array(a.iter().map(value_json).collect()),
        Value::Object(o) => Json::Object(o.iter().map(|(k, x)| (k.clone(), value_json(x))).collect()),
    }
}

/// The `serde_json::Value` of a library JSON value: one arm per variant,
/// an integer from its `i64` (else `u64`) reading, a number with neither
/// as null. This is the conversion half of `write_json` and is not called
/// elsewhere.
#[verifier::external_body]
fn json_value(j: &Json) -> Value {
    match j {
        Json::Null => Value::Null,
        Json::Bool(b) => Value::Bool(*b),
        Json::Number(Some(i), _) => Value::from(*i),
        Json::Number(None, Some(u)) => Value::from(*u),
        Json::Number(None, None) => Value::Null,
        Json::Str(s) => Value::String(s.clone()),
        Json::Array(a) => Value::Array(a.iter().map(json_value).collect()),
        Json::Object(o) => Value::Object(o.iter().map(|(k, x)| (k.clone(), json_value(x))).collect()),
    }
}

/// Trusted: `serde_json::from_str::<serde_json::Value>` on `text`, its
/// value converted to the library's model. The result is claimed to be the
/// named `json_text(text)`: what the parser makes of the text depends on
/// the text alone. Nothing more is stated of the parser.
#[verifier::external_body]
pub(crate) fn read_json(text: &str) -> (r: Option<Json>)
    ensures
        r == json_text(text@),
{
    serde_json::from_str::<Value>(text).ok().map(|v| value_json(&v))
}

/// Trusted: `serde_json::Value::to_string` (compact `Display`) on the
/// value of `j`. The result is claimed to be the named
/// `json_string(jview(j))`, a function of the value alone.
#[verifier::external_body]
pub(crate) fn write_json(j: &Json) -> (s: String)
    ensures
        s@ == json_string(jview(*j)),
{
    json_value(j).to_string()
}

/// Reads a JSON document: `None` where `text` is not one.
pub fn parse_json(text: &str) -> (r: Option<Json>)
    ensures
        r == json_text(text@),
{
    read_json(text)
}

/// The compact JSON text of `j`.
pub fn to_json_string(j: &Json) -> (s: String)
    ensures
        s@ == json_string(jview(*j)),
{
    write_json(j)
}

/// Reads an API response body that may be empty: a blank body (only
/// whitespace) reads as null, any other as its JSON document (`None` where
/// it is not one).
pub fn parse_json_or_null(text: &str) -> (r: Option<Json>)
    ensures
        r == if trim(text@).len() == 0 {
            Some(Json::Null)
        } else {
            json_text(text@)
        },
{
    let v = chars_of(text);
    let (a, b) = trim_range(&v, 0, v.len());
    assert(v@.subrange(0, v.len() as int) =~= v@);
    if a == b {
        Some(Json::Null)
    } else {
        read_json(text)
    }
}

} // verus!
