use vstd::prelude::*;

verus! {

#[verifier::external_type_specification]
#[verifier::external_body]
pub struct ExValue(serde_json::Value);

#[verifier::external_type_specification]
#[verifier::external_body]
pub struct ExError(serde_json::Error);

/// Whether `text` is one complete JSON value, as serde_json reads it.
pub uninterp spec fn is_json(text: Seq<char>) -> bool;

/// Relies on serde_json::from_str: parses `text` as one JSON value and fails
/// exactly when it is not valid JSON.
#[verifier::external_body]
pub(crate) fn parse_value(text: &str) -> (r: Result<serde_json::Value, serde_json::Error>)
    ensures
        r is Ok <==> is_json(text@),
{
    serde_json::from_str(text)
}

/// The member names of `text` read as a JSON object (sorted, as serde_json's
/// map keeps them); none when `text` is not a JSON object.
pub uninterp spec fn object_keys(text: Seq<char>) -> Option<Seq<Seq<char>>>;

/// Relies on serde_json::from_str into a serde_json::Map: succeeds exactly on
/// a JSON object, whose members it hands out with distinct keys.
#[verifier::external_body]
pub(crate) fn parse_object(text: &str) -> (r: Result<
    Vec<(String, serde_json::Value)>,
    serde_json::Error,
>)
    ensures
        match r {
            Ok(members) => object_keys(text@) == Some(
                members@.map_values(|m: (String, serde_json::Value)| m.0@),
            ) && forall|i: int, j: int|
                0 <= i < j < members@.len() ==> members@[i].0@ != members@[j].0@,
            Err(_) => object_keys(text@) is None,
        },
{
    serde_json::from_str::<serde_json::Map<String, serde_json::Value>>(text).map(
        |m| m.into_iter().collect(),
    )
}

/// Relies on serde_json::Value::Object and serde_json::Map's `into_iter`: an
/// object is handed out as its members, whose keys are distinct; any other
/// value is handed back as it came.
#[verifier::external_body]
pub(crate) fn open_object(v: serde_json::Value) -> (r: Result<
    Vec<(String, serde_json::Value)>,
    serde_json::Value,
>)
    ensures
        match r {
            Ok(members) => forall|i: int, j: int|
                0 <= i < j < members@.len() ==> members@[i].0@ != members@[j].0@,
            Err(w) => w == v,
        },
{
    match v {
        serde_json::Value::Object(m) => Ok(m.into_iter().collect()),
        other => Err(other),
    }
}

/// Relies on serde_json::Map's `FromIterator`: builds a JSON object from its members.
#[verifier::external_body]
pub(crate) fn close_object(members: Vec<(String, serde_json::Value)>) -> (r: serde_json::Value) {
    serde_json::Value::Object(members.into_iter().collect())
}

/// Relies on serde_json::Value::String: a JSON string.
#[verifier::external_body]
pub(crate) fn text_value(s: String) -> (r: serde_json::Value) {
    serde_json::Value::String(s)
}

/// Relies on serde_json::to_string_pretty: multi-line JSON text with
/// two-space indentation. Serializing a `Value` has no failing path: its map
/// keys are strings and the output is an in-memory buffer.
#[verifier::external_body]
pub(crate) fn render_pretty(v: &serde_json::Value) -> (r: Result<String, serde_json::Error>)
    ensures
        r is Ok,
{
    serde_json::to_string_pretty(v)
}

} // verus!
