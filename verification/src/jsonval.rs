use vstd::prelude::*;

verus! {

// The raw tree arrives as a serde_json value.  The type is declared opaque;
// the decoder reads it only through the small accessor wrappers below, and
// never carries it past the decoding boundary.
#[verifier::external_type_specification]
#[verifier::external_body]
pub struct ExValue(serde_json::Value);

/// Relies on serde_json's Value::get: the value under an object key, or
/// nothing when this is no object or the key is absent.
#[verifier::external_body]
pub(crate) fn json_get<'a>(v: &'a serde_json::Value, key: &str) -> (r: Option<&'a serde_json::Value>) {
    v.get(key)
}

/// Relies on serde_json's Value::as_str: the owned text of a string value.
#[verifier::external_body]
pub(crate) fn json_as_str(v: &serde_json::Value) -> (r: Option<String>) {
    v.as_str().map(|s| s.to_string())
}

/// Relies on serde_json's Value::as_u64: the numeric value, when it is an
/// unsigned integer.
#[verifier::external_body]
pub(crate) fn json_as_u64(v: &serde_json::Value) -> (r: Option<u64>) {
    v.as_u64()
}

/// Relies on serde_json's Value::as_array.
#[verifier::external_body]
pub(crate) fn json_as_array<'a>(v: &'a serde_json::Value) -> (r: Option<&'a Vec<serde_json::Value>>) {
    v.as_array()
}

/// Relies on serde_json's Value::as_object and Map::values: the member
/// values of an object, in the map's iteration order (ascending by key).
#[verifier::external_body]
pub(crate) fn json_object_values<'a>(v: &'a serde_json::Value) -> (r: Option<Vec<&'a serde_json::Value>>) {
    v.as_object().map(|m| m.values().collect())
}

/// Relies on serde_json's Value::is_object.
#[verifier::external_body]
pub(crate) fn json_is_object(v: &serde_json::Value) -> (r: bool) {
    v.is_object()
}

/// Relies on serde_json's Display for Value: the compact JSON rendering
/// (string values keep their quotes).
#[verifier::external_body]
pub(crate) fn json_display(v: &serde_json::Value) -> (r: String) {
    v.to_string()
}

} // verus!
