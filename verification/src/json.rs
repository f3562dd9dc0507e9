//! The trusted surface over the JSON library through which probe reports
//! are read, together with the model the contracts use. A parsed JSON
//! value is opaque to the verifier, so `model_of` names what a value
//! holds, `json_of` names what a byte string parses to, and each accessor
//! wrapper relies on one function of serde_json and is exact over those
//! names. The verified reader in `report` works through these accessors.
use vstd::prelude::*;

verus! {

/// A JSON document, as the contracts model it. The reader distinguishes
/// only strings, arrays and objects; every other kind of value (null,
/// booleans, numbers) is `Other`, since no report field is read as one.
pub enum Json {
    Text(Seq<char>),
    Array(Seq<Json>),
    Object(Map<Seq<char>, Json>),
    Other,
}

/// What the JSON library parses the byte string to; `None` when it is not
/// a JSON document the library accepts.
pub uninterp spec fn json_of(bytes: Seq<u8>) -> Option<Json>;

/// What a parsed JSON value holds.
pub uninterp spec fn model_of(v: serde_json::Value) -> Json;

/// The value under a key of a JSON object; `None` when the value is not
/// an object or the key is absent.
pub open spec fn field(j: Json, key: Seq<char>) -> Option<Json> {
    match j {
        Json::Object(m) => if m.dom().contains(key) {
            Some(m[key])
        } else {
            None
        },
        _ => None,
    }
}

/// The text under a key; `None` when the key is absent or its value is
/// not a string.
pub open spec fn text_field(j: Json, key: Seq<char>) -> Option<Seq<char>> {
    match field(j, key) {
        Some(Json::Text(s)) => Some(s),
        _ => None,
    }
}

/// The elements of a JSON array; empty for any other kind of value.
pub open spec fn arr_elems(j: Json) -> Seq<Json> {
    match j {
        Json::Array(es) => es,
        _ => Seq::empty(),
    }
}

/// Declares serde_json::Value so that it can stand in signatures; its
/// contents are reached only through `model_of` and the wrappers below.
#[verifier::external_type_specification]
#[verifier::external_body]
pub struct ExValue(serde_json::Value);

/// Relies on serde_json::from_slice::<serde_json::Value>: parses a byte
/// string as one JSON document; the result is a function of the bytes
/// alone, named `json_of`.
#[verifier::external_body]
pub(crate) fn parse_json(bytes: &[u8]) -> (r: Option<serde_json::Value>)
    ensures
        r is Some <==> json_of(bytes@) is Some,
        r matches Some(v) ==> json_of(bytes@) == Some(model_of(v)),
{
    serde_json::from_slice(bytes).ok()
}

/// Relies on serde_json::Value::get: looks a key up in a JSON object;
/// `None` exactly when the value is not an object or the key is absent.
#[verifier::external_body]
pub(crate) fn value_get<'a>(v: &'a serde_json::Value, key: &str) -> (r: Option<
    &'a serde_json::Value,
>)
    ensures
        r is Some <==> field(model_of(*v), key@) is Some,
        r matches Some(c) ==> Some(model_of(*c)) == field(model_of(*v), key@),
{
    v.get(key)
}

/// Relies on serde_json::Value::as_array: the elements, in order, exactly
/// when the value is a JSON array.
#[verifier::external_body]
pub(crate) fn value_as_array<'a>(v: &'a serde_json::Value) -> (r: Option<
    &'a Vec<serde_json::Value>,
>)
    ensures
        r is Some <==> model_of(*v) is Array,
        r matches Some(a) ==> ({
            &&& a@.len() == arr_elems(model_of(*v)).len()
            &&& forall|i: int|
                0 <= i < a@.len() ==> model_of(#[trigger] a@[i]) == arr_elems(model_of(*v))[i]
        }),
{
    v.as_array()
}

/// Relies on serde_json::Value::as_str: the text, as an owned copy,
/// exactly when the value is a JSON string.
#[verifier::external_body]
pub(crate) fn value_as_string(v: &serde_json::Value) -> (r: Option<String>)
    ensures
        r is Some <==> model_of(*v) is Text,
        r matches Some(s) ==> model_of(*v) == Json::Text(s@),
{
    v.as_str().map(str::to_owned)
}

} // verus!
