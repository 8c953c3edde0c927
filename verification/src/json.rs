use vstd::prelude::*;

verus! {

// ---------------------------------------------------------------------------
// Trusted view of serde_json
//
// The client leans on serde_json for JSON parsing.  A parsed value is opaque
// here; what the decoders need to know about it is expressed through a small
// family of named functions of its canonical serialization.  With the default
// feature set, serde_json prints a value deterministically (objects ordered by
// key, numbers through itoa and a shortest-representation float printer), so
// every function below is a genuine function of the text alone.
// ---------------------------------------------------------------------------

/// serde_json's parsed-JSON type, declared so it can stand in signatures.
#[verifier::external_type_specification]
#[verifier::external_body]
pub struct ExValue(serde_json::Value);

/// The canonical serialization of a parsed JSON value: what
/// `serde_json::to_string` would print for it.
pub uninterp spec fn json_text(v: serde_json::Value) -> Seq<char>;

/// What parsing a body yields: the canonical serialization of the parsed
/// value, or `None` when the body is not valid JSON.
pub uninterp spec fn parsed_json(s: Seq<char>) -> Option<Seq<char>>;

/// For a JSON object (given by its canonical serialization): the canonical
/// serialization of the value under `key`, if any.
pub uninterp spec fn object_field(val: Seq<char>, key: Seq<char>) -> Option<Seq<char>>;

/// For a JSON string (given by its canonical serialization): its characters.
pub uninterp spec fn string_content(val: Seq<char>) -> Option<Seq<char>>;

/// For a JSON array (given by its canonical serialization): the canonical
/// serializations of its elements, in order.
pub uninterp spec fn array_items(val: Seq<char>) -> Option<Seq<Seq<char>>>;

/// For a JSON number (given by its canonical serialization): its decimal
/// text, as serde_json's number printer emits it.
pub uninterp spec fn number_text(val: Seq<char>) -> Option<Seq<char>>;

/// For a JSON number (given by its canonical serialization): its value as an
/// `i64`, if it is an integer in range.
pub uninterp spec fn integer_content(val: Seq<char>) -> Option<i64>;

/// Whether a JSON value (given by its canonical serialization) is `null`.
pub uninterp spec fn is_null_value(val: Seq<char>) -> bool;

/// Relies on `serde_json::from_str::<Value>`: whether a body parses, and what
/// it parses to, depend on the body's text alone.
#[verifier::external_body]
pub fn parse_json(s: &str) -> (r: Option<serde_json::Value>)
    ensures
        r is Some <==> parsed_json(s@) is Some,
        r is Some ==> json_text(r->Some_0) == parsed_json(s@)->Some_0,
{
    serde_json::from_str::<serde_json::Value>(s).ok()
}

/// Relies on `serde_json::Value::get` with a string index: looks the key up
/// when the value is an object, and returns `None` otherwise.
#[verifier::external_body]
pub fn json_get<'a>(v: &'a serde_json::Value, key: &str) -> (r: Option<&'a serde_json::Value>)
    ensures
        r is Some <==> object_field(json_text(*v), key@) is Some,
        r is Some ==> json_text(*r->Some_0) == object_field(json_text(*v), key@)->Some_0,
{
    v.get(key)
}

/// Relies on `serde_json::Value::as_str`: the characters of a JSON string,
/// `None` for any other kind of value.
#[verifier::external_body]
pub fn json_as_str<'a>(v: &'a serde_json::Value) -> (r: Option<&'a str>)
    ensures
        r is Some <==> string_content(json_text(*v)) is Some,
        r is Some ==> (r->Some_0)@ == string_content(json_text(*v))->Some_0,
{
    v.as_str()
}

/// Relies on `serde_json::Value::as_array`: the elements of a JSON array,
/// `None` for any other kind of value.
#[verifier::external_body]
pub fn json_as_array<'a>(v: &'a serde_json::Value) -> (r: Option<&'a Vec<serde_json::Value>>)
    ensures
        r is Some <==> array_items(json_text(*v)) is Some,
        r is Some ==> {
            let items = array_items(json_text(*v))->Some_0;
            &&& (r->Some_0)@.len() == items.len()
            &&& forall|i: int|
                0 <= i < items.len() ==> json_text(#[trigger] (r->Some_0)@[i]) == items[i]
        },
{
    v.as_array()
}

/// Relies on `serde_json::Value::as_i64`: the value of an integral JSON
/// number when it fits an `i64`, `None` otherwise.
#[verifier::external_body]
pub fn json_as_i64(v: &serde_json::Value) -> (r: Option<i64>)
    ensures
        r == integer_content(json_text(*v)),
{
    v.as_i64()
}

/// Relies on `serde_json::Number`'s display: a deterministic decimal text for
/// any JSON number (itoa for integers, a shortest-representation printer for
/// floats), `None` for any other kind of value.
#[verifier::external_body]
pub fn json_number_text(v: &serde_json::Value) -> (r: Option<String>)
    ensures
        r is Some <==> number_text(json_text(*v)) is Some,
        r is Some ==> (r->Some_0)@ == number_text(json_text(*v))->Some_0,
{
    match v {
        serde_json::Value::Number(n) => Some(n.to_string()),
        _ => None,
    }
}

/// Relies on `serde_json::Value::is_null`.
#[verifier::external_body]
pub fn json_is_null(v: &serde_json::Value) -> (r: bool)
    ensures
        r == is_null_value(json_text(*v)),
{
    v.is_null()
}

} // verus!
