//! Reading JSON documents. The documents are decoded by `serde_json`; what
//! the library reads of a decoded document are plain values.

use vstd::prelude::*;

verus! {

/// `serde_json::Value`: a decoded JSON document, opaque to the proofs.
#[verifier::external_type_specification]
#[verifier::external_body]
pub struct ExJsonValue(serde_json::Value);

/// What `serde_json::from_str` makes of a text: the document it holds, or
/// the words of the error where it holds none.
pub uninterp spec fn json_document(text: Seq<char>) -> Result<serde_json::Value, Seq<char>>;

/// What `Value::get` finds under a key of a document.
pub uninterp spec fn json_member(value: serde_json::Value, key: Seq<char>) -> Option<
    serde_json::Value,
>;

/// What `Value::as_str` reads of a document: its text where it is a string.
pub uninterp spec fn json_string(value: serde_json::Value) -> Option<Seq<char>>;

/// What `Value::as_u64` reads of a document: its value where it is a number
/// that fits an unsigned 64-bit integer.
pub uninterp spec fn json_unsigned(value: serde_json::Value) -> Option<u64>;

/// What `Value::as_bool` reads of a document: its value where it is a boolean.
pub uninterp spec fn json_boolean(value: serde_json::Value) -> Option<bool>;

/// The compact JSON text that `Value`'s `Display` writes for a document.
pub uninterp spec fn json_rendering(value: serde_json::Value) -> Seq<char>;

/// `serde_json::from_str` for a `Value`: decodes `text`. The result is the
/// document that `json_document` names; an error is handed on as its words.
#[verifier::external_body]
pub(crate) fn json_parse(text: &str) -> (r: Result<serde_json::Value, String>)
    ensures
        match r {
            Ok(v) => json_document(text@) == Ok::<serde_json::Value, Seq<char>>(v),
            Err(e) => json_document(text@) == Err::<serde_json::Value, Seq<char>>(e@),
        },
{
    serde_json::from_str::<serde_json::Value>(text).map_err(|e| e.to_string())
}

/// `Value::get` with a string key: the member of an object under `key`;
/// `None` where the document is no object or has no such member.
#[verifier::external_body]
pub(crate) fn json_get<'a>(value: &'a serde_json::Value, key: &str) -> (r: Option<
    &'a serde_json::Value,
>)
    ensures
        match r {
            Some(v) => json_member(*value, key@) == Some(*v),
            None => json_member(*value, key@) is None,
        },
{
    value.get(key)
}

/// `Value::as_str`: the text of a string document, copied.
#[verifier::external_body]
pub(crate) fn json_as_str(value: &serde_json::Value) -> (r: Option<String>)
    ensures
        match r {
            Some(s) => json_string(*value) == Some(s@),
            None => json_string(*value) is None,
        },
{
    value.as_str().map(|s| s.to_string())
}

/// `Value::as_u64`.
#[verifier::external_body]
pub(crate) fn json_as_u64(value: &serde_json::Value) -> (r: Option<u64>)
    ensures
        r == json_unsigned(*value),
{
    value.as_u64()
}

/// `Value::as_bool`.
#[verifier::external_body]
pub(crate) fn json_as_bool(value: &serde_json::Value) -> (r: Option<bool>)
    ensures
        r == json_boolean(*value),
{
    value.as_bool()
}

/// `Value`'s `Display`, through `to_string`: the compact JSON text of the
/// document.
#[verifier::external_body]
pub(crate) fn json_render(value: &serde_json::Value) -> (r: String)
    ensures
        r@ == json_rendering(*value),
{
    value.to_string()
}

/// `Value::clone`: a copy of the document, equal to it.
#[verifier::external_body]
pub(crate) fn json_clone(value: &serde_json::Value) -> (r: serde_json::Value)
    ensures
        r == *value,
{
    value.clone()
}

/// `Value::Null`: the null document. It is no string, no number and no
/// boolean, and its JSON text is `null`.
#[verifier::external_body]
pub(crate) fn json_null() -> (r: serde_json::Value)
    ensures
        json_string(r) is None,
        json_unsigned(r) is None,
        json_boolean(r) is None,
        json_rendering(r) == "null"@,
{
    serde_json::Value::Null
}

/// A copy of `values` that holds equal documents.
pub fn clone_values(values: &Vec<serde_json::Value>) -> (r: Vec<serde_json::Value>)
    ensures
        r@ == values@,
{
    let mut r: Vec<serde_json::Value> = Vec::new();
    let mut i: usize = 0;
    while i < values.len()
        invariant
            i <= values.len(),
            r@ == values@.take(i as int),
        decreases values.len() - i,
    {
        r.push(json_clone(&values[i]));
        i += 1;
        assert(r@ =~= values@.take(i as int));
    }
    assert(values@.take(i as int) =~= values@);
    r
}

/// The text of the string member `key` of `value`, if it has one.
pub open spec fn string_member(value: serde_json::Value, key: Seq<char>) -> Option<Seq<char>> {
    match json_member(value, key) {
        Some(m) => json_string(m),
        None => None,
    }
}

/// The value of the unsigned member `key` of `value`, if it has one.
pub open spec fn unsigned_member(value: serde_json::Value, key: Seq<char>) -> Option<u64> {
    match json_member(value, key) {
        Some(m) => json_unsigned(m),
        None => None,
    }
}

/// The value of the boolean member `key` of `value`, if it has one.
pub open spec fn boolean_member(value: serde_json::Value, key: Seq<char>) -> Option<bool> {
    match json_member(value, key) {
        Some(m) => json_boolean(m),
        None => None,
    }
}

/// The JSON text of the member `key` of `value`, if it has one.
pub open spec fn rendered_member(value: serde_json::Value, key: Seq<char>) -> Option<Seq<char>> {
    match json_member(value, key) {
        Some(m) => Some(json_rendering(m)),
        None => None,
    }
}

/// The text of the string member `key` of `value`.
pub fn get_string(value: &serde_json::Value, key: &str) -> (r: Option<String>)
    ensures
        crate::text::opt_text(r) == string_member(*value, key@),
{
    match json_get(value, key) {
        Some(m) => json_as_str(m),
        None => None,
    }
}

/// The value of the unsigned member `key` of `value`.
pub fn get_unsigned(value: &serde_json::Value, key: &str) -> (r: Option<u64>)
    ensures
        r == unsigned_member(*value, key@),
{
    match json_get(value, key) {
        Some(m) => json_as_u64(m),
        None => None,
    }
}

/// The value of the boolean member `key` of `value`.
pub fn get_boolean(value: &serde_json::Value, key: &str) -> (r: Option<bool>)
    ensures
        r == boolean_member(*value, key@),
{
    match json_get(value, key) {
        Some(m) => json_as_bool(m),
        None => None,
    }
}

/// The JSON text of the member `key` of `value`.
pub fn get_rendered(value: &serde_json::Value, key: &str) -> (r: Option<String>)
    ensures
        crate::text::opt_text(r) == rendered_member(*value, key@),
{
    match json_get(value, key) {
        Some(m) => Some(json_render(m)),
        None => None,
    }
}

} // verus!
