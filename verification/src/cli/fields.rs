//! Reading values out of JSON payloads.

use vstd::prelude::*;

verus! {

/// The text at a place in a JSON text; none where there is no text.
pub uninterp spec fn json_text_at(json: Seq<char>, place: Seq<char>) -> Option<Seq<char>>;

/// The natural number at a place in a JSON text; none where there is none.
pub uninterp spec fn json_number_at(json: Seq<char>, place: Seq<char>) -> Option<u64>;

/// The truth value at a place in a JSON text; none where there is none.
pub uninterp spec fn json_flag_at(json: Seq<char>, place: Seq<char>) -> Option<bool>;

/// How many elements the list at a place in a JSON text has; none where there
/// is no list.
pub uninterp spec fn json_length_at(json: Seq<char>, place: Seq<char>) -> Option<usize>;

/// The value at a place in a JSON text, written out for inspection.
pub uninterp spec fn json_inspected_at(json: Seq<char>, place: Seq<char>) -> Seq<char>;

/// A JSON text, written out for inspection.
pub uninterp spec fn json_inspected(json: Seq<char>) -> Seq<char>;

/// Reads a JSON text by `serde_json::from_str` and takes the string at a place
/// by `Value::pointer` and `Value::as_str`. What is no JSON holds nothing.
#[verifier::external_body]
pub(crate) fn text_at(json: &str, place: &str) -> (r: Option<String>)
    ensures
        r.deep_view() == json_text_at(json@, place@),
{
    let value = serde_json::from_str::<serde_json::Value>(json).ok()?;
    value.pointer(place).and_then(serde_json::Value::as_str).map(String::from)
}

/// Reads a JSON text by `serde_json::from_str` and takes the natural number at a
/// place by `Value::pointer` and `Value::as_u64`.
#[verifier::external_body]
pub(crate) fn number_at(json: &str, place: &str) -> (r: Option<u64>)
    ensures
        r == json_number_at(json@, place@),
{
    let value = serde_json::from_str::<serde_json::Value>(json).ok()?;
    value.pointer(place).and_then(serde_json::Value::as_u64)
}

/// Reads a JSON text by `serde_json::from_str` and takes the truth value at a
/// place by `Value::pointer` and `Value::as_bool`.
#[verifier::external_body]
pub(crate) fn flag_at(json: &str, place: &str) -> (r: Option<bool>)
    ensures
        r == json_flag_at(json@, place@),
{
    let value = serde_json::from_str::<serde_json::Value>(json).ok()?;
    value.pointer(place).and_then(serde_json::Value::as_bool)
}

/// Reads a JSON text by `serde_json::from_str` and counts the elements of the
/// list at a place by `Value::pointer` and `Value::as_array`.
#[verifier::external_body]
pub(crate) fn length_at(json: &str, place: &str) -> (r: Option<usize>)
    ensures
        r == json_length_at(json@, place@),
{
    let value = serde_json::from_str::<serde_json::Value>(json).ok()?;
    value.pointer(place).and_then(serde_json::Value::as_array).map(Vec::len)
}

/// Reads a JSON text by `serde_json::from_str` and writes what `Value::pointer`
/// finds at a place by its `Debug` implementation.
#[verifier::external_body]
pub(crate) fn inspect_at(json: &str, place: &str) -> (r: String)
    ensures
        r@ == json_inspected_at(json@, place@),
{
    let value = serde_json::from_str::<serde_json::Value>(json).unwrap_or_default();
    format!("{:?}", value.pointer(place))
}

/// Reads a JSON text by `serde_json::from_str` and writes it by the `Debug`
/// implementation of `serde_json::Value`.
#[verifier::external_body]
pub(crate) fn inspect(json: &str) -> (r: String)
    ensures
        r@ == json_inspected(json@),
{
    let value = serde_json::from_str::<serde_json::Value>(json).unwrap_or_default();
    format!("{:?}", value)
}

/// Whether the text at a place is the given one.
pub fn field_is(json: &str, place: &str, text: &str) -> (r: bool)
    ensures
        r == (json_text_at(json@, place@) == Some(text@)),
{
    match text_at(json, place) {
        Some(found) => *found.as_str() == *text,
        None => false,
    }
}

// --- What the calls do ---

/// A field is a text exactly where that text stands at its place.
pub proof fn a_field_is_what_stands_at_its_place(
    json: &str,
    place: &str,
    s: &str,
    r: bool,
)
    requires
        call_ensures(field_is, (json, place, s), r),
    ensures
        r <==> json_text_at(json@, place@) == Some(s@),
{
}

} // verus!
