//! What is taken on trust of `serde_json`.

use vstd::prelude::*;

verus! {

/// A JSON value of `serde_json`. What is inside is known only through
/// [`json_strings`] and [`json_arrays`].
#[verifier::external_type_specification]
#[verifier::external_body]
pub struct ExJsonValue(serde_json::Value);

/// Whether `serde_json` reads `raw` as a JSON value.
pub uninterp spec fn json_parses(raw: Seq<char>) -> bool;

/// The strings of a JSON value: each JSON pointer (RFC 6901) that leads to a
/// string, with that string.
pub uninterp spec fn json_strings(value: serde_json::Value) -> Map<Seq<char>, Seq<char>>;

/// The arrays of a JSON value: each JSON pointer (RFC 6901) that leads to an
/// array, with the number of its elements.
pub uninterp spec fn json_arrays(value: serde_json::Value) -> Map<Seq<char>, nat>;

/// `serde_json::from_str` for a `Value`, without the error: there is a value
/// for the texts that [`json_parses`] names, and nothing is said here of what
/// the value holds.
#[verifier::external_body]
pub(crate) fn json_from_str(raw: &str) -> (parsed: Option<serde_json::Value>)
    ensures
        parsed is Some <==> json_parses(raw@),
{
    serde_json::from_str::<serde_json::Value>(raw).ok()
}

/// `Value::pointer` followed by `Value::as_str`: the string to which the
/// pointer leads, and none where it leads nowhere or to something else.
#[verifier::external_body]
pub(crate) fn json_string_at(value: &serde_json::Value, pointer: &str) -> (found: Option<String>)
    ensures
        match found {
            Some(text) => json_strings(*value).contains_key(pointer@) && json_strings(
                *value,
            )[pointer@] == text@,
            None => !json_strings(*value).contains_key(pointer@),
        },
{
    value.pointer(pointer).and_then(serde_json::Value::as_str).map(str::to_owned)
}

/// `Value::pointer` followed by `Value::as_array` and `Vec::len`: the length
/// of the array to which the pointer leads, and none where it leads nowhere or
/// to something else.
#[verifier::external_body]
pub(crate) fn json_array_len_at(value: &serde_json::Value, pointer: &str) -> (found: Option<usize>)
    ensures
        match found {
            Some(len) => json_arrays(*value).contains_key(pointer@) && json_arrays(
                *value,
            )[pointer@] == len,
            None => !json_arrays(*value).contains_key(pointer@),
        },
{
    value.pointer(pointer).and_then(serde_json::Value::as_array).map(Vec::len)
}

} // verus!
