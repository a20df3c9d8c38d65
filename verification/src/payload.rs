//! The replacement list that a diagnostic carries as JSON, to be read back
//! when a fix is asked for.

use serde_json::Value;
use vstd::prelude::*;

verus! {

#[verifier::external_type_specification]
#[verifier::external_body]
pub struct ExValue(Value);

/// The views of a sequence of strings.
pub open spec fn strings_view(strings: Seq<String>) -> Seq<Seq<char>> {
    strings.map_values(|s: String| s@)
}

/// The strings that a JSON value holds when it is an array of strings and
/// nothing else; none for every other value.
pub uninterp spec fn value_strings(value: Value) -> Option<Seq<Seq<char>>>;

/// `serde_json::to_value` on a list of strings: the JSON array of those
/// strings. Serialising strings into a value cannot fail.
#[verifier::external_body]
pub(crate) fn strings_to_value(strings: &Vec<String>) -> (value: Option<Value>)
    ensures
        value is Some,
        value matches Some(v) ==> value_strings(v) == Some(strings_view(strings@)),
{
    serde_json::to_value(strings).ok()
}

/// `serde_json::from_value` to a list of strings: the strings of a JSON
/// array of strings, none for any other value.
#[verifier::external_body]
pub(crate) fn value_to_strings(value: &Value) -> (strings: Option<Vec<String>>)
    ensures
        strings is Some <==> value_strings(*value) is Some,
        strings matches Some(s) ==> value_strings(*value) == Some(strings_view(s@)),
{
    serde_json::from_value::<Vec<String>>(value.clone()).ok()
}

} // verus!
