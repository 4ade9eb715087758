//! JSON, as far as requests and results need it. The encoding and the
//! parsing are those of `serde_json`.

use crate::record::optional_text;
use crate::text::decimal;
use std::collections::HashMap;
use vstd::prelude::*;

verus! {

/// The items of a JSON array of numbers: the numbers in decimal, with a
/// comma between them.
pub open spec fn number_items(numbers: Seq<u32>) -> Seq<char>
    decreases numbers.len(),
{
    if numbers.len() == 0 {
        Seq::empty()
    } else if numbers.len() == 1 {
        decimal(numbers[0] as nat)
    } else {
        number_items(numbers.drop_last()) + seq![','] + decimal(numbers.last() as nat)
    }
}

/// A list of numbers as a JSON array without white space, such as `[1,2,3]`.
pub open spec fn number_list(numbers: Seq<u32>) -> Seq<char> {
    seq!['['] + number_items(numbers) + seq![']']
}

/// A list of texts as the JSON array of strings that `serde_json::to_string`
/// writes for it.
pub uninterp spec fn text_list(texts: Seq<Seq<char>>) -> Seq<char>;

/// A JSON value of `serde_json`.
#[verifier::external_type_specification]
#[verifier::external_body]
pub struct ExJsonValue(serde_json::Value);

/// The members of a JSON value that are strings, by their names. A value
/// that is no object has none.
pub uninterp spec fn string_members(value: serde_json::Value) -> Map<Seq<char>, Seq<char>>;

/// What `serde_json::from_str` makes of a text, as far as string members go:
/// nothing where the text is no JSON, else the string members of the value
/// that it stands for.
pub uninterp spec fn parsed_members(text: Seq<char>) -> Option<Map<Seq<char>, Seq<char>>>;

/// The member with the given name, where there is one.
pub open spec fn member(members: Map<Seq<char>, Seq<char>>, name: Seq<char>) -> Option<
    Seq<char>,
> {
    if members.contains_key(name) {
        Some(members[name])
    } else {
        None
    }
}

/// The two members of a result envelope that the library reads.
#[derive(Debug, PartialEq, Eq)]
pub struct Envelope {
    /// The member `type`, where it is a string.
    pub kind: Option<String>,
    /// The member `message`, where it is a string.
    pub message: Option<String>,
}

/// Encodes a list of numbers with `serde_json::to_string`. The encoding
/// writes to memory and has no step that fails for numbers, so it gives a
/// text: the compact JSON array of the numbers in decimal.
#[verifier::external_body]
pub(crate) fn encode_numbers(numbers: &Vec<u32>) -> (r: Result<String, String>)
    ensures
        r is Ok,
        r matches Ok(text) ==> text@ == number_list(numbers@),
{
    match serde_json::to_string(numbers) {
        Ok(text) => Ok(text),
        Err(e) => Err(e.to_string()),
    }
}

/// Encodes a list of texts with `serde_json::to_string`. The encoding writes
/// to memory and has no step that fails for texts, so it gives a text, and
/// that text is a function of the list.
#[verifier::external_body]
pub(crate) fn encode_texts(texts: &Vec<String>) -> (r: Result<String, String>)
    ensures
        r is Ok,
        r matches Ok(text) ==> text@ == text_list(texts.deep_view()),
{
    match serde_json::to_string(texts) {
        Ok(text) => Ok(text),
        Err(e) => Err(e.to_string()),
    }
}

/// Encodes a map from numbers to numbers with `serde_json::to_string`. The
/// encoding writes to memory and takes numbers as the names of members, so
/// it gives a text. Nothing is claimed of the text: the order of its members
/// is the order in which the map is walked, which differs from run to run.
#[verifier::external_body]
pub(crate) fn encode_number_map(map: &HashMap<u32, i32>) -> (r: Result<String, String>)
    ensures
        r is Ok,
{
    match serde_json::to_string(map) {
        Ok(text) => Ok(text),
        Err(e) => Err(e.to_string()),
    }
}

/// Parses a text with `serde_json::from_str`. The value is a function of
/// the text; an error is handed on as its message.
#[verifier::external_body]
pub(crate) fn parse_json(text: &str) -> (r: Result<serde_json::Value, String>)
    ensures
        match r {
            Ok(value) => parsed_members(text@) == Some(string_members(value)),
            Err(_) => parsed_members(text@) is None,
        },
{
    match serde_json::from_str::<serde_json::Value>(text) {
        Ok(value) => Ok(value),
        Err(e) => Err(e.to_string()),
    }
}

/// Looks up a member of a JSON value with `Value::get`, and gives its text
/// where it is there and is a `Value::String`.
#[verifier::external_body]
pub(crate) fn string_member(value: &serde_json::Value, name: &str) -> (r: Option<String>)
    ensures
        optional_text(r) == member(string_members(*value), name@),
{
    match value.get(name) {
        Some(serde_json::Value::String(text)) => Some(text.clone()),
        _ => None,
    }
}

} // verus!
