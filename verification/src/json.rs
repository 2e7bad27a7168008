//! Fields of JSON texts.
use vstd::prelude::*;
use crate::text::{opt_view, views};

verus! {

/// The views of an optional list of strings.
pub open spec fn opt_views(v: Option<Vec<String>>) -> Option<Seq<Seq<char>>> {
    match v {
        Some(l) => Some(views(l@)),
        None => None,
    }
}

/// The items of a JSON array, each as JSON; none where the text is no JSON array.
pub uninterp spec fn array_items(json: Seq<char>) -> Option<Seq<Seq<char>>>;

/// `serde_json::from_str` into a list of `serde_json::Value`, and
/// `serde_json::to_string` of each: the items of an array, each as JSON, none
/// where the text is no JSON array. How an item is written is not stated beyond
/// that it depends on the text alone.
#[verifier::external_body]
pub(crate) fn read_items(json: &str) -> (r: Option<Vec<String>>)
    ensures
        opt_views(r) == array_items(json@),
{
    let items: Vec<serde_json::Value> = serde_json::from_str(json).ok()?;
    items.iter().map(|item| serde_json::to_string(item).ok()).collect()
}

/// A member of a JSON object, as JSON.
pub uninterp spec fn member(json: Seq<char>, name: Seq<char>) -> Option<Seq<char>>;

/// `serde_json::Value::get`: the member of an object with this name, as JSON; none
/// where the text is no JSON object or the object has no such member. How it is
/// written is not stated beyond that it depends on the two texts alone.
#[verifier::external_body]
pub(crate) fn read_member(json: &str, name: &str) -> (r: Option<String>)
    ensures
        opt_view(r) == member(json@, name@),
{
    let value: serde_json::Value = serde_json::from_str(json).ok()?;
    serde_json::to_string(value.get(name)?).ok()
}

/// The text that a JSON string stands for.
pub uninterp spec fn string_value(json: Seq<char>) -> Option<Seq<char>>;

/// `serde_json::Value::as_str`: the text of a JSON string, none for any other JSON
/// and where the text is no JSON.
#[verifier::external_body]
pub(crate) fn read_string(json: &str) -> (r: Option<String>)
    ensures
        opt_view(r) == string_value(json@),
{
    let value: serde_json::Value = serde_json::from_str(json).ok()?;
    value.as_str().map(String::from)
}

/// The number that a JSON number stands for.
pub uninterp spec fn number_value(json: Seq<char>) -> Option<u64>;

/// `serde_json::Value::as_u64`: the number of a JSON number that is a `u64`, none
/// for any other JSON and where the text is no JSON.
#[verifier::external_body]
pub(crate) fn read_number(json: &str) -> (r: Option<u64>)
    ensures
        r == number_value(json@),
{
    let value: serde_json::Value = serde_json::from_str(json).ok()?;
    value.as_u64()
}

/// Whether a text is the JSON null; none where it is no JSON.
pub uninterp spec fn null_value(json: Seq<char>) -> Option<bool>;

/// `serde_json::Value::is_null`: whether a JSON text is null, none where the text
/// is no JSON.
#[verifier::external_body]
pub(crate) fn read_null(json: &str) -> (r: Option<bool>)
    ensures
        r == null_value(json@),
{
    let value: serde_json::Value = serde_json::from_str(json).ok()?;
    Some(value.is_null())
}

/// The text of a member that is a JSON string.
pub open spec fn member_string(json: Seq<char>, name: Seq<char>) -> Option<Seq<char>> {
    match member(json, name) {
        Some(m) => string_value(m),
        None => None,
    }
}

/// The number of a member that is a JSON number.
pub open spec fn member_number(json: Seq<char>, name: Seq<char>) -> Option<u64> {
    match member(json, name) {
        Some(m) => number_value(m),
        None => None,
    }
}

/// The text of a member that is a JSON string.
pub fn string_member(json: &str, name: &str) -> (r: Option<String>)
    ensures
        opt_view(r) == member_string(json@, name@),
{
    match read_member(json, name) {
        Some(m) => read_string(m.as_str()),
        None => None,
    }
}

/// The number of a member that is a JSON number.
pub fn number_member(json: &str, name: &str) -> (r: Option<u64>)
    ensures
        r == member_number(json@, name@),
{
    match read_member(json, name) {
        Some(m) => read_number(m.as_str()),
        None => None,
    }
}

/// A member is read where it is there, and what it stands for where it is of that kind.
pub proof fn law_what_a_member_is(json: Seq<char>, name: Seq<char>)
    ensures
        member(json, name) is None ==> member_string(json, name) is None && member_number(
            json,
            name,
        ) is None,
        member(json, name) is Some ==> member_string(json, name) == string_value(
            member(json, name)->0,
        ) && member_number(json, name) == number_value(member(json, name)->0),
{
}

} // verus!
