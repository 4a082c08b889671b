//! JSON documents through the `serde_json` crate.

use vstd::prelude::*;

verus! {

/// `serde_json::Value`, a JSON document.
#[verifier::external_type_specification]
#[verifier::external_body]
pub struct ExValue(serde_json::Value);

/// `serde_json::Error`.
#[verifier::external_type_specification]
#[verifier::external_body]
pub struct ExJsonError(serde_json::Error);

/// The members of a document that are strings; none where the document is no object.
pub uninterp spec fn string_members(v: serde_json::Value) -> Map<Seq<char>, Seq<char>>;

/// The members that are strings of the document that a text spells, or nothing where the text
/// spells none.
pub uninterp spec fn parsed_members(text: Seq<char>) -> Option<Map<Seq<char>, Seq<char>>>;

/// `serde_json::from_str` into a `Value`: the document depends on the text alone.
#[verifier::external_body]
pub(crate) fn parse(text: &str) -> (r: Result<serde_json::Value, serde_json::Error>)
    ensures
        match r {
            Ok(v) => parsed_members(text@) == Some(string_members(v)),
            Err(_) => parsed_members(text@) is None,
        },
{
    serde_json::from_str::<serde_json::Value>(text)
}

/// Indexing a `Value` by a name, and `Value::as_str`: the member of that name where the document
/// is an object that has it and it is a string.
#[verifier::external_body]
pub(crate) fn string_member(v: &serde_json::Value, name: &str) -> (r: Option<String>)
    ensures
        match r {
            Some(s) => string_members(*v).dom().contains(name@) && s@ == string_members(*v)[name@],
            None => !string_members(*v).dom().contains(name@),
        },
{
    v[name].as_str().map(|s| s.to_string())
}

} // verus!
