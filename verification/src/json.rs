//! JSON documents, as `serde_json` reads and writes them.
//!
//! A document is held as a `serde_json::Value`, which is opaque to the
//! verifier. What such a value holds is given by [`json_of`] as a [`Json`]
//! tree, and every function of this module says over that tree what the
//! `serde_json` item that it calls does. None of these statements is proved:
//! they are the assumptions on which the rest of the crate reads and writes
//! documents.

use vstd::prelude::*;

verus! {

/// `serde_json::Value`: a JSON document in memory.
#[verifier::external_type_specification]
#[verifier::external_body]
pub struct ExValue(serde_json::Value);

/// `serde_json::Error`: why a text is no JSON document.
#[verifier::external_type_specification]
#[verifier::external_body]
pub struct ExError(serde_json::Error);

/// A JSON document as a mathematical tree. A number is kept by the text
/// that `serde_json` prints for it. An object is a finite map: `serde_json`
/// keeps one value per key and, built as it is here, without its
/// `preserve_order` feature, keeps and writes the members sorted by key.
pub enum Json {
    Null,
    Bool(bool),
    Number(Seq<char>),
    Text(Seq<char>),
    Array(Seq<Json>),
    Object(Map<Seq<char>, Json>),
}

/// The tree that a `serde_json::Value` holds.
pub uninterp spec fn json_of(value: serde_json::Value) -> Json;

/// The document that `serde_json::from_str` reads from `text`, `None` where
/// it rejects the text.
pub uninterp spec fn json_parse(text: Seq<char>) -> Option<Json>;

/// The text that `serde_json::to_string_pretty` writes for a document, `None`
/// where it fails on the document.
pub uninterp spec fn json_pretty(document: Json) -> Option<Seq<char>>;

/// The trees of a sequence of values.
pub open spec fn jsons_of(values: Seq<serde_json::Value>) -> Seq<Json> {
    values.map_values(|value: serde_json::Value| json_of(value))
}

/// The member `key` of a document: present only in an object that has the
/// key.
pub open spec fn member(document: Json, key: Seq<char>) -> Option<Json> {
    match document {
        Json::Object(members) => if members.dom().contains(key) {
            Some(members[key])
        } else {
            None
        },
        _ => None,
    }
}

/// The map that a list of members makes, a later member replacing an
/// earlier one of the same key.
pub open spec fn members_of(entries: Seq<(Seq<char>, Json)>) -> Map<Seq<char>, Json>
    decreases entries.len(),
{
    if entries.len() == 0 {
        Map::empty()
    } else {
        members_of(entries.drop_last()).insert(entries.last().0, entries.last().1)
    }
}

/// The keys and trees of a list of keyed values.
pub open spec fn entries_of(entries: Seq<(String, serde_json::Value)>) -> Seq<(Seq<char>, Json)> {
    entries.map_values(|entry: (String, serde_json::Value)| (entry.0@, json_of(entry.1)))
}

/// Calls `serde_json::from_str` for a `Value`. It returns the document that
/// the text writes, or an error where the text is no JSON document; the
/// outcome depends on the text alone.
#[verifier::external_body]
pub(crate) fn parse_value(text: &str) -> (r: Result<serde_json::Value, serde_json::Error>)
    ensures
        r is Ok ==> json_parse(text@) == Some(json_of(r->Ok_0)),
        r is Err ==> json_parse(text@) is None,
{
    serde_json::from_str::<serde_json::Value>(text)
}

/// Calls `Value::get` with a string key. It returns the value under that key
/// where the document is an object that has the key, and `None` otherwise.
#[verifier::external_body]
pub(crate) fn value_member<'a>(value: &'a serde_json::Value, key: &str) -> (r: Option<
    &'a serde_json::Value,
>)
    ensures
        r is Some ==> member(json_of(*value), key@) == Some(json_of(*r->Some_0)),
        r is None ==> member(json_of(*value), key@) is None,
{
    value.get(key)
}

/// Calls `Value::as_array`. It returns the elements of an array, and `None`
/// for any other document.
#[verifier::external_body]
pub(crate) fn value_items<'a>(value: &'a serde_json::Value) -> (r: Option<&'a Vec<serde_json::Value>>)
    ensures
        r is Some ==> json_of(*value) == Json::Array(jsons_of(r->Some_0@)),
        r is None ==> !(json_of(*value) is Array),
{
    value.as_array()
}

/// Calls `Value::as_str`. It returns the text of a string, and `None` for
/// any other document.
#[verifier::external_body]
pub(crate) fn value_text<'a>(value: &'a serde_json::Value) -> (r: Option<&'a str>)
    ensures
        r is Some ==> json_of(*value) == Json::Text(r->Some_0@),
        r is None ==> !(json_of(*value) is Text),
{
    value.as_str()
}

/// Calls `Value::from` on a `String`, which makes the string document of
/// that text.
#[verifier::external_body]
pub(crate) fn value_from_text(text: String) -> (value: serde_json::Value)
    ensures
        json_of(value) == Json::Text(text@),
{
    serde_json::Value::from(text)
}

/// Calls `Value::from` on a vector of values, which makes the array of
/// these elements in their order.
#[verifier::external_body]
pub(crate) fn value_from_items(items: Vec<serde_json::Value>) -> (value: serde_json::Value)
    ensures
        json_of(value) == Json::Array(jsons_of(items@)),
{
    serde_json::Value::from(items)
}

/// Collects keyed values into a `Value`, which makes the object that holds
/// each value under its key. The keys have to differ from one another.
#[verifier::external_body]
pub(crate) fn value_from_members(entries: Vec<(String, serde_json::Value)>) -> (value: serde_json::Value)
    requires
        forall|i: int, j: int|
            0 <= i < j < entries@.len() ==> (#[trigger] entries@[i]).0@ != (
            #[trigger] entries@[j]).0@,
    ensures
        json_of(value) == Json::Object(members_of(entries_of(entries@))),
{
    entries.into_iter().collect::<serde_json::Value>()
}

/// Calls `serde_json::to_string_pretty` on a `Value`. It writes the document
/// into memory, so whether it succeeds, and the indented text where it does,
/// depend on the document alone.
#[verifier::external_body]
pub(crate) fn value_to_pretty(value: &serde_json::Value) -> (r: Result<String, serde_json::Error>)
    ensures
        r is Ok ==> json_pretty(json_of(*value)) == Some(r->Ok_0@),
        r is Err ==> json_pretty(json_of(*value)) is None,
{
    serde_json::to_string_pretty(value)
}

} // verus!
