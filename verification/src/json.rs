//! JSON documents as `serde_json` reads and writes them.

use vstd::prelude::*;

use crate::text::optional_text;

verus! {

/// One JSON value.
#[verifier::external_type_specification]
#[verifier::external_body]
pub struct ExValue(serde_json::Value);

/// What a JSON value holds, as the compact text that `serde_json` prints for it. Different values
/// print different texts.
pub uninterp spec fn json_text(value: serde_json::Value) -> Seq<char>;

/// The value that `serde_json` reads from some bytes, as its compact text; `None` when they are
/// not one JSON document.
pub uninterp spec fn json_document(contents: Seq<u8>) -> Option<Seq<char>>;

/// The members of the JSON object with a compact text, each as its own compact text; `None` for a
/// value that is not an object.
pub uninterp spec fn json_members(text: Seq<char>) -> Option<Map<Seq<char>, Seq<char>>>;

/// The indented text of the JSON value with a compact text; `None` when it cannot be printed.
pub uninterp spec fn json_pretty(text: Seq<char>) -> Option<Seq<char>>;

/// Reading the compact text of a value gives the value back: it nests no deeper than the reader
/// follows, and its numbers are read as they were printed.
pub open spec fn rereads(text: Seq<char>) -> bool {
    json_document(vstd::utf8::encode_utf8(text)) == Some(text)
}

/// What reading the indented text of an object gives: where it is read at all it has the same
/// member names, and it is the same object if its compact text reads back.
pub open spec fn reads_back(text: Seq<char>, printed: Seq<char>) -> bool {
    match (json_members(text), json_document(vstd::utf8::encode_utf8(printed))) {
        (Some(members), Some(again)) => {
            &&& json_members(again) matches Some(read) && read.dom() == members.dom()
            &&& rereads(text) ==> again == text
        },
        (Some(_), None) => !rereads(text),
        (None, _) => true,
    }
}

/// `printed` is the indented text of the object with these members.
pub open spec fn prints(members: Map<Seq<char>, Seq<char>>, printed: Option<Seq<char>>) -> bool {
    exists|text: Seq<char>| #[trigger]
        json_members(text) == Some(members) && json_pretty(text) == printed && (printed is Some
            ==> reads_back(text, printed->0))
}

/// Calls `serde_json::from_slice` for a `serde_json::Value`. The claim is that what is read, and
/// whether it is, is a function of the bytes alone; the JSON grammar stays unstated.
#[verifier::external_body]
pub(crate) fn read_json(contents: &[u8]) -> (res: Option<serde_json::Value>)
    ensures
        match res {
            Some(value) => json_document(contents@) == Some(json_text(value)),
            None => json_document(contents@) is None,
        },
{
    serde_json::from_slice::<serde_json::Value>(contents).ok()
}

/// Calls `serde_json::Value::is_object`, which tells objects from all other values.
#[verifier::external_body]
pub(crate) fn is_object(value: &serde_json::Value) -> (res: bool)
    ensures
        res == (json_members(json_text(*value)) is Some),
{
    value.is_object()
}

/// Calls `serde_json::Value::get` with a member name. It finds a member exactly where the value
/// is an object that has one of that name.
#[verifier::external_body]
pub(crate) fn has_member(value: &serde_json::Value, name: &str) -> (res: bool)
    ensures
        res == match json_members(json_text(*value)) {
            Some(members) => members.contains_key(name@),
            None => false,
        },
{
    value.get(name).is_some()
}

/// Calls `serde_json::Map::remove` on the members of an object. The named member is gone and
/// every other one stays; a value that is not an object stays as it is.
#[verifier::external_body]
pub(crate) fn remove_member(value: &mut serde_json::Value, name: &str)
    ensures
        match json_members(json_text(*old(value))) {
            Some(members) => json_members(json_text(*final(value))) == Some(members.remove(name@)),
            None => *final(value) == *old(value),
        },
{
    if let Some(object) = value.as_object_mut() {
        object.remove(name);
    }
}

/// Calls `serde_json::Map::insert` on the members of an object. The named member holds `member`
/// and every other one stays; a value that is not an object stays as it is.
#[verifier::external_body]
pub(crate) fn insert_member(value: &mut serde_json::Value, name: &str, member: serde_json::Value)
    ensures
        match json_members(json_text(*old(value))) {
            Some(members) => json_members(json_text(*final(value))) == Some(
                members.insert(name@, json_text(member)),
            ),
            None => *final(value) == *old(value),
        },
{
    if let Some(object) = value.as_object_mut() {
        object.insert(name.to_owned(), member);
    }
}

/// Calls `serde_json::to_string_pretty` on a value. The claims are that the text, and whether there
/// is one, is a function of the value alone, and that the text of an object, where
/// `serde_json::from_slice` reads it, gives an object with the same member names: the same object
/// if its compact text, which differs in white space only, reads back. The layout stays unstated.
#[verifier::external_body]
pub(crate) fn pretty_text(value: &serde_json::Value) -> (res: Option<String>)
    ensures
        optional_text(res) == json_pretty(json_text(*value)),
        res is Some ==> reads_back(json_text(*value), res->0@),
{
    serde_json::to_string_pretty(value).ok()
}

} // verus!
