//! Finding a value inside a JSON document by the path of keys that leads
//! to it.
//!
//! The documents are those of the `serde_json` crate. Nothing here is
//! proved about that crate: the contract of each function that calls it is
//! taken from its source, and says so.

use serde_json::Value;
use vstd::prelude::*;

verus! {

/// `serde_json::Value`, a JSON document.
#[verifier::external_type_specification]
#[verifier::external_body]
pub struct ExValue(serde_json::Value);

/// What a JSON document holds. Numbers are not told apart.
pub ghost enum JsonView {
    Null,
    Bool(bool),
    Number,
    String(Seq<char>),
    Array(Seq<JsonView>),
    Object(Map<Seq<char>, JsonView>),
}

/// What a `serde_json::Value` holds.
pub uninterp spec fn json_view(value: Value) -> JsonView;

/// What each document of a list holds.
pub open spec fn json_views(values: Seq<Value>) -> Seq<JsonView> {
    values.map_values(|value: Value| json_view(value))
}

/// The member of an object under a key. Nothing else has members.
pub open spec fn member_of(value: JsonView, key: Seq<char>) -> Option<JsonView> {
    match value {
        JsonView::Object(members) => if members.contains_key(key) {
            Some(members[key])
        } else {
            None
        },
        _ => None,
    }
}

/// The elements of an array. Nothing else has elements.
pub open spec fn elements_of(value: JsonView) -> Option<Seq<JsonView>> {
    match value {
        JsonView::Array(elements) => Some(elements),
        _ => None,
    }
}

/// Calls `Value::get` with a key: for an object that has a member under
/// the key, it hands that member out, and else nothing. Nothing is proved
/// of it.
#[verifier::external_body]
pub(crate) fn member<'a>(value: &'a Value, key: &str) -> (found: Option<&'a Value>)
    ensures
        found is Some <==> member_of(json_view(*value), key@) is Some,
        found matches Some(inner) ==> member_of(json_view(*value), key@) == Some(
            json_view(*inner),
        ),
{
    value.get(key)
}

/// Calls `Value::as_array`: for an array, it hands the elements out, and
/// else nothing. Nothing is proved of it.
#[verifier::external_body]
pub(crate) fn elements<'a>(value: &'a Value) -> (found: Option<&'a Vec<Value>>)
    ensures
        found is Some <==> elements_of(json_view(*value)) is Some,
        found matches Some(array) ==> elements_of(json_view(*value)) == Some(json_views(array@)),
{
    value.as_array()
}

/// Why a value was not found.
#[derive(Debug, PartialEq, Eq)]
pub enum JsonError {
    /// The document has no value at the path.
    PathNotFound { path: Vec<String> },
    /// The value at the path is no array.
    NotAnArray { path: Vec<String> },
}

/// The keys of a path as character sequences.
pub open spec fn keys(path: Seq<&str>) -> Seq<Seq<char>> {
    path.map_values(|key: &str| key@)
}

/// The value at the end of a path of keys: the document itself for the
/// empty path, and else what the rest of the path leads to from the member
/// under the first key.
pub open spec fn value_at(value: JsonView, path: Seq<Seq<char>>) -> Option<JsonView>
    decreases path.len(),
{
    if path.len() == 0 {
        Some(value)
    } else {
        match member_of(value, path[0]) {
            Some(inner) => value_at(inner, path.drop_first()),
            None => None,
        }
    }
}

/// Copies a path for an error to carry.
fn owned_path(path: &[&str]) -> (owned: Vec<String>)
    ensures
        owned.deep_view() == keys(path@),
{
    let mut owned: Vec<String> = Vec::new();
    let mut i: usize = 0;
    while i < path.len()
        invariant
            i <= path.len(),
            owned.deep_view() == keys(path@).take(i as int),
        decreases path.len() - i,
    {
        let ghost before = owned.deep_view();
        owned.push(String::from_str(path[i]));
        proof {
            assert(owned.deep_view() =~= before.push(path@[i as int]@));
            assert(owned.deep_view() =~= keys(path@).take(i + 1));
        }
        i += 1;
    }
    proof {
        assert(keys(path@).take(path.len() as int) =~= keys(path@));
    }
    owned
}

/// Follows a path of keys into a document. It finds the value at the end
/// of the path, or reports the path where a key leads nowhere.
pub fn get_path<'a>(json: &'a Value, path: &[&str]) -> (found: Result<&'a Value, JsonError>)
    ensures
        found is Ok <==> value_at(json_view(*json), keys(path@)) is Some,
        found matches Ok(value) ==> value_at(json_view(*json), keys(path@)) == Some(
            json_view(*value),
        ),
        found matches Err(error) ==> (error matches JsonError::PathNotFound { path: missing }
            && missing.deep_view() == keys(path@)),
{
    let ghost all = keys(path@);
    let mut current: &'a Value = json;
    let mut i: usize = 0;
    proof {
        assert(all.skip(0) =~= all);
    }
    while i < path.len()
        invariant
            i <= path.len(),
            all == keys(path@),
            value_at(json_view(*json), all) == value_at(json_view(*current), all.skip(i as int)),
        decreases path.len() - i,
    {
        proof {
            assert(all.skip(i as int).drop_first() =~= all.skip(i + 1));
            assert(all.skip(i as int)[0] == path@[i as int]@);
        }
        match member(current, path[i]) {
            Some(inner) => {
                current = inner;
            },
            None => {
                return Err(JsonError::PathNotFound { path: owned_path(path) });
            },
        }
        i += 1;
    }
    Ok(current)
}

/// What following a path to an array finds in a document: the elements of
/// the array at the end of the path. Nothing is found where the path leads
/// nowhere, or to something that is no array.
pub open spec fn array_at(value: JsonView, path: Seq<Seq<char>>) -> Option<Seq<JsonView>> {
    match value_at(value, path) {
        Some(found) => elements_of(found),
        None => None,
    }
}

/// Follows a path of keys into a document, to an array. It finds the
/// elements of the array, or reports the path: as one that leads nowhere,
/// or as one that leads to something that is no array.
pub fn get_array<'a>(json: &'a Value, path: &[&str]) -> (found: Result<&'a Vec<Value>, JsonError>)
    ensures
        found is Ok <==> array_at(json_view(*json), keys(path@)) is Some,
        found matches Ok(array) ==> array_at(json_view(*json), keys(path@)) == Some(
            json_views(array@),
        ),
        found matches Err(JsonError::PathNotFound { path: missing }) ==> value_at(
            json_view(*json),
            keys(path@),
        ) is None && missing.deep_view() == keys(path@),
        found matches Err(JsonError::NotAnArray { path: wrong }) ==> value_at(
            json_view(*json),
            keys(path@),
        ) is Some && wrong.deep_view() == keys(path@),
{
    let value = match get_path(json, path) {
        Ok(value) => value,
        Err(error) => {
            return Err(error);
        },
    };
    match elements(value) {
        Some(array) => Ok(array),
        None => Err(JsonError::NotAnArray { path: owned_path(path) }),
    }
}

} // verus!
