//! JSON values, as the `serde_json` crate holds them.

use serde_json::Value;
use vstd::prelude::*;

verus! {

/// What a JSON value holds. Which number a number is plays no part in the router.
pub enum JsonTree {
    Null,
    Bool(bool),
    Number,
    Text(Seq<char>),
    Array(Seq<JsonTree>),
    Object(Map<Seq<char>, JsonTree>),
}

impl JsonTree {
    /// The member of that name, where the value is an object that has one.
    pub open spec fn member(self, key: Seq<char>) -> Option<JsonTree> {
        match self {
            JsonTree::Object(members) => if members.dom().contains(key) {
                Some(members[key])
            } else {
                None
            },
            _ => None,
        }
    }

    /// The text, where the value is one.
    pub open spec fn text(self) -> Option<Seq<char>> {
        match self {
            JsonTree::Text(text) => Some(text),
            _ => None,
        }
    }

    /// The items, where the value is an array.
    pub open spec fn items(self) -> Option<Seq<JsonTree>> {
        match self {
            JsonTree::Array(items) => Some(items),
            _ => None,
        }
    }
}

/// A JSON value of the `serde_json` crate.
#[verifier::external_type_specification]
#[verifier::external_body]
pub struct ExValue(serde_json::Value);

/// The members of a JSON object of the `serde_json` crate.
#[verifier::external_type_specification]
#[verifier::external_body]
#[verifier::reject_recursive_types(K)]
#[verifier::reject_recursive_types(V)]
pub struct ExMap<K, V>(serde_json::Map<K, V>);

/// What a JSON value holds.
pub uninterp spec fn json_of(value: serde_json::Value) -> JsonTree;

/// What the members of a JSON object hold.
pub uninterp spec fn members_of(members: serde_json::Map<String, serde_json::Value>) -> Map<
    Seq<char>,
    JsonTree,
>;

/// What `serde_json::from_slice` makes of a text: the value, or the words of the error.
pub uninterp spec fn json_text(body: Seq<u8>) -> Result<JsonTree, Seq<char>>;

/// What the values of a list hold.
pub open spec fn trees(values: Seq<Value>) -> Seq<JsonTree> {
    Seq::new(values.len(), |i: int| json_of(values[i]))
}

/// What an optional value holds.
pub open spec fn tree_option(value: Option<&Value>) -> Option<JsonTree> {
    match value {
        Some(value) => Some(json_of(*value)),
        None => None,
    }
}

/// Calls `serde_json::from_slice` and hands out the value or the words of the error. Only that
/// both depend on the text alone is claimed.
#[verifier::external_body]
pub(crate) fn parsed_json(body: &[u8]) -> (r: Result<Value, String>)
    ensures
        match r {
            Ok(value) => json_text(body@) == Ok::<JsonTree, Seq<char>>(json_of(value)),
            Err(words) => json_text(body@) == Err::<JsonTree, Seq<char>>(words@),
        },
{
    serde_json::from_slice::<Value>(body).map_err(|error| error.to_string())
}

/// Calls `serde_json::Value::get` with a name: the member of an object; nothing for any other
/// value.
#[verifier::external_body]
pub(crate) fn member<'a>(value: &'a Value, key: &str) -> (r: Option<&'a Value>)
    ensures
        tree_option(r) == json_of(*value).member(key@),
{
    value.get(key)
}

/// Calls `serde_json::Value::as_str`: the text of a text; nothing for any other value.
#[verifier::external_body]
pub(crate) fn text(value: &Value) -> (r: Option<&str>)
    ensures
        match r {
            Some(text) => json_of(*value).text() == Some(text@),
            None => json_of(*value).text() is None,
        },
{
    value.as_str()
}

/// Calls `serde_json::Value::as_array`: the items of an array; nothing for any other value.
#[verifier::external_body]
pub(crate) fn items(value: &Value) -> (r: Option<&Vec<Value>>)
    ensures
        match r {
            Some(items) => json_of(*value).items() == Some(trees(items@)),
            None => json_of(*value).items() is None,
        },
{
    value.as_array()
}

/// Calls `serde_json::Value::as_array_mut`: the items of an array, to be changed in place;
/// nothing for any other value, which stays as it is.
#[verifier::external_body]
pub(crate) fn items_mut(value: &mut Value) -> (r: Option<&mut Vec<Value>>)
    ensures
        match r {
            Some(items) => {
                &&& json_of(*old(value)) == JsonTree::Array(trees(items@))
                &&& json_of(*final(value)) == JsonTree::Array(trees(final(items)@))
            },
            None => json_of(*old(value)).items() is None && *final(value) == *old(value),
        },
{
    value.as_array_mut()
}

/// Calls `serde_json::Value::take`: hands the value out and leaves a null in its place.
#[verifier::external_body]
pub(crate) fn take(value: &mut Value) -> (r: Value)
    ensures
        r == *old(value),
        json_of(*final(value)) == JsonTree::Null,
{
    value.take()
}

/// Makes a `serde_json::Value::String`: a value that is the text.
#[verifier::external_body]
pub(crate) fn text_value(text: String) -> (r: Value)
    ensures
        json_of(r) == JsonTree::Text(text@),
{
    Value::String(text)
}

/// Makes a `serde_json::Value::Array`: an array of the items.
#[verifier::external_body]
pub(crate) fn array_value(items: Vec<Value>) -> (r: Value)
    ensures
        json_of(r) == JsonTree::Array(trees(items@)),
{
    Value::Array(items)
}

/// Makes a `serde_json::Value::Object`: an object of the members.
#[verifier::external_body]
pub(crate) fn object_value(members: serde_json::Map<String, Value>) -> (r: Value)
    ensures
        json_of(r) == JsonTree::Object(members_of(members)),
{
    Value::Object(members)
}

/// Calls `serde_json::Map::new`: no members.
#[verifier::external_body]
pub(crate) fn no_members() -> (r: serde_json::Map<String, Value>)
    ensures
        forall|key: Seq<char>| !members_of(r).dom().contains(key),
{
    serde_json::Map::new()
}

/// Calls `serde_json::Map::get_mut`: the member of that name, to be changed in place; nothing,
/// where there is none.
#[verifier::external_body]
pub(crate) fn member_mut<'a>(
    members: &'a mut serde_json::Map<String, Value>,
    key: &str,
) -> (r: Option<&'a mut Value>)
    ensures
        match r {
            Some(value) => {
                &&& members_of(*old(members)).dom().contains(key@)
                &&& members_of(*old(members))[key@] == json_of(*value)
                &&& members_of(*final(members)) == members_of(*old(members)).insert(
                    key@,
                    json_of(*final(value)),
                )
            },
            None => {
                &&& !members_of(*old(members)).dom().contains(key@)
                &&& members_of(*final(members)) == members_of(*old(members))
            },
        },
{
    members.get_mut(key)
}

/// Calls `serde_json::Map::insert`: the member of that name is now the value.
#[verifier::external_body]
pub(crate) fn insert_member(
    members: &mut serde_json::Map<String, Value>,
    key: String,
    value: Value,
)
    ensures
        members_of(*final(members)) == members_of(*old(members)).insert(key@, json_of(value)),
{
    members.insert(key, value);
}

} // verus!
