//! JSON values, as `serde_json` holds and writes them.

use vstd::prelude::*;

verus! {

/// What a JSON value is, apart from how it is held in memory.
pub enum Json {
    Null,
    Bool(bool),
    /// A number, by its text.
    Number(Seq<char>),
    Text(Seq<char>),
    Array(Seq<Json>),
    Object(Map<Seq<char>, Json>),
}

/// `serde_json::Value`, opaque to the verifier: `json_view` names what one holds.
#[verifier::external_type_specification]
#[verifier::external_body]
pub struct ExValue(serde_json::Value);

/// `serde_json::Map`, opaque to the verifier: `members` names what one holds.
#[verifier::external_type_specification]
#[verifier::external_body]
#[verifier::reject_recursive_types(K)]
#[verifier::reject_recursive_types(V)]
pub struct ExMap<K, V>(serde_json::Map<K, V>);

/// What a `serde_json::Value` holds.
pub uninterp spec fn json_view(value: serde_json::Value) -> Json;

/// The members of a `serde_json::Map`, by key.
pub uninterp spec fn members(object: serde_json::Map<String, serde_json::Value>) -> Map<Seq<char>, Json>;

/// The text `serde_json::to_string` writes for a value that holds `json`.
pub uninterp spec fn json_text(json: Json) -> Seq<char>;

/// `serde_json::Map::new` makes an object without members.
#[verifier::external_body]
pub(crate) fn empty_object() -> (object: serde_json::Map<String, serde_json::Value>)
    ensures
        (members(object) == Map::<Seq<char>, Json>::empty()),
{
    serde_json::Map::new()
}

/// `serde_json::Map::insert` gives the member `k` the value `v`, touches no other member,
/// and hands back the value that `k` had, if it had one.
pub assume_specification[ serde_json::Map::<String, serde_json::Value>::insert ](
    object: &mut serde_json::Map<String, serde_json::Value>,
    k: String,
    v: serde_json::Value,
) -> (previous: Option<serde_json::Value>)
    ensures
        members(*final(object)) == members(*old(object)).insert(k@, json_view(v)),
        previous is Some <==> members(*old(object)).contains_key(k@),
        previous is Some ==> json_view(previous->0) == members(*old(object))[k@],
;

/// `serde_json::Value::Bool` holds the truth value it is made of.
#[verifier::external_body]
pub(crate) fn json_bool(flag: bool) -> (value: serde_json::Value)
    ensures
        json_view(value) == Json::Bool(flag),
{
    serde_json::Value::Bool(flag)
}

/// `serde_json::Value::String` holds the text it is made of.
#[verifier::external_body]
pub(crate) fn json_string(text: String) -> (value: serde_json::Value)
    ensures
        json_view(value) == Json::Text(text@),
{
    serde_json::Value::String(text)
}

/// `serde_json::Value::Array` holds the values it is made of, in their order.
#[verifier::external_body]
pub(crate) fn json_array(items: Vec<serde_json::Value>) -> (value: serde_json::Value)
    ensures
        json_view(value) == Json::Array(items@.map_values(|item: serde_json::Value| json_view(item))),
{
    serde_json::Value::Array(items)
}

/// `serde_json::Value::Object` holds the members of the map it is made of.
#[verifier::external_body]
pub(crate) fn json_object(object: serde_json::Map<String, serde_json::Value>) -> (value:
    serde_json::Value)
    ensures
        json_view(value) == Json::Object(members(object)),
{
    serde_json::Value::Object(object)
}

/// `serde_json::to_string` writes a `Value` as text that depends on what the value holds
/// and on nothing else: without the feature `preserve_order` the members of an object stand
/// in the order of their keys. It does not fail on a `Value`: the keys of its objects are
/// strings, and the text goes to memory.
#[verifier::external_body]
pub(crate) fn json_to_string(value: &serde_json::Value) -> (text: String)
    ensures
        text@ == json_text(json_view(*value)),
{
    serde_json::to_string(value).unwrap()
}

} // verus!
