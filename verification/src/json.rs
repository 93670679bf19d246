//! JSON values of `serde_json`, and what they hold.

use vstd::prelude::*;

verus! {

/// What a JSON value holds.
pub enum Json {
    Null,
    Bool(bool),
    Number(Seq<char>),
    Text(Seq<char>),
    Array(Seq<Json>),
    Object(Map<Seq<char>, Json>),
}

/// Declares `serde_json::Value`, of which nothing is seen but what `value_of` says.
#[verifier::external_type_specification]
#[verifier::external_body]
pub struct ExValue(serde_json::Value);

/// Declares `serde_json::Map`, of which nothing is seen but what `entries_of` says.
#[verifier::external_type_specification]
#[verifier::external_body]
#[verifier::reject_recursive_types(K)]
#[verifier::reject_recursive_types(V)]
pub struct ExObject<K, V>(serde_json::Map<K, V>);

/// Declares `serde_json::Error`, of which nothing is seen.
#[verifier::external_type_specification]
#[verifier::external_body]
pub struct ExJsonError(serde_json::Error);

/// What a `serde_json::Value` holds.
pub uninterp spec fn value_of(v: serde_json::Value) -> Json;

/// The entries of a `serde_json::Map`, by key.
pub uninterp spec fn entries_of(m: serde_json::Map<String, serde_json::Value>) -> Map<
    Seq<char>,
    Json,
>;

/// The entries of an empty map.
pub open spec fn no_entries() -> Map<Seq<char>, Json> {
    Map::empty()
}

/// What the values in `v` hold.
pub open spec fn values_of(v: Seq<serde_json::Value>) -> Seq<Json> {
    v.map_values(|x: serde_json::Value| value_of(x))
}

/// The text that `serde_json::to_vec` writes for a value that holds `j`.
pub uninterp spec fn encoded(j: Json) -> Seq<u8>;

/// Calls `serde_json::Map::new`, which makes an empty map.
#[verifier::external_body]
pub(crate) fn new_object() -> (res: serde_json::Map<String, serde_json::Value>)
    ensures
        entries_of(res) == no_entries(),
{
    serde_json::Map::new()
}

/// Calls `serde_json::Map::insert`, which gives the key the new value, whether the map holds
/// the key or not, and changes nothing at other keys.
#[verifier::external_body]
pub(crate) fn insert(
    map: &mut serde_json::Map<String, serde_json::Value>,
    key: String,
    value: serde_json::Value,
)
    ensures
        entries_of(*final(map)) == entries_of(*old(map)).insert(key@, value_of(value)),
{
    map.insert(key, value);
}

/// Makes a `serde_json::Value::String`, which holds the text.
#[verifier::external_body]
pub(crate) fn text_value(s: String) -> (res: serde_json::Value)
    ensures
        value_of(res) == Json::Text(s@),
{
    serde_json::Value::String(s)
}

/// Makes a `serde_json::Value::Array`, which holds the items in their order.
#[verifier::external_body]
pub(crate) fn array_value(items: Vec<serde_json::Value>) -> (res: serde_json::Value)
    ensures
        value_of(res) == Json::Array(values_of(items@)),
{
    serde_json::Value::Array(items)
}

/// Makes a `serde_json::Value::Object`, which holds the entries of the map.
#[verifier::external_body]
pub(crate) fn object_value(map: serde_json::Map<String, serde_json::Value>) -> (res:
    serde_json::Value)
    ensures
        value_of(res) == Json::Object(entries_of(map)),
{
    serde_json::Value::Object(map)
}

/// Calls `serde_json::to_vec` on a value. A value has text keys only, so it is always
/// encoded. The bytes depend on what it holds alone: without the feature `preserve_order`
/// a map keeps its entries in the order of their keys.
#[verifier::external_body]
pub(crate) fn encode(v: &serde_json::Value) -> (res: Result<Vec<u8>, serde_json::Error>)
    ensures
        res is Ok,
        res->Ok_0@ == encoded(value_of(*v)),
{
    serde_json::to_vec(v)
}

} // verus!
