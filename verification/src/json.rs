//! The JSON values that hooks carry, and the trusted interface to
//! `serde_json::Map`, the object map that holds one component's hooks.

use vstd::prelude::*;

verus! {

/// `serde_json::Value`, carried through the library without being inspected.
#[verifier::external_type_specification]
#[verifier::external_body]
pub struct ExJsonValue(serde_json::Value);

/// `serde_json::Map`, the map behind a JSON object.
#[verifier::external_type_specification]
#[verifier::external_body]
#[verifier::reject_recursive_types(K)]
#[verifier::reject_recursive_types(V)]
pub struct ExJsonMap<K, V>(serde_json::Map<K, V>);

/// A JSON object: property names mapped to JSON values.
pub type JsonObject = serde_json::Map<String, serde_json::Value>;

/// The properties that a JSON object holds, keyed by the characters of their names.
pub uninterp spec fn json_entries(m: serde_json::Map<String, serde_json::Value>) -> Map<Seq<char>, serde_json::Value>;

/// The properties of an object that has none.
pub open spec fn no_properties() -> Map<Seq<char>, serde_json::Value> {
    Map::empty()
}

/// Calls `serde_json::Map::new`, which makes a map with no entries.
#[verifier::external_body]
pub(crate) fn object_new() -> (r: JsonObject)
    ensures
        json_entries(r) == no_properties(),
{
    serde_json::Map::new()
}

/// Calls `serde_json::Map::insert`, which sets `key` to `value`: a key already
/// present has its value replaced, every other entry stays. The value that was
/// replaced, which the call returns, is dropped.
#[verifier::external_body]
pub(crate) fn object_insert(m: &mut JsonObject, key: String, value: serde_json::Value)
    ensures
        json_entries(*final(m)) == json_entries(*old(m)).insert(key@, value),
{
    m.insert(key, value);
}

/// Calls `serde_json::Map::len`: the number of entries, zero exactly when the
/// map has none.
#[verifier::external_body]
pub(crate) fn object_len(m: &JsonObject) -> (n: usize)
    ensures
        n == json_entries(*m).dom().len(),
        (n == 0) == (json_entries(*m) == no_properties()),
{
    m.len()
}

/// Calls `serde_json::Map::iter` and copies each entry out: every key of the
/// map appears exactly once, beside a clone of its value. The contract does not
/// state the order, which the source gives as the keys' ascending order.
#[verifier::external_body]
pub(crate) fn object_entries(m: &JsonObject) -> (r: Vec<(String, serde_json::Value)>)
    ensures
        forall|i: int, j: int| 0 <= i < j < r.len() ==> r[i].0@ != r[j].0@,
        forall|i: int|
            0 <= i < r.len() ==> json_entries(*m).contains_key(#[trigger] r[i].0@)
                && json_entries(*m)[r[i].0@] == r[i].1,
        forall|k: Seq<char>|
            json_entries(*m).contains_key(k) ==> exists|i: int| 0 <= i < r.len() && #[trigger] r[i].0@ == k,
{
    m.iter().map(|(k, v)| (k.clone(), v.clone())).collect()
}

/// What `serde_json::from_str` makes of `text` when asked for a `serde_json::Value`:
/// the value, or nothing where the text is not JSON.
pub uninterp spec fn json_parse(text: Seq<char>) -> Option<serde_json::Value>;

/// The properties of a JSON value that is an object, as `serde_json::Value::as_object` gives them.
pub uninterp spec fn json_object_of(v: serde_json::Value) -> Option<Map<Seq<char>, serde_json::Value>>;

/// `v` is an object that has the property `key`.
pub open spec fn has_property(v: serde_json::Value, key: Seq<char>) -> bool {
    json_object_of(v) matches Some(m) && m.contains_key(key)
}

/// What indexing a JSON value with a key (`v[key]`) gives.
pub uninterp spec fn json_index(v: serde_json::Value, key: Seq<char>) -> serde_json::Value;

/// The characters of a JSON value that is a string, as `serde_json::Value::as_str` gives them.
pub uninterp spec fn json_as_str(v: serde_json::Value) -> Option<Seq<char>>;

/// The elements of a JSON value that is an array, as `serde_json::Value::as_array` gives them.
pub uninterp spec fn json_as_array(v: serde_json::Value) -> Option<Seq<serde_json::Value>>;

/// How deeply arrays and objects nest inside a JSON value: an element of an
/// array, or a property of an object, nests less deeply than the value itself.
pub uninterp spec fn json_height(v: serde_json::Value) -> nat;

/// Calls `serde_json::from_str` for a `serde_json::Value`: the parsed value, or
/// nothing where the text is not JSON. The error is dropped.
#[verifier::external_body]
pub(crate) fn parse_json(text: &str) -> (r: Option<serde_json::Value>)
    ensures
        r == json_parse(text@),
{
    serde_json::from_str(text).ok()
}

/// Calls `serde_json::Value::as_object`: the map of a value that is an object,
/// nothing for any other value.
#[verifier::external_body]
pub(crate) fn value_as_object(v: &serde_json::Value) -> (r: Option<&JsonObject>)
    ensures
        match r {
            Some(m) => json_object_of(*v) == Some(json_entries(*m)),
            None => json_object_of(*v) is None,
        },
{
    v.as_object()
}

/// Calls `serde_json::Value::index` with a key (`&v[key]`): the property `key`
/// of an object that has it, and `Value::Null` otherwise, which is neither a
/// string, an array nor an object. The result nests no deeper than `v`.
#[verifier::external_body]
pub(crate) fn value_index<'a>(v: &'a serde_json::Value, key: &str) -> (r: &'a serde_json::Value)
    ensures
        *r == json_index(*v, key@),
        json_height(*r) <= json_height(*v),
        has_property(*v, key@) ==> *r == json_object_of(*v).unwrap()[key@],
        !has_property(*v, key@) ==> json_as_str(*r) is None
            && json_as_array(*r) is None && json_object_of(*r) is None,
{
    &v[key]
}

/// Calls `serde_json::Value::as_str` and copies the string out: the characters
/// of a value that is a string, nothing for any other value.
#[verifier::external_body]
pub(crate) fn value_as_str(v: &serde_json::Value) -> (r: Option<String>)
    ensures
        match r {
            Some(s) => json_as_str(*v) == Some(s@),
            None => json_as_str(*v) is None,
        },
{
    v.as_str().map(|s| s.to_string())
}

/// Calls `serde_json::Value::as_array`: the elements of a value that is an
/// array, each nesting less deeply than the array, and nothing for any other value.
#[verifier::external_body]
pub(crate) fn value_as_array(v: &serde_json::Value) -> (r: Option<&Vec<serde_json::Value>>)
    ensures
        match r {
            Some(a) => json_as_array(*v) == Some(a@) && forall|i: int|
                0 <= i < a.len() ==> json_height(#[trigger] a@[i]) < json_height(*v),
            None => json_as_array(*v) is None,
        },
{
    v.as_array()
}

/// Calls `Clone::clone` on a `serde_json::Value`, which copies it field by
/// field: the copy is the same value.
#[verifier::external_body]
pub(crate) fn value_clone(v: &serde_json::Value) -> (r: serde_json::Value)
    ensures
        r == *v,
{
    v.clone()
}

} // verus!
