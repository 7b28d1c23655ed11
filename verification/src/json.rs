//! JSON values and their text, through `serde_json`.

use serde_json::Value;
use vstd::prelude::*;

use crate::text::decimal;

verus! {

/// A JSON value as a mathematical tree. A number stands for itself by the text that it is
/// printed as.
pub enum JsonTree {
    Null,
    Bool(bool),
    Number(Seq<char>),
    Text(Seq<char>),
    List(Seq<JsonTree>),
    Object(Map<Seq<char>, JsonTree>),
}

/// A JSON value of `serde_json`. What it holds is named by `json_content`.
#[verifier::external_type_specification]
#[verifier::external_body]
pub struct ExValue(serde_json::Value);

/// A map of `serde_json`, from keys to values. What it holds is named by `map_content`.
#[verifier::external_type_specification]
#[verifier::external_body]
#[verifier::reject_recursive_types(K)]
#[verifier::reject_recursive_types(V)]
pub struct ExMap<K, V>(serde_json::Map<K, V>);

/// What a map of `serde_json` holds under each of its keys.
pub uninterp spec fn map_content(map: serde_json::Map<String, Value>) -> Map<Seq<char>, JsonTree>;

/// What a JSON value holds.
pub uninterp spec fn json_content(value: serde_json::Value) -> JsonTree;

/// The compact text that `serde_json` prints for a JSON value. Members are printed in the order of
/// their keys, which is how its `Map` keeps them without the feature `preserve_order`.
pub uninterp spec fn json_text(tree: JsonTree) -> Seq<char>;

/// What the members of an object hold, in order.
pub open spec fn members(entries: Seq<(String, Value)>) -> Seq<(Seq<char>, JsonTree)> {
    entries.map_values(|entry: (String, Value)| (entry.0@, json_content(entry.1)))
}

/// What the items of a list hold, in order.
pub open spec fn items(values: Seq<Value>) -> Seq<JsonTree> {
    values.map_values(|value: Value| json_content(value))
}

/// The members by their keys. Of two members with one key the later one stays.
pub open spec fn by_key(members: Seq<(Seq<char>, JsonTree)>) -> Map<Seq<char>, JsonTree>
    decreases members.len(),
{
    if members.len() == 0 {
        Map::empty()
    } else {
        by_key(members.drop_last()).insert(members.last().0, members.last().1)
    }
}

/// The object with the given members.
pub open spec fn object(members: Seq<(Seq<char>, JsonTree)>) -> JsonTree {
    JsonTree::Object(by_key(members))
}

/// A number without sign or fraction.
pub open spec fn number(n: nat) -> JsonTree {
    JsonTree::Number(decimal(n))
}

/// A text, or null where there is none.
pub open spec fn text_or_null(text: Option<Seq<char>>) -> JsonTree {
    match text {
        Some(t) => JsonTree::Text(t),
        None => JsonTree::Null,
    }
}

/// Makes `serde_json::Value::Null`, which holds null.
#[verifier::external_body]
pub(crate) fn json_null() -> (value: Value)
    ensures
        json_content(value) == JsonTree::Null,
{
    Value::Null
}

/// Calls `serde_json`'s `Value::from` on a truth value, which makes a value that holds it.
#[verifier::external_body]
pub(crate) fn json_bool(b: bool) -> (value: Value)
    ensures
        json_content(value) == JsonTree::Bool(b),
{
    Value::from(b)
}

/// Calls `serde_json`'s `Value::from` on an unsigned integer, which makes a number that is
/// printed as its decimal digits.
#[verifier::external_body]
pub(crate) fn json_number(n: u64) -> (value: Value)
    ensures
        json_content(value) == number(n as nat),
{
    Value::from(n)
}

/// Calls `serde_json`'s `Value::from` on a string, which makes a value that holds its text.
#[verifier::external_body]
pub(crate) fn json_string(s: String) -> (value: Value)
    ensures
        json_content(value) == JsonTree::Text(s@),
{
    Value::from(s)
}

/// Calls `serde_json`'s `Value::from` on a vector, which makes a list of its items in order.
#[verifier::external_body]
pub(crate) fn json_list(values: Vec<Value>) -> (value: Value)
    ensures
        json_content(value) == JsonTree::List(items(values@)),
{
    Value::from(values)
}

/// Calls `serde_json::Map::new`, which makes a map without members.
#[verifier::external_body]
fn map_new() -> (made: serde_json::Map<String, Value>)
    ensures
        map_content(made) == by_key(Seq::empty()),
{
    serde_json::Map::new()
}

/// Calls `insert` of `serde_json::Map`, which puts a value under a key, in place of the one that
/// was under it. What the call returns, the value that was there, is dropped.
#[verifier::external_body]
fn map_insert(map: &mut serde_json::Map<String, Value>, key: String, value: Value)
    ensures
        map_content(*final(map)) == map_content(*old(map)).insert(key@, json_content(value)),
{
    map.insert(key, value);
}

/// Makes `serde_json::Value::Object` of a map, which holds the members of the map.
#[verifier::external_body]
fn map_object(map: serde_json::Map<String, Value>) -> (value: Value)
    ensures
        json_content(value) == JsonTree::Object(map_content(map)),
{
    Value::Object(map)
}

/// Makes the object with the given members.
pub(crate) fn json_object(entries: Vec<(String, Value)>) -> (value: Value)
    ensures
        json_content(value) == object(members(entries@)),
{
    let ghost all = members(entries@);
    let mut map: serde_json::Map<String, Value> = map_new();
    assert(all.take(0) =~= Seq::empty());
    for entry in it: entries
        invariant
            members(it.seq()) == all,
            map_content(map) == by_key(all.take(it.index())),
    {
        assert(all[it.index()] == (entry.0@, json_content(entry.1)));
        assert(all.take(it.index() + 1).drop_last() =~= all.take(it.index()));
        map_insert(&mut map, entry.0, entry.1);
    }
    assert(all.take(all.len() as int) =~= all);
    map_object(map)
}

/// Calls `to_string` of `serde_json::Value`. The contract says that the text depends on what the
/// value holds alone, and gives it the name `json_text`.
#[verifier::external_body]
pub(crate) fn json_to_string(value: &Value) -> (text: String)
    ensures
        text@ == json_text(json_content(*value)),
{
    value.to_string()
}

/// Makes a text.
pub(crate) fn json_str(s: &str) -> (value: Value)
    ensures
        json_content(value) == JsonTree::Text(s@),
{
    json_string(s.to_owned())
}

/// Makes a number of a length or an index.
pub(crate) fn json_usize(n: usize) -> (value: Value)
    ensures
        json_content(value) == number(n as nat),
{
    json_number(n as u64)
}

/// Makes a text, or null where there is none.
pub(crate) fn json_optional(text: &Option<String>) -> (value: Value)
    ensures
        json_content(value) == text_or_null(
            match *text {
                Some(t) => Some(t@),
                None => None,
            },
        ),
{
    match text {
        Some(t) => json_string(t.clone()),
        None => json_null(),
    }
}

/// Adds a member to an object under construction.
pub(crate) fn put(entries: &mut Vec<(String, Value)>, key: &str, value: Value)
    ensures
        members(final(entries)@) == members(old(entries)@).push((key@, json_content(value))),
{
    entries.push((key.to_owned(), value));
    assert(members(entries@) =~= members(old(entries)@).push((key@, json_content(value))));
}

/// Adds an item to a list under construction.
pub(crate) fn put_item(values: &mut Vec<Value>, value: Value)
    ensures
        items(final(values)@) == items(old(values)@).push(json_content(value)),
{
    values.push(value);
    assert(items(values@) =~= items(old(values)@).push(json_content(value)));
}

} // verus!
