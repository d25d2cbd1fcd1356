//! JSON values, as the `serde_json` crate reads and holds them.
use vstd::prelude::*;

verus! {

/// A value of `serde_json`, which holds a JSON document or a part of one.
#[verifier::external_type_specification]
#[verifier::external_body]
pub struct ExJsonValue(serde_json::Value);

/// The reason why `serde_json` could not read a text.
#[verifier::external_type_specification]
#[verifier::external_body]
pub struct ExJsonError(serde_json::Error);

/// The contents of a JSON value. Numbers are not told apart.
pub enum JsonTree {
    Null,
    Bool(bool),
    Number,
    Str(Seq<char>),
    Array(Seq<JsonTree>),
    Object(Map<Seq<char>, JsonTree>),
}

/// What a `serde_json` value holds.
pub uninterp spec fn json_tree(value: serde_json::Value) -> JsonTree;

/// What the JSON document `text` holds, as `serde_json::from_str` reads it; nothing where
/// `text` is not a JSON document.
pub uninterp spec fn json_of_text(text: Seq<char>) -> Option<JsonTree>;

/// The member of an object under a key.
pub open spec fn tree_get(tree: JsonTree, key: Seq<char>) -> Option<JsonTree> {
    match tree {
        JsonTree::Object(members) => if members.contains_key(key) {
            Some(members[key])
        } else {
            None
        },
        _ => None,
    }
}

/// The element of an array at a position.
pub open spec fn tree_at(tree: JsonTree, index: int) -> Option<JsonTree> {
    match tree {
        JsonTree::Array(items) => if 0 <= index < items.len() {
            Some(items[index])
        } else {
            None
        },
        _ => None,
    }
}

/// The text of a string.
pub open spec fn tree_str(tree: JsonTree) -> Option<Seq<char>> {
    match tree {
        JsonTree::Str(s) => Some(s),
        _ => None,
    }
}

/// The truth value of a boolean.
pub open spec fn tree_bool(tree: JsonTree) -> Option<bool> {
    match tree {
        JsonTree::Bool(b) => Some(b),
        _ => None,
    }
}

/// What an optional reference to a value holds.
pub open spec fn opt_tree(value: Option<&serde_json::Value>) -> Option<JsonTree> {
    match value {
        Some(v) => Some(json_tree(*v)),
        None => None,
    }
}

/// `serde_json::from_str` into a `Value`: reads `text` as one JSON document. Whether that
/// succeeds, and what the value then holds, depends on the text alone.
#[verifier::external_body]
pub(crate) fn read_json(text: &str) -> (r: Result<serde_json::Value, serde_json::Error>)
    ensures
        match r {
            Ok(v) => json_of_text(text@) == Some(json_tree(v)),
            Err(_) => json_of_text(text@) is None,
        },
{
    serde_json::from_str::<serde_json::Value>(text)
}

/// `serde_json::Value::get` with a string: the member of an object under that key; nothing
/// for a value that is not an object or has no such member.
#[verifier::external_body]
pub(crate) fn json_get<'a>(value: &'a serde_json::Value, key: &str) -> (r: Option<
    &'a serde_json::Value,
>)
    ensures
        opt_tree(r) == tree_get(json_tree(*value), key@),
{
    value.get(key)
}

/// `serde_json::Value::get` with a number: the element of an array at that position;
/// nothing for a value that is not an array or is too short.
#[verifier::external_body]
pub(crate) fn json_at<'a>(value: &'a serde_json::Value, index: usize) -> (r: Option<
    &'a serde_json::Value,
>)
    ensures
        opt_tree(r) == tree_at(json_tree(*value), index as int),
{
    value.get(index)
}

/// `serde_json::Value::as_str`: the text of a string; nothing for any other value.
pub assume_specification[ serde_json::Value::as_str ](value: &serde_json::Value) -> (r: Option<
    &str,
>)
    ensures
        crate::text::opt_str(r) == tree_str(json_tree(*value)),
;

/// `serde_json::Value::as_bool`: the truth value of a boolean; nothing for any other value.
pub assume_specification[ serde_json::Value::as_bool ](value: &serde_json::Value) -> (r: Option<
    bool,
>)
    ensures
        r == tree_bool(json_tree(*value)),
;

} // verus!
