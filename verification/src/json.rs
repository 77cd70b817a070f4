//! JSON values: what `serde_json::Value` holds, and the few operations used on it.

use serde_json::Value;
use vstd::prelude::*;
use vstd::string::*;

verus! {

/// A JSON value of `serde_json`.
#[verifier::external_type_specification]
#[verifier::external_body]
pub struct ExValue(serde_json::Value);

/// What a JSON value holds. A number is held as the text that it is written as.
pub enum JsonTree {
    Null,
    Bool(bool),
    Number(Seq<char>),
    Text(Seq<char>),
    Array(Seq<JsonTree>),
    Object(Map<Seq<char>, JsonTree>),
}

impl JsonTree {
    /// The member of an object under a key.
    pub open spec fn get(self, key: Seq<char>) -> Option<JsonTree> {
        match self {
            JsonTree::Object(members) => if members.contains_key(key) {
                Some(members[key])
            } else {
                None
            },
            _ => None,
        }
    }

    /// The member of an object under a key, or null where there is none.
    pub open spec fn at(self, key: Seq<char>) -> JsonTree {
        match self.get(key) {
            Some(member) => member,
            None => JsonTree::Null,
        }
    }

    /// The first element of an array.
    pub open spec fn first(self) -> Option<JsonTree> {
        match self {
            JsonTree::Array(items) => if items.len() > 0 {
                Some(items[0])
            } else {
                None
            },
            _ => None,
        }
    }

    /// The characters of a text.
    pub open spec fn text(self) -> Option<Seq<char>> {
        match self {
            JsonTree::Text(text) => Some(text),
            _ => None,
        }
    }
}

/// What a JSON value holds.
pub uninterp spec fn json_tree(value: Value) -> JsonTree;

/// The value that a JSON text in bytes stands for, or why the bytes are no such text.
pub uninterp spec fn parsed_json(bytes: Seq<u8>) -> Result<JsonTree, Seq<char>>;

/// The JSON text of a value.
pub uninterp spec fn json_text(tree: JsonTree) -> Seq<char>;

/// What each value of a list holds.
pub open spec fn json_trees(values: Seq<Value>) -> Seq<JsonTree> {
    values.map_values(|value: Value| json_tree(value))
}

/// `serde_json::from_slice` to a `Value`: the value, or the text of the error. Either depends on the
/// bytes alone.
#[verifier::external_body]
pub(crate) fn parse_json(bytes: &[u8]) -> (r: Result<Value, String>)
    ensures
        match r {
            Ok(value) => parsed_json(bytes@) == Ok::<JsonTree, Seq<char>>(json_tree(value)),
            Err(cause) => parsed_json(bytes@) == Err::<JsonTree, Seq<char>>(cause@),
        },
{
    serde_json::from_slice(bytes).map_err(|error| error.to_string())
}

/// `Value::to_string`: the compact JSON text of a value. Members of an object are written in the
/// order of their keys, so the text depends on what the value holds and on nothing else.
#[verifier::external_body]
pub(crate) fn write_json(value: &Value) -> (r: String)
    ensures
        r@ == json_text(json_tree(*value)),
{
    value.to_string()
}

/// `Value::get` with a key: the member of an object under it. Any other value has no members.
#[verifier::external_body]
pub(crate) fn member<'a>(value: &'a Value, key: &str) -> (r: Option<&'a Value>)
    ensures
        match r {
            Some(member) => json_tree(*value).get(key@) == Some(json_tree(*member)),
            None => json_tree(*value).get(key@) is None,
        },
{
    value.get(key)
}

/// Indexing of a `Value` with a key: the member of an object under it, or null where there is none.
#[verifier::external_body]
pub(crate) fn member_or_null<'a>(value: &'a Value, key: &str) -> (r: &'a Value)
    ensures
        json_tree(*r) == json_tree(*value).at(key@),
{
    &value[key]
}

/// `Value::as_array`: the elements of an array, and nothing of any other value.
#[verifier::external_body]
pub(crate) fn elements(value: &Value) -> (r: Option<&Vec<Value>>)
    ensures
        match r {
            Some(items) => json_tree(*value) == JsonTree::Array(json_trees(items@)),
            None => !(json_tree(*value) is Array),
        },
{
    value.as_array()
}

/// `Value::as_str`: the characters of a text, and nothing of any other value.
#[verifier::external_body]
pub(crate) fn text_of(value: &Value) -> (r: Option<&str>)
    ensures
        match r {
            Some(text) => json_tree(*value) == JsonTree::Text(text@),
            None => !(json_tree(*value) is Text),
        },
{
    value.as_str()
}

/// `Value::as_bool`: a truth value, and nothing of any other value.
#[verifier::external_body]
pub(crate) fn truth_of(value: &Value) -> (r: Option<bool>)
    ensures
        match r {
            Some(truth) => json_tree(*value) == JsonTree::Bool(truth),
            None => !(json_tree(*value) is Bool),
        },
{
    value.as_bool()
}

/// `Value::clone`: a value that holds the same.
#[verifier::external_body]
pub(crate) fn copy_of(value: &Value) -> (r: Value)
    ensures
        json_tree(r) == json_tree(*value),
{
    value.clone()
}

/// `Value::from` a `bool`.
#[verifier::external_body]
pub(crate) fn truth_value(truth: bool) -> (r: Value)
    ensures
        json_tree(r) == JsonTree::Bool(truth),
{
    Value::from(truth)
}

/// `Value::from` a `u64`: the number, written in decimal notation.
#[verifier::external_body]
pub(crate) fn number_value(number: u64) -> (r: Value)
    ensures
        json_tree(r) == JsonTree::Number(crate::text::decimal(number as nat)),
{
    Value::from(number)
}

/// `Value::from` a `&str`.
#[verifier::external_body]
pub(crate) fn text_value(text: &str) -> (r: Value)
    ensures
        json_tree(r) == JsonTree::Text(text@),
{
    Value::from(text)
}

/// The object with the given members.
pub open spec fn object_of(members: Seq<(String, Value)>) -> Map<Seq<char>, JsonTree>
    decreases members.len(),
{
    if members.len() == 0 {
        Map::empty()
    } else {
        object_of(members.drop_last()).insert(members.last().0@, json_tree(members.last().1))
    }
}

/// `Value::from_iter` on pairs of a key and a value: the object with these members, given that no
/// key stands there twice.
#[verifier::external_body]
pub(crate) fn object_value(members: Vec<(String, Value)>) -> (r: Value)
    requires
        forall|i: int, j: int|
            0 <= i < j < members@.len() ==> (#[trigger] members@[i]).0@ != (
            #[trigger] members@[j]).0@,
    ensures
        json_tree(r) == JsonTree::Object(object_of(members@)),
{
    Value::from_iter(members)
}

/// The first element of an array.
pub fn first_element(value: &Value) -> (r: Option<&Value>)
    ensures
        match r {
            Some(item) => json_tree(*value).first() == Some(json_tree(*item)),
            None => json_tree(*value).first() is None,
        },
{
    match elements(value) {
        Some(items) => if items.len() > 0 {
            Some(&items[0])
        } else {
            None
        },
        None => None,
    }
}

}
