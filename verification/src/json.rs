//! JSON documents as trees of plain values, read and written by the
//! `serde_json` crate.
//!
//! A number is written from its whole value. A tree that holds a number
//! without one is not written.

use vstd::prelude::*;

verus! {

/// A JSON number.
#[derive(Clone, Copy, Debug, PartialEq, Eq)]
pub struct JsonNumber {
    /// The number itself, where it is a whole number from 0 to 2^64 - 1
    /// written without a fraction or an exponent.
    pub unsigned: Option<u64>,
    /// The bit pattern of the number as an IEEE 754 binary64 value.
    pub float_bits: Option<u64>,
}

/// A JSON document.
#[derive(Debug, PartialEq, Eq)]
pub enum Json {
    Null,
    Bool(bool),
    Number(JsonNumber),
    Text(String),
    Array(Vec<Json>),
    /// The members of an object, each a name and a document.
    Object(Vec<(String, Json)>),
}

#[verifier::external_type_specification]
#[verifier::external_body]
pub struct ExJsonValue(serde_json::Value);

/// The tree that `serde_json` reads from a text, if the text is one JSON
/// document.
pub uninterp spec fn json_parsed(text: Seq<u8>) -> Option<Json>;

/// The text that `serde_json` writes for a tree.
pub uninterp spec fn json_written(tree: Json) -> Seq<u8>;

/// Every number in the tree has a whole value.
pub open spec fn writable(tree: Json) -> bool
    decreases tree,
{
    match tree {
        Json::Number(number) => number.unsigned is Some,
        Json::Array(items) => forall|i: int|
            0 <= i < items@.len() ==> writable(#[trigger] items@[i]),
        Json::Object(members) => forall|i: int|
            0 <= i < members@.len() ==> writable((#[trigger] members@[i]).1),
        _ => true,
    }
}

/// The text of a tree, if the tree is written.
pub open spec fn written(tree: Json) -> Option<Seq<u8>> {
    if writable(tree) {
        Some(json_written(tree))
    } else {
        None
    }
}

/// Copies a `serde_json::Value` into a tree, variant by variant: a number
/// by `Number::as_u64` and `Number::as_f64`, an object's members in the
/// order in which its `Map` hands them out. Nothing is proved of it, and
/// nothing is claimed.
#[verifier::external_body]
fn tree_of(value: &serde_json::Value) -> Json {
    match value {
        serde_json::Value::Null => Json::Null,
        serde_json::Value::Bool(b) => Json::Bool(*b),
        serde_json::Value::Number(n) => Json::Number(
            JsonNumber { unsigned: n.as_u64(), float_bits: n.as_f64().map(|x| x.to_bits()) },
        ),
        serde_json::Value::String(s) => Json::Text(s.clone()),
        serde_json::Value::Array(items) => Json::Array(items.iter().map(tree_of).collect()),
        serde_json::Value::Object(members) => Json::Object(
            members.iter().map(|(name, member)| (name.clone(), tree_of(member))).collect(),
        ),
    }
}

/// Builds the `serde_json::Value` that a tree describes, variant by
/// variant: a number from its whole value by `Value::from`, an object by
/// collecting its members into a `Map`. Nothing is proved of it, and nothing
/// is claimed.
#[verifier::external_body]
fn value_of(tree: &Json) -> serde_json::Value
    requires
        writable(*tree),
{
    match tree {
        Json::Null => serde_json::Value::Null,
        Json::Bool(b) => serde_json::Value::Bool(*b),
        Json::Number(n) => serde_json::Value::from(n.unsigned),
        Json::Text(s) => serde_json::Value::String(s.clone()),
        Json::Array(items) => serde_json::Value::Array(items.iter().map(value_of).collect()),
        Json::Object(members) => serde_json::Value::Object(
            members.iter().map(|(name, member)| (name.clone(), value_of(member))).collect(),
        ),
    }
}

/// Calls `serde_json::from_slice` for a `serde_json::Value` and copies what
/// was read into a tree. Nothing is proved of it. The contract claims only
/// that what is read depends on the text alone; a text that is not one JSON
/// document gives `None`.
#[verifier::external_body]
fn read_tree(text: &[u8]) -> (r: Option<Json>)
    ensures
        r == json_parsed(text@),
{
    serde_json::from_slice::<serde_json::Value>(text).ok().map(|value| tree_of(&value))
}

/// Calls `serde_json::to_vec` on the `serde_json::Value` that the tree
/// describes. Nothing is proved of it. The contract claims that a text
/// always comes back, since writing a `Value` into memory meets no error,
/// and that the text depends on the tree alone.
#[verifier::external_body]
fn write_tree(tree: &Json) -> (r: Option<Vec<u8>>)
    requires
        writable(*tree),
    ensures
        r is Some,
        r matches Some(text) ==> text@ == json_written(*tree),
{
    serde_json::to_vec(&value_of(tree)).ok()
}

/// Reads a JSON document from a text.
pub fn parse(text: &[u8]) -> (r: Option<Json>)
    ensures
        r == json_parsed(text@),
{
    read_tree(text)
}

/// Whether every number in the tree has a whole value.
pub fn is_writable(tree: &Json) -> (r: bool)
    ensures
        r == writable(*tree),
    decreases tree,
{
    match tree {
        Json::Number(number) => number.unsigned.is_some(),
        Json::Array(items) => {
            let mut i: usize = 0;
            while i < items.len()
                invariant
                    *tree == Json::Array(*items),
                    i <= items@.len(),
                    forall|j: int| 0 <= j < i ==> writable(#[trigger] items@[j]),
                decreases items@.len() - i,
            {
                proof {
                    assert(tree->Array_0 == *items);
                    assert(decreases_to!(*tree => tree->Array_0));
                    assert(decreases_to!(*items => items[i as int]));
                    assert(decreases_to!(*tree => items[i as int]));
                }
                if !is_writable(&items[i]) {
                    proof {
                        assert(!writable(items@[i as int]));
                    }
                    return false;
                }
                i = i + 1;
            }
            true
        },
        Json::Object(members) => {
            let mut i: usize = 0;
            while i < members.len()
                invariant
                    *tree == Json::Object(*members),
                    i <= members@.len(),
                    forall|j: int| 0 <= j < i ==> writable((#[trigger] members@[j]).1),
                decreases members@.len() - i,
            {
                proof {
                    assert(tree->Object_0 == *members);
                    assert(decreases_to!(*tree => tree->Object_0));
                    assert(decreases_to!(*members => members[i as int]));
                    assert(decreases_to!(members[i as int] => members[i as int].1));
                }
                if !is_writable(&members[i].1) {
                    proof {
                        assert(!writable(members@[i as int].1));
                    }
                    return false;
                }
                i = i + 1;
            }
            true
        },
        _ => true,
    }
}

/// Writes a tree as JSON text: `Some` exactly where every number in the
/// tree has a whole value.
pub fn render(tree: &Json) -> (r: Option<Vec<u8>>)
    ensures
        match r {
            Some(text) => written(*tree) == Some(text@),
            None => written(*tree) is None,
        },
{
    if is_writable(tree) {
        write_tree(tree)
    } else {
        None
    }
}

} // verus!
