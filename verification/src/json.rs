//! JSON values, as parsed by `serde_json`.
use serde_json::{Deserializer, Error, Value};
use vstd::prelude::*;

verus! {

/// A JSON value. What a number is, is left open.
pub ghost enum JsonTree {
    Null,
    Bool(bool),
    Number,
    Text(Seq<char>),
    List(Seq<JsonTree>),
    Object(Map<Seq<char>, JsonTree>),
}

/// A parsed JSON value.
#[verifier::external_type_specification]
#[verifier::external_body]
pub struct ExValue(serde_json::Value);

/// Why a text is no JSON.
#[verifier::external_type_specification]
#[verifier::external_body]
pub struct ExError(serde_json::Error);

/// What a parsed value holds.
pub uninterp spec fn json_tree(value: Value) -> JsonTree;

/// The JSON value that a text begins with, and the text that follows it.
pub uninterp spec fn json_prefix(text: Seq<char>) -> Option<(JsonTree, Seq<char>)>;

/// The JSON value that a text consists of.
pub uninterp spec fn json_document(text: Seq<char>) -> Option<JsonTree>;

/// What an object holds under a key; null for a missing key, and for a value that is no object.
pub open spec fn json_field(tree: JsonTree, key: Seq<char>) -> JsonTree {
    match tree {
        JsonTree::Object(fields) => if fields.contains_key(key) {
            fields[key]
        } else {
            JsonTree::Null
        },
        _ => JsonTree::Null,
    }
}

/// The text that a value is.
pub open spec fn json_text(tree: JsonTree) -> Option<Seq<char>> {
    match tree {
        JsonTree::Text(text) => Some(text),
        _ => None,
    }
}

/// The items of a list; none of a value that is no list.
pub open spec fn json_items(tree: JsonTree) -> Seq<JsonTree> {
    match tree {
        JsonTree::List(items) => items,
        _ => seq![],
    }
}

/// `serde_json::Value` indexed by a string: the value under that key of an object, and null
/// where the key is missing or the value is no object.
#[verifier::external_body]
pub(crate) fn field<'a>(value: &'a Value, key: &str) -> (r: &'a Value)
    ensures
        json_tree(*r) == json_field(json_tree(*value), key@),
{
    &value[key]
}

/// `Value::as_str`: the string of a string value, and nothing of any other value.
pub assume_specification[ Value::as_str ](value: &Value) -> (r: Option<&str>)
    ensures
        r is Some <==> json_tree(*value) is Text,
        r is Some ==> json_tree(*value) == JsonTree::Text(r->0@),
;

/// `Value::as_array`: the items of an array value, and nothing of any other value.
pub assume_specification[ Value::as_array ](value: &Value) -> (r: Option<&Vec<Value>>)
    ensures
        r is Some <==> json_tree(*value) is List,
        r is Some ==> json_tree(*value) == JsonTree::List(
            r->0@.map_values(|item: Value| json_tree(item)),
        ),
;

/// `Value::as_bool`: the truth value of a boolean, and nothing of any other value.
pub assume_specification[ Value::as_bool ](value: &Value) -> (r: Option<bool>)
    ensures
        r is Some <==> json_tree(*value) is Bool,
        r is Some ==> json_tree(*value) == JsonTree::Bool(r->0),
;

/// The first item of the stream that `Deserializer::from_str` and `into_iter` make of a text,
/// with the text from the stream's byte offset on. Whether there is a value, which, and where
/// it ends, is a function of the text alone. What follows the value is a suffix of the text. The
/// parser reads an object up to its closing brace and no further, so where the text begins with
/// one, more text after it changes neither the object nor where it ends.
#[verifier::external_body]
pub(crate) fn parse_prefix<'a>(text: &'a str) -> (r: Option<Result<(Value, &'a str), Error>>)
    ensures
        (r is Some && r->0 is Ok) <==> json_prefix(text@) is Some,
        (r is Some && r->0 is Ok) ==> json_prefix(text@) == Some(
            (json_tree(r->0->Ok_0.0), r->0->Ok_0.1@),
        ),
        (r is Some && r->0 is Ok) ==> exists|k: int|
            0 <= k <= text@.len() && r->0->Ok_0.1@ == #[trigger] text@.skip(k),
        (r is Some && r->0 is Ok && text@.len() > 0 && text@[0] == '{') ==> forall|
            more: Seq<char>,
        | #[trigger]
            json_prefix(text@ + more) == Some(
                (json_tree(r->0->Ok_0.0), r->0->Ok_0.1@ + more),
            ),
{
    let mut stream = Deserializer::from_str(text).into_iter::<Value>();
    match stream.next() {
        Some(Ok(value)) => Some(Ok((value, &text[stream.byte_offset()..]))),
        Some(Err(error)) => Some(Err(error)),
        None => None,
    }
}

/// `serde_json::from_str` into a value: whether a text is one JSON document, and which, is a
/// function of the text alone.
#[verifier::external_body]
pub(crate) fn parse_document(text: &str) -> (r: Result<Value, Error>)
    ensures
        r is Ok <==> json_document(text@) is Some,
        r is Ok ==> json_document(text@) == Some(json_tree(r->Ok_0)),
{
    serde_json::from_str(text)
}

} // verus!
