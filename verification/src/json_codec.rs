//! JSON text, read and written by `serde_json`.

use serde_json::Value;
use vstd::prelude::*;
use crate::document::{Doc, Node};
use crate::error::{node_outcome, text_outcome, ConversionError, ErrorView};
use crate::format::Format;

verus! {

/// `serde_json::Value`, taken as it is: nothing here looks inside one.
#[verifier::external_type_specification]
#[verifier::external_body]
pub struct ExJsonValue(serde_json::Value);

/// What a `serde_json::Value` holds, as a document. A number is
/// held by the literal that `serde_json` prints for it, an object by its
/// entries in their order.
pub uninterp spec fn json_content(value: Value) -> Doc;

/// What `serde_json::from_str` makes of a text: what the value that it reads
/// holds, or its diagnostic.
pub uninterp spec fn json_parsed(text: Seq<char>) -> Result<Doc, Seq<char>>;

/// What the `serde_json::Value` that is built for a document holds; `None`
/// where none is built. None is built where the literal of a number is
/// no JSON number, where a key is no text, and for a date or a tagged value.
pub uninterp spec fn json_built(doc: Doc) -> Option<Doc>;

/// What `serde_json::to_string_pretty` prints for a value that holds the given
/// document, or its diagnostic.
pub uninterp spec fn json_printed(doc: Doc) -> Result<Seq<char>, Seq<char>>;

/// What a result of parsing holds.
pub open spec fn json_parse_view(r: Result<Value, String>) -> Result<Doc, Seq<char>> {
    match r {
        Ok(value) => Ok(json_content(value)),
        Err(message) => Err(message@),
    }
}

/// What a result of building holds.
pub open spec fn json_build_view(r: Option<Value>) -> Option<Doc> {
    match r {
        Some(value) => Some(json_content(value)),
        None => None,
    }
}

/// What a result of printing holds.
pub open spec fn json_print_view(r: Result<String, String>) -> Result<Seq<char>, Seq<char>> {
    match r {
        Ok(text) => Ok(text@),
        Err(message) => Err(message@),
    }
}

/// `serde_json::from_str` at the type `serde_json::Value`: the value that the
/// text spells, or the diagnostic as a text. The contract gives the result
/// its name and claims nothing of the grammar.
#[verifier::external_body]
fn json_from_str(text: &str) -> (r: Result<Value, String>)
    ensures
        json_parse_view(r) == json_parsed(text@),
{
    serde_json::from_str::<Value>(text).map_err(|e| e.to_string())
}

/// Turns a `serde_json::Value` into a node, variant by variant. A number
/// becomes the literal that its `Display` prints, an object its entries as
/// its `iter` yields them.
/// The contract says that the node holds what the value holds.
#[verifier::external_body]
fn json_node(value: &Value) -> (node: Node)
    ensures
        node@ == json_content(*value),
{
    match value {
        Value::Null => Node::Null,
        Value::Bool(b) => Node::Flag(*b),
        Value::Number(n) => Node::Number(n.to_string()),
        Value::String(s) => Node::Text(s.clone()),
        Value::Array(items) => Node::List(items.iter().map(json_node).collect()),
        Value::Object(map) => Node::Table(
            map.iter().map(|(k, v)| (Node::Text(k.clone()), json_node(v))).collect(),
        ),
    }
}

/// Turns a node into a `serde_json::Value`, variant by variant. A number
/// is read from its literal by `serde_json::from_str`.
/// The contract gives the result its name.
#[verifier::external_body]
fn json_value(node: &Node) -> (r: Option<Value>)
    ensures
        json_build_view(r) == json_built(node@),
{
    Some(match node {
        Node::Null => Value::Null,
        Node::Flag(b) => Value::Bool(*b),
        Node::Number(t) => Value::Number(serde_json::from_str(t).ok()?),
        Node::Text(t) => Value::String(t.clone()),
        Node::List(items) => Value::Array(items.iter().map(json_value).collect::<Option<_>>()?),
        Node::Table(entries) => Value::Object(
            entries
                .iter()
                .map(|(k, v)| Some((k.as_text()?.clone(), json_value(v)?)))
                .collect::<Option<_>>()?,
        ),
        _ => return None,
    })
}

/// `serde_json::to_string_pretty`: the text that spells the value, or the
/// diagnostic as a text. The contract gives the result its name.
#[verifier::external_body]
fn json_to_string_pretty(value: &Value) -> (r: Result<String, String>)
    ensures
        json_print_view(r) == json_printed(json_content(*value)),
{
    serde_json::to_string_pretty(value).map_err(|e| e.to_string())
}

/// The document that a JSON text spells, or the failure of reading it.
pub open spec fn json_document(text: Seq<char>) -> Result<Doc, ErrorView> {
    match json_parsed(text) {
        Ok(doc) => Ok(doc),
        Err(message) => Err(ErrorView::Json(message)),
    }
}

/// The JSON text that spells a document, or the failure of writing it:
/// the document cannot be held as JSON, or the printer fails.
pub open spec fn json_text(doc: Doc) -> Result<Seq<char>, ErrorView> {
    match json_built(doc) {
        None => Err(ErrorView::UnsupportedRepresentation(Format::Json)),
        Some(content) => match json_printed(content) {
            Ok(text) => Ok(text),
            Err(message) => Err(ErrorView::Json(message)),
        },
    }
}

/// Reads a JSON text as a document.
pub fn read_json(text: &str) -> (r: Result<Node, ConversionError>)
    ensures
        node_outcome(r) == json_document(text@),
{
    match json_from_str(text) {
        Ok(value) => Ok(json_node(&value)),
        Err(message) => Err(ConversionError::Json(message)),
    }
}

/// Writes a document as pretty-printed JSON text.
pub fn write_json(node: &Node) -> (r: Result<String, ConversionError>)
    ensures
        text_outcome(r) == json_text(node@),
{
    match json_value(node) {
        None => Err(ConversionError::UnsupportedRepresentation(Format::Json)),
        Some(value) => match json_to_string_pretty(&value) {
            Ok(text) => Ok(text),
            Err(message) => Err(ConversionError::Json(message)),
        },
    }
}

} // verus!
