//! YAML text, read and written by `serde_yaml`.

use serde_yaml::Value;
use vstd::prelude::*;
use crate::document::{Doc, Node};
use crate::error::{node_outcome, text_outcome, ConversionError, ErrorView};
use crate::format::Format;

verus! {

/// `serde_yaml::Value`, taken as it is: nothing here looks inside one.
#[verifier::external_type_specification]
#[verifier::external_body]
pub struct ExYamlValue(serde_yaml::Value);

/// What a `serde_yaml::Value` holds, as a document. A number is
/// held by the literal that `serde_yaml` prints for it, a mapping by its
/// entries in their order, a tagged value by its tag and what stands under
/// it.
pub uninterp spec fn yaml_content(value: Value) -> Doc;

/// What `serde_yaml::from_str` makes of a text: what the value that it reads
/// holds, or its diagnostic.
pub uninterp spec fn yaml_parsed(text: Seq<char>) -> Result<Doc, Seq<char>>;

/// What the `serde_yaml::Value` that is built for a document holds; `None`
/// where none is built. None is built where the literal of a number is
/// no YAML number, and for a date or a tagged value.
pub uninterp spec fn yaml_built(doc: Doc) -> Option<Doc>;

/// What `serde_yaml::to_string` prints for a value that holds the given
/// document, or its diagnostic.
pub uninterp spec fn yaml_printed(doc: Doc) -> Result<Seq<char>, Seq<char>>;

/// What a result of parsing holds.
pub open spec fn yaml_parse_view(r: Result<Value, String>) -> Result<Doc, Seq<char>> {
    match r {
        Ok(value) => Ok(yaml_content(value)),
        Err(message) => Err(message@),
    }
}

/// What a result of building holds.
pub open spec fn yaml_build_view(r: Option<Value>) -> Option<Doc> {
    match r {
        Some(value) => Some(yaml_content(value)),
        None => None,
    }
}

/// What a result of printing holds.
pub open spec fn yaml_print_view(r: Result<String, String>) -> Result<Seq<char>, Seq<char>> {
    match r {
        Ok(text) => Ok(text@),
        Err(message) => Err(message@),
    }
}

/// `serde_yaml::from_str` at the type `serde_yaml::Value`: the value that the
/// text spells, or the diagnostic as a text. The contract gives the result
/// its name and claims nothing of the grammar.
#[verifier::external_body]
fn yaml_from_str(text: &str) -> (r: Result<Value, String>)
    ensures
        yaml_parse_view(r) == yaml_parsed(text@),
{
    serde_yaml::from_str::<Value>(text).map_err(|e| e.to_string())
}

/// Turns a `serde_yaml::Value` into a node, variant by variant. A number
/// becomes the literal that its `Display` prints, a mapping its entries as
/// its `iter` yields them, a tag the text that its `Display` prints.
/// The contract says that the node holds what the value holds.
#[verifier::external_body]
fn yaml_node(value: &Value) -> (node: Node)
    ensures
        node@ == yaml_content(*value),
{
    match value {
        Value::Null => Node::Null,
        Value::Bool(b) => Node::Flag(*b),
        Value::Number(n) => Node::Number(n.to_string()),
        Value::String(s) => Node::Text(s.clone()),
        Value::Sequence(items) => Node::List(items.iter().map(yaml_node).collect()),
        Value::Mapping(map) => Node::Table(
            map.iter().map(|(k, v)| (yaml_node(k), yaml_node(v))).collect(),
        ),
        Value::Tagged(t) => Node::Tagged(t.tag.to_string(), Box::new(yaml_node(&t.value))),
    }
}

/// Turns a node into a `serde_yaml::Value`, variant by variant. A number
/// is read from its literal by the `FromStr` of `serde_yaml::Number`.
/// The contract gives the result its name.
#[verifier::external_body]
fn yaml_value(node: &Node) -> (r: Option<Value>)
    ensures
        yaml_build_view(r) == yaml_built(node@),
{
    Some(match node {
        Node::Null => Value::Null,
        Node::Flag(b) => Value::Bool(*b),
        Node::Number(t) => Value::Number(t.parse().ok()?),
        Node::Text(t) => Value::String(t.clone()),
        Node::List(items) => Value::Sequence(items.iter().map(yaml_value).collect::<Option<_>>()?),
        Node::Table(entries) => Value::Mapping(
            entries
                .iter()
                .map(|(k, v)| Some((yaml_value(k)?, yaml_value(v)?)))
                .collect::<Option<_>>()?,
        ),
        _ => return None,
    })
}

/// `serde_yaml::to_string`: the text that spells the value, or the
/// diagnostic as a text. The contract gives the result its name.
#[verifier::external_body]
fn yaml_to_string(value: &Value) -> (r: Result<String, String>)
    ensures
        yaml_print_view(r) == yaml_printed(yaml_content(*value)),
{
    serde_yaml::to_string(value).map_err(|e| e.to_string())
}

/// The document that a YAML text spells, or the failure of reading it.
pub open spec fn yaml_document(text: Seq<char>) -> Result<Doc, ErrorView> {
    match yaml_parsed(text) {
        Ok(doc) => Ok(doc),
        Err(message) => Err(ErrorView::Yaml(message)),
    }
}

/// The YAML text that spells a document, or the failure of writing it:
/// the document cannot be held as YAML, or the printer fails.
pub open spec fn yaml_text(doc: Doc) -> Result<Seq<char>, ErrorView> {
    match yaml_built(doc) {
        None => Err(ErrorView::UnsupportedRepresentation(Format::Yaml)),
        Some(content) => match yaml_printed(content) {
            Ok(text) => Ok(text),
            Err(message) => Err(ErrorView::Yaml(message)),
        },
    }
}

/// Reads a YAML text as a document.
pub fn read_yaml(text: &str) -> (r: Result<Node, ConversionError>)
    ensures
        node_outcome(r) == yaml_document(text@),
{
    match yaml_from_str(text) {
        Ok(value) => Ok(yaml_node(&value)),
        Err(message) => Err(ConversionError::Yaml(message)),
    }
}

/// Writes a document as block-style YAML text.
pub fn write_yaml(node: &Node) -> (r: Result<String, ConversionError>)
    ensures
        text_outcome(r) == yaml_text(node@),
{
    match yaml_value(node) {
        None => Err(ConversionError::UnsupportedRepresentation(Format::Yaml)),
        Some(value) => match yaml_to_string(&value) {
            Ok(text) => Ok(text),
            Err(message) => Err(ConversionError::Yaml(message)),
        },
    }
}

} // verus!
