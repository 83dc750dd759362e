//! TOML text, read and written by `toml`.

use toml::Value;
use vstd::prelude::*;
use crate::document::{Doc, Node};
use crate::error::{node_outcome, text_outcome, ConversionError, ErrorView};
use crate::format::Format;

verus! {

/// `toml::Value`, taken as it is: nothing here looks inside one.
#[verifier::external_type_specification]
#[verifier::external_body]
pub struct ExTomlValue(toml::Value);

/// What a `toml::Value` holds, as a document. A number is
/// held by the literal that `toml` prints for it, a table by its entries in
/// their order, a date or time by its text.
pub uninterp spec fn toml_content(value: Value) -> Doc;

/// What `toml::from_str` makes of a text: what the value that it reads
/// holds, or its diagnostic.
pub uninterp spec fn toml_parsed(text: Seq<char>) -> Result<Doc, Seq<char>>;

/// What the `toml::Value` that is built for a document holds; `None`
/// where none is built. None is built where the literal of a number is
/// no TOML value, where a key is no text, and for nothing and a tagged value,
/// which TOML does not have, and a date.
pub uninterp spec fn toml_built(doc: Doc) -> Option<Doc>;

/// What `toml::to_string_pretty` prints for a value that holds the given
/// document, or its diagnostic.
pub uninterp spec fn toml_printed(doc: Doc) -> Result<Seq<char>, Seq<char>>;

/// What a result of parsing holds.
pub open spec fn toml_parse_view(r: Result<Value, String>) -> Result<Doc, Seq<char>> {
    match r {
        Ok(value) => Ok(toml_content(value)),
        Err(message) => Err(message@),
    }
}

/// What a result of building holds.
pub open spec fn toml_build_view(r: Option<Value>) -> Option<Doc> {
    match r {
        Some(value) => Some(toml_content(value)),
        None => None,
    }
}

/// What a result of printing holds.
pub open spec fn toml_print_view(r: Result<String, String>) -> Result<Seq<char>, Seq<char>> {
    match r {
        Ok(text) => Ok(text@),
        Err(message) => Err(message@),
    }
}

/// `toml::from_str` at the type `toml::Value`: the value that the
/// text spells, or the diagnostic as a text. The contract gives the result
/// its name and claims nothing of the grammar.
#[verifier::external_body]
fn toml_from_str(text: &str) -> (r: Result<Value, String>)
    ensures
        toml_parse_view(r) == toml_parsed(text@),
{
    toml::from_str::<Value>(text).map_err(|e| e.to_string())
}

/// Turns a `toml::Value` into a node, variant by variant. An integer
/// becomes its decimal numeral, a float the literal that the `Display` of
/// the value prints, a table its entries as its `iter` yields them, a date
/// or time the text that its `Display` prints.
/// The contract says that the node holds what the value holds.
#[verifier::external_body]
fn toml_node(value: &Value) -> (node: Node)
    ensures
        node@ == toml_content(*value),
{
    match value {
        Value::String(s) => Node::Text(s.clone()),
        Value::Integer(i) => Node::Number(i.to_string()),
        Value::Float(_) => Node::Number(value.to_string()),
        Value::Boolean(b) => Node::Flag(*b),
        Value::Datetime(d) => Node::Date(d.to_string()),
        Value::Array(items) => Node::List(items.iter().map(toml_node).collect()),
        Value::Table(map) => Node::Table(
            map.iter().map(|(k, v)| (Node::Text(k.clone()), toml_node(v))).collect(),
        ),
    }
}

/// Turns a node into a `toml::Value`, variant by variant. A number
/// is read from its literal by the `FromStr` of `toml::Value`.
/// The contract gives the result its name.
#[verifier::external_body]
fn toml_value(node: &Node) -> (r: Option<Value>)
    ensures
        toml_build_view(r) == toml_built(node@),
{
    Some(match node {
        Node::Flag(b) => Value::Boolean(*b),
        Node::Number(t) => t.parse::<Value>().ok()?,
        Node::Text(t) => Value::String(t.clone()),
        Node::List(items) => Value::Array(items.iter().map(toml_value).collect::<Option<_>>()?),
        Node::Table(entries) => Value::Table(
            entries
                .iter()
                .map(|(k, v)| Some((k.as_text()?.clone(), toml_value(v)?)))
                .collect::<Option<_>>()?,
        ),
        _ => return None,
    })
}

/// `toml::to_string_pretty`: the text that spells the value, or the
/// diagnostic as a text. The contract gives the result its name.
#[verifier::external_body]
fn toml_to_string_pretty(value: &Value) -> (r: Result<String, String>)
    ensures
        toml_print_view(r) == toml_printed(toml_content(*value)),
{
    toml::to_string_pretty(value).map_err(|e| e.to_string())
}

/// The document that a TOML text spells, or the failure of reading it.
pub open spec fn toml_document(text: Seq<char>) -> Result<Doc, ErrorView> {
    match toml_parsed(text) {
        Ok(doc) => Ok(doc),
        Err(message) => Err(ErrorView::TomlDe(message)),
    }
}

/// The TOML text that spells a document, or the failure of writing it:
/// the document cannot be held as TOML, or the printer fails.
pub open spec fn toml_text(doc: Doc) -> Result<Seq<char>, ErrorView> {
    match toml_built(doc) {
        None => Err(ErrorView::UnsupportedRepresentation(Format::Toml)),
        Some(content) => match toml_printed(content) {
            Ok(text) => Ok(text),
            Err(message) => Err(ErrorView::TomlSer(message)),
        },
    }
}

/// Reads a TOML text as a document.
pub fn read_toml(text: &str) -> (r: Result<Node, ConversionError>)
    ensures
        node_outcome(r) == toml_document(text@),
{
    match toml_from_str(text) {
        Ok(value) => Ok(toml_node(&value)),
        Err(message) => Err(ConversionError::TomlDe(message)),
    }
}

/// Writes a document as pretty-printed TOML text.
pub fn write_toml(node: &Node) -> (r: Result<String, ConversionError>)
    ensures
        text_outcome(r) == toml_text(node@),
{
    match toml_value(node) {
        None => Err(ConversionError::UnsupportedRepresentation(Format::Toml)),
        Some(value) => match toml_to_string_pretty(&value) {
            Ok(text) => Ok(text),
            Err(message) => Err(ConversionError::TomlSer(message)),
        },
    }
}

} // verus!
