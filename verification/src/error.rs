//! What can go wrong in a conversion.

use vstd::prelude::*;
use crate::decimal::{numeral, numeral_chars};
use crate::format::Format;
use crate::document::{Doc, Node};
use crate::record::{records_view, Field, Record, RecordView};
use crate::text::{append_text, push_range, text_of};

verus! {

/// Why a document that a format's reader accepted does not hold records.
///
/// Entries are counted from zero. In a table of rows the header is row
/// zero, so the first record is entry one.
#[derive(Debug, Clone, Copy, PartialEq, Eq, Structural)]
pub enum Fault {
    /// The records are not given as a list.
    NotAList,
    /// The document does not hold the key `records`.
    NoRecordsKey,
    /// There is no header row.
    NoHeader,
    /// The entry is not a table of fields.
    NotATable(usize),
    /// The entry lacks a field.
    Missing(usize, Field),
    /// The entry holds something besides the four fields.
    Surplus(usize),
    /// The field of the entry does not hold a value of its kind.
    Mismatch(usize, Field),
    /// The row has another number of columns than the header.
    Ragged(usize),
}

/// The words `entry`, a blank and the number of the entry.
pub open spec fn entry_text(index: usize) -> Seq<char> {
    "entry "@ + numeral(index as nat)
}

impl Fault {
    /// The fault in words.
    pub open spec fn text(self) -> Seq<char> {
        match self {
            Fault::NotAList => "the records are not given as a list"@,
            Fault::NoRecordsKey => "the key `records` is missing"@,
            Fault::NoHeader => "the header row is missing"@,
            Fault::NotATable(i) => entry_text(i) + " is not a table of fields"@,
            Fault::Missing(i, f) => entry_text(i) + " lacks the field `"@ + f.name_spec() + "`"@,
            Fault::Surplus(i) => entry_text(i) + " holds more than the four fields"@,
            Fault::Mismatch(i, f) => entry_text(i)
                + " holds no value of the right kind in the field `"@ + f.name_spec() + "`"@,
            Fault::Ragged(i) => entry_text(i)
                + " differs from the header in its number of columns"@,
        }
    }

    /// The fault in words.
    pub fn message(&self) -> (s: String)
        ensures
            s@ == self.text(),
    {
        let mut out: Vec<char> = Vec::new();
        match self {
            Fault::NotAList => {
                append_text(&mut out, "the records are not given as a list");
            },
            Fault::NoRecordsKey => {
                append_text(&mut out, "the key `records` is missing");
            },
            Fault::NoHeader => {
                append_text(&mut out, "the header row is missing");
            },
            Fault::NotATable(i) => {
                push_entry(&mut out, *i);
                append_text(&mut out, " is not a table of fields");
            },
            Fault::Missing(i, f) => {
                push_entry(&mut out, *i);
                append_text(&mut out, " lacks the field `");
                append_text(&mut out, f.label());
                append_text(&mut out, "`");
            },
            Fault::Surplus(i) => {
                push_entry(&mut out, *i);
                append_text(&mut out, " holds more than the four fields");
            },
            Fault::Mismatch(i, f) => {
                push_entry(&mut out, *i);
                append_text(&mut out, " holds no value of the right kind in the field `");
                append_text(&mut out, f.label());
                append_text(&mut out, "`");
            },
            Fault::Ragged(i) => {
                push_entry(&mut out, *i);
                append_text(&mut out, " differs from the header in its number of columns");
            },
        }
        text_of(&out)
    }
}

/// Appends the words for the entry `index`.
fn push_entry(out: &mut Vec<char>, index: usize)
    ensures
        final(out)@ == old(out)@ + entry_text(index),
{
    append_text(out, "entry ");
    let digits = numeral_chars(index as u64);
    push_range(out, &digits, 0, digits.len());
    assert(digits@.subrange(0, digits.len() as int) == digits@);
}

/// The failure of a conversion. Each names the stage that failed and
/// carries either the diagnostic of that stage or the format concerned.
#[derive(Debug, PartialEq)]
pub enum ConversionError {
    /// JSON text could not be read or written.
    Json(String),
    /// YAML text could not be read or written.
    Yaml(String),
    /// CSV text could not be read or written.
    Csv(String),
    /// TOML text could not be read.
    TomlDe(String),
    /// TOML text could not be written.
    TomlSer(String),
    /// What an encoder produced is not valid text.
    Utf8(String),
    /// The records cannot be rendered faithfully in the format.
    UnsupportedRepresentation(Format),
    /// The input is empty or blank.
    EmptyInput(Format),
}

/// A failure, as mathematical values.
pub enum ErrorView {
    Json(Seq<char>),
    Yaml(Seq<char>),
    Csv(Seq<char>),
    TomlDe(Seq<char>),
    TomlSer(Seq<char>),
    Utf8(Seq<char>),
    UnsupportedRepresentation(Format),
    EmptyInput(Format),
}

impl View for ConversionError {
    type V = ErrorView;

    open spec fn view(&self) -> ErrorView {
        match self {
            ConversionError::Json(m) => ErrorView::Json(m@),
            ConversionError::Yaml(m) => ErrorView::Yaml(m@),
            ConversionError::Csv(m) => ErrorView::Csv(m@),
            ConversionError::TomlDe(m) => ErrorView::TomlDe(m@),
            ConversionError::TomlSer(m) => ErrorView::TomlSer(m@),
            ConversionError::Utf8(m) => ErrorView::Utf8(m@),
            ConversionError::UnsupportedRepresentation(f) => {
                ErrorView::UnsupportedRepresentation(*f)
            },
            ConversionError::EmptyInput(f) => ErrorView::EmptyInput(*f),
        }
    }
}

impl ErrorView {
    /// The failure that reading a document of the format reports with the
    /// diagnostic `message`.
    pub open spec fn reading(format: Format, message: Seq<char>) -> ErrorView {
        match format {
            Format::Json => ErrorView::Json(message),
            Format::Yaml => ErrorView::Yaml(message),
            Format::Csv => ErrorView::Csv(message),
            Format::Toml => ErrorView::TomlDe(message),
        }
    }

    /// The failure that writing a document of the format reports with the
    /// diagnostic `message`.
    pub open spec fn writing(format: Format, message: Seq<char>) -> ErrorView {
        match format {
            Format::Json => ErrorView::Json(message),
            Format::Yaml => ErrorView::Yaml(message),
            Format::Csv => ErrorView::Csv(message),
            Format::Toml => ErrorView::TomlSer(message),
        }
    }

    /// The failure in words.
    pub open spec fn text(self) -> Seq<char> {
        match self {
            ErrorView::Json(m) => "JSON Error: "@ + m,
            ErrorView::Yaml(m) => "YAML Error: "@ + m,
            ErrorView::Csv(m) => "CSV Error: "@ + m,
            ErrorView::TomlDe(m) => "TOML Deserialization Error: "@ + m,
            ErrorView::TomlSer(m) => "TOML Serialization Error: "@ + m,
            ErrorView::Utf8(m) => "UTF8 Error: "@ + m,
            ErrorView::UnsupportedRepresentation(f) => "Cannot represent this data structure as "@
                + f.name_spec(),
            ErrorView::EmptyInput(f) => "Input data for "@ + f.name_spec() + " format is empty"@,
        }
    }
}

impl ConversionError {
    /// The failure of reading a document of the format.
    pub fn reading(format: Format, message: String) -> (e: ConversionError)
        ensures
            e@ == ErrorView::reading(format, message@),
    {
        match format {
            Format::Json => ConversionError::Json(message),
            Format::Yaml => ConversionError::Yaml(message),
            Format::Csv => ConversionError::Csv(message),
            Format::Toml => ConversionError::TomlDe(message),
        }
    }

    /// The failure of writing a document of the format.
    pub fn writing(format: Format, message: String) -> (e: ConversionError)
        ensures
            e@ == ErrorView::writing(format, message@),
    {
        match format {
            Format::Json => ConversionError::Json(message),
            Format::Yaml => ConversionError::Yaml(message),
            Format::Csv => ConversionError::Csv(message),
            Format::Toml => ConversionError::TomlSer(message),
        }
    }

    /// The failure in words.
    pub fn message(&self) -> (s: String)
        ensures
            s@ == self@.text(),
    {
        let mut out: Vec<char> = Vec::new();
        match self {
            ConversionError::Json(m) => {
                append_text(&mut out, "JSON Error: ");
                append_text(&mut out, m.as_str());
            },
            ConversionError::Yaml(m) => {
                append_text(&mut out, "YAML Error: ");
                append_text(&mut out, m.as_str());
            },
            ConversionError::Csv(m) => {
                append_text(&mut out, "CSV Error: ");
                append_text(&mut out, m.as_str());
            },
            ConversionError::TomlDe(m) => {
                append_text(&mut out, "TOML Deserialization Error: ");
                append_text(&mut out, m.as_str());
            },
            ConversionError::TomlSer(m) => {
                append_text(&mut out, "TOML Serialization Error: ");
                append_text(&mut out, m.as_str());
            },
            ConversionError::Utf8(m) => {
                append_text(&mut out, "UTF8 Error: ");
                append_text(&mut out, m.as_str());
            },
            ConversionError::UnsupportedRepresentation(f) => {
                append_text(&mut out, "Cannot represent this data structure as ");
                append_text(&mut out, f.label());
            },
            ConversionError::EmptyInput(f) => {
                append_text(&mut out, "Input data for ");
                append_text(&mut out, f.label());
                append_text(&mut out, " format is empty");
            },
        }
        text_of(&out)
    }
}

/// What the outcome of reading a document holds.
pub open spec fn node_outcome(r: Result<Node, ConversionError>) -> Result<Doc, ErrorView> {
    match r {
        Ok(node) => Ok(node@),
        Err(e) => Err(e@),
    }
}

/// What the outcome of writing a text holds.
pub open spec fn text_outcome(r: Result<String, ConversionError>) -> Result<Seq<char>, ErrorView> {
    match r {
        Ok(text) => Ok(text@),
        Err(e) => Err(e@),
    }
}

/// What the outcome of reading records holds.
pub open spec fn records_outcome(r: Result<Vec<Record>, ConversionError>) -> Result<
    Seq<RecordView>,
    ErrorView,
> {
    match r {
        Ok(records) => Ok(records_view(records@)),
        Err(e) => Err(e@),
    }
}

} // verus!
