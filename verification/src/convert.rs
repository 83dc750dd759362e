//! Decoding, encoding and conversion of records.

use vstd::prelude::*;
use crate::csv_codec::{csv_sheet, csv_text, read_csv, write_csv};
use crate::document::{Doc, Node};
use crate::error::{records_outcome, text_outcome, ConversionError, ErrorView};
use crate::format::Format;
use crate::json_codec::{json_document, json_text, read_json, write_json};
use crate::record::{records_view, values_plain, Record, RecordView};
use crate::schema::{
    document, document_records, lemma_document_round_trip, read_document, write_document,
};
use crate::sheet::{
    lemma_sheet_round_trip, read_sheet, rows_view, sheet, sheet_records, write_sheet, Row,
};
use crate::text::{is_blank, str_is_blank};
use crate::toml_codec::{read_toml, toml_document, toml_text, write_toml};
use crate::yaml_codec::{read_yaml, write_yaml, yaml_document, yaml_text};

verus! {

/// The records that a document of the given format stands for; a fault of
/// the document is a failure of reading that format.
pub open spec fn documented(format: Format, doc: Doc) -> Result<Seq<RecordView>, ErrorView> {
    match document_records(format, doc) {
        Ok(records) => Ok(records),
        Err(fault) => Err(ErrorView::reading(format, fault.text())),
    }
}

/// The records that a sheet stands for; a fault of the sheet is a failure
/// of reading CSV.
pub open spec fn tabulated(rows: Seq<Row>) -> Result<Seq<RecordView>, ErrorView> {
    match sheet_records(rows) {
        Ok(records) => Ok(records),
        Err(fault) => Err(ErrorView::Csv(fault.text())),
    }
}

/// What a text holds, apart from its spelling: a document in JSON, YAML
/// and TOML, a sheet of rows in CSV.
pub enum Content {
    Document(Doc),
    Sheet(Seq<Row>),
}

/// What the library of the given format reads from a text.
pub open spec fn read_content(format: Format, text: Seq<char>) -> Result<Content, ErrorView> {
    match format {
        Format::Json => match json_document(text) {
            Ok(doc) => Ok(Content::Document(doc)),
            Err(e) => Err(e),
        },
        Format::Yaml => match yaml_document(text) {
            Ok(doc) => Ok(Content::Document(doc)),
            Err(e) => Err(e),
        },
        Format::Toml => match toml_document(text) {
            Ok(doc) => Ok(Content::Document(doc)),
            Err(e) => Err(e),
        },
        Format::Csv => match csv_sheet(text) {
            Ok(rows) => Ok(Content::Sheet(rows)),
            Err(e) => Err(e),
        },
    }
}

/// The text that the library of the given format writes for a content.
/// No format writes the content of another kind: that is refused as
/// something the format cannot represent.
pub open spec fn written_content(format: Format, content: Content) -> Result<Seq<char>, ErrorView> {
    match (format, content) {
        (Format::Json, Content::Document(doc)) => json_text(doc),
        (Format::Yaml, Content::Document(doc)) => yaml_text(doc),
        (Format::Toml, Content::Document(doc)) => toml_text(doc),
        (Format::Csv, Content::Sheet(rows)) => csv_text(rows),
        _ => Err(ErrorView::UnsupportedRepresentation(format)),
    }
}

/// The records that a content read in the given format stands for.
pub open spec fn content_records(format: Format, content: Content) -> Result<
    Seq<RecordView>,
    ErrorView,
> {
    match content {
        Content::Document(doc) => documented(format, doc),
        Content::Sheet(rows) => tabulated(rows),
    }
}

/// The content that stands for the records in the given format: a sheet
/// in CSV, a list of tables in JSON and YAML, and in TOML that list under
/// the key `records`.
pub open spec fn records_content(format: Format, records: Seq<RecordView>) -> Content {
    match format {
        Format::Csv => Content::Sheet(sheet(records)),
        _ => Content::Document(document(format, records)),
    }
}

/// What decoding a text of the given format yields. A blank text is
/// refused before its format is looked at. Otherwise the library of the
/// format reads the text, and what it read must stand for records; either
/// step may fail, and no records are yielded then.
pub open spec fn decoded(format: Format, text: Seq<char>) -> Result<Seq<RecordView>, ErrorView> {
    if is_blank(text) {
        Err(ErrorView::EmptyInput(format))
    } else {
        match read_content(format, text) {
            Ok(content) => content_records(format, content),
            Err(e) => Err(e),
        }
    }
}

/// What encoding records in the given format yields: the text that the
/// library of the format writes for the content that stands for the
/// records.
pub open spec fn encoded(format: Format, records: Seq<RecordView>) -> Result<Seq<char>, ErrorView> {
    written_content(format, records_content(format, records))
}

/// What converting a text from one format to another yields: the encoding
/// of what was decoded. Where decoding fails, its failure is the outcome
/// and nothing is encoded.
pub open spec fn converted(text: Seq<char>, from: Format, to: Format) -> Result<
    Seq<char>,
    ErrorView,
> {
    match decoded(from, text) {
        Ok(records) => encoded(to, records),
        Err(e) => Err(e),
    }
}

/// The content that is written for records is read back as those records.
pub proof fn lemma_content_round_trip(format: Format, records: Seq<RecordView>)
    requires
        values_plain(records),
    ensures
        content_records(format, records_content(format, records)) == Ok::<_, ErrorView>(records),
{
    if format == Format::Csv {
        lemma_sheet_round_trip(records);
    } else {
        lemma_document_round_trip(format, records);
    }
}

/// Reads the records that a document of the given format stands for.
pub fn decode_document(format: Format, node: &Node) -> (r: Result<Vec<Record>, ConversionError>)
    ensures
        records_outcome(r) == documented(format, node@),
{
    match read_document(format, node) {
        Ok(records) => Ok(records),
        Err(fault) => Err(ConversionError::reading(format, fault.message())),
    }
}

/// Reads the records that the rows of a CSV text stand for.
pub fn decode_sheet(rows: &Vec<Vec<String>>) -> (r: Result<Vec<Record>, ConversionError>)
    ensures
        records_outcome(r) == tabulated(rows_view(rows@)),
{
    match read_sheet(rows) {
        Ok(records) => Ok(records),
        Err(fault) => Err(ConversionError::Csv(fault.message())),
    }
}

/// Decodes a text of the given format into records.
pub fn deserialize_from_string(input: &str, format: Format) -> (r: Result<
    Vec<Record>,
    ConversionError,
>)
    ensures
        records_outcome(r) == decoded(format, input@),
        is_blank(input@) ==> (r matches Err(ConversionError::EmptyInput(f)) && f == format),
{
    if str_is_blank(input) {
        return Err(ConversionError::EmptyInput(format));
    }
    match format {
        Format::Json => match read_json(input) {
            Ok(node) => decode_document(format, &node),
            Err(e) => Err(e),
        },
        Format::Yaml => match read_yaml(input) {
            Ok(node) => decode_document(format, &node),
            Err(e) => Err(e),
        },
        Format::Toml => match read_toml(input) {
            Ok(node) => decode_document(format, &node),
            Err(e) => Err(e),
        },
        Format::Csv => match read_csv(input) {
            Ok(rows) => decode_sheet(&rows),
            Err(e) => Err(e),
        },
    }
}

/// Encodes records as a text of the given format.
pub fn serialize_to_string(records: &[Record], format: Format) -> (r: Result<
    String,
    ConversionError,
>)
    ensures
        text_outcome(r) == encoded(format, records_view(records@)),
{
    match format {
        Format::Json => write_json(&write_document(format, records)),
        Format::Yaml => write_yaml(&write_document(format, records)),
        Format::Toml => write_toml(&write_document(format, records)),
        Format::Csv => write_csv(&write_sheet(records)),
    }
}

/// Converts a text from one format to another: decodes it, then encodes
/// what was decoded.
pub fn convert_data(input_string: &str, input_format: Format, output_format: Format) -> (r: Result<
    String,
    ConversionError,
>)
    ensures
        text_outcome(r) == converted(input_string@, input_format, output_format),
{
    match deserialize_from_string(input_string, input_format) {
        Ok(records) => serialize_to_string(records.as_slice(), output_format),
        Err(e) => Err(e),
    }
}

} // verus!
