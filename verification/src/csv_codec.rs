//! CSV text, read and written by `csv`.

use vstd::prelude::*;
use vstd::utf8::{decode_utf8, valid_utf8};
use crate::error::{text_outcome, ConversionError, ErrorView};
use crate::sheet::{row_view, rows_view, Row};

verus! {

/// What a `csv::Reader` without a header row of its own, reading the bytes
/// of a text, yields through `records`: all rows with the texts of their
/// fields, the header first, or the diagnostic of the first row that it
/// refuses.
pub uninterp spec fn csv_parsed(text: Seq<char>) -> Result<Seq<Row>, Seq<char>>;

/// What a result of reading rows holds.
pub open spec fn rows_outcome(r: Result<Vec<Vec<String>>, String>) -> Result<Seq<Row>, Seq<char>> {
    match r {
        Ok(rows) => Ok(rows_view(rows@)),
        Err(message) => Err(message@),
    }
}

/// `csv::Reader::records` on a reader over the bytes of the text, made by
/// a `csv::ReaderBuilder` with `has_headers(false)`, so that the header
/// comes out as the first row: every row as the texts of its fields, or
/// the diagnostic of the first row refused. The contract names the result.
#[verifier::external_body]
fn csv_records(text: &str) -> (r: Result<Vec<Vec<String>>, String>)
    ensures
        rows_outcome(r) == csv_parsed(text@),
{
    let mut reader = csv::ReaderBuilder::new().has_headers(false).from_reader(text.as_bytes());
    reader.records().map(|row| match row {
        Ok(fields) => Ok(fields.iter().map(String::from).collect()),
        Err(e) => Err(e.to_string()),
    }).collect()
}

/// A `csv::Writer` that writes into memory. The writer is kept behind
/// this type, and nothing here looks inside it: `csv::Writer` takes any
/// `std::io::Write`, a bound that a declaration for Verus cannot carry.
#[verifier::external_body]
pub struct RowWriter {
    inner: csv::Writer<Vec<u8>>,
}

/// The rows that a writer has taken so far.
pub uninterp spec fn written_rows(writer: RowWriter) -> Seq<Row>;

/// The diagnostic with which `csv::Writer::write_record` refuses `row`
/// after it has taken `rows`; `None` where it takes the row.
pub uninterp spec fn csv_refusal(rows: Seq<Row>, row: Row) -> Option<Seq<char>>;

/// What `csv::Writer::into_inner` hands out after the writer has taken
/// `rows`: the bytes of the text, or the diagnostic of the flush.
pub uninterp spec fn csv_bytes(rows: Seq<Row>) -> Result<Seq<u8>, Seq<char>>;

/// What `String::from_utf8` says of bytes that are no UTF-8.
pub uninterp spec fn utf8_diagnostic(bytes: Seq<u8>) -> Seq<char>;

impl RowWriter {
    /// `csv::Writer::from_writer` on an empty vector: a writer that has
    /// taken no row.
    #[verifier::external_body]
    fn new() -> (writer: RowWriter)
        ensures
            written_rows(writer) == Seq::<Row>::empty(),
    {
        RowWriter { inner: csv::Writer::from_writer(Vec::new()) }
    }

    /// `csv::Writer::write_record`: the writer takes the row, or refuses
    /// it with a diagnostic. Of the writer after a refusal nothing is said.
    #[verifier::external_body]
    fn write_row(&mut self, row: &Vec<String>) -> (r: Result<(), String>)
        ensures
            match r {
                Ok(()) => {
                    &&& csv_refusal(written_rows(*old(self)), row_view(row@)) is None
                    &&& written_rows(*final(self)) == written_rows(*old(self)).push(row_view(row@))
                },
                Err(message) => csv_refusal(written_rows(*old(self)), row_view(row@)) == Some(
                    message@,
                ),
            },
    {
        self.inner.write_record(row).map_err(|e| e.to_string())
    }

    /// `csv::Writer::into_inner`: flushes and hands out the bytes written,
    /// or the diagnostic of the flush.
    #[verifier::external_body]
    fn finish(self) -> (r: Result<Vec<u8>, String>)
        ensures
            match r {
                Ok(bytes) => csv_bytes(written_rows(self)) == Ok::<Seq<u8>, Seq<char>>(bytes@),
                Err(message) => csv_bytes(written_rows(self)) == Err::<Seq<u8>, Seq<char>>(
                    message@,
                ),
            },
    {
        self.inner.into_inner().map_err(|e| e.to_string())
    }
}

/// `String::from_utf8`: the text that the bytes encode where they are
/// valid UTF-8, and a diagnostic where they are not.
#[verifier::external_body]
fn text_from_utf8(bytes: Vec<u8>) -> (r: Result<String, String>)
    ensures
        match r {
            Ok(text) => valid_utf8(bytes@) && text@ == decode_utf8(bytes@),
            Err(message) => !valid_utf8(bytes@) && message@ == utf8_diagnostic(bytes@),
        },
{
    String::from_utf8(bytes).map_err(|e| e.to_string())
}

/// The rows that a CSV text spells, or the failure of reading it.
pub open spec fn csv_sheet(text: Seq<char>) -> Result<Seq<Row>, ErrorView> {
    match csv_parsed(text) {
        Ok(rows) => Ok(rows),
        Err(message) => Err(ErrorView::Csv(message)),
    }
}

/// The first refusal that a writer meets when it is given `rows` one
/// after the other; `None` where it takes them all.
pub open spec fn first_refusal(rows: Seq<Row>) -> Option<Seq<char>>
    decreases rows.len(),
{
    if rows.len() == 0 {
        None
    } else {
        match first_refusal(rows.drop_last()) {
            Some(message) => Some(message),
            None => csv_refusal(rows.drop_last(), rows.last()),
        }
    }
}

/// The CSV text that spells the rows, or the failure of writing it: a row
/// is refused, the flush fails, or what was written is no valid text.
pub open spec fn csv_text(rows: Seq<Row>) -> Result<Seq<char>, ErrorView> {
    match first_refusal(rows) {
        Some(message) => Err(ErrorView::Csv(message)),
        None => match csv_bytes(rows) {
            Err(message) => Err(ErrorView::Csv(message)),
            Ok(bytes) => if valid_utf8(bytes) {
                Ok(decode_utf8(bytes))
            } else {
                Err(ErrorView::Utf8(utf8_diagnostic(bytes)))
            },
        },
    }
}

/// What the outcome of reading rows holds.
pub open spec fn sheet_outcome(r: Result<Vec<Vec<String>>, ConversionError>) -> Result<
    Seq<Row>,
    ErrorView,
> {
    match r {
        Ok(rows) => Ok(rows_view(rows@)),
        Err(e) => Err(e@),
    }
}

/// A refusal among the first `k` rows is the first refusal of all rows.
proof fn lemma_refusal_stays(rows: Seq<Row>, k: int)
    requires
        0 <= k <= rows.len(),
        first_refusal(rows.take(k)) is Some,
    ensures
        first_refusal(rows) == first_refusal(rows.take(k)),
    decreases rows.len(),
{
    if k == rows.len() {
        assert(rows.take(k) == rows);
    } else {
        assert(rows.drop_last().take(k) == rows.take(k));
        lemma_refusal_stays(rows.drop_last(), k);
    }
}

/// Reads a CSV text as rows, the header first.
pub fn read_csv(text: &str) -> (r: Result<Vec<Vec<String>>, ConversionError>)
    ensures
        sheet_outcome(r) == csv_sheet(text@),
{
    match csv_records(text) {
        Ok(rows) => Ok(rows),
        Err(message) => Err(ConversionError::Csv(message)),
    }
}

/// Writes rows as CSV text, in memory.
pub fn write_csv(rows: &Vec<Vec<String>>) -> (r: Result<String, ConversionError>)
    ensures
        text_outcome(r) == csv_text(rows_view(rows@)),
{
    let ghost all = rows_view(rows@);
    let mut writer = RowWriter::new();
    let mut i: usize = 0;
    assert(all.take(0) == Seq::<Row>::empty());
    while i < rows.len()
        invariant
            i <= rows.len(),
            all == rows_view(rows@),
            written_rows(writer) == all.take(i as int),
            first_refusal(all.take(i as int)) is None,
        decreases rows.len() - i,
    {
        proof {
            let next = all.take(i + 1);
            assert(next.drop_last() == all.take(i as int));
            assert(next.last() == row_view(rows@[i as int]@));
        }
        match writer.write_row(&rows[i]) {
            Ok(()) => {},
            Err(message) => {
                proof {
                    lemma_refusal_stays(all, i + 1);
                }
                return Err(ConversionError::Csv(message));
            },
        }
        i += 1;
    }
    assert(all.take(i as int) == all);
    match writer.finish() {
        Err(message) => Err(ConversionError::Csv(message)),
        Ok(bytes) => match text_from_utf8(bytes) {
            Ok(text) => Ok(text),
            Err(message) => Err(ConversionError::Utf8(message)),
        },
    }
}

} // verus!
