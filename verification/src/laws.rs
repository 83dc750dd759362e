//! What holds of decoding and encoding taken together.
//!
//! The grammar of each format is the business of its library, and nothing
//! here says what a library prints. The laws on texts therefore hold
//! where the library reads back what it wrote, which is said in so many
//! words. What this crate adds around the libraries loses nothing, and that
//! is proved outright: see `lemma_content_round_trip`.

use vstd::prelude::*;
use crate::convert::{
    content_records, decoded, encoded, lemma_content_round_trip, read_content, records_content,
};
use crate::csv_codec::csv_parsed;
use crate::document::Doc;
use crate::error::ErrorView;
use crate::format::Format;
use crate::record::{values_plain, RecordView};
use crate::schema::{entry_value, records_key};
use crate::sheet::lemma_ragged_sheet;
use crate::text::is_blank;
use crate::toml_codec::toml_parsed;

verus! {

/// Whether the library of the format writes a text for the records that
/// is not blank and that it reads back as a content that stands for the
/// same records as the content that the text was written from. The two
/// contents need not be equal: a library may spell a number otherwise than
/// the literal it was given.
pub open spec fn reads_back(format: Format, records: Seq<RecordView>) -> bool {
    match encoded(format, records) {
        Err(_) => false,
        Ok(text) => !is_blank(text) && match read_content(format, text) {
            Err(_) => false,
            Ok(content) => content_records(format, content) == content_records(
                format,
                records_content(format, records),
            ),
        },
    }
}

/// Decoding what was encoded yields the records that were encoded, in
/// every format whose library reads back what it wrote for them.
pub proof fn lemma_round_trip(format: Format, records: Seq<RecordView>)
    requires
        values_plain(records),
        reads_back(format, records),
    ensures
        encoded(format, records) is Ok,
        decoded(format, encoded(format, records)->Ok_0) == Ok::<_, ErrorView>(records),
{
    lemma_content_round_trip(format, records);
}

/// What encoding and then decoding in a format makes of an outcome: a
/// failure stays, and so does the first failure of either step.
pub open spec fn through(format: Format, r: Result<Seq<RecordView>, ErrorView>) -> Result<
    Seq<RecordView>,
    ErrorView,
> {
    match r {
        Err(e) => Err(e),
        Ok(records) => match encoded(format, records) {
            Err(e) => Err(e),
            Ok(text) => decoded(format, text),
        },
    }
}

/// Records that go through JSON, YAML, CSV, TOML and JSON again, encoded
/// and decoded at each step, come out as they went in, where every library
/// reads back what it wrote for them.
pub proof fn lemma_full_cycle(records: Seq<RecordView>)
    requires
        values_plain(records),
        reads_back(Format::Json, records),
        reads_back(Format::Yaml, records),
        reads_back(Format::Csv, records),
        reads_back(Format::Toml, records),
    ensures
        through(
            Format::Json,
            through(
                Format::Toml,
                through(Format::Csv, through(Format::Yaml, through(Format::Json, Ok(records)))),
            ),
        ) == Ok::<_, ErrorView>(records),
{
    lemma_round_trip(Format::Json, records);
    lemma_round_trip(Format::Yaml, records);
    lemma_round_trip(Format::Csv, records);
    lemma_round_trip(Format::Toml, records);
}

/// A blank text is refused as empty input in every format, whatever the
/// library of the format would make of it.
pub proof fn lemma_blank_input(format: Format, text: Seq<char>)
    requires
        is_blank(text),
    ensures
        decoded(format, text) == Err::<Seq<RecordView>, _>(ErrorView::EmptyInput(format)),
{
}

/// A CSV text with a row that has another number of columns than the
/// header is refused with a CSV failure and yields no record: this holds
/// where the reader hands such a row on, and where it refuses the text
/// itself.
pub proof fn lemma_ragged_csv(text: Seq<char>, k: int)
    requires
        !is_blank(text),
        csv_parsed(text) matches Ok(rows) ==> 1 <= k < rows.len() && rows[k].len()
            != rows[0].len(),
    ensures
        decoded(Format::Csv, text) is Err,
        decoded(Format::Csv, text)->Err_0 is Csv,
{
    if csv_parsed(text) is Ok {
        lemma_ragged_sheet(csv_parsed(text)->Ok_0, k);
    }
}

/// Whether a document is a table that holds the key `records`.
pub open spec fn holds_records(doc: Doc) -> bool {
    doc matches Doc::Table(entries) && entry_value(entries, records_key()) is Some
}

/// A TOML text whose table does not hold the key `records` is refused
/// with a failure of reading TOML.
pub proof fn lemma_toml_without_records(text: Seq<char>)
    requires
        !is_blank(text),
        toml_parsed(text) matches Ok(doc) ==> !holds_records(doc),
    ensures
        decoded(Format::Toml, text) is Err,
        decoded(Format::Toml, text)->Err_0 is TomlDe,
{
}

} // verus!
