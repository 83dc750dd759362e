//! Records as rows: the header that names the four fields, and one row of
//! field texts for each record.
//!
//! A row is bound to the fields by the names in the header, not by the
//! position of its columns.

use vstd::prelude::*;
use crate::decimal::{lemma_parse_numeral, numeral, numeral_chars, parse_field_u32, unsigned_field};
use crate::error::Fault;
use crate::literal::{is_plain, plain_form, Real};
use crate::record::{
    declared_fields, records_view, values_plain, Field, Kind, Record, RecordView,
};
use crate::schema::{read_one_view, read_view};
use crate::text::{same_text, text_of};

verus! {

/// A row: the texts of its columns.
pub type Row = Seq<Seq<char>>;

/// The first column from `from` on that the header calls `name`.
pub open spec fn column_from(header: Row, name: Seq<char>, from: int) -> Option<int>
    decreases header.len() - from,
{
    if from < 0 || from >= header.len() {
        None
    } else if header[from] == name {
        Some(from)
    } else {
        column_from(header, name, from + 1)
    }
}

/// The first column that the header calls `name`.
pub open spec fn column_of(header: Row, name: Seq<char>) -> Option<int> {
    column_from(header, name, 0)
}

/// In which column each field stands.
pub struct Columns {
    pub id: int,
    pub name: int,
    pub value: int,
    pub active: int,
}

/// The columns that a header gives to the fields. The header must name
/// each of the four fields and have no other column.
pub open spec fn header_columns(header: Row) -> Result<Columns, Fault> {
    let id = column_of(header, Field::Id.name_spec());
    let name = column_of(header, Field::Name.name_spec());
    let value = column_of(header, Field::Value.name_spec());
    let active = column_of(header, Field::Active.name_spec());
    if id is None {
        Err(Fault::Missing(0, Field::Id))
    } else if name is None {
        Err(Fault::Missing(0, Field::Name))
    } else if value is None {
        Err(Fault::Missing(0, Field::Value))
    } else if active is None {
        Err(Fault::Missing(0, Field::Active))
    } else if header.len() != declared_fields().len() {
        Err(Fault::Surplus(0))
    } else {
        Ok(Columns { id: id->0, name: name->0, value: value->0, active: active->0 })
    }
}

/// The truth value that a text spells: `true` or `false`.
pub open spec fn flag_field(t: Seq<char>) -> Option<bool> {
    if t == "true"@ {
        Some(true)
    } else if t == "false"@ {
        Some(false)
    } else {
        None
    }
}

/// The text that spells a truth value.
pub open spec fn flag_text(b: bool) -> Seq<char> {
    if b {
        "true"@
    } else {
        "false"@
    }
}

/// Whether a text spells a value of the given kind. Every text is a text.
pub open spec fn spells(kind: Kind, t: Seq<char>) -> bool {
    match kind {
        Kind::Unsigned => unsigned_field(t) is Some,
        Kind::Text => true,
        Kind::Real => plain_form(t) is Some,
        Kind::Flag => flag_field(t) is Some,
    }
}

/// The record that row `index` stands for under the given columns. The
/// row must have as many columns as the header, and under each field a text
/// that spells a value of its kind; a name is taken as it stands.
pub open spec fn row_record(index: usize, columns: Columns, width: nat, row: Row) -> Result<
    RecordView,
    Fault,
> {
    if row.len() != width {
        Err(Fault::Ragged(index))
    } else if !spells(Field::Id.kind(), row[columns.id]) {
        Err(Fault::Mismatch(index, Field::Id))
    } else if !spells(Field::Name.kind(), row[columns.name]) {
        Err(Fault::Mismatch(index, Field::Name))
    } else if !spells(Field::Value.kind(), row[columns.value]) {
        Err(Fault::Mismatch(index, Field::Value))
    } else if !spells(Field::Active.kind(), row[columns.active]) {
        Err(Fault::Mismatch(index, Field::Active))
    } else {
        Ok(
            RecordView {
                id: unsigned_field(row[columns.id])->0,
                name: row[columns.name],
                value: plain_form(row[columns.value])->0,
                active: flag_field(row[columns.active])->0,
            },
        )
    }
}

/// The records that the rows from the second up to row `upto` stand for,
/// or the fault of the first row that stands for none.
pub open spec fn body_records(columns: Columns, rows: Seq<Row>, upto: int) -> Result<
    Seq<RecordView>,
    Fault,
>
    decreases upto,
{
    if upto <= 1 || rows.len() == 0 {
        Ok(Seq::empty())
    } else {
        match body_records(columns, rows, upto - 1) {
            Err(fault) => Err(fault),
            Ok(records) => match row_record(
                (upto - 1) as usize,
                columns,
                rows[0].len(),
                rows[upto - 1],
            ) {
                Err(fault) => Err(fault),
                Ok(record) => Ok(records.push(record)),
            },
        }
    }
}

/// The records that a sheet stands for: its first row is the header, each
/// further row one record.
pub open spec fn sheet_records(rows: Seq<Row>) -> Result<Seq<RecordView>, Fault> {
    if rows.len() == 0 {
        Err(Fault::NoHeader)
    } else {
        match header_columns(rows[0]) {
            Err(fault) => Err(fault),
            Ok(columns) => body_records(columns, rows, rows.len() as int),
        }
    }
}

/// The header: the names of the fields in declared order.
pub open spec fn header_row() -> Row {
    Seq::new(declared_fields().len(), |i: int| declared_fields()[i].name_spec())
}

/// The value of a field of a record, as the text of a column: the
/// identifier as its decimal numeral, the name as it stands, the value as
/// its literal, the flag as `true` or `false`.
pub open spec fn field_text(r: RecordView, field: Field) -> Seq<char> {
    match field {
        Field::Id => numeral(r.id as nat),
        Field::Name => r.name,
        Field::Value => r.value,
        Field::Active => flag_text(r.active),
    }
}

/// The row that stands for a record: the texts of its fields in declared
/// order.
pub open spec fn record_row(r: RecordView) -> Row {
    Seq::new(declared_fields().len(), |i: int| field_text(r, declared_fields()[i]))
}

/// The sheet that stands for a sequence of records: the header, then one
/// row for each record, in their order. The header is there even where
/// there is no record.
pub open spec fn sheet(records: Seq<RecordView>) -> Seq<Row> {
    Seq::new(
        records.len() + 1,
        |i: int|
            if i == 0 {
                header_row()
            } else {
                record_row(records[i - 1])
            },
    )
}

/// The texts of a row in memory.
pub open spec fn row_view(row: Seq<String>) -> Row {
    Seq::new(row.len(), |j: int| row[j]@)
}

/// The rows of a sheet in memory.
pub open spec fn rows_view(rows: Seq<Vec<String>>) -> Seq<Row> {
    Seq::new(rows.len(), |i: int| row_view(rows[i]@))
}

/// In which column each field stands, for a header in memory.
struct Places {
    id: usize,
    name: usize,
    value: usize,
    active: usize,
}

impl Places {
    /// The columns as mathematical values.
    spec fn columns(&self) -> Columns {
        Columns {
            id: self.id as int,
            name: self.name as int,
            value: self.value as int,
            active: self.active as int,
        }
    }

    /// Whether every column lies within a row of the given width.
    spec fn within(&self, width: nat) -> bool {
        self.id < width && self.name < width && self.value < width && self.active < width
    }
}

/// Finds the first column that the header calls `name`.
fn find_column(header: &Vec<String>, name: &str) -> (r: Option<usize>)
    ensures
        match r {
            Some(k) => column_of(row_view(header@), name@) == Some(k as int) && k < header.len(),
            None => column_of(row_view(header@), name@) is None,
        },
{
    let ghost row = row_view(header@);
    let mut i: usize = 0;
    while i < header.len()
        invariant
            i <= header.len(),
            row == row_view(header@),
            column_of(row, name@) == column_from(row, name@, i as int),
        decreases header.len() - i,
    {
        assert(row[i as int] == header@[i as int]@);
        if same_text(header[i].as_str(), name) {
            return Some(i);
        }
        i += 1;
    }
    None
}

/// What a result of reading a header holds.
spec fn places_view(r: Result<Places, Fault>) -> Result<Columns, Fault> {
    match r {
        Ok(places) => Ok(places.columns()),
        Err(fault) => Err(fault),
    }
}

/// Reads from a header in which column each field stands.
fn read_header(header: &Vec<String>) -> (r: Result<Places, Fault>)
    ensures
        places_view(r) == header_columns(row_view(header@)),
        r matches Ok(places) ==> places.within(header@.len()),
{
    let id = match find_column(header, Field::Id.label()) {
        Some(k) => k,
        None => {
            return Err(Fault::Missing(0, Field::Id));
        },
    };
    let name = match find_column(header, Field::Name.label()) {
        Some(k) => k,
        None => {
            return Err(Fault::Missing(0, Field::Name));
        },
    };
    let value = match find_column(header, Field::Value.label()) {
        Some(k) => k,
        None => {
            return Err(Fault::Missing(0, Field::Value));
        },
    };
    let active = match find_column(header, Field::Active.label()) {
        Some(k) => k,
        None => {
            return Err(Fault::Missing(0, Field::Active));
        },
    };
    if header.len() != 4 {
        return Err(Fault::Surplus(0));
    }
    Ok(Places { id, name, value, active })
}

/// Reads the truth value that a text spells.
fn parse_flag(t: &str) -> (r: Option<bool>)
    ensures
        r == flag_field(t@),
{
    if same_text(t, "true") {
        Some(true)
    } else if same_text(t, "false") {
        Some(false)
    } else {
        None
    }
}

/// Reads the record that a row stands for.
fn read_row(index: usize, places: &Places, width: usize, row: &Vec<String>) -> (r: Result<
    Record,
    Fault,
>)
    requires
        places.within(width as nat),
    ensures
        read_one_view(r) == row_record(index, places.columns(), width as nat, row_view(row@)),
{
    if row.len() != width {
        return Err(Fault::Ragged(index));
    }
    let ghost texts = row_view(row@);
    assert(texts[places.id as int] == row@[places.id as int]@);
    assert(texts[places.name as int] == row@[places.name as int]@);
    assert(texts[places.value as int] == row@[places.value as int]@);
    assert(texts[places.active as int] == row@[places.active as int]@);
    let id = match parse_field_u32(row[places.id].as_str()) {
        Some(n) => n,
        None => {
            return Err(Fault::Mismatch(index, Field::Id));
        },
    };
    let value = match Real::parse(row[places.value].as_str()) {
        Some(x) => x,
        None => {
            return Err(Fault::Mismatch(index, Field::Value));
        },
    };
    let active = match parse_flag(row[places.active].as_str()) {
        Some(b) => b,
        None => {
            return Err(Fault::Mismatch(index, Field::Active));
        },
    };
    Ok(Record { id, name: row[places.name].clone(), value, active })
}

/// A fault among the rows up to `k` is the fault of every longer stretch.
pub proof fn lemma_row_fault_stays(columns: Columns, rows: Seq<Row>, k: int, upto: int)
    requires
        k <= upto,
        body_records(columns, rows, k) is Err,
    ensures
        body_records(columns, rows, upto) == body_records(columns, rows, k),
    decreases upto - k,
{
    if k < upto {
        lemma_row_fault_stays(columns, rows, k, upto - 1);
    }
}

/// Reads the records that a sheet stands for.
pub fn read_sheet(rows: &Vec<Vec<String>>) -> (r: Result<Vec<Record>, Fault>)
    ensures
        read_view(r) == sheet_records(rows_view(rows@)),
{
    let ghost all = rows_view(rows@);
    if rows.len() == 0 {
        return Err(Fault::NoHeader);
    }
    assert(all[0] == row_view(rows@[0]@));
    let places = match read_header(&rows[0]) {
        Ok(places) => places,
        Err(fault) => {
            return Err(fault);
        },
    };
    let width = rows[0].len();
    let mut records: Vec<Record> = Vec::new();
    let mut i: usize = 1;
    assert(records_view(records@) == Seq::<RecordView>::empty());
    while i < rows.len()
        invariant
            1 <= i <= rows.len(),
            all == rows_view(rows@),
            width == all[0].len(),
            places.within(width as nat),
            header_columns(all[0]) == Ok::<Columns, Fault>(places.columns()),
            body_records(places.columns(), all, i as int) == Ok::<Seq<RecordView>, Fault>(
                records_view(records@),
            ),
        decreases rows.len() - i,
    {
        assert(all[i as int] == row_view(rows@[i as int]@));
        match read_row(i, &places, width, &rows[i]) {
            Err(fault) => {
                proof {
                    assert(body_records(places.columns(), all, i + 1) == Err::<
                        Seq<RecordView>,
                        Fault,
                    >(fault));
                    lemma_row_fault_stays(places.columns(), all, i + 1, all.len() as int);
                }
                return Err(fault);
            },
            Ok(record) => {
                let ghost before = records_view(records@);
                records.push(record);
                assert(records_view(records@) == before.push(record@));
            },
        }
        i += 1;
    }
    Ok(records)
}

/// The header row in memory.
fn write_header() -> (row: Vec<String>)
    ensures
        row_view(row@) == header_row(),
{
    let mut row: Vec<String> = Vec::new();
    row.push(Field::Id.label().to_owned());
    row.push(Field::Name.label().to_owned());
    row.push(Field::Value.label().to_owned());
    row.push(Field::Active.label().to_owned());
    assert(row_view(row@) == header_row());
    row
}

/// Builds the row that stands for a record.
fn write_row(record: &Record) -> (row: Vec<String>)
    ensures
        row_view(row@) == record_row(record@),
{
    let digits = numeral_chars(record.id as u64);
    let mut row: Vec<String> = Vec::new();
    row.push(text_of(&digits));
    row.push(record.name.clone());
    row.push(record.value.text().to_owned());
    if record.active {
        row.push("true".to_owned());
    } else {
        row.push("false".to_owned());
    }
    assert(row_view(row@) == record_row(record@));
    row
}

/// Builds the sheet that stands for a sequence of records.
pub fn write_sheet(records: &[Record]) -> (rows: Vec<Vec<String>>)
    ensures
        rows_view(rows@) == sheet(records_view(records@)),
{
    let mut rows: Vec<Vec<String>> = Vec::new();
    rows.push(write_header());
    let mut i: usize = 0;
    while i < records.len()
        invariant
            i <= records.len(),
            rows@.len() == i + 1,
            row_view(rows@[0]@) == header_row(),
            forall|j: int| 1 <= j <= i ==> row_view((#[trigger] rows@[j])@) == record_row(
                records@[j - 1]@,
            ),
        decreases records.len() - i,
    {
        rows.push(write_row(&records[i]));
        i += 1;
    }
    assert(rows_view(rows@) == sheet(records_view(records@)));
    rows
}

/// Records come out in the order of the rows: where the rows up to `upto`
/// stand for records, there is one record for each row behind the header,
/// and each record is the one that the row at its place stands for.
pub proof fn lemma_rows_in_order(columns: Columns, rows: Seq<Row>, upto: int)
    requires
        1 <= upto <= rows.len(),
        body_records(columns, rows, upto) is Ok,
    ensures
        body_records(columns, rows, upto)->Ok_0.len() == upto - 1,
        forall|i: int|
            1 <= i < upto ==> row_record(i as usize, columns, rows[0].len(), #[trigger] rows[i])
                == Ok::<RecordView, Fault>(body_records(columns, rows, upto)->Ok_0[i - 1]),
    decreases upto,
{
    if upto > 1 {
        lemma_rows_in_order(columns, rows, upto - 1);
        let shorter = body_records(columns, rows, upto - 1)->Ok_0;
        assert forall|i: int| 1 <= i < upto implies row_record(
            i as usize,
            columns,
            rows[0].len(),
            #[trigger] rows[i],
        ) == Ok::<RecordView, Fault>(body_records(columns, rows, upto)->Ok_0[i - 1]) by {
            if i < upto - 1 {
                assert(body_records(columns, rows, upto)->Ok_0[i - 1] == shorter[i - 1]);
            }
        }
    }
}

/// The header that is written gives the fields the columns zero to three.
pub proof fn lemma_header_round_trip()
    ensures
        header_columns(header_row()) == Ok::<Columns, Fault>(
            Columns { id: 0, name: 1, value: 2, active: 3 },
        ),
{
    let header = header_row();
    Field::lemma_names_differ(Field::Id, Field::Name);
    Field::lemma_names_differ(Field::Id, Field::Value);
    Field::lemma_names_differ(Field::Id, Field::Active);
    Field::lemma_names_differ(Field::Name, Field::Value);
    Field::lemma_names_differ(Field::Name, Field::Active);
    Field::lemma_names_differ(Field::Value, Field::Active);
    assert(column_from(header, Field::Id.name_spec(), 0) == Some(0int));
    assert(column_from(header, Field::Name.name_spec(), 1) == Some(1int));
    assert(column_from(header, Field::Name.name_spec(), 0) == Some(1int));
    assert(column_from(header, Field::Value.name_spec(), 2) == Some(2int));
    assert(column_from(header, Field::Value.name_spec(), 1) == Some(2int));
    assert(column_from(header, Field::Value.name_spec(), 0) == Some(2int));
    assert(column_from(header, Field::Active.name_spec(), 3) == Some(3int));
    assert(column_from(header, Field::Active.name_spec(), 2) == Some(3int));
    assert(column_from(header, Field::Active.name_spec(), 1) == Some(3int));
    assert(column_from(header, Field::Active.name_spec(), 0) == Some(3int));
}

/// The row that stands for a record is read back as that record.
pub proof fn lemma_row_round_trip(index: usize, r: RecordView)
    requires
        is_plain(r.value),
    ensures
        row_record(index, Columns { id: 0, name: 1, value: 2, active: 3 }, 4, record_row(r))
            == Ok::<RecordView, Fault>(r),
{
    lemma_parse_numeral(r.id);
    crate::decimal::lemma_numeral_value(r.id as nat);
    assert(numeral(r.id as nat)[0] != '+');
    reveal_strlit("true");
    reveal_strlit("false");
    assert("true"@[0] == 't');
    assert("false"@[0] == 'f');
}

/// The first rows of the sheet that is written are read back as the first
/// records.
proof fn lemma_body_round_trip(records: Seq<RecordView>, upto: int)
    requires
        values_plain(records),
        1 <= upto <= records.len() + 1,
    ensures
        body_records(Columns { id: 0, name: 1, value: 2, active: 3 }, sheet(records), upto)
            == Ok::<Seq<RecordView>, Fault>(records.take(upto - 1)),
    decreases upto,
{
    if upto == 1 {
        assert(records.take(0) == Seq::<RecordView>::empty());
    } else {
        lemma_body_round_trip(records, upto - 1);
        lemma_row_round_trip((upto - 1) as usize, records[upto - 2]);
        assert(sheet(records)[upto - 1] == record_row(records[upto - 2]));
        assert(sheet(records)[0].len() == 4);
        assert(records.take(upto - 2).push(records[upto - 2]) == records.take(upto - 1));
    }
}

/// The sheet that is written for a sequence of records is read back as
/// that sequence.
pub proof fn lemma_sheet_round_trip(records: Seq<RecordView>)
    requires
        values_plain(records),
    ensures
        sheet_records(sheet(records)) == Ok::<Seq<RecordView>, Fault>(records),
{
    lemma_header_round_trip();
    lemma_body_round_trip(records, records.len() as int + 1);
    assert(records.take(records.len() as int) == records);
}

/// A sheet with a row that has another number of columns than its header
/// stands for no records at all, whatever its other rows hold.
pub proof fn lemma_ragged_sheet(rows: Seq<Row>, k: int)
    requires
        1 <= k < rows.len(),
        rows[k].len() != rows[0].len(),
    ensures
        sheet_records(rows) is Err,
{
    if header_columns(rows[0]) is Ok {
        let columns = header_columns(rows[0])->Ok_0;
        if body_records(columns, rows, k) is Err {
            lemma_row_fault_stays(columns, rows, k, rows.len() as int);
        } else {
            assert(body_records(columns, rows, k + 1) is Err);
            lemma_row_fault_stays(columns, rows, k + 1, rows.len() as int);
        }
    }
}

} // verus!
