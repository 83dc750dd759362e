//! Records as documents: how a list of tables of fields stands for a
//! sequence of records, and how it is read back.
//!
//! JSON and YAML hold the list itself. TOML, whose documents are tables,
//! holds it under the key `records`.

use vstd::prelude::*;
use crate::decimal::{lemma_parse_numeral, numeral, numeral_chars, parse_u32, parse_u32_spec};
use crate::document::{entries_view, nodes_view, Doc, Node};
use crate::error::Fault;
use crate::format::Format;
use crate::literal::{is_plain, plain_form, Real};
use crate::record::{
    declared_fields, records_view, values_plain, Field, Kind, Record, RecordView,
};
use crate::text::{same_text, text_of};

verus! {

/// The key under which a TOML document holds its records.
pub open spec fn records_key() -> Seq<char> {
    "records"@
}

/// The value of the first entry whose key is the text `key`.
pub open spec fn entry_value(entries: Seq<(Doc, Doc)>, key: Seq<char>) -> Option<Doc>
    decreases entries.len(),
{
    if entries.len() == 0 {
        None
    } else if entries[0].0 == Doc::Text(key) {
        Some(entries[0].1)
    } else {
        entry_value(entries.drop_first(), key)
    }
}

/// The unsigned integer that a document holds: a number whose literal is a
/// row of digits that fits in 32 bits.
pub open spec fn unsigned_of(d: Doc) -> Option<u32> {
    match d {
        Doc::Number(t) => parse_u32_spec(t),
        _ => None,
    }
}

/// The text that a document holds.
pub open spec fn text_in(d: Doc) -> Option<Seq<char>> {
    match d {
        Doc::Text(t) => Some(t),
        _ => None,
    }
}

/// The real number that a document holds: a number, by the plain form of
/// its literal. A whole number counts as a real one.
pub open spec fn real_of(d: Doc) -> Option<Seq<char>> {
    match d {
        Doc::Number(t) => plain_form(t),
        _ => None,
    }
}

/// The truth value that a document holds.
pub open spec fn flag_of(d: Doc) -> Option<bool> {
    match d {
        Doc::Flag(b) => Some(b),
        _ => None,
    }
}

/// Whether a document holds a value of the given kind.
pub open spec fn holds(kind: Kind, d: Doc) -> bool {
    match kind {
        Kind::Unsigned => unsigned_of(d) is Some,
        Kind::Text => text_in(d) is Some,
        Kind::Real => real_of(d) is Some,
        Kind::Flag => flag_of(d) is Some,
    }
}

/// The record that the table `entries`, entry `index` of its list, stands
/// for. The table must hold each of the four fields, found by name, and
/// nothing else, and each field a value of its kind. The first field that
/// is missing is reported before a surplus, and a surplus before the first
/// field of the wrong kind.
pub open spec fn record_of(index: usize, entries: Seq<(Doc, Doc)>) -> Result<RecordView, Fault> {
    let id = entry_value(entries, Field::Id.name_spec());
    let name = entry_value(entries, Field::Name.name_spec());
    let value = entry_value(entries, Field::Value.name_spec());
    let active = entry_value(entries, Field::Active.name_spec());
    if id is None {
        Err(Fault::Missing(index, Field::Id))
    } else if name is None {
        Err(Fault::Missing(index, Field::Name))
    } else if value is None {
        Err(Fault::Missing(index, Field::Value))
    } else if active is None {
        Err(Fault::Missing(index, Field::Active))
    } else if entries.len() != declared_fields().len() {
        Err(Fault::Surplus(index))
    } else if !holds(Field::Id.kind(), id->0) {
        Err(Fault::Mismatch(index, Field::Id))
    } else if !holds(Field::Name.kind(), name->0) {
        Err(Fault::Mismatch(index, Field::Name))
    } else if !holds(Field::Value.kind(), value->0) {
        Err(Fault::Mismatch(index, Field::Value))
    } else if !holds(Field::Active.kind(), active->0) {
        Err(Fault::Mismatch(index, Field::Active))
    } else {
        Ok(
            RecordView {
                id: unsigned_of(id->0)->0,
                name: text_in(name->0)->0,
                value: real_of(value->0)->0,
                active: flag_of(active->0)->0,
            },
        )
    }
}

/// The record that entry `index` of a list stands for.
pub open spec fn item_record(index: usize, item: Doc) -> Result<RecordView, Fault> {
    match item {
        Doc::Table(entries) => record_of(index, entries),
        _ => Err(Fault::NotATable(index)),
    }
}

/// The records that the items of a list stand for, or the fault of the
/// first item that stands for none.
pub open spec fn list_records(items: Seq<Doc>) -> Result<Seq<RecordView>, Fault>
    decreases items.len(),
{
    if items.len() == 0 {
        Ok(Seq::empty())
    } else {
        match list_records(items.drop_last()) {
            Err(fault) => Err(fault),
            Ok(records) => match item_record((items.len() - 1) as usize, items.last()) {
                Err(fault) => Err(fault),
                Ok(record) => Ok(records.push(record)),
            },
        }
    }
}

/// The records that a list of tables stands for.
pub open spec fn records_of(d: Doc) -> Result<Seq<RecordView>, Fault> {
    match d {
        Doc::List(items) => list_records(items),
        _ => Err(Fault::NotAList),
    }
}

/// The records that a document of the given format stands for.
pub open spec fn document_records(format: Format, d: Doc) -> Result<Seq<RecordView>, Fault> {
    match format {
        Format::Toml => match d {
            Doc::Table(entries) => match entry_value(entries, records_key()) {
                Some(list) => records_of(list),
                None => Err(Fault::NoRecordsKey),
            },
            _ => Err(Fault::NoRecordsKey),
        },
        _ => records_of(d),
    }
}

/// The value of a field of a record, as a document: the identifier as the
/// number with its decimal numeral, the name as a text, the value as the
/// number with its literal, the flag as a truth value.
pub open spec fn field_doc(r: RecordView, field: Field) -> Doc {
    match field {
        Field::Id => Doc::Number(numeral(r.id as nat)),
        Field::Name => Doc::Text(r.name),
        Field::Value => Doc::Number(r.value),
        Field::Active => Doc::Flag(r.active),
    }
}

/// The table that stands for a record: for each field in declared order,
/// its name and its value.
pub open spec fn record_doc(r: RecordView) -> Doc {
    Doc::Table(
        Seq::new(
            declared_fields().len(),
            |i: int|
                (Doc::Text(declared_fields()[i].name_spec()), field_doc(r, declared_fields()[i])),
        ),
    )
}

/// The list that stands for a sequence of records, in their order.
pub open spec fn records_doc(records: Seq<RecordView>) -> Doc {
    Doc::List(Seq::new(records.len(), |i: int| record_doc(records[i])))
}

/// The document of the given format that stands for a sequence of
/// records: the list itself, and in TOML the list under the key `records`.
pub open spec fn document(format: Format, records: Seq<RecordView>) -> Doc {
    match format {
        Format::Toml => Doc::Table(seq![(Doc::Text(records_key()), records_doc(records))]),
        _ => records_doc(records),
    }
}

/// What a result of reading one record holds.
pub open spec fn read_one_view(r: Result<Record, Fault>) -> Result<RecordView, Fault> {
    match r {
        Ok(record) => Ok(record@),
        Err(fault) => Err(fault),
    }
}

/// What a result of reading holds.
pub open spec fn read_view(r: Result<Vec<Record>, Fault>) -> Result<Seq<RecordView>, Fault> {
    match r {
        Ok(records) => Ok(records_view(records@)),
        Err(fault) => Err(fault),
    }
}

/// Finds the value of the first entry whose key is the text `key`.
fn find<'a>(entries: &'a Vec<(Node, Node)>, key: &str) -> (r: Option<&'a Node>)
    ensures
        match r {
            Some(node) => entry_value(entries_view(entries@), key@) == Some(node@),
            None => entry_value(entries_view(entries@), key@) is None,
        },
{
    let ghost all = entries_view(entries@);
    let mut i: usize = 0;
    assert(all.skip(0) == all);
    while i < entries.len()
        invariant
            i <= entries.len(),
            all == entries_view(entries@),
            entry_value(all, key@) == entry_value(all.skip(i as int), key@),
        decreases entries.len() - i,
    {
        let matched = match entries[i].0.as_text() {
            Some(t) => same_text(t.as_str(), key),
            None => false,
        };
        proof {
            let rest = all.skip(i as int);
            assert(rest[0] == (entries@[i as int].0@, entries@[i as int].1@));
            assert(rest.drop_first() == all.skip(i + 1));
        }
        if matched {
            return Some(&entries[i].1);
        }
        i += 1;
    }
    None
}

/// Reads the unsigned integer that a node holds.
fn read_unsigned(node: &Node) -> (r: Option<u32>)
    ensures
        r == unsigned_of(node@),
{
    match node {
        Node::Number(t) => parse_u32(t.as_str()),
        _ => None,
    }
}

/// Reads the text that a node holds.
fn read_text(node: &Node) -> (r: Option<String>)
    ensures
        match r {
            Some(t) => text_in(node@) == Some(t@),
            None => text_in(node@) is None,
        },
{
    match node {
        Node::Text(t) => Some(t.clone()),
        _ => None,
    }
}

/// Reads the real number that a node holds.
fn read_real(node: &Node) -> (r: Option<Real>)
    ensures
        match r {
            Some(x) => real_of(node@) == Some(x@),
            None => real_of(node@) is None,
        },
{
    match node {
        Node::Number(t) => Real::parse(t.as_str()),
        _ => None,
    }
}

/// Reads the truth value that a node holds.
fn read_flag(node: &Node) -> (r: Option<bool>)
    ensures
        r == flag_of(node@),
{
    match node {
        Node::Flag(b) => Some(*b),
        _ => None,
    }
}

/// Reads the record that a table of fields stands for.
fn read_record(index: usize, entries: &Vec<(Node, Node)>) -> (r: Result<Record, Fault>)
    ensures
        read_one_view(r) == record_of(index, entries_view(entries@)),
{
    let id = match find(entries, Field::Id.label()) {
        Some(node) => node,
        None => {
            return Err(Fault::Missing(index, Field::Id));
        },
    };
    let name = match find(entries, Field::Name.label()) {
        Some(node) => node,
        None => {
            return Err(Fault::Missing(index, Field::Name));
        },
    };
    let value = match find(entries, Field::Value.label()) {
        Some(node) => node,
        None => {
            return Err(Fault::Missing(index, Field::Value));
        },
    };
    let active = match find(entries, Field::Active.label()) {
        Some(node) => node,
        None => {
            return Err(Fault::Missing(index, Field::Active));
        },
    };
    if entries.len() != 4 {
        return Err(Fault::Surplus(index));
    }
    let id = match read_unsigned(id) {
        Some(n) => n,
        None => {
            return Err(Fault::Mismatch(index, Field::Id));
        },
    };
    let name = match read_text(name) {
        Some(t) => t,
        None => {
            return Err(Fault::Mismatch(index, Field::Name));
        },
    };
    let value = match read_real(value) {
        Some(x) => x,
        None => {
            return Err(Fault::Mismatch(index, Field::Value));
        },
    };
    let active = match read_flag(active) {
        Some(b) => b,
        None => {
            return Err(Fault::Mismatch(index, Field::Active));
        },
    };
    Ok(Record { id, name, value, active })
}

/// Reads the record that entry `index` of a list stands for.
fn read_item(index: usize, item: &Node) -> (r: Result<Record, Fault>)
    ensures
        read_one_view(r) == item_record(index, item@),
{
    match item {
        Node::Table(entries) => {
            proof {
                Node::lemma_table_view(*entries);
            }
            read_record(index, entries)
        },
        _ => Err(Fault::NotATable(index)),
    }
}

/// Reads the records that the items of a list stand for.
fn read_list(items: &Vec<Node>) -> (r: Result<Vec<Record>, Fault>)
    ensures
        read_view(r) == list_records(nodes_view(items@)),
{
    let ghost all = nodes_view(items@);
    let mut records: Vec<Record> = Vec::new();
    let mut i: usize = 0;
    assert(all.take(0) == Seq::<Doc>::empty());
    assert(records_view(records@) == Seq::<RecordView>::empty());
    while i < items.len()
        invariant
            i <= items.len(),
            all == nodes_view(items@),
            list_records(all.take(i as int)) == Ok::<Seq<RecordView>, Fault>(
                records_view(records@),
            ),
        decreases items.len() - i,
    {
        proof {
            let next = all.take(i + 1);
            assert(next.drop_last() == all.take(i as int));
            assert(next.last() == items@[i as int]@);
        }
        match read_item(i, &items[i]) {
            Err(fault) => {
                proof {
                    lemma_fault_stays(all, i + 1);
                }
                return Err(fault);
            },
            Ok(record) => {
                let ghost before = records_view(records@);
                records.push(record);
                assert(records_view(records@) == before.push(record@));
            },
        }
        i += 1;
    }
    proof {
        assert(all.take(i as int) == all);
    }
    Ok(records)
}

/// A fault among the first `k` items of a list is the fault of the list.
pub proof fn lemma_fault_stays(items: Seq<Doc>, k: int)
    requires
        0 <= k <= items.len(),
        list_records(items.take(k)) is Err,
    ensures
        list_records(items) == list_records(items.take(k)),
    decreases items.len(),
{
    if k == items.len() {
        assert(items.take(k) == items);
    } else {
        assert(items.drop_last().take(k) == items.take(k));
        lemma_fault_stays(items.drop_last(), k);
    }
}

/// Reads the records that a list of tables stands for.
fn read_records(node: &Node) -> (r: Result<Vec<Record>, Fault>)
    ensures
        read_view(r) == records_of(node@),
{
    match node {
        Node::List(items) => {
            proof {
                Node::lemma_list_view(*items);
            }
            read_list(items)
        },
        _ => Err(Fault::NotAList),
    }
}

/// Reads the records that a document of the given format stands for.
pub fn read_document(format: Format, node: &Node) -> (r: Result<Vec<Record>, Fault>)
    ensures
        read_view(r) == document_records(format, node@),
{
    match format {
        Format::Toml => match node {
            Node::Table(entries) => {
                proof {
                    Node::lemma_table_view(*entries);
                }
                match find(entries, "records") {
                    Some(list) => read_records(list),
                    None => Err(Fault::NoRecordsKey),
                }
            },
            _ => Err(Fault::NoRecordsKey),
        },
        _ => read_records(node),
    }
}

/// The node that holds the text `s`.
fn text_node(s: &str) -> (node: Node)
    ensures
        node@ == Doc::Text(s@),
{
    Node::Text(s.to_owned())
}

/// Builds the table that stands for a record.
fn write_record(record: &Record) -> (node: Node)
    ensures
        node@ == record_doc(record@),
{
    let digits = numeral_chars(record.id as u64);
    let mut entries: Vec<(Node, Node)> = Vec::new();
    entries.push((text_node(Field::Id.label()), Node::Number(text_of(&digits))));
    entries.push((text_node(Field::Name.label()), Node::Text(record.name.clone())));
    entries.push((text_node(Field::Value.label()), Node::Number(record.value.text().to_owned())));
    entries.push((text_node(Field::Active.label()), Node::Flag(record.active)));
    proof {
        Node::lemma_table_view(entries);
        assert(entries_view(entries@) == record_doc(record@)->Table_0);
    }
    Node::Table(entries)
}

/// Builds the list that stands for a sequence of records.
fn write_records(records: &[Record]) -> (node: Node)
    ensures
        node@ == records_doc(records_view(records@)),
{
    let mut items: Vec<Node> = Vec::new();
    let mut i: usize = 0;
    while i < records.len()
        invariant
            i <= records.len(),
            items@.len() == i,
            forall|j: int| 0 <= j < i ==> (#[trigger] items@[j])@ == record_doc(records@[j]@),
        decreases records.len() - i,
    {
        items.push(write_record(&records[i]));
        i += 1;
    }
    proof {
        Node::lemma_list_view(items);
        assert(nodes_view(items@) == records_doc(records_view(records@))->List_0);
    }
    Node::List(items)
}

/// Builds the document of the given format that stands for a sequence of
/// records.
pub fn write_document(format: Format, records: &[Record]) -> (node: Node)
    ensures
        node@ == document(format, records_view(records@)),
{
    let list = write_records(records);
    match format {
        Format::Toml => {
            let mut entries: Vec<(Node, Node)> = Vec::new();
            entries.push((text_node("records"), list));
            proof {
                Node::lemma_table_view(entries);
                assert(entries_view(entries@) == document(
                    format,
                    records_view(records@),
                )->Table_0);
            }
            Node::Table(entries)
        },
        _ => list,
    }
}

/// Records come out in the order of the items: where a list stands for
/// records, there is one record for each item, and each record is the one
/// that the item at its place stands for.
pub proof fn lemma_records_in_order(items: Seq<Doc>)
    requires
        list_records(items) is Ok,
    ensures
        list_records(items)->Ok_0.len() == items.len(),
        forall|i: int|
            0 <= i < items.len() ==> item_record(i as usize, #[trigger] items[i]) == Ok::<
                RecordView,
                Fault,
            >(list_records(items)->Ok_0[i]),
    decreases items.len(),
{
    if items.len() > 0 {
        lemma_records_in_order(items.drop_last());
        let shorter = list_records(items.drop_last())->Ok_0;
        assert forall|i: int| 0 <= i < items.len() implies item_record(
            i as usize,
            #[trigger] items[i],
        ) == Ok::<RecordView, Fault>(list_records(items)->Ok_0[i]) by {
            if i < items.len() - 1 {
                assert(items.drop_last()[i] == items[i]);
                assert(list_records(items)->Ok_0[i] == shorter[i]);
            }
        }
    }
}

/// The table that stands for a record is read back as that record.
pub proof fn lemma_record_round_trip(index: usize, r: RecordView)
    requires
        is_plain(r.value),
    ensures
        item_record(index, record_doc(r)) == Ok::<RecordView, Fault>(r),
{
    let entries = record_doc(r)->Table_0;
    Field::lemma_names_differ(Field::Id, Field::Name);
    Field::lemma_names_differ(Field::Id, Field::Value);
    Field::lemma_names_differ(Field::Id, Field::Active);
    Field::lemma_names_differ(Field::Name, Field::Value);
    Field::lemma_names_differ(Field::Name, Field::Active);
    Field::lemma_names_differ(Field::Value, Field::Active);
    let rest1 = entries.drop_first();
    let rest2 = rest1.drop_first();
    let rest3 = rest2.drop_first();
    assert(rest1[0] == entries[1]);
    assert(rest2[0] == entries[2]);
    assert(rest3[0] == entries[3]);
    assert(entry_value(entries, Field::Id.name_spec()) == Some(entries[0].1));
    assert(entry_value(rest1, Field::Name.name_spec()) == Some(entries[1].1));
    assert(entry_value(entries, Field::Name.name_spec()) == Some(entries[1].1));
    assert(entry_value(rest2, Field::Value.name_spec()) == Some(entries[2].1));
    assert(entry_value(rest1, Field::Value.name_spec()) == Some(entries[2].1));
    assert(entry_value(entries, Field::Value.name_spec()) == Some(entries[2].1));
    assert(entry_value(rest3, Field::Active.name_spec()) == Some(entries[3].1));
    assert(entry_value(rest2, Field::Active.name_spec()) == Some(entries[3].1));
    assert(entry_value(rest1, Field::Active.name_spec()) == Some(entries[3].1));
    assert(entry_value(entries, Field::Active.name_spec()) == Some(entries[3].1));
    lemma_parse_numeral(r.id);
}

/// The list that stands for a sequence of records is read back as that
/// sequence.
pub proof fn lemma_records_round_trip(records: Seq<RecordView>)
    requires
        values_plain(records),
    ensures
        records_of(records_doc(records)) == Ok::<Seq<RecordView>, Fault>(records),
    decreases records.len(),
{
    let items = records_doc(records)->List_0;
    if records.len() == 0 {
        assert(records == Seq::<RecordView>::empty());
    } else {
        let shorter = records.drop_last();
        assert(items.drop_last() == records_doc(shorter)->List_0);
        lemma_records_round_trip(shorter);
        lemma_record_round_trip((items.len() - 1) as usize, records.last());
        assert(items.last() == record_doc(records.last()));
        assert(shorter.push(records.last()) == records);
    }
}

/// Reading the document that is written for a sequence of records yields
/// that sequence, in every format that is held as a document.
pub proof fn lemma_document_round_trip(format: Format, records: Seq<RecordView>)
    requires
        values_plain(records),
    ensures
        document_records(format, document(format, records)) == Ok::<Seq<RecordView>, Fault>(
            records,
        ),
{
    lemma_records_round_trip(records);
    if format == Format::Toml {
        let entries = document(format, records)->Table_0;
        assert(entry_value(entries, records_key()) == Some(records_doc(records)));
    }
}

} // verus!
