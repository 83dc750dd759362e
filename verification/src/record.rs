//! The record and its declared fields.

use vstd::prelude::*;
use crate::literal::{is_plain, Real};

verus! {

/// A field of the record. The fields are declared in this order.
#[derive(Debug, Clone, Copy, PartialEq, Eq, Structural)]
pub enum Field {
    Id,
    Name,
    Value,
    Active,
}

/// The kind of value that a field takes.
#[derive(Debug, Clone, Copy, PartialEq, Eq, Structural)]
pub enum Kind {
    /// An unsigned integer of 32 bits.
    Unsigned,
    /// A text.
    Text,
    /// A real number.
    Real,
    /// True or false.
    Flag,
}

impl Field {
    /// The kind of value that the field takes.
    pub open spec fn kind(self) -> Kind {
        match self {
            Field::Id => Kind::Unsigned,
            Field::Name => Kind::Text,
            Field::Value => Kind::Real,
            Field::Active => Kind::Flag,
        }
    }

    /// The name of the field, the same in every format.
    pub open spec fn name_spec(self) -> Seq<char> {
        match self {
            Field::Id => "id"@,
            Field::Name => "name"@,
            Field::Value => "value"@,
            Field::Active => "active"@,
        }
    }

    /// The name of the field.
    pub fn label(&self) -> (s: &'static str)
        ensures
            s@ == self.name_spec(),
    {
        match self {
            Field::Id => "id",
            Field::Name => "name",
            Field::Value => "value",
            Field::Active => "active",
        }
    }

    /// No two fields share a name.
    pub proof fn lemma_names_differ(a: Field, b: Field)
        ensures
            a.name_spec() == b.name_spec() ==> a == b,
    {
        reveal_strlit("id");
        reveal_strlit("name");
        reveal_strlit("value");
        reveal_strlit("active");
        assert("id"@[0] == 'i');
        assert("name"@[0] == 'n');
        assert("value"@[0] == 'v');
        assert("active"@[0] == 'a');
    }
}

/// The fields in declared order: `id`, `name`, `value`, `active`. Every
/// format lays a record out in this order, under the names of the fields,
/// and takes for each field a value of its kind.
pub open spec fn declared_fields() -> Seq<Field> {
    seq![Field::Id, Field::Name, Field::Value, Field::Active]
}

/// One record: the unit that every format carries. All four fields are
/// there in every record.
#[derive(Debug, PartialEq)]
pub struct Record {
    /// The identifier.
    pub id: u32,
    /// The name, any text.
    pub name: String,
    /// The value, a real number held as its decimal literal.
    pub value: Real,
    /// Whether the record is active.
    pub active: bool,
}

/// What a record holds, as mathematical values.
pub struct RecordView {
    pub id: u32,
    pub name: Seq<char>,
    /// The decimal literal of the value.
    pub value: Seq<char>,
    pub active: bool,
}

impl View for Record {
    type V = RecordView;

    open spec fn view(&self) -> RecordView {
        RecordView { id: self.id, name: self.name@, value: self.value@, active: self.active }
    }
}

impl Clone for Record {
    fn clone(&self) -> (r: Self)
        ensures
            r@ == self@,
    {
        Record {
            id: self.id,
            name: self.name.clone(),
            value: self.value.clone(),
            active: self.active,
        }
    }
}

/// What a sequence of records holds.
pub open spec fn records_view(records: Seq<Record>) -> Seq<RecordView> {
    records.map_values(|r: Record| r@)
}

/// Whether every value of the sequence is a literal in plain form, as it is
/// in every sequence of records that a program holds.
pub open spec fn values_plain(records: Seq<RecordView>) -> bool {
    forall|i: int| 0 <= i < records.len() ==> is_plain(#[trigger] records[i].value)
}

} // verus!
