use record_convert::error::{ConversionError, Fault};
use record_convert::format::Format;
use record_convert::record::{Field, Record};
use record_convert::literal::Real;

#[test]
fn formats_have_their_names() {
    assert_eq!(Format::Json.name(), "Json");
    assert_eq!(Format::Yaml.name(), "Yaml");
    assert_eq!(Format::Csv.name(), "Csv");
    assert_eq!(Format::Toml.name(), "Toml");
    assert_eq!(Format::Toml.label(), "Toml");
}

#[test]
fn formats_are_found_by_their_names() {
    for format in [Format::Json, Format::Yaml, Format::Csv, Format::Toml] {
        assert_eq!(Format::from_name(&format.name()), Some(format));
    }
    assert_eq!(Format::from_name("json"), None);
    assert_eq!(Format::from_name("JSON"), None);
    assert_eq!(Format::from_name(""), None);
    assert_eq!(Format::from_name("Xml"), None);
}

#[test]
fn formats_are_compared_by_their_tag() {
    assert_eq!(Format::Json, Format::Json);
    assert_ne!(Format::Json, Format::Yaml);
    let copy = Format::Csv;
    assert_eq!(copy, Format::Csv);
}

#[test]
fn fields_have_their_names() {
    assert_eq!(Field::Id.label(), "id");
    assert_eq!(Field::Name.label(), "name");
    assert_eq!(Field::Value.label(), "value");
    assert_eq!(Field::Active.label(), "active");
}

#[test]
fn a_copy_of_a_record_is_equal_to_it() {
    let record = Record {
        id: 5,
        name: "Eve".to_string(),
        value: Real::parse("2.5").unwrap(),
        active: false,
    };
    let copy = record.clone();
    assert_eq!(copy, record);
    assert_eq!(copy.id, 5);
    assert_eq!(copy.name, "Eve");
    assert_eq!(copy.value.text(), "2.5");
    assert!(!copy.active);
}

#[test]
fn failures_are_worded_by_their_kind() {
    let m = "m".to_string();
    assert_eq!(ConversionError::Json(m.clone()).message(), "JSON Error: m");
    assert_eq!(ConversionError::Yaml(m.clone()).message(), "YAML Error: m");
    assert_eq!(ConversionError::Csv(m.clone()).message(), "CSV Error: m");
    assert_eq!(ConversionError::TomlDe(m.clone()).message(), "TOML Deserialization Error: m");
    assert_eq!(ConversionError::TomlSer(m.clone()).message(), "TOML Serialization Error: m");
    assert_eq!(ConversionError::Utf8(m.clone()).message(), "UTF8 Error: m");
    assert_eq!(
        ConversionError::UnsupportedRepresentation(Format::Csv).message(),
        "Cannot represent this data structure as Csv"
    );
    assert_eq!(
        ConversionError::EmptyInput(Format::Yaml).message(),
        "Input data for Yaml format is empty"
    );
}

#[test]
fn failures_of_reading_and_writing_go_by_the_format() {
    let m = "m".to_string();
    assert_eq!(ConversionError::reading(Format::Json, m.clone()), ConversionError::Json(m.clone()));
    assert_eq!(ConversionError::reading(Format::Yaml, m.clone()), ConversionError::Yaml(m.clone()));
    assert_eq!(ConversionError::reading(Format::Csv, m.clone()), ConversionError::Csv(m.clone()));
    assert_eq!(ConversionError::reading(Format::Toml, m.clone()), ConversionError::TomlDe(m.clone()));
    assert_eq!(ConversionError::writing(Format::Json, m.clone()), ConversionError::Json(m.clone()));
    assert_eq!(ConversionError::writing(Format::Yaml, m.clone()), ConversionError::Yaml(m.clone()));
    assert_eq!(ConversionError::writing(Format::Csv, m.clone()), ConversionError::Csv(m.clone()));
    assert_eq!(ConversionError::writing(Format::Toml, m.clone()), ConversionError::TomlSer(m.clone()));
}

#[test]
fn faults_are_worded_with_entry_and_field() {
    assert_eq!(Fault::NotAList.message(), "the records are not given as a list");
    assert_eq!(Fault::NoRecordsKey.message(), "the key `records` is missing");
    assert_eq!(Fault::NoHeader.message(), "the header row is missing");
    assert_eq!(Fault::NotATable(0).message(), "entry 0 is not a table of fields");
    assert_eq!(Fault::Missing(12, Field::Id).message(), "entry 12 lacks the field `id`");
    assert_eq!(Fault::Surplus(3).message(), "entry 3 holds more than the four fields");
    assert_eq!(
        Fault::Mismatch(7, Field::Active).message(),
        "entry 7 holds no value of the right kind in the field `active`"
    );
    assert_eq!(
        Fault::Ragged(1000).message(),
        "entry 1000 differs from the header in its number of columns"
    );
}
