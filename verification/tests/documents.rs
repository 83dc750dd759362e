use record_convert::convert::{decode_document, decode_sheet};
use record_convert::csv_codec::{read_csv, write_csv};
use record_convert::document::Node;
use record_convert::error::{ConversionError, Fault};
use record_convert::format::Format;
use record_convert::json_codec::{read_json, write_json};
use record_convert::literal::Real;
use record_convert::record::{Field, Record};
use record_convert::schema::{read_document, write_document};
use record_convert::sheet::{read_sheet, write_sheet};
use record_convert::toml_codec::{read_toml, write_toml};
use record_convert::yaml_codec::{read_yaml, write_yaml};

fn text(s: &str) -> Node {
    Node::Text(s.to_string())
}

fn number(s: &str) -> Node {
    Node::Number(s.to_string())
}

fn table(id: Node, name: Node, value: Node, active: Node) -> Node {
    Node::Table(vec![
        (text("id"), id),
        (text("name"), name),
        (text("value"), value),
        (text("active"), active),
    ])
}

fn alice() -> Record {
    Record { id: 1, name: "Alice".to_string(), value: Real::parse("12.34").unwrap(), active: true }
}

fn alice_table() -> Node {
    table(number("1"), text("Alice"), number("12.34"), Node::Flag(true))
}

fn row(cells: [&str; 4]) -> Vec<String> {
    cells.iter().map(|c| c.to_string()).collect()
}

fn same(a: &Node, b: &Node) -> bool {
    format!("{:?}", a) == format!("{:?}", b)
}

#[test]
fn json_text_is_read_as_a_document() {
    let node = read_json("[1, 2.5, \"x\", true, null, {\"k\": [], \"a\": -3}]").unwrap();
    let expected = Node::List(vec![
        number("1"),
        number("2.5"),
        text("x"),
        Node::Flag(true),
        Node::Null,
        Node::Table(vec![(text("k"), Node::List(vec![])), (text("a"), number("-3"))]),
    ]);
    assert!(same(&node, &expected), "{:?}", node);
}

#[test]
fn json_text_that_is_malformed_is_a_json_failure() {
    assert_eq!(
        read_json("[1").unwrap_err(),
        ConversionError::Json("EOF while parsing a list at line 1 column 2".to_string())
    );
}

#[test]
fn json_document_is_written_pretty() {
    let node = Node::List(vec![
        number("12.340"),
        number("7"),
        text("x"),
        Node::Flag(false),
        Node::Null,
        Node::Table(vec![(text("k"), Node::List(vec![]))]),
    ]);
    assert_eq!(
        write_json(&node).unwrap(),
        "[\n  12.34,\n  7,\n  \"x\",\n  false,\n  null,\n  {\n    \"k\": []\n  }\n]"
    );
}

#[test]
fn json_cannot_hold_what_is_no_json() {
    let unsupported = ConversionError::UnsupportedRepresentation(Format::Json);
    assert_eq!(write_json(&Node::Date("1979-05-27".to_string())).unwrap_err(), unsupported);
    assert_eq!(write_json(&number("abc")).unwrap_err(), unsupported);
    assert_eq!(write_json(&number(".5")).unwrap_err(), unsupported);
    assert_eq!(write_json(&number("\"x\"")).unwrap_err(), unsupported);
    let keyed = Node::Table(vec![(number("1"), Node::Null)]);
    assert_eq!(write_json(&keyed).unwrap_err(), unsupported);
    let tagged = Node::Tagged("!t".to_string(), Box::new(Node::Null));
    assert_eq!(write_json(&Node::List(vec![tagged])).unwrap_err(), unsupported);
}

#[test]
fn yaml_text_is_read_as_a_document() {
    let node = read_yaml("- 1\n- 2.5\n- x\n- true\n- ~\n- k: []\n  3: z\n- !tag v\n- .inf\n").unwrap();
    let expected = Node::List(vec![
        number("1"),
        number("2.5"),
        text("x"),
        Node::Flag(true),
        Node::Null,
        Node::Table(vec![(text("k"), Node::List(vec![])), (number("3"), text("z"))]),
        Node::Tagged("!tag".to_string(), Box::new(text("v"))),
        number(".inf"),
    ]);
    assert!(same(&node, &expected), "{:?}", node);
}

#[test]
fn yaml_text_that_is_malformed_is_a_yaml_failure() {
    assert!(matches!(read_yaml("- a\n b: [").unwrap_err(), ConversionError::Yaml(_)));
}

#[test]
fn yaml_document_is_written_in_block_style() {
    let node = Node::List(vec![
        number("12.340"),
        number("7"),
        text("x"),
        text("7"),
        Node::Flag(false),
        Node::Null,
        Node::Table(vec![(text("k"), text("v")), (number("2"), Node::List(vec![]))]),
    ]);
    assert_eq!(
        write_yaml(&node).unwrap(),
        "- 12.34\n- 7\n- x\n- '7'\n- false\n- null\n- k: v\n  2: []\n"
    );
}

#[test]
fn yaml_cannot_hold_what_cannot_be_built() {
    let unsupported = ConversionError::UnsupportedRepresentation(Format::Yaml);
    assert_eq!(write_yaml(&Node::Date("1979-05-27".to_string())).unwrap_err(), unsupported);
    assert_eq!(write_yaml(&number("abc")).unwrap_err(), unsupported);
    let tagged = Node::Tagged("!t".to_string(), Box::new(Node::Null));
    assert_eq!(write_yaml(&tagged).unwrap_err(), unsupported);
}

#[test]
fn toml_text_is_read_as_a_document() {
    let node = read_toml("a = 1\nb = 2.5\nc = \"x\"\nd = true\ne = 1979-05-27\nf = [1, 2]\n[g]\nh = 1.0\n").unwrap();
    let expected = Node::Table(vec![
        (text("a"), number("1")),
        (text("b"), number("2.5")),
        (text("c"), text("x")),
        (text("d"), Node::Flag(true)),
        (text("e"), Node::Date("1979-05-27".to_string())),
        (text("f"), Node::List(vec![number("1"), number("2")])),
        (text("g"), Node::Table(vec![(text("h"), number("1.0"))])),
    ]);
    assert!(same(&node, &expected), "{:?}", node);
}

#[test]
fn toml_text_that_is_malformed_is_a_toml_decode_failure() {
    assert!(matches!(read_toml("a = ").unwrap_err(), ConversionError::TomlDe(_)));
}

#[test]
fn toml_document_is_written_pretty() {
    let node = Node::Table(vec![
        (text("a"), number("12.340")),
        (text("b"), number("7")),
        (text("c"), text("x")),
        (text("d"), Node::Flag(false)),
        (text("e"), Node::List(vec![number("1"), number("2")])),
    ]);
    assert_eq!(
        write_toml(&node).unwrap(),
        "a = 12.34\nb = 7\nc = \"x\"\nd = false\ne = [\n    1,\n    2,\n]\n"
    );
}

#[test]
fn toml_document_that_is_no_table_is_a_toml_encode_failure() {
    assert!(matches!(write_toml(&text("x")).unwrap_err(), ConversionError::TomlSer(_)));
    assert!(matches!(write_toml(&Node::List(vec![])).unwrap_err(), ConversionError::TomlSer(_)));
}

#[test]
fn toml_cannot_hold_what_is_no_toml() {
    let unsupported = ConversionError::UnsupportedRepresentation(Format::Toml);
    assert_eq!(write_toml(&Node::Null).unwrap_err(), unsupported);
    let with_null = Node::Table(vec![(text("a"), Node::Null)]);
    assert_eq!(write_toml(&with_null).unwrap_err(), unsupported);
    let keyed = Node::Table(vec![(number("1"), number("1"))]);
    assert_eq!(write_toml(&keyed).unwrap_err(), unsupported);
    let bad_number = Node::Table(vec![(text("a"), number("1.2.3"))]);
    assert_eq!(write_toml(&bad_number).unwrap_err(), unsupported);
}

#[test]
fn csv_text_is_read_as_rows_with_the_header_first() {
    let rows = read_csv("id,name\n1,\"a,b\"\n\n2,\"say \"\"hi\"\"\"\n").unwrap();
    assert_eq!(
        rows,
        vec![
            vec!["id".to_string(), "name".to_string()],
            vec!["1".to_string(), "a,b".to_string()],
            vec!["2".to_string(), "say \"hi\"".to_string()],
        ]
    );
}

#[test]
fn csv_text_with_rows_of_unequal_length_is_a_csv_failure() {
    assert_eq!(
        read_csv("a,b\n1\n").unwrap_err(),
        ConversionError::Csv(
            "CSV error: record 1 (line: 2, byte: 4): found record with 1 fields, but the previous record has 2 fields"
                .to_string()
        )
    );
}

#[test]
fn csv_rows_are_written_with_quotes_where_needed() {
    let rows = vec![
        vec!["id".to_string(), "name".to_string()],
        vec!["1".to_string(), "a,b".to_string()],
        vec!["2".to_string(), "say \"hi\"".to_string()],
        vec!["3".to_string(), "two\nlines".to_string()],
    ];
    assert_eq!(write_csv(&rows).unwrap(), "id,name\n1,\"a,b\"\n2,\"say \"\"hi\"\"\"\n3,\"two\nlines\"\n");
    assert_eq!(read_csv(&write_csv(&rows).unwrap()).unwrap(), rows);
}

#[test]
fn csv_writer_refuses_a_row_of_another_length() {
    let rows = vec![
        vec!["a".to_string(), "b".to_string()],
        vec!["1".to_string()],
    ];
    assert_eq!(
        write_csv(&rows).unwrap_err(),
        ConversionError::Csv(
            "CSV error: found record with 1 fields, but the previous record has 2 fields"
                .to_string()
        )
    );
}

#[test]
fn no_rows_are_written_as_no_text() {
    assert_eq!(write_csv(&vec![]).unwrap(), "");
}

#[test]
fn document_of_records_is_a_list_of_tables_in_declared_order() {
    let node = write_document(Format::Json, &[alice()]);
    assert!(same(&node, &Node::List(vec![alice_table()])), "{:?}", node);
    let node = write_document(Format::Yaml, &[alice()]);
    assert!(same(&node, &Node::List(vec![alice_table()])), "{:?}", node);
}

#[test]
fn toml_document_holds_the_list_under_the_records_key() {
    let node = write_document(Format::Toml, &[alice()]);
    let expected = Node::Table(vec![(text("records"), Node::List(vec![alice_table()]))]);
    assert!(same(&node, &expected), "{:?}", node);
}

#[test]
fn document_is_read_back_as_the_records() {
    for format in [Format::Json, Format::Yaml, Format::Toml] {
        let records = vec![alice(), alice()];
        let node = write_document(format, &records);
        assert_eq!(read_document(format, &node).unwrap(), records);
        assert_eq!(decode_document(format, &node).unwrap(), records);
    }
}

#[test]
fn document_faults_are_told_apart() {
    let json = Format::Json;
    assert_eq!(read_document(json, &Node::Null).unwrap_err(), Fault::NotAList);
    assert_eq!(read_document(json, &alice_table()).unwrap_err(), Fault::NotAList);
    let list = |item: Node| Node::List(vec![alice_table(), item]);
    assert_eq!(read_document(json, &list(text("x"))).unwrap_err(), Fault::NotATable(1));
    assert_eq!(read_document(json, &list(Node::List(vec![]))).unwrap_err(), Fault::NotATable(1));
    let without = |key: &str| {
        let kept = [("id", number("1")), ("name", text("A")), ("value", number("1.5")), ("active", Node::Flag(true))]
            .into_iter()
            .filter(|(k, _)| *k != key)
            .map(|(k, v)| (text(k), v))
            .collect();
        list(Node::Table(kept))
    };
    assert_eq!(read_document(json, &without("id")).unwrap_err(), Fault::Missing(1, Field::Id));
    assert_eq!(read_document(json, &without("name")).unwrap_err(), Fault::Missing(1, Field::Name));
    assert_eq!(read_document(json, &without("value")).unwrap_err(), Fault::Missing(1, Field::Value));
    assert_eq!(read_document(json, &without("active")).unwrap_err(), Fault::Missing(1, Field::Active));
    let surplus = Node::Table(vec![
        (text("id"), number("1")),
        (text("name"), text("A")),
        (text("value"), number("1.5")),
        (text("active"), Node::Flag(true)),
        (text("child"), Node::List(vec![])),
    ]);
    assert_eq!(read_document(json, &list(surplus)).unwrap_err(), Fault::Surplus(1));
    let wrong_id = table(number("1.0"), text("A"), number("1.5"), Node::Flag(true));
    assert_eq!(read_document(json, &list(wrong_id)).unwrap_err(), Fault::Mismatch(1, Field::Id));
    let negative_id = table(number("-1"), text("A"), number("1.5"), Node::Flag(true));
    assert_eq!(read_document(json, &list(negative_id)).unwrap_err(), Fault::Mismatch(1, Field::Id));
    let large_id = table(number("4294967296"), text("A"), number("1.5"), Node::Flag(true));
    assert_eq!(read_document(json, &list(large_id)).unwrap_err(), Fault::Mismatch(1, Field::Id));
    let text_id = table(text("1"), text("A"), number("1.5"), Node::Flag(true));
    assert_eq!(read_document(json, &list(text_id)).unwrap_err(), Fault::Mismatch(1, Field::Id));
    let wrong_name = table(number("1"), number("2"), number("1.5"), Node::Flag(true));
    assert_eq!(read_document(json, &list(wrong_name)).unwrap_err(), Fault::Mismatch(1, Field::Name));
    let wrong_value = table(number("1"), text("A"), text("1.5"), Node::Flag(true));
    assert_eq!(read_document(json, &list(wrong_value)).unwrap_err(), Fault::Mismatch(1, Field::Value));
    let infinite = table(number("1"), text("A"), number(".inf"), Node::Flag(true));
    assert_eq!(read_document(json, &list(infinite)).unwrap_err(), Fault::Mismatch(1, Field::Value));
    let wrong_active = table(number("1"), text("A"), number("1.5"), text("true"));
    assert_eq!(read_document(json, &list(wrong_active)).unwrap_err(), Fault::Mismatch(1, Field::Active));
    let null_active = table(number("1"), text("A"), number("1.5"), Node::Null);
    assert_eq!(read_document(json, &list(null_active)).unwrap_err(), Fault::Mismatch(1, Field::Active));
}

#[test]
fn first_fault_in_order_is_reported() {
    let first = Node::Table(vec![(text("name"), number("2"))]);
    let second = text("x");
    let node = Node::List(vec![first, second]);
    assert_eq!(read_document(Format::Yaml, &node).unwrap_err(), Fault::Missing(0, Field::Id));
    let surplus_and_wrong = Node::Table(vec![
        (text("id"), text("x")),
        (text("name"), text("A")),
        (text("value"), number("1.5")),
        (text("active"), Node::Flag(true)),
        (text("more"), Node::Null),
    ]);
    let node = Node::List(vec![surplus_and_wrong]);
    assert_eq!(read_document(Format::Yaml, &node).unwrap_err(), Fault::Surplus(0));
}

#[test]
fn first_entry_of_a_name_counts() {
    let doubled = Node::Table(vec![
        (text("id"), number("1")),
        (text("id"), number("2")),
        (text("name"), text("A")),
        (text("value"), number("1.5")),
        (text("active"), Node::Flag(true)),
    ]);
    let node = Node::List(vec![doubled]);
    assert_eq!(read_document(Format::Yaml, &node).unwrap_err(), Fault::Surplus(0));
}

#[test]
fn toml_document_faults_are_told_apart() {
    let toml = Format::Toml;
    assert_eq!(read_document(toml, &Node::List(vec![])).unwrap_err(), Fault::NoRecordsKey);
    assert_eq!(read_document(toml, &Node::Table(vec![])).unwrap_err(), Fault::NoRecordsKey);
    let other_key = Node::Table(vec![(text("items"), Node::List(vec![]))]);
    assert_eq!(read_document(toml, &other_key).unwrap_err(), Fault::NoRecordsKey);
    let no_list = Node::Table(vec![(text("records"), number("3"))]);
    assert_eq!(read_document(toml, &no_list).unwrap_err(), Fault::NotAList);
    let beside = Node::Table(vec![
        (text("title"), text("t")),
        (text("records"), Node::List(vec![alice_table()])),
    ]);
    assert_eq!(read_document(toml, &beside).unwrap(), vec![alice()]);
}

#[test]
fn document_fault_becomes_a_failure_of_reading_the_format() {
    assert_eq!(
        decode_document(Format::Json, &Node::Null).unwrap_err(),
        ConversionError::Json("the records are not given as a list".to_string())
    );
    assert_eq!(
        decode_document(Format::Yaml, &Node::Null).unwrap_err(),
        ConversionError::Yaml("the records are not given as a list".to_string())
    );
    assert_eq!(
        decode_document(Format::Toml, &Node::Null).unwrap_err(),
        ConversionError::TomlDe("the key `records` is missing".to_string())
    );
}

#[test]
fn sheet_of_records_has_the_header_and_one_row_each() {
    assert_eq!(
        write_sheet(&[alice()]),
        vec![row(["id", "name", "value", "active"]), row(["1", "Alice", "12.34", "true"])]
    );
    assert_eq!(write_sheet(&[]), vec![row(["id", "name", "value", "active"])]);
}

#[test]
fn sheet_is_read_back_as_the_records() {
    let records = vec![alice(), alice()];
    assert_eq!(read_sheet(&write_sheet(&records)).unwrap(), records);
    assert_eq!(decode_sheet(&write_sheet(&records)).unwrap(), records);
}

#[test]
fn sheet_faults_are_told_apart() {
    assert_eq!(read_sheet(&vec![]).unwrap_err(), Fault::NoHeader);
    let header = row(["id", "name", "value", "active"]);
    let with = |cells: Vec<&str>| {
        vec![header.clone(), row(["1", "A", "1.5", "true"]), cells.iter().map(|c| c.to_string()).collect()]
    };
    assert_eq!(read_sheet(&with(vec!["1", "A", "1.5"])).unwrap_err(), Fault::Ragged(2));
    assert_eq!(read_sheet(&with(vec!["1", "A", "1.5", "true", "x"])).unwrap_err(), Fault::Ragged(2));
    assert_eq!(read_sheet(&with(vec![])).unwrap_err(), Fault::Ragged(2));
    assert_eq!(read_sheet(&with(vec!["x", "A", "1.5", "true"])).unwrap_err(), Fault::Mismatch(2, Field::Id));
    assert_eq!(read_sheet(&with(vec!["", "A", "1.5", "true"])).unwrap_err(), Fault::Mismatch(2, Field::Id));
    assert_eq!(read_sheet(&with(vec!["1", "A", "x", "true"])).unwrap_err(), Fault::Mismatch(2, Field::Value));
    assert_eq!(read_sheet(&with(vec!["1", "A", "NaN", "true"])).unwrap_err(), Fault::Mismatch(2, Field::Value));
    assert_eq!(read_sheet(&with(vec!["1", "A", "1.5", "yes"])).unwrap_err(), Fault::Mismatch(2, Field::Active));
    assert_eq!(read_sheet(&with(vec!["1", "A", "1.5", "True"])).unwrap_err(), Fault::Mismatch(2, Field::Active));
    assert_eq!(read_sheet(&with(vec!["1", "", "1.5", "false"])).unwrap().len(), 2);
}

#[test]
fn header_faults_are_told_apart() {
    let body = row(["1", "A", "1.5", "true"]);
    let sheet = |header: Vec<&str>| vec![header.iter().map(|c| c.to_string()).collect(), body.clone()];
    assert_eq!(read_sheet(&sheet(vec!["name", "value", "active"])).unwrap_err(), Fault::Missing(0, Field::Id));
    assert_eq!(read_sheet(&sheet(vec!["id", "value", "active", "x"])).unwrap_err(), Fault::Missing(0, Field::Name));
    assert_eq!(read_sheet(&sheet(vec!["id", "name", "Value", "active"])).unwrap_err(), Fault::Missing(0, Field::Value));
    assert_eq!(read_sheet(&sheet(vec!["id", "name", "value", "id"])).unwrap_err(), Fault::Missing(0, Field::Active));
    assert_eq!(read_sheet(&sheet(vec![])).unwrap_err(), Fault::Missing(0, Field::Id));
    assert_eq!(
        read_sheet(&sheet(vec!["id", "name", "value", "active", "more"])).unwrap_err(),
        Fault::Surplus(0)
    );
    assert_eq!(
        read_sheet(&vec![row(["id", "id", "name", "value"]), row(["active", "", "", ""])]).unwrap_err(),
        Fault::Missing(0, Field::Active)
    );
}

#[test]
fn sheet_fault_becomes_a_csv_failure() {
    assert_eq!(
        decode_sheet(&vec![]).unwrap_err(),
        ConversionError::Csv("the header row is missing".to_string())
    );
    let ragged = vec![row(["id", "name", "value", "active"]), vec!["1".to_string()]];
    assert_eq!(
        decode_sheet(&ragged).unwrap_err(),
        ConversionError::Csv("entry 1 differs from the header in its number of columns".to_string())
    );
}

#[test]
fn node_text_is_handed_out_only_by_a_text() {
    assert_eq!(text("x").as_text(), Some(&"x".to_string()));
    assert_eq!(number("1").as_text(), None);
    assert_eq!(Node::Null.as_text(), None);
}
