use record_convert::decimal::{numeral_chars, parse_field_u32, parse_u32};
use record_convert::literal::Real;
use record_convert::text::{
    append_text, char_is_space, chars_of, same_text, sanitize, str_is_blank,
};

fn numeral(n: u64) -> String {
    numeral_chars(n).into_iter().collect()
}

#[test]
fn white_space_is_what_the_standard_library_calls_white_space() {
    for code in 0..=0x10FFFFu32 {
        if let Some(c) = char::from_u32(code) {
            assert_eq!(char_is_space(c), c.is_whitespace(), "U+{:04X}", code);
        }
    }
}

#[test]
fn blank_texts_are_those_that_trim_to_nothing() {
    let texts = ["", " ", "\n", " \t \r\n", "\u{85}\u{2028}", "a", "  a  ", "\u{200b}", " . ", "\u{feff}"];
    for text in texts {
        assert_eq!(str_is_blank(text), text.trim().is_empty(), "{:?}", text);
    }
}

#[test]
fn characters_come_out_in_order() {
    assert_eq!(chars_of("a✓b"), vec!['a', '✓', 'b']);
    assert_eq!(chars_of(""), Vec::<char>::new());
}

#[test]
fn text_is_appended_character_by_character() {
    let mut out = vec!['x'];
    append_text(&mut out, "yz");
    assert_eq!(out, vec!['x', 'y', 'z']);
}

#[test]
fn texts_are_compared_by_their_characters() {
    assert!(same_text("id", "id"));
    assert!(!same_text("id", "Id"));
    assert!(!same_text("id", "id "));
    assert!(same_text("", ""));
}

#[test]
fn line_breaks_give_way_to_blanks() {
    assert_eq!(sanitize("a\nb\rc\r\nd"), "a b c  d");
    assert_eq!(sanitize("plain text"), "plain text");
    assert_eq!(sanitize(""), "");
    let text = "Ünï\ncode\r";
    assert_eq!(sanitize(text), text.replace("\n", " ").replace("\r", " "));
}

#[test]
fn numerals_are_those_of_the_standard_library() {
    for n in [0u64, 1, 9, 10, 11, 99, 100, 101, 4294967295, 4294967296, u64::MAX] {
        assert_eq!(numeral(n), n.to_string());
    }
}

#[test]
fn numeral_of_a_small_number_is_exact() {
    assert_eq!(numeral_chars(0), vec!['0']);
    assert_eq!(numeral_chars(7), vec!['7']);
    assert_eq!(numeral_chars(1203), vec!['1', '2', '0', '3']);
}

#[test]
fn unsigned_integers_are_read_from_digits_alone() {
    assert_eq!(parse_u32("0"), Some(0));
    assert_eq!(parse_u32("42"), Some(42));
    assert_eq!(parse_u32("007"), Some(7));
    assert_eq!(parse_u32("4294967295"), Some(4294967295));
    assert_eq!(parse_u32("4294967296"), None);
    assert_eq!(parse_u32("99999999999999999999999999"), None);
    assert_eq!(parse_u32(""), None);
    assert_eq!(parse_u32("+1"), None);
    assert_eq!(parse_u32("-1"), None);
    assert_eq!(parse_u32("1.0"), None);
    assert_eq!(parse_u32(" 1"), None);
    assert_eq!(parse_u32("1 "), None);
    assert_eq!(parse_u32("١"), None);
}

#[test]
fn a_field_may_carry_one_plus_sign() {
    assert_eq!(parse_field_u32("+17"), Some(17));
    assert_eq!(parse_field_u32("17"), Some(17));
    assert_eq!(parse_field_u32("++17"), None);
    assert_eq!(parse_field_u32("+"), None);
    assert_eq!(parse_field_u32("-17"), None);
    assert_eq!(parse_field_u32(""), None);
}

#[test]
fn fields_are_read_as_the_standard_library_reads_decimal_integers() {
    let texts = [
        "0", "1", "+1", "-1", "00012", "4294967295", "4294967296", "+4294967295", "12a", "a12",
        "", "+", " 5", "5 ", "1_000", "1e3", "٣",
    ];
    for text in texts {
        assert_eq!(parse_field_u32(text), text.parse::<u32>().ok(), "{:?}", text);
    }
}

#[test]
fn reading_a_numeral_gives_the_number_back() {
    for n in [0u32, 5, 10, 1234567, u32::MAX] {
        let text = numeral(n as u64);
        assert_eq!(parse_u32(&text), Some(n));
        assert_eq!(parse_field_u32(&text), Some(n));
    }
}

#[test]
fn plain_forms_are_exact() {
    let cases = [
        ("12.34", "12.34"),
        ("99", "99.0"),
        ("+07.", "7.0"),
        (".5", "0.5"),
        ("-.5", "-0.5"),
        ("5.", "5.0"),
        ("000", "0.0"),
        ("-0", "-0.0"),
        ("+0.000", "0.0"),
        ("0012.3400", "12.34"),
        ("100200", "100200.0"),
        ("100.200", "100.2"),
        ("1e5", "100000.0"),
        ("1E+5", "100000.0"),
        ("1e0", "1.0"),
        ("1e-0", "1.0"),
        ("1.5e1", "15.0"),
        ("1.5e001", "15.0"),
        ("2.5e-3", "0.0025"),
        (".5E07", "5000000.0"),
        ("123.456e2", "12345.6"),
        ("123.456e3", "123456.0"),
        ("123.456e4", "1234560.0"),
        ("123.456e-2", "1.23456"),
        ("123.456e-3", "0.123456"),
        ("123.456e-4", "0.0123456"),
        ("-1e-3", "-0.001"),
        ("0e5", "0.0"),
        ("0.0e-5", "0.0"),
        ("-0.000e-7", "-0.0"),
        ("1200e-2", "12.0"),
        ("0.0012e2", "0.12"),
        ("1e+22", "10000000000000000000000.0"),
    ];
    for (text, plain) in cases {
        assert_eq!(Real::parse(text).unwrap().text(), plain, "{:?}", text);
    }
}

#[test]
fn the_largest_number_of_floating_point_is_written_out() {
    let plain = Real::parse("1.7976931348623157e308").unwrap();
    let expected = format!("17976931348623157{}.0", "0".repeat(292));
    assert_eq!(plain.text(), expected);
    assert_eq!(plain.text().parse::<f64>().unwrap(), f64::MAX);
    let least = Real::parse("5e-324").unwrap();
    assert_eq!(least.text(), format!("0.{}5", "0".repeat(323)));
    assert_eq!(least.text().parse::<f64>().unwrap().to_bits(), 1);
}

#[test]
fn an_exponent_may_be_as_large_as_the_limit() {
    let up = Real::parse("1e1000").unwrap();
    assert_eq!(up.text().len(), 1003);
    assert!(up.text().starts_with("1000"));
    assert!(up.text().ends_with("000.0"));
    let down = Real::parse("1e-1000").unwrap();
    assert_eq!(down.text().len(), 1002);
    assert!(down.text().starts_with("0.000"));
    assert!(down.text().ends_with("0001"));
    assert!(Real::parse("1e1001").is_none());
    assert!(Real::parse("1e-1001").is_none());
    assert!(Real::parse("0e99999999999999999999999999").is_none());
    assert!(Real::parse("1e+0000000000000000000000000000000000000001").is_some());
}

#[test]
fn what_is_no_decimal_literal_is_refused() {
    let texts = [
        "", " ", "+", "-", ".", "+.", "e5", ".e5", "1e", "1e+", "1e-", "1.2.3", "1,5", " 1", "1 ",
        "abc", "1a", "0x10", "--1", "+-1", "1e5.0", "1e 5", "NaN", "nan", "inf", "-inf",
        "infinity", ".nan", ".inf", "1_000", "١",
    ];
    for text in texts {
        assert!(Real::parse(text).is_none(), "{:?}", text);
    }
}

#[test]
fn a_plain_form_stays_as_it_is() {
    for text in ["12.34", "99", "+07.", ".5", "1e5", "-0", "3.E-2", "120.0210e-2"] {
        let once = Real::parse(text).unwrap();
        let twice = Real::parse(once.text()).unwrap();
        assert_eq!(once, twice);
    }
}

#[test]
fn literals_mean_what_the_standard_library_takes_them_to_mean() {
    let texts = [
        "12.34", "99", "+07.", ".5", "-.5", "5.", "1e5", "1E+5", "2.5e-3", "-0", "0.1", "1e-7",
        "123456789012345678901234567890", "0.000000000000000000001", "1.7976931348623157e308",
    ];
    for text in texts {
        let expected: f64 = text.parse().unwrap();
        let plain: f64 = Real::parse(text).unwrap().text().parse().unwrap();
        assert_eq!(plain.to_bits(), expected.to_bits(), "{:?}", text);
    }
}

#[test]
fn finite_literals_of_the_standard_library_are_accepted() {
    let texts = [
        "1", "+1", "-1", "1.", ".1", "1.1", "1e1", "1E1", "1e+1", "1e-1", "+.1e-1", "-1.e+1", "",
        ".", "e", "+", "1e", "1.e", ".e1", "1 ", " 1", "1f64", "1_0", "0x1", "1..1", "1e1e1",
        "٣.٣",
    ];
    for text in texts {
        let expected = text.parse::<f64>().ok().filter(|x| x.is_finite());
        assert_eq!(Real::parse(text).is_some(), expected.is_some(), "{:?}", text);
    }
}

#[test]
fn a_copy_of_a_real_number_is_equal_to_it() {
    let x = Real::parse("3.5").unwrap();
    assert_eq!(x.clone(), x);
    assert_eq!(x.clone().text(), "3.5");
}
