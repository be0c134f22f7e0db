use mqtt_client::json::{get_text, get_unsigned, to_text, Fields};
use mqtt_client::text::{
    contains, lines, number_text, parse_i8, parse_unsigned, same, same_ignoring_case, split, strip_prefix, trim, truncate,
};
use serde_json::Value;

#[test]
fn white_space_and_parts() {
    assert_eq!(trim("\u{3000} a b\t\n"), "a b");
    assert_eq!(split("a,,b,", ','), vec!["a", "", "b", ""]);
    assert_eq!(split("", ','), vec![""]);
    assert_eq!(strip_prefix("\u{e9}ab", "\u{e9}"), Some("ab"));
    assert_eq!(strip_prefix("a", "ab"), None);
    for t in ["", "a", "a\n", "a\r\nb", "a\n\r", "\n\n", "a\r\r\n"] {
        assert_eq!(lines(t), t.lines().collect::<Vec<_>>());
    }
}

#[test]
fn words_and_letters() {
    assert!(contains("output_pin my_light", "light"));
    assert!(contains("a", "") && !contains("", "a"));
    assert!(same("a\u{e9}", "a\u{e9}") && !same("a", "A"));
    assert!(same_ignoring_case("AbZ", "aBz") && !same_ignoring_case("@", "`"));
}

#[test]
fn numbers_are_read_and_written() {
    assert_eq!(number_text(0), "0");
    assert_eq!(number_text(u64::MAX), u64::MAX.to_string());
    for t in ["0", "+7", "65535", "65536", "", "+", "-1", "1a", "00012", " 1"] {
        assert_eq!(parse_unsigned(t, 65535).map(|n| n as u16), t.parse::<u16>().ok());
    }
    for t in ["-128", "-129", "127", "128", "+5", "-", "--1", "-0", "x"] {
        assert_eq!(parse_i8(t), t.parse::<i8>().ok());
    }
}

#[test]
fn texts_are_cut_at_characters() {
    assert_eq!(truncate("a\u{e9}b", 2), "a");
    assert_eq!(truncate("a\u{e9}b", 3), "a\u{e9}");
    assert_eq!(truncate("ab", 9), "ab");
}

#[test]
fn objects_are_built_in_key_order() {
    let mut f = Fields::new();
    f.text("b", "x");
    f.integer("a", -2);
    f.bit("c", true);
    f.boolean("b", false);
    f.value("d", Value::Null);
    f.unsigned("e", 3);
    let v = f.finish();
    assert_eq!(to_text(&v), r#"{"a":-2,"b":false,"c":1,"d":null,"e":3}"#);
    assert_eq!(get_unsigned(&v, "e"), Some(3));
    assert_eq!(get_unsigned(&v, "a"), None);
    assert_eq!(get_text(&v, "d"), None);
    assert_eq!(get_text(&Value::from("s"), "d"), None);
}
