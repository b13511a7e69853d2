use mcp::json::{from_value, parse_json, to_compact, to_pretty, to_value, Json, JsonNumber};
use mcp::numeral::{parse_i64, parse_u64, show_i64, show_u64};
use mcp::table::Table;
use mcp::text::{
    byte_len, chars_of, contains, ends_with, is_blank, is_white_space, join, lines_of, normalize, pad, second_word_of, split_on, starts_with,
    string_of, trim_end_of, trim_text,
};

fn chars(text: &str) -> Vec<char> {
    text.chars().collect()
}

#[test]
fn texts_are_taken_apart() {
    assert_eq!(chars_of("aé"), vec!['a', 'é']);
    assert_eq!(string_of(&['a', 'é']), "aé");
    assert_eq!(trim_text("\u{a0} a b\t\n"), "a b");
    assert_eq!(trim_end_of("a//", '/'), "a");
    assert!(is_blank(" \u{3000}\n"));
    assert!(!is_blank(" x "));
    assert_eq!(split_on(&chars("a,,b,"), ','), vec!["a", "", "b", ""]);
    assert_eq!(split_on(&chars(""), ','), vec![""]);
    assert_eq!(lines_of(&chars("a\r\nb\rc\n\nd\r")), vec!["a", "b\rc", "", "d\r"]);
    assert!(lines_of(&chars("")).is_empty());
    assert_eq!(second_word_of(&chars("\ta  b c")), Some("b".to_string()));
    assert_eq!(second_word_of(&chars("a ")), None);
}

#[test]
fn texts_are_searched() {
    assert!(starts_with("--x", "--"));
    assert!(!starts_with("-", "--"));
    assert!(contains("xaab", "aab"));
    assert!(contains("", ""));
    assert!(!contains("ab", "abc"));
}

#[test]
fn texts_are_put_together() {
    let parts = vec!["a".to_string(), "b".to_string(), "".to_string()];
    assert_eq!(join(&parts, ", "), "a, b, ");
    assert_eq!(join(&vec![], ", "), "");
    assert_eq!(pad("é", 3), "é  ");
    assert_eq!(pad("abcd", 3), "abcd");
    assert_eq!(byte_len("aé"), 3);
    assert_eq!(string_of(&normalize("In-Clude_ÄΣ")), "includeäσ");
}

#[test]
fn numbers_are_read_and_shown() {
    assert_eq!(parse_u64("007"), Some(7));
    assert_eq!(parse_u64("+"), None);
    assert_eq!(parse_u64(" 7"), None);
    assert_eq!(parse_u64("18446744073709551615"), Some(u64::MAX));
    assert_eq!(parse_u64("18446744073709551616"), None);
    assert_eq!(parse_i64("-9223372036854775808"), Some(i64::MIN));
    assert_eq!(parse_i64("9223372036854775808"), None);
    assert_eq!(parse_i64("-"), None);
    assert_eq!(parse_i64("-0"), Some(0));
    assert_eq!(show_u64(0), "0");
    assert_eq!(show_u64(u64::MAX), "18446744073709551615");
    assert_eq!(show_i64(i64::MIN), "-9223372036854775808");
    assert_eq!(show_i64(42), "42");
    for n in [0, 9, 10, 12_345, u64::MAX] {
        assert_eq!(parse_u64(&show_u64(n)), Some(n));
    }
}

#[test]
fn tables_keep_their_keys_in_order() {
    let mut table = Table::new();
    for key in ["b", "a", "ab", "", "b"] {
        table.insert(key.to_string(), key.len());
    }
    assert_eq!(table.keys(), vec!["", "a", "ab", "b"]);
    assert_eq!(table.get("ab"), Some(&2));
    assert!(table.contains_key(""));
    assert_eq!(table.remove("a"), Some(1));
    assert_eq!(table.remove("a"), None);
    assert_eq!(table.len(), 3);
}

#[test]
fn json_is_read_and_printed() {
    let value = parse_json(r#"{"b":[1,-1,0.5,true,null],"a":{"k":"v"},"b":2}"#).unwrap();
    assert_eq!(to_compact(&value), r#"{"a":{"k":"v"},"b":2}"#);
    assert_eq!(to_pretty(&value), "{\n  \"a\": {\n    \"k\": \"v\"\n  },\n  \"b\": 2\n}");
    assert_eq!(parse_json("-0").map(|v| to_compact(&v)), Ok("-0.0".to_string()));
    assert_eq!(parse_json("18446744073709551615"), Ok(Json::Number(JsonNumber::PosInt(u64::MAX))));
    assert_eq!(parse_json("-5"), Ok(Json::Number(JsonNumber::NegInt(-5))));
    assert_eq!(parse_json("-5").unwrap().as_i64(), Some(-5));
    assert_eq!(parse_json("-5").unwrap().as_u64(), None);
    assert_eq!(parse_json("1.0").unwrap().as_u64(), None);
    assert_eq!(parse_json("9223372036854775808").unwrap().as_i64(), None);
    assert!(parse_json("").is_err());
    assert_eq!(
        parse_json("{").unwrap_err(),
        "EOF while parsing an object at line 1 column 1"
    );
}

#[test]
fn values_go_to_serde_and_back() {
    for text in ["null", "true", "7", "-7", "1.25", "\"x\"", "[1,[2]]", r#"{"a":{"b":[]}}"#] {
        let outside: serde_json::Value = serde_json::from_str(text).unwrap();
        let inside = parse_json(text).unwrap();
        assert_eq!(to_value(&inside), outside);
        assert_eq!(from_value(outside), inside);
    }
}

#[test]
fn white_space_is_what_unicode_calls_so() {
    let listed = |c: char| {
        matches!(
            c,
            '\u{9}'..='\u{d}'
                | ' '
                | '\u{85}'
                | '\u{a0}'
                | '\u{1680}'
                | '\u{2000}'..='\u{200a}'
                | '\u{2028}'
                | '\u{2029}'
                | '\u{202f}'
                | '\u{205f}'
                | '\u{3000}'
        )
    };
    for c in '\u{0}'..=char::MAX {
        assert_eq!(is_white_space(c), listed(c), "{c:?}");
        assert_eq!(is_white_space(c), c.is_whitespace(), "{c:?}");
        assert_eq!(is_blank(&c.to_string()), listed(c), "{c:?}");
    }
}

#[test]
fn the_end_of_a_text_is_found() {
    assert!(ends_with("a.json", ".json"));
    assert!(ends_with("é", "é"));
    assert!(ends_with("a", ""));
    assert!(!ends_with("json", ".json"));
    assert!(!ends_with("a.json ", ".json"));
}

#[test]
fn case_and_separators_of_names_do_not_count() {
    for c in '\u{0}'..='\u{7f}' {
        let expected = if c == '-' || c == '_' { vec![] } else { vec![c.to_ascii_lowercase()] };
        assert_eq!(normalize(&c.to_string()), expected, "{c:?}");
    }
    assert_eq!(normalize("include-archived"), normalize("includeArchived"));
    assert_eq!(normalize("INCLUDE_ARCHIVED"), normalize("includeArchived"));
}
