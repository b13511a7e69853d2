use mcp::error::Error;
use mcp::flags::{coerce, parse_flags, parse_json_argument, reads_stdin, resolve_key};
use mcp::json::{parse_json, to_compact, Json};

fn json(text: &str) -> Json {
    parse_json(text).unwrap()
}

fn schema() -> Json {
    json(
        r#"{
            "properties": {
                "id": { "type": "string" },
                "limit": { "type": "integer" },
                "includeArchived": { "type": "boolean" },
                "labels": { "type": "array", "items": { "type": "string" } },
                "filter": { "type": "object" }
            }
        }"#,
    )
}

fn flags(args: &[&str]) -> Result<Json, Error> {
    let owned: Vec<String> = args.iter().map(|a| a.to_string()).collect();
    parse_flags(&owned, Some(&schema()))
}

#[test]
fn coerces_flag_values_using_the_input_schema() {
    let parsed = flags(&["--id", "ABC-123", "--limit", "5", "--labels", "bug,ui"]).unwrap();
    assert_eq!(
        parsed,
        json(r#"{ "id": "ABC-123", "limit": 5, "labels": ["bug", "ui"] }"#)
    );
}

#[test]
fn accepts_inline_values_and_kebab_case_keys() {
    let parsed = flags(&["--id=ABC-1", "--include-archived"]).unwrap();
    assert_eq!(parsed, json(r#"{ "id": "ABC-1", "includeArchived": true }"#));
}

#[test]
fn parses_json_valued_flags() {
    let parsed = flags(&["--filter", r#"{"state":"open"}"#, "--labels", r#"["a"]"#]).unwrap();
    assert_eq!(
        parsed,
        json(r#"{ "filter": {"state":"open"}, "labels": ["a"] }"#)
    );
}

#[test]
fn rejects_unknown_and_valueless_flags() {
    assert!(flags(&["--nope", "x"])
        .unwrap_err()
        .headline
        .contains("unknown argument"));
    assert!(flags(&["--id"])
        .unwrap_err()
        .headline
        .contains("needs a value"));
}

#[test]
fn treats_values_as_strings_without_a_schema() {
    let args = vec!["--anything".to_string(), "7".to_string()];
    assert_eq!(
        parse_flags(&args, None).unwrap(),
        json(r#"{ "anything": "7" }"#)
    );
}

#[test]
fn json_arguments_must_be_an_object() {
    assert!(parse_json_argument(r#"{"id":"A"}"#).is_ok());
    assert!(parse_json_argument("[1]").is_err());
    assert!(parse_json_argument("not json").is_err());
}

#[test]
fn arguments_that_are_no_object_are_shown() {
    assert_eq!(
        parse_json_argument("[ 1 ]").unwrap_err().message(),
        "arguments must be a JSON object, got: [1]"
    );
    let e = parse_json_argument("  not json ").unwrap_err();
    assert_eq!(e.headline, "arguments must be a JSON object, got: not json");
    assert!(e.cause.unwrap().contains("line 1"));
    assert!(reads_stdin("-"));
    assert!(!reads_stdin("--"));
}

#[test]
fn the_complaints_name_what_was_wrong() {
    assert_eq!(
        flags(&["x"]).unwrap_err().message(),
        "unexpected argument \"x\"; pass tool arguments as JSON or --key value"
    );
    assert_eq!(
        flags(&["--nope", "x"]).unwrap_err().message(),
        "unknown argument --nope; this tool accepts: --filter, --id, --includeArchived, --labels, --limit"
    );
    assert_eq!(flags(&["--id", "--limit"]).unwrap_err().message(), "--id needs a value");
    assert_eq!(
        flags(&["--limit", "many"]).unwrap_err().message(),
        "expected an integer, got \"many\": invalid digit found in string"
    );
    assert_eq!(
        flags(&["--include-archived", "maybe"]).unwrap_err().message(),
        "expected a boolean, got \"maybe\""
    );
    let e = flags(&["--filter", "{"]).unwrap_err();
    assert_eq!(e.headline, "expected a JSON object, got \"{\"");
    let e = coerce("x", "number", None).unwrap_err();
    assert_eq!(e.message(), "expected a number, got \"x\": invalid float literal");
}

#[test]
fn values_are_read_by_their_kind() {
    assert_eq!(coerce("-7", "integer", None), Ok(json("-7")));
    assert_eq!(coerce("+7", "integer", None), Ok(json("7")));
    assert_eq!(coerce("1.5", "number", None), Ok(json("1.5")));
    assert_eq!(to_compact(&coerce("5", "number", None).unwrap()), "5.0");
    for text in ["inf", "-inf", "NaN", "1e999"] {
        let e = coerce(text, "number", None).unwrap_err();
        assert_eq!(e.message(), format!("expected a number, got {text:?}"));
    }
    assert_eq!(coerce("yes", "boolean", None), Ok(Json::Bool(true)));
    assert_eq!(coerce("0", "boolean", None), Ok(Json::Bool(false)));
    assert_eq!(coerce("{\"a\":1}", "object", None), Ok(json("{\"a\":1}")));
    for text in ["[1]", "null", "1"] {
        let e = coerce(text, "object", None).unwrap_err();
        assert_eq!(e.message(), format!("expected a JSON object, got {text:?}"));
    }
    assert_eq!(coerce("5", "whatever", None), Ok(Json::Text("5".to_string())));
    assert_eq!(coerce("a, b ,", "array", None), Ok(json(r#"["a","b",""]"#)));
    let numbers = json(r#"{"items":{"type":"integer"}}"#);
    assert_eq!(coerce("1, 2", "array", Some(&numbers)), Ok(json("[1,2]")));
    assert!(coerce("1,x", "array", Some(&numbers)).is_err());
}

#[test]
fn a_later_flag_replaces_an_earlier_one() {
    let parsed = flags(&["--id", "a", "--ID=b"]).unwrap();
    assert_eq!(parsed, json(r#"{"id":"b"}"#));
    let parsed = flags(&["--id=x=y"]).unwrap();
    assert_eq!(parsed, json(r#"{"id":"x=y"}"#));
}

#[test]
fn names_are_matched_without_case_and_separators() {
    let schema = schema();
    let properties = schema.get("properties").unwrap().as_object().unwrap();
    assert_eq!(resolve_key("include-archived", properties), "includeArchived");
    assert_eq!(resolve_key("INCLUDE_ARCHIVED", properties), "includeArchived");
    assert_eq!(resolve_key("id", properties), "id");
    assert_eq!(resolve_key("other-thing", properties), "other-thing");
}
