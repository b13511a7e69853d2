use mcp::client::{CallError, Unauthorized};
use mcp::commands::{
    after_failure, call_arguments, call_input, help_lines, list, lookup_server, parse_headers, parse_server, remove,
    server, server_status, tool_source, tools_for, AfterFailure, Input, Plan, ToolSource,
};
use mcp::config::{
    config_dir, credentials_path, credentials_path_display, delete_credentials, file_text, load_all_credentials,
    load_config, load_credentials, now, save_config, save_credentials, servers_path, unix_seconds, Config,
    Credentials, Root, Server, Stored,
};
use mcp::error::Error;
use mcp::json::{parse_json, Json};
use mcp::output::{exit_code, print_result, unwrap_single_key};
use mcp::session::{connect, Action, Stage};
use mcp::table::Table;
use mcp::tools::{
    find_tool, has_tool, input_schema, is_unknown_tool, list_tools, list_tools_json, name_available, names_of,
    show_tool, tool_help,
};

fn json(text: &str) -> Json {
    parse_json(text).unwrap()
}

fn words(list: &[&str]) -> Vec<String> {
    list.iter().map(|w| w.to_string()).collect()
}

fn some(text: &str) -> Option<String> {
    Some(text.to_string())
}

fn config(names: &[&str]) -> Config {
    let mut config = Config::default();
    for name in names {
        let server = parse_server(&format!("https://{name}.example/"), &vec![]).unwrap();
        config.add(name, server);
    }
    config
}

#[test]
fn unwraps_a_single_key_envelope_around_a_collection() {
    let wrapped = json(r#"{ "issues": [{ "id": "MON-1" }] }"#);
    assert_eq!(unwrap_single_key(&wrapped), &json(r#"[{ "id": "MON-1" }]"#));
    // A lone scalar is the payload itself, not an envelope.
    let scalar = json(r#"{ "result": "text" }"#);
    assert_eq!(unwrap_single_key(&scalar), &scalar);
    let two = json(r#"{ "a": [], "b": [] }"#);
    assert_eq!(unwrap_single_key(&two), &two);
}

#[test]
fn a_server_is_described_by_address_and_headers() {
    let server = parse_server(
        "https://mcp.acme.dev/mcp",
        &words(&["Authorization:  Bearer a:b ", "X-A:", "authorization: x"]),
    )
    .unwrap();
    assert_eq!(server.url, "https://mcp.acme.dev/mcp");
    assert_eq!(server.headers.get("Authorization").map(String::as_str), Some("Bearer a:b"));
    assert_eq!(server.headers.get("X-A").map(String::as_str), Some(""));
    assert_eq!(server.headers.keys(), vec!["Authorization", "X-A", "authorization"]);
    let e = parse_server("acme", &vec![]).unwrap_err();
    assert_eq!(e.message(), "invalid URL: acme: relative URL without a base");
    let e = parse_headers(&words(&["A: 1", "no \"colon\"", "none"])).unwrap_err();
    assert_eq!(e.message(), "invalid header \"no \\\"colon\\\"\", expected 'Name: value'");
    let twice = parse_headers(&words(&["A: 1", "A: 2"])).unwrap();
    assert_eq!(twice.get("A").map(String::as_str), Some("2"));
    assert_eq!(twice.len(), 1);
}

#[test]
fn servers_are_found_by_name() {
    let mut config = config(&["b", "a"]);
    assert_eq!(lookup_server(&config, "a").unwrap().url, "https://a.example/");
    assert_eq!(
        lookup_server(&config, "c").unwrap_err().message(),
        "no such server: c. Known servers: a, b"
    );
    assert!(remove(&mut config, "a").is_ok());
    assert_eq!(remove(&mut config, "a").unwrap_err().message(), "no such server: a");
    assert_eq!(lookup_server(&config, "b").unwrap().url, "https://b.example/");
    assert!(remove(&mut config, "b").is_ok());
    assert_eq!(
        lookup_server(&config, "c").unwrap_err().message(),
        "no such server: c. Add one with: mcp add c --url <url>"
    );
}

#[test]
fn a_server_is_replaced_under_its_name() {
    let mut config = config(&["a"]);
    config.add("a", parse_server("https://new.example/", &vec![]).unwrap());
    assert_eq!(lookup_server(&config, "a").unwrap().url, "https://new.example/");
    assert_eq!(config.servers.len(), 1);
}

fn token(expires_at: Option<u64>, refresh: bool) -> Credentials {
    Credentials {
        access_token: some("t"),
        refresh_token: if refresh { some("r") } else { None },
        expires_at,
        ..Credentials::default()
    }
}

#[test]
fn the_list_shows_who_is_authenticated() {
    let plain = parse_server("https://x/", &vec![]).unwrap();
    let keyed = parse_server("https://x/", &words(&["A: b"])).unwrap();
    assert_eq!(server_status(&plain, None, 0), "not authenticated");
    assert_eq!(server_status(&keyed, None, 0), "static headers");
    assert_eq!(server_status(&keyed, Some(&Credentials::default()), 0), "static headers");
    assert_eq!(server_status(&keyed, Some(&token(None, false)), 9), "authenticated");
    assert_eq!(server_status(&plain, Some(&token(Some(100), false)), 39), "authenticated");
    assert_eq!(server_status(&plain, Some(&token(Some(100), false)), 40), "expired");
    assert_eq!(
        server_status(&plain, Some(&token(Some(100), true)), 40),
        "authenticated (expired, will refresh)"
    );
    let mut credentials = Table::new();
    credentials.insert("bcd".to_string(), token(None, false));
    let printed = list(&config(&["bcd", "é"]), &credentials, 0);
    assert_eq!(
        printed.out,
        vec!["bcd  https://bcd.example/  [authenticated]", "é    https://é.example/  [not authenticated]"]
    );
    assert!(printed.err.is_empty());
    let printed = list(&Config::default(), &credentials, 0);
    assert_eq!(printed.err, vec!["No servers yet. Add one with: mcp add <name> --url <url>"]);
    assert!(printed.out.is_empty());
}

#[test]
fn tokens_expire_a_minute_early() {
    assert!(!token(Some(100), false).is_expired_at(39));
    assert!(token(Some(100), false).is_expired_at(40));
    assert!(token(Some(10), false).is_expired_at(0));
    assert!(!token(Some(u64::MAX), false).is_expired_at(1));
    assert!(token(Some(5), false).is_expired_at(u64::MAX));
    assert!(!token(None, false).is_expired());
    assert!(token(Some(0), false).is_expired());
    assert!(!token(Some(u64::MAX), false).is_expired());
    assert_eq!(unix_seconds(None), 0);
    assert_eq!(unix_seconds(Some(7)), 7);
    assert!(now() > 1_600_000_000);
}

#[test]
fn files_lie_in_the_directory_of_the_program() {
    let dir = config_dir(some("/x"), true).unwrap();
    assert_eq!(dir.root, Root::Given("/x".to_string()));
    assert!(dir.segments.is_empty());
    assert_eq!(config_dir(None, true).unwrap().segments, vec!["mcp"]);
    assert_eq!(servers_path(None, true).unwrap().segments, vec!["mcp", "servers.json"]);
    assert_eq!(credentials_path(some("/x"), false).unwrap().segments, vec!["credentials.json"]);
    assert_eq!(
        servers_path(None, false).unwrap_err().message(),
        "cannot determine config directory"
    );
    assert_eq!(credentials_path_display(some("/x/y")), "/x/y");
    assert_eq!(credentials_path_display(None), "the config directory");
}

#[test]
fn a_missing_or_blank_file_holds_nothing() {
    assert_eq!(load_config("p", Stored::Missing), Ok(Config::default()));
    let blank = Stored::Text(" \n".to_string(), Err("eof".to_string()));
    assert_eq!(load_config("p", blank), Ok(Config::default()));
    let broken = Stored::Text("{".to_string(), Err("eof".to_string()));
    assert_eq!(load_config("p", broken).unwrap_err().message(), "parsing p: eof");
    let denied = Stored::Unreadable("denied".to_string());
    assert_eq!(load_config("p", denied).unwrap_err().message(), "reading p: denied");
    let good = Stored::Text("{}".to_string(), Ok(config(&["a"])));
    assert_eq!(load_config("p", good), Ok(config(&["a"])));
    let writing = config(&["a"]);
    let writing = save_config(&writing);
    assert!(!writing.private);
    assert_eq!(*writing.value, config(&["a"]));
    assert_eq!(file_text("{}").as_deref(), Some("{}\n"));
    assert_eq!(file_text(" \u{3000}"), None);
}

#[test]
fn saved_credentials_are_loaded_and_deleted() {
    let held = |all: Table<Credentials>| Stored::Text(file_text("x").unwrap(), Ok(all));
    let first = save_credentials("a", &token(None, true), "p", Stored::Missing).unwrap();
    assert!(first.private);
    let both = save_credentials("b", &token(Some(1), false), "p", held(first.value)).unwrap();
    assert_eq!(both.value.keys(), vec!["a", "b"]);
    let copy = || {
        let one = save_credentials("a", &token(None, true), "p", Stored::Missing).unwrap();
        save_credentials("b", &token(Some(1), false), "p", held(one.value)).unwrap().value
    };
    assert_eq!(load_credentials("a", "p", held(copy())), Ok(token(None, true)));
    assert_eq!(load_credentials("b", "p", held(copy())), Ok(token(Some(1), false)));
    assert_eq!(load_credentials("c", "p", held(copy())), Ok(Credentials::default()));
    let left = delete_credentials("a", "p", held(copy())).unwrap().unwrap();
    assert!(left.private);
    assert_eq!(left.value.keys(), vec!["b"]);
    assert!(delete_credentials("a", "p", held(left.value)).unwrap().is_none());
    assert!(delete_credentials("c", "p", held(copy())).unwrap().is_none());
    assert!(delete_credentials("c", "p", Stored::Missing).unwrap().is_none());
    let denied = || Stored::Unreadable("no".to_string());
    assert_eq!(load_credentials("a", "p", denied()).unwrap_err().message(), "reading p: no");
    assert!(save_credentials("a", &token(None, true), "p", denied()).is_err());
    assert!(delete_credentials("a", "p", denied()).is_err());
    assert_eq!(load_all_credentials("p", held(copy())).unwrap().len(), 2);
}

#[test]
fn commands_are_told_apart() {
    let plan = |rest: &[&str]| {
        let mut args = words(&["linear"]);
        args.extend(words(rest));
        let (name, plan) = server(&args);
        assert_eq!(name, "linear");
        plan
    };
    assert_eq!(plan(&[]), Plan::List(false));
    assert_eq!(plan(&["--refresh"]), Plan::List(true));
    assert_eq!(plan(&["auth"]), Plan::Auth(false));
    assert_eq!(plan(&["login", "--no-browser"]), Plan::Auth(true));
    assert_eq!(plan(&["logout"]), Plan::Logout);
    assert_eq!(plan(&["tools"]), Plan::ListJson(false));
    assert_eq!(plan(&["--refresh", "tools"]), Plan::ListJson(true));
    assert_eq!(plan(&["help"]), Plan::Help(false));
    assert_eq!(plan(&["-h"]), Plan::Help(false));
    assert_eq!(plan(&["--help", "--refresh"]), Plan::Help(true));
    assert_eq!(plan(&["get", "{}"]), Plan::Call("get".to_string(), words(&["{}"]), false));
    assert_eq!(
        plan(&["get", "--id", "--refresh", "1"]),
        Plan::Call("get".to_string(), words(&["--id", "1"]), true)
    );
    assert_eq!(plan(&["tools", "x"]), Plan::ListJson(false));
    assert_eq!(plan(&["tools", "x", "--refresh"]), Plan::ListJson(true));
    for reserved in ["auth", "logout", "tools", "help", "call"] {
        assert_eq!(plan(&["call", reserved]), Plan::Call(reserved.to_string(), vec![], false));
    }
    match plan(&["call"]) {
        Plan::Misuse(e) => assert_eq!(e.message(), "usage: mcp linear call <tool> [json]"),
        other => panic!("{other:?}"),
    }
    assert_eq!(help_lines("x")[0], "usage: mcp x [tool] [json | --key value]\n");
    assert_eq!(help_lines("x").len(), 6);
}

#[test]
fn arguments_are_json_or_flags() {
    assert_eq!(call_input(&vec![]), (false, Input::Nothing));
    assert_eq!(call_input(&words(&["--raw"])), (true, Input::Nothing));
    assert_eq!(call_input(&words(&["{}", "--raw"])), (true, Input::Argument("{}".to_string())));
    assert_eq!(call_input(&words(&["-"])), (false, Input::Argument("-".to_string())));
    assert_eq!(call_input(&words(&["--flag"])), (false, Input::Flags(words(&["--flag"]))));
    assert_eq!(call_input(&words(&["a", "b"])), (false, Input::Flags(words(&["a", "b"]))));
    assert_eq!(call_input(&words(&["--id", "-h"])), (false, Input::Help));
    assert_eq!(call_input(&words(&["--help", "--raw"])), (true, Input::Help));
    assert_eq!(tool_source(&Input::Nothing, false), ToolSource::Nowhere);
    assert_eq!(tool_source(&Input::Argument("{}".to_string()), false), ToolSource::Nowhere);
    assert_eq!(tool_source(&Input::Flags(vec![]), false), ToolSource::Cache);
    assert_eq!(tool_source(&Input::Argument("{}".to_string()), true), ToolSource::Server);
}

#[test]
fn a_call_takes_its_arguments_where_they_are() {
    let schema = vec![json(r#"{"name":"get","inputSchema":{"properties":{"id":{"type":"integer"}}}}"#)];
    let of = |list: &[&str], stdin: &str| call_arguments(&call_input(&words(list)).1, stdin, &schema, "get");
    assert_eq!(of(&[], "x"), Ok(json("{}")));
    assert_eq!(of(&[r#"{"id":2}"#], "x"), Ok(json(r#"{"id":2}"#)));
    assert_eq!(of(&["-"], r#"{"id":3}"#), Ok(json(r#"{"id":3}"#)));
    assert_eq!(of(&["--id", "4"], ""), Ok(json(r#"{"id":4}"#)));
    assert!(of(&["--id", "x"], "").is_err());
    assert!(of(&["-"], "[]").is_err());
    let unknown = call_arguments(&Input::Flags(words(&["--id", "4"])), "", &vec![], "get");
    assert_eq!(unknown, Ok(json(r#"{"id":"4"}"#)));
}

#[test]
fn a_failed_call_is_explained_or_reported() {
    let error = |text: &str| CallError::Other(Error::plain(text.to_string()));
    let plain = |text: &str| Error::plain(text.to_string());
    assert_eq!(after_failure(error("Unknown tool x")), AfterFailure::NameTools(plain("Unknown tool x")));
    assert_eq!(after_failure(error("denied")), AfterFailure::GiveUp(plain("denied")));
    let refused = CallError::Unauthorized(Unauthorized { www_authenticate: None });
    assert_eq!(after_failure(refused), AfterFailure::GiveUp(plain("unauthorized")));
}

fn tools() -> Vec<Json> {
    vec![
        json(
            r#"{"name":"get","description":"\n  Get one. \nMore.","inputSchema":
                {"required":["id",1],"properties":{"id":{},"zone":{},"all":{}}}}"#,
        ),
        json(r#"{"title":"Untitled"}"#),
        json(r#"{"name":"bare","description":7,"title":"T"}"#),
    ]
}

#[test]
fn a_cached_list_is_used_while_it_has_the_tool() {
    assert_eq!(tools_for(Some(tools()), None, false), Some(tools()));
    assert_eq!(tools_for(Some(tools()), Some("get"), false), Some(tools()));
    assert_eq!(tools_for(Some(tools()), Some("new"), false), None);
    assert_eq!(tools_for(Some(tools()), None, true), None);
    assert_eq!(tools_for(None, None, false), None);
}

#[test]
fn tools_are_found_by_name() {
    assert!(has_tool(&tools(), "bare"));
    assert!(!has_tool(&tools(), "Untitled"));
    assert_eq!(find_tool(&tools(), "bare"), Some(&tools()[2]));
    assert!(input_schema(&tools(), "get").unwrap().is_object());
    assert_eq!(input_schema(&tools(), "bare"), None);
    assert_eq!(names_of(&tools()), vec!["get", "bare"]);
}

#[test]
fn tools_are_shown_with_their_arguments() {
    assert_eq!(
        show_tool(&tools()[0]),
        vec!["get --id <id> [--all <all>] [--zone <zone>]", "    Get one."]
    );
    assert_eq!(show_tool(&tools()[1]), vec!["?", "    Untitled"]);
    assert_eq!(show_tool(&tools()[2]), vec!["bare"]);
    let printed = list_tools("linear", &tools());
    assert_eq!(printed.out.len(), 5);
    assert_eq!(printed.err, vec!["\n3 tools. Full schemas: mcp linear tools"]);
    let printed = list_tools("linear", &vec![]);
    assert_eq!(printed.err, vec!["linear exposes no tools."]);
    assert!(printed.out.is_empty());
    assert_eq!(
        list_tools_json(&vec![json(r#"{"name":"a"}"#)]).unwrap(),
        "[\n  {\n    \"name\": \"a\"\n  }\n]"
    );
}

#[test]
fn help_shows_the_schema_of_a_tool() {
    let printed = tool_help(&tools(), "get").unwrap();
    assert_eq!(printed.err, vec!["Get one. \nMore.\n"]);
    assert!(printed.out[0].starts_with("{\n  \"properties\": {"));
    let printed = tool_help(&tools(), "bare").unwrap();
    assert!(printed.err.is_empty());
    assert!(printed.out[0].contains("\"title\": \"T\""));
    assert_eq!(
        tool_help(&tools(), "x").unwrap_err().message(),
        "unknown tool: x. Available: get, bare"
    );
}

#[test]
fn an_unknown_tool_is_answered_with_the_known_ones() {
    let error = |text: &str| Error::plain(text.to_string());
    assert!(is_unknown_tool(&error("MCP error -32602: Tool x Not Found")));
    assert!(is_unknown_tool(&error("UNKNOWN TOOL: x")));
    assert!(!is_unknown_tool(&error("MCP error 1: denied")));
    let hidden = Error::because("denied".to_string(), "not found".to_string());
    assert!(!is_unknown_tool(&hidden));
    assert_eq!(
        name_available(error("not found"), &tools()).message(),
        "available tools: get, bare: not found"
    );
    assert_eq!(name_available(error("not found"), &vec![]).message(), "not found");
}

#[test]
fn results_are_printed_for_jq() {
    let text = |result: &str| print_result(&json(result), false).text;
    assert_eq!(text(r#"{"structuredContent":{"items":[1]},"content":[]}"#), "[\n  1\n]");
    assert_eq!(text(r#"{"structuredContent":{"n":1}}"#), "{\n  \"n\": 1\n}");
    assert_eq!(text(r#"{"structuredContent":null,"content":[]}"#), "");
    assert_eq!(text(r#"{"other":1}"#), "{\n  \"other\": 1\n}");
    assert_eq!(text(r#"{"content":[{"type":"text","text":"{\"a\":{\"b\":1}}"}]}"#), "{\n  \"b\": 1\n}");
    assert_eq!(text(r#"{"content":[{"type":"text","text":"plain"}]}"#), "plain");
    let two = r#"{"content":[{"type":"text","text":"1"},{"type":"text","text":"2"}]}"#;
    assert_eq!(text(two), "[\n  1,\n  2\n]");
    let mixed = r#"{"content":[{"type":"text","text":"1"},{"type":"text","text":"x"}]}"#;
    assert_eq!(text(mixed), "1\nx");
    let image = r#"{"content":[{"type":"image"}]}"#;
    assert_eq!(text(image), "[\n  {\n    \"type\": \"image\"\n  }\n]");
    let raw = print_result(&json(two), true);
    assert!(raw.text.starts_with("{\n  \"content\": ["));
    assert!(raw.success && !raw.to_stderr);
}

#[test]
fn an_error_goes_to_the_error_stream() {
    for result in [
        r#"{"isError":true,"content":[{"type":"text","text":"bad"}]}"#,
        r#"{"isError":true,"structuredContent":{"a":1}}"#,
    ] {
        for raw in [false, true] {
            let output = print_result(&json(result), raw);
            assert!(output.to_stderr);
            assert!(!output.success);
        }
    }
    assert!(exit_code(&json(r#"{"isError":"true"}"#)));
    assert!(exit_code(&json(r#"{"isError":false}"#)));
    assert!(!exit_code(&json(r#"{"isError":true}"#)));
}

#[test]
fn a_session_is_opened_with_a_live_token() {
    match connect("s".to_string(), token(Some(1_000), true), 0) {
        Action::Open(connect, false) => {
            assert_eq!(connect.stage, Stage::First);
            assert_eq!(connect.opened(Ok(())), Action::Done);
        }
        other => panic!("{other:?}"),
    }
    match connect("s".to_string(), Credentials { expires_at: Some(0), ..Credentials::default() }, 9) {
        Action::Open(connect, false) => {
            let failure = CallError::Other(Error::plain("down".to_string()));
            assert_eq!(connect.opened(Err(failure)), Action::Fail(Error::plain("down".to_string())));
        }
        other => panic!("{other:?}"),
    }
}

#[test]
fn a_session_is_refreshed_before_and_after_a_refusal() {
    let refused = |header: Option<&str>| {
        Err(CallError::Unauthorized(Unauthorized { www_authenticate: header.map(str::to_string) }))
    };
    let early = match connect("s".to_string(), token(Some(10), true), 100) {
        Action::Refresh(connect) => connect,
        other => panic!("{other:?}"),
    };
    let first = match early.refreshed(Some(token(Some(500), true))) {
        Action::Open(connect, true) => connect,
        other => panic!("{other:?}"),
    };
    let retry = match first.opened(refused(Some("Bearer x"))) {
        Action::Refresh(connect) => connect,
        other => panic!("{other:?}"),
    };
    assert_eq!(retry.stage, Stage::Retry(some("Bearer x")));
    let second = match retry.refreshed(Some(token(None, true))) {
        Action::Open(connect, true) => connect,
        other => panic!("{other:?}"),
    };
    match second.opened(refused(None)) {
        Action::Fail(e) => {
            assert_eq!(e.message(), "s requires authorization (Bearer x). Run: mcp s auth")
        }
        other => panic!("{other:?}"),
    }
    let early = match connect("s".to_string(), token(Some(10), true), 100) {
        Action::Refresh(connect) => connect,
        other => panic!("{other:?}"),
    };
    let first = match early.refreshed(None) {
        Action::Open(connect, false) => connect,
        other => panic!("{other:?}"),
    };
    assert_eq!(first.credentials, token(Some(10), true));
    let retry = match first.opened(refused(None)) {
        Action::Refresh(connect) => connect,
        other => panic!("{other:?}"),
    };
    match retry.refreshed(None) {
        Action::Fail(e) => assert_eq!(e.message(), "s requires authorization. Run: mcp s auth"),
        other => panic!("{other:?}"),
    }
}

#[test]
fn copies_are_equal() {
    let server: Server = parse_server("https://x/", &words(&["A: b"])).unwrap();
    assert_eq!(server.clone(), server);
    assert_eq!(token(Some(1), true).clone(), token(Some(1), true));
    let value = json(r#"{"a":[1,-2,1.5,null,true,"x",{"b":{}}]}"#);
    assert_eq!(value.clone(), value);
}
