use mcp::client::{
    failed_reply, probe_message, user_agent, CallError, Client, Head, Listing, Reception, Unauthorized,
    PROTOCOL_VERSION,
};
use mcp::error::Error;
use mcp::http::Refusal;
use mcp::json::{parse_json, to_compact, Json};
use mcp::rpc::{extract_result, read_body, truncate};
use mcp::sse::{find_event_boundary, split_event, sse_data, EventStream};
use mcp::table::Table;

fn json(text: &str) -> Json {
    parse_json(text).unwrap()
}

fn table(pairs: &[(&str, &str)]) -> Table<String> {
    let mut table = Table::new();
    for (k, v) in pairs {
        table.insert(k.to_string(), v.to_string());
    }
    table
}

fn header(client: &Client, name: &str) -> Option<String> {
    let headers = client.headers().unwrap();
    headers.get(name).map(|value| String::from_utf8(value.as_bytes().to_vec()).unwrap())
}

fn head(status: u16) -> Head {
    Head { status, www_authenticate: None, session_id: None, content_type: None }
}

#[test]
fn joins_multi_line_sse_data() {
    let event = "event: message\ndata: {\"a\":\ndata: 1}";
    assert_eq!(sse_data(event).as_deref(), Some("{\"a\":\n1}"));
    assert_eq!(sse_data(": keep-alive"), None);
}

#[test]
fn finds_the_earliest_event_boundary() {
    assert_eq!(find_event_boundary("data: 1\n\ndata: 2"), Some(7));
    assert_eq!(find_event_boundary("data: 1\r\n\r\ndata: 2"), Some(7));
    assert_eq!(find_event_boundary("data: partial"), None);
}

#[test]
fn extract_result_surfaces_jsonrpc_errors() {
    let error =
        json(r#"{"jsonrpc":"2.0","id":1,"error":{"code":-32601,"message":"Method not found"}}"#);
    let message = extract_result(error, 1).unwrap_err().headline;
    assert!(message.contains("-32601"), "{message}");
    assert!(message.contains("Method not found"), "{message}");
}

#[test]
fn extract_result_rejects_a_mismatched_id() {
    let other = json(r#"{"jsonrpc":"2.0","id":7,"result":{}}"#);
    assert!(extract_result(other, 1).is_err());
}

#[test]
fn extract_result_returns_the_payload() {
    let ok = json(r#"{"jsonrpc":"2.0","id":3,"result":{"tools":[]}}"#);
    assert_eq!(extract_result(ok, 3).unwrap(), json(r#"{"tools":[]}"#));
}

#[test]
fn boundaries_are_counted_in_bytes() {
    assert_eq!(find_event_boundary("é\n\nx"), Some(2));
    assert_eq!(find_event_boundary("\n\n"), Some(0));
    assert_eq!(find_event_boundary("a\r\n\r\nb\n\n"), Some(1));
    assert_eq!(
        split_event("dé\r\n\r\n\n\r rest"),
        Some(("dé".to_string(), " rest".to_string()))
    );
    assert_eq!(split_event("open"), None);
}

#[test]
fn one_space_behind_data_is_dropped() {
    assert_eq!(sse_data("data:x").as_deref(), Some("x"));
    assert_eq!(sse_data("data:  x\r\nid: 1").as_deref(), Some(" x"));
    assert_eq!(sse_data("data:\ndata: \ndata:y").as_deref(), Some("y"));
    assert_eq!(sse_data("data:a\ndata:").as_deref(), Some("a\n"));
    assert_eq!(sse_data(" data:a"), None);
}

#[test]
fn a_stream_is_read_until_the_answer_comes() {
    let mut stream = EventStream::new(2);
    assert!(stream.feed(b": hello\n\ndata: not json\n\n").is_none());
    assert!(stream.feed(b"data: {\"id\":1,\"result\":{}}\n\nda").is_none());
    assert_eq!(stream.buffer, "da");
    let answer = stream.feed(b"ta: {\"id\":2,\"result\":[7]}\r\n\r\ndata: more").unwrap();
    assert_eq!(answer, Ok(json("[7]")));
    assert_eq!(stream.buffer, "data: more");
    assert_eq!(
        EventStream::new(9).closed().message(),
        "MCP server closed the stream before answering request 9"
    );
}

#[test]
fn chunks_may_end_anywhere() {
    let text = "data: {\"id\":1}\r\n\r\n\n: note\ndata: {\"id\":2,\ndata: \"result\":\"ok\"}\n\nrest";
    for cut in 0..=text.len() {
        let mut stream = EventStream::new(2);
        let first = stream.push(&text[..cut]);
        let answer = match first {
            Some(answer) => Some(answer),
            None => stream.push(&text[cut..]),
        };
        assert_eq!(answer, Some(Ok(Json::Text("ok".to_string()))), "{cut}");
    }
}

#[test]
fn a_lone_carriage_return_may_stand_in_a_stream() {
    let text = ": a\rb\n\ndata: {\"id\":2,\rdata: \n\r\n\r\ndata: {\"id\":1,\n\ndata: {\"id\":1,\r\"result\":3}\n\n";
    for cut in 0..=text.len() {
        let mut stream = EventStream::new(1);
        let answer = match stream.push(&text[..cut]) {
            Some(answer) => Some(answer),
            None => stream.push(&text[cut..]),
        };
        assert_eq!(answer, Some(Ok(json("3"))), "{cut}");
    }
}

#[test]
fn a_cut_before_a_lone_carriage_return_matters() {
    let event = "\rdata: {\"id\":1,\"result\":3}\n\n";
    let mut stream = EventStream::new(1);
    assert_eq!(stream.push(&format!("\n\n{event}")), Some(Ok(json("3"))));
    let mut stream = EventStream::new(1);
    assert_eq!(stream.push("\n\n"), None);
    assert_eq!(stream.push(event), None);
}

#[test]
fn malformed_bytes_are_replaced() {
    let mut stream = EventStream::new(1);
    let answer = stream.feed(b"data: {\"id\":1,\"result\":\"\xff\"}\n\n").unwrap();
    assert_eq!(answer, Ok(Json::Text("\u{fffd}".to_string())));
}

#[test]
fn an_error_without_details_has_defaults() {
    let e = extract_result(json(r#"{"id":1,"error":{}}"#), 1).unwrap_err();
    assert_eq!(e.message(), "MCP error 0: unknown error");
    let e = extract_result(json(r#"{"id":1,"error":{"code":5,"message":"m","data":{"k":1}}}"#), 1);
    assert_eq!(e.unwrap_err().message(), "MCP error 5: m ({\"k\":1})");
    let e = extract_result(json(r#"{"id":1,"error":{"message":"m","data":null}}"#), 1);
    assert_eq!(e.unwrap_err().message(), "MCP error 0: m");
    assert_eq!(extract_result(json(r#"{"id":1}"#), 1), Ok(Json::Null));
    assert_eq!(
        extract_result(json(r#"{"id":"1"}"#), 1).unwrap_err().message(),
        "unexpected JSON-RPC response: {\"id\":\"1\"}"
    );
}

#[test]
fn a_body_must_hold_an_answer() {
    assert_eq!(read_body(" \n", 1).unwrap_err().message(), "empty response from MCP server");
    let e = read_body(" <html> ", 1).unwrap_err();
    assert_eq!(e.headline, "parsing MCP response: <html>");
    assert!(e.cause.is_some());
    assert_eq!(read_body(r#"{"id":1,"result":2}"#, 1), Ok(json("2")));
}

#[test]
fn long_texts_are_cut() {
    let long = format!("  {}  ", "é".repeat(501));
    let cut = truncate(&long);
    assert_eq!(cut.chars().count(), 501);
    assert!(cut.ends_with("é…"));
    let fits = "x".repeat(500);
    assert_eq!(truncate(&cut), cut);
    assert_eq!(truncate(&fits), fits);
    assert_eq!(truncate(" a "), "a");
}

#[test]
fn a_new_session_sends_json() {
    let client = Client::new("u".to_string(), Table::new(), None);
    assert_eq!(header(&client, "content-type").as_deref(), Some("application/json"));
    assert_eq!(
        header(&client, "accept").as_deref(),
        Some("application/json, text/event-stream")
    );
    assert_eq!(header(&client, "authorization"), None);
    assert_eq!(header(&client, "mcp-protocol-version"), None);
    assert_eq!(header(&client, "mcp-session-id"), None);
    assert_eq!(user_agent(), "mcp-cli/0.2.0");
}

#[test]
fn the_version_is_named_once_the_session_is_open() {
    let mut client = Client::new("u".to_string(), Table::new(), Some("tok".to_string()));
    assert_eq!(header(&client, "authorization").as_deref(), Some("Bearer tok"));
    let note = client.confirm();
    assert_eq!(
        note,
        json(r#"{"jsonrpc":"2.0","method":"notifications/initialized","params":{}}"#)
    );
    assert_eq!(header(&client, "mcp-protocol-version").as_deref(), Some("2025-06-18"));
}

#[test]
fn static_headers_replace_others_in_any_case() {
    let client = Client::new(
        "u".to_string(),
        table(&[("AUTHORIZATION", "Key k"), ("X-Team", "ü")]),
        Some("tok".to_string()),
    );
    assert_eq!(header(&client, "authorization").as_deref(), Some("Key k"));
    assert_eq!(header(&client, "x-team").as_deref(), Some("ü"));
}

#[test]
fn headers_that_http_forbids_are_refused() {
    let bad = |client: Client| match client.headers() {
        Err(Refusal::Fault(e)) => e.message(),
        other => panic!("{other:?}"),
    };
    let client = Client::new("u".to_string(), Table::new(), Some("a\nb".to_string()));
    assert_eq!(bad(client), "invalid access token: failed to parse header value");
    let client = Client::new("u".to_string(), table(&[("a b", "x")]), None);
    assert_eq!(bad(client), "invalid header name: a b: invalid HTTP header name");
    let client = Client::new("u".to_string(), table(&[("", "x")]), None);
    assert_eq!(bad(client), "invalid header name: : invalid HTTP header name");
    let client = Client::new("u".to_string(), table(&[("a", "\u{7f}")]), None);
    assert_eq!(bad(client), "invalid header value for a: failed to parse header value");
    let mut client = Client::new("u".to_string(), Table::new(), None);
    client.session_id = Some("\0".to_string());
    assert_eq!(bad(client), "invalid session id: failed to parse header value");
    let all = "!#$%&'*+-.^_`|~09azAZ";
    let client = Client::new("u".to_string(), table(&[(all, "\t ~")]), None);
    assert_eq!(header(&client, "!#$%&'*+-.^_`|~09azaz").as_deref(), Some("\t ~"));
    for c in "\"(),/:;<=>?@[\\]{}é".chars() {
        let client = Client::new("u".to_string(), table(&[(&c.to_string(), "x")]), None);
        assert!(client.headers().is_err(), "{c}");
    }
    let long = "a".repeat(65_535);
    let client = Client::new("u".to_string(), table(&[(&long, "x")]), None);
    assert!(client.headers().is_ok());
    let client = Client::new("u".to_string(), table(&[(&format!("{long}a"), "x")]), None);
    assert!(client.headers().is_err());
}

#[test]
fn headers_are_limited_in_number() {
    let many = |n: usize| {
        let entries = (0..n).map(|i| (format!("x-{i:05}"), i.to_string())).collect();
        Client::new("u".to_string(), Table { entries }, None)
    };
    assert_eq!(many(6_548).headers().unwrap().len(), 6_550);
    assert_eq!(header(&many(6_548), "x-06547").as_deref(), Some("6547"));
    assert_eq!(many(40_000).headers().unwrap_err(), Refusal::TooMany);
}

#[test]
fn requests_are_numbered() {
    let mut client = Client::new("u".to_string(), Table::new(), None);
    let (id, body) = client.initialize();
    assert_eq!(id, 1);
    assert_eq!(
        body,
        json(
            r#"{"jsonrpc":"2.0","id":1,"method":"initialize","params":{
                "protocolVersion":"2025-06-18","capabilities":{},
                "clientInfo":{"name":"mcp-cli","version":"0.2.0"}}}"#
        )
    );
    assert_eq!(body, probe_message());
    let (id, body) = client.list_tools(None);
    assert_eq!(id, 2);
    assert_eq!(body, json(r#"{"jsonrpc":"2.0","id":2,"method":"tools/list","params":{}}"#));
    let (id, body) = client.list_tools(Some("c"));
    assert_eq!(id, 3);
    assert_eq!(body.get2("params", "cursor"), Some(&Json::Text("c".to_string())));
    let (id, body) = client.call_tool("t", json(r#"{"b":1,"a":2}"#));
    assert_eq!(id, 4);
    assert_eq!(
        to_compact(&body),
        r#"{"id":4,"jsonrpc":"2.0","method":"tools/call","params":{"arguments":{"a":2,"b":1},"name":"t"}}"#
    );
    assert_eq!(PROTOCOL_VERSION, "2025-06-18");
}

#[test]
fn a_refusal_carries_its_challenge() {
    let mut client = Client::new("u".to_string(), Table::new(), None);
    let refused = Head {
        www_authenticate: Some("Bearer".to_string()),
        session_id: Some("s".to_string()),
        ..head(401)
    };
    match client.receive(refused, Some(1)) {
        Reception::Unauthorized(u) => assert_eq!(u.www_authenticate.as_deref(), Some("Bearer")),
        _ => panic!("expected a refusal"),
    }
    assert_eq!(client.session_id, None);
}

#[test]
fn replies_are_read_by_their_kind() {
    let mut client = Client::new("u".to_string(), Table::new(), None);
    let with = |status: u16, kind: &str| Head { content_type: Some(kind.to_string()), ..head(status) };
    assert!(matches!(client.receive(head(202), None), Reception::Done));
    assert!(matches!(client.receive(head(200), Some(3)), Reception::ReadBody(3)));
    assert!(matches!(
        client.receive(with(200, "text/event-stream; charset=utf-8"), Some(4)),
        Reception::ReadStream(4)
    ));
    assert!(matches!(client.receive(with(200, "application/json"), Some(4)), Reception::ReadBody(4)));
    assert!(matches!(client.receive(head(300), Some(4)), Reception::ReadFailure));
    assert!(matches!(client.receive(head(199), Some(4)), Reception::ReadFailure));
    let named = Head { session_id: Some("s1".to_string()), ..head(500) };
    assert!(matches!(client.receive(named, None), Reception::ReadFailure));
    assert_eq!(client.session_id.as_deref(), Some("s1"));
    assert!(matches!(client.receive(head(200), None), Reception::Done));
    assert_eq!(client.session_id.as_deref(), Some("s1"));
}

#[test]
fn a_failure_shows_its_status() {
    assert_eq!(
        failed_reply(500, " oops \n").message(),
        "MCP server returned 500 Internal Server Error: oops"
    );
    assert_eq!(failed_reply(404, "").message(), "MCP server returned 404 Not Found");
    assert_eq!(
        failed_reply(599, " ").message(),
        "MCP server returned 599 <unknown status code>: "
    );
}

#[test]
fn pages_are_gathered_until_there_is_no_cursor() {
    let mut listing = Listing::new();
    assert!(listing.take(&json(r#"{"tools":[{"name":"a"}],"nextCursor":"2"}"#)));
    assert_eq!(listing.cursor.as_deref(), Some("2"));
    assert!(listing.take(&json(r#"{"nextCursor":"3"}"#)));
    assert!(!listing.take(&json(r#"{"tools":[{"name":"b"},7],"nextCursor":""}"#)));
    assert_eq!(listing.cursor, None);
    assert_eq!(listing.tools, vec![json(r#"{"name":"a"}"#), json(r#"{"name":"b"}"#), json("7")]);
}

#[test]
fn a_failed_call_becomes_an_error() {
    let e = CallError::Unauthorized(Unauthorized { www_authenticate: None });
    assert_eq!(e.into_error().message(), "unauthorized");
    let e: CallError = Error::plain("x".to_string()).into();
    assert_eq!(e.into_error().message(), "x");
}
