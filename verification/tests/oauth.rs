use base64::engine::general_purpose::URL_SAFE_NO_PAD;
use base64::Engine;
use sha2::{Digest, Sha256};

use mcp::address::{canonical_resource, extend_query, origin, parse_target, url_error, well_known, Target, Trouble};
use mcp::callback::{answer, answer_bytes, decide, find_param, headers_complete, request_target, respond, Callback};
use mcp::config::Credentials;
use mcp::discovery::{discover, parse_resource_metadata, read_metadata, AuthServer, Discovery, Progress};
use mcp::error::Error;
use mcp::json::{parse_json, Json};
use mcp::login::{begin, Login, LoginStep};
use mcp::oauth::{
    authorization_pairs, authorization_url, choose_client, exchange_form, login, pkce, pkce_for, random_string,
    read_registration, read_tokens, redirect_uri, refresh, refresh_form, registration_body, spell, ClientChoice,
};

fn json(text: &str) -> Json {
    parse_json(text).unwrap()
}

fn target(url: &str) -> Target {
    parse_target(url, "parsing").unwrap()
}

fn some(text: &str) -> Option<String> {
    Some(text.to_string())
}

#[test]
fn extracts_resource_metadata_from_challenge() {
    let header = r#"Bearer realm="OAuth", resource_metadata="https://mcp.linear.app/.well-known/oauth-protected-resource/mcp", scope="read write""#;
    assert_eq!(
        parse_resource_metadata(header).as_deref(),
        Some("https://mcp.linear.app/.well-known/oauth-protected-resource/mcp")
    );
    assert_eq!(parse_resource_metadata("Bearer realm=\"OAuth\""), None);
}

#[test]
fn builds_well_known_candidates_with_path_insertion() {
    let url = target("https://example.com/tenant/mcp");
    assert_eq!(
        well_known(&url, "oauth-protected-resource"),
        vec![
            "https://example.com/.well-known/oauth-protected-resource/tenant/mcp",
            "https://example.com/tenant/mcp/.well-known/oauth-protected-resource",
            "https://example.com/.well-known/oauth-protected-resource",
        ]
    );
}

#[test]
fn well_known_for_root_issuer_has_no_path_variants() {
    let url = target("https://example.com/");
    assert_eq!(
        well_known(&url, "openid-configuration"),
        vec!["https://example.com/.well-known/openid-configuration"]
    );
}

#[test]
fn canonical_resource_drops_query_and_fragment() {
    let url = target("https://mcp.example.com/mcp?x=1#f");
    assert_eq!(canonical_resource(&url), "https://mcp.example.com/mcp");
    let root = target("https://mcp.example.com/");
    assert_eq!(canonical_resource(&root), "https://mcp.example.com");
}

#[test]
fn pkce_challenge_is_the_s256_of_the_verifier() {
    let pkce = pkce();
    let expected = URL_SAFE_NO_PAD.encode(Sha256::digest(pkce.verifier.as_bytes()));
    assert_eq!(pkce.challenge, expected);
    assert_eq!(pkce.verifier.len(), 64);
}

#[test]
fn a_known_verifier_has_a_known_challenge() {
    let proof = pkce_for("dBjftJeZ4CVP-mB92K27uhbUJU1p1r_wW1gFWFOEjXk".to_string());
    assert_eq!(proof.challenge, "E9Melhoa2OwvFrEMTJguCHaoeK1t8URWbuGJSstw-cM");
    assert_eq!(proof.challenge.len(), 43);
    assert_eq!(proof.verifier, "dBjftJeZ4CVP-mB92K27uhbUJU1p1r_wW1gFWFOEjXk");
}

#[test]
fn secrets_are_spelt_from_the_alphabet() {
    assert_eq!(spell(&vec![0, 25, 26, 51, 52, 61, 62, 63, 64, 65]), "AZaz09-._~");
    let secret = random_string(32);
    assert_eq!(secret.len(), 32);
    assert!(secret.chars().all(|c| c.is_ascii_alphanumeric() || "-._~".contains(c)));
    assert_ne!(secret, random_string(32));
    assert_eq!(random_string(0), "");
}

#[test]
fn an_unquoted_hint_ends_at_a_comma() {
    assert_eq!(
        parse_resource_metadata("Bearer resource_metadata= https://a/b , x=1").as_deref(),
        Some("https://a/b")
    );
    assert_eq!(parse_resource_metadata("resource_metadata=").as_deref(), Some(""));
    assert_eq!(parse_resource_metadata("resource_metadata=\"a").as_deref(), Some("a"));
}

#[test]
fn origins_keep_the_port_and_drop_the_rest() {
    assert_eq!(origin(&target("https://example.com:8443/a/b/?q#f")), "https://example.com:8443");
    assert_eq!(canonical_resource(&target("HTTPS://Example.com:443/a/")), "https://example.com/a/");
    assert_eq!(
        well_known(&target("https://example.com/a/"), "x"),
        vec![
            "https://example.com/.well-known/x/a",
            "https://example.com/a/.well-known/x",
            "https://example.com/.well-known/x",
        ]
    );
}

#[test]
fn addresses_are_checked() {
    assert_eq!(url_error("https://example.com"), None);
    assert_eq!(url_error("nope").as_deref(), Some("relative URL without a base"));
    match parse_target("nope", "parsing server URL") {
        Err(Trouble::Fault(e)) => {
            assert_eq!(e.message(), "parsing server URL: relative URL without a base")
        }
        _ => panic!("expected a complaint"),
    }
}

fn ask(progress: Result<Progress, Trouble>) -> Discovery {
    match progress.unwrap() {
        Progress::Ask(discovery) => discovery,
        Progress::Found(..) => panic!("expected another question"),
    }
}

fn found(progress: Result<Progress, Trouble>) -> (AuthServer, String, String) {
    match progress.unwrap() {
        Progress::Found(server, resource, issuer) => (server, resource, issuer),
        Progress::Ask(_) => panic!("expected an end"),
    }
}

#[test]
fn a_search_follows_the_metadata() {
    let search = discover(
        "https://mcp.example.com/mcp?x=1",
        Some("Bearer resource_metadata=\"https://mcp.example.com/meta\""),
    )
    .unwrap();
    assert_eq!(search.wanted(), "https://mcp.example.com/meta");
    let search = ask(search.tell(Some(json(r#"{"scopes_supported":["read","write",7]}"#))));
    assert_eq!(
        search.wanted(),
        "https://mcp.example.com/.well-known/oauth-protected-resource/mcp"
    );
    assert_eq!(search.scopes.as_deref(), Some("read write"));
    let metadata = json(r#"{"authorization_servers":["https://auth.example.com/t"],"scopes_supported":["s"]}"#);
    let search = ask(search.tell(Some(metadata)));
    assert_eq!(
        search.wanted(),
        "https://auth.example.com/.well-known/oauth-authorization-server/t"
    );
    let search = ask(search.tell(Some(json(r#"{"token_endpoint":"t"}"#))));
    let search = ask(search.tell(None));
    let search = ask(search.tell(None));
    assert_eq!(search.wanted(), "https://auth.example.com/.well-known/openid-configuration/t");
    let metadata = json(
        r#"{"authorization_endpoint":"A","token_endpoint":"T","registration_endpoint":"R","scopes_supported":["own"]}"#,
    );
    let (server, resource, issuer) = found(search.tell(Some(metadata)));
    assert_eq!(server.authorization_endpoint, "A");
    assert_eq!(server.token_endpoint, "T");
    assert_eq!(server.registration_endpoint.as_deref(), Some("R"));
    assert_eq!(server.scopes_supported.as_deref(), Some("s"));
    assert_eq!(resource, "https://mcp.example.com/mcp");
    assert_eq!(issuer, "https://auth.example.com/t");
}

#[test]
fn a_search_without_metadata_ends_at_the_conventions() {
    let mut progress = Ok(Progress::Ask(discover("https://example.com/", None).unwrap()));
    let mut asked = Vec::new();
    loop {
        match progress.unwrap() {
            Progress::Ask(search) => {
                asked.push(search.wanted());
                progress = search.tell(None);
            }
            Progress::Found(server, resource, issuer) => {
                assert_eq!(server.authorization_endpoint, "https://example.com/authorize");
                assert_eq!(server.token_endpoint, "https://example.com/token");
                assert_eq!(server.registration_endpoint.as_deref(), Some("https://example.com/register"));
                assert_eq!(server.scopes_supported, None);
                assert_eq!(resource, "https://example.com");
                assert_eq!(issuer, "https://example.com");
                break;
            }
        }
    }
    assert_eq!(
        asked,
        vec![
            "https://example.com/.well-known/oauth-protected-resource",
            "https://example.com/.well-known/oauth-authorization-server",
            "https://example.com/.well-known/openid-configuration",
        ]
    );
}

#[test]
fn a_server_may_name_its_own_scopes() {
    let search = discover("https://example.com/", None).unwrap();
    let search = ask(search.tell(None));
    let metadata = json(r#"{"authorization_endpoint":"A","token_endpoint":"T","scopes_supported":["a","b"]}"#);
    let (server, _, _) = found(search.tell(Some(metadata)));
    assert_eq!(server.scopes_supported.as_deref(), Some("a b"));
    assert_eq!(server.registration_endpoint, None);
}

#[test]
fn an_issuer_that_is_no_address_ends_the_search() {
    let search = discover("https://example.com/", None).unwrap();
    match search.tell(Some(json(r#"{"authorization_servers":["nope"]}"#))) {
        Err(Trouble::Fault(e)) => {
            assert_eq!(e.message(), "parsing issuer nope: relative URL without a base")
        }
        _ => panic!("expected a complaint"),
    }
    assert!(discover("nope", None).is_err());
}

#[test]
fn metadata_needs_success_and_json() {
    assert_eq!(read_metadata(200, r#"{"a":1}"#), Some(json(r#"{"a":1}"#)));
    assert_eq!(read_metadata(404, r#"{"a":1}"#), None);
    assert_eq!(read_metadata(200, "<html>"), None);
}

#[test]
fn a_client_describes_itself() {
    assert_eq!(
        registration_body("http://127.0.0.1:1/callback", None),
        json(
            r#"{"client_name":"mcp-cli","redirect_uris":["http://127.0.0.1:1/callback"],
                "grant_types":["authorization_code","refresh_token"],"response_types":["code"],
                "token_endpoint_auth_method":"none"}"#
        )
    );
    let body = registration_body("u", Some("a b"));
    assert_eq!(body.text_at("scope"), Some("a b"));
}

#[test]
fn a_registration_gives_a_client() {
    assert_eq!(
        read_registration(201, r#"{"client_id":"i","client_secret":"s"}"#),
        Ok(("i".to_string(), some("s")))
    );
    assert_eq!(read_registration(200, r#"{"client_id":"i"}"#), Ok(("i".to_string(), None)));
    assert_eq!(
        read_registration(400, " no \n").unwrap_err().message(),
        "client registration failed (400 Bad Request): no"
    );
    assert_eq!(
        read_registration(200, "{}").unwrap_err().message(),
        "registration response has no client_id"
    );
    let e = read_registration(200, " x ").unwrap_err();
    assert_eq!(e.headline, "parsing registration response: x");
}

fn server() -> AuthServer {
    AuthServer {
        authorization_endpoint: "https://a/authorize".to_string(),
        token_endpoint: "https://a/token".to_string(),
        registration_endpoint: some("https://a/register"),
        scopes_supported: some("s1 s2"),
    }
}

#[test]
fn a_known_client_is_used_again() {
    let existing = Credentials {
        client_id: some("i"),
        client_secret: some("s"),
        token_endpoint: some("https://a/token"),
        ..Credentials::default()
    };
    match choose_client(&existing, &server()).unwrap() {
        ClientChoice::Known(id, secret) => {
            assert_eq!(id, "i");
            assert_eq!(secret.as_deref(), Some("s"));
        }
        ClientChoice::Register(_) => panic!("expected the known client"),
    }
    let moved = Credentials { token_endpoint: some("https://b/token"), ..existing };
    match choose_client(&moved, &server()).unwrap() {
        ClientChoice::Register(endpoint) => assert_eq!(endpoint, "https://a/register"),
        ClientChoice::Known(..) => panic!("expected a registration"),
    }
    let closed = AuthServer { registration_endpoint: None, ..server() };
    let e = choose_client(&Credentials::default(), &closed).err().unwrap();
    assert_eq!(
        e.message(),
        "authorization server does not support dynamic client registration; no client_id available"
    );
}

#[test]
fn the_question_is_part_of_the_address() {
    let uri = redirect_uri(4321);
    assert_eq!(uri, "http://127.0.0.1:4321/callback");
    let pairs = authorization_pairs("id", &uri, "st", "ch", "https://r/", Some("a b"));
    let url = authorization_url("https://a/authorize?x=1#f", &pairs).unwrap();
    assert_eq!(
        url,
        "https://a/authorize?x=1&response_type=code&client_id=id\
         &redirect_uri=http%3A%2F%2F127.0.0.1%3A4321%2Fcallback&state=st&code_challenge=ch\
         &code_challenge_method=S256&resource=https%3A%2F%2Fr%2F&scope=a+b#f"
    );
    assert_eq!(authorization_pairs("i", "u", "s", "c", "r", None).len(), 7);
    match authorization_url("nope", &pairs) {
        Err(Trouble::Fault(e)) => assert_eq!(
            e.message(),
            "parsing authorization endpoint: relative URL without a base"
        ),
        _ => panic!("expected a complaint"),
    }
}

fn pairs(form: &[(String, String)]) -> Vec<(&str, &str)> {
    form.iter().map(|(k, v)| (k.as_str(), v.as_str())).collect()
}

#[test]
fn a_code_is_exchanged_with_its_verifier() {
    let form = exchange_form("c", "u", "i", "v", "r", Some("s"));
    assert_eq!(
        pairs(&form),
        vec![
            ("grant_type", "authorization_code"),
            ("code", "c"),
            ("redirect_uri", "u"),
            ("client_id", "i"),
            ("code_verifier", "v"),
            ("resource", "r"),
            ("client_secret", "s"),
        ]
    );
    assert_eq!(exchange_form("c", "u", "i", "v", "r", None).len(), 6);
}

#[test]
fn a_login_keeps_what_a_refresh_needs() {
    let tokens = read_tokens(200, r#"{"access_token":"a","refresh_token":"r","expires_in":60}"#, 1_000)
        .unwrap()
        .unwrap();
    assert_eq!(tokens.expires_at, Some(1_060));
    let creds = login(tokens, "i".to_string(), some("s"), server(), "res".to_string());
    assert_eq!(creds.scope.as_deref(), Some("s1 s2"));
    assert_eq!(creds.registration_endpoint.as_deref(), Some("https://a/register"));
    assert_eq!(creds.authorization_endpoint.as_deref(), Some("https://a/authorize"));
    let (endpoint, form) = refresh_form(&creds).unwrap();
    assert_eq!(endpoint, "https://a/token");
    assert_eq!(
        pairs(&form),
        vec![
            ("grant_type", "refresh_token"),
            ("refresh_token", "r"),
            ("client_id", "i"),
            ("client_secret", "s"),
            ("resource", "res"),
            ("scope", "s1 s2"),
        ]
    );
    assert!(matches!(choose_client(&creds, &server()), Ok(ClientChoice::Known(..))));
}

#[test]
fn a_refresh_keeps_the_refresh_token() {
    let existing = Credentials {
        access_token: some("old"),
        refresh_token: some("r"),
        expires_at: Some(5),
        client_id: some("i"),
        token_endpoint: some("t"),
        scope: some("s"),
        ..Credentials::default()
    };
    let tokens = Credentials { access_token: some("new"), ..Credentials::default() };
    let renewed = refresh(&existing, Some(tokens)).unwrap();
    assert_eq!(renewed.access_token.as_deref(), Some("new"));
    assert_eq!(renewed.refresh_token.as_deref(), Some("r"));
    assert_eq!(renewed.expires_at, None);
    assert_eq!(renewed.scope.as_deref(), Some("s"));
    assert_eq!(renewed.client_id.as_deref(), Some("i"));
    let rotated = Credentials {
        access_token: some("new"),
        refresh_token: some("r2"),
        scope: some("s2"),
        ..Credentials::default()
    };
    let renewed = refresh(&existing, Some(rotated)).unwrap();
    assert_eq!(renewed.refresh_token.as_deref(), Some("r2"));
    assert_eq!(renewed.scope.as_deref(), Some("s2"));
    assert_eq!(refresh(&existing, None), None);
    assert!(refresh_form(&Credentials { refresh_token: None, ..existing }).is_none());
}

#[test]
fn an_answer_without_a_token_is_an_error() {
    let message = |status: u16, text: &str| read_tokens(status, text, 0).unwrap().unwrap_err().message();
    assert_eq!(message(401, " no "), "token request failed (401 Unauthorized): no");
    assert_eq!(message(200, "{}"), "token response has no access_token");
    assert!(message(200, " x ").starts_with("parsing token response: x: "));
    assert!(read_tokens(200, r#"{"access_token":"a","expires_in":1}"#, u64::MAX).is_none());
    let refused = read_tokens(400, r#"{"access_token":"a","expires_in":1}"#, u64::MAX).unwrap();
    assert_eq!(
        refused.unwrap_err().message(),
        r#"token request failed (400 Bad Request): {"access_token":"a","expires_in":1}"#
    );
    let empty = read_tokens(200, r#"{"expires_in":1}"#, u64::MAX).unwrap();
    assert_eq!(empty.unwrap_err().message(), "token response has no access_token");
    let lasting = read_tokens(200, r#"{"access_token":"a","scope":"s"}"#, u64::MAX).unwrap().unwrap();
    assert_eq!(lasting.expires_at, None);
    assert_eq!(lasting.scope.as_deref(), Some("s"));
    assert_eq!(lasting.client_id, None);
}

#[test]
fn a_request_is_complete_when_its_headers_are() {
    assert!(!headers_complete(b"GET / HTTP/1.1\r\n"));
    assert!(headers_complete(b"GET / HTTP/1.1\r\n\r\n"));
    assert!(headers_complete(b"\r\n\r\nbody"));
    assert!(!headers_complete(b"\r\n\r"));
    assert!(!headers_complete(&vec![b'x'; 65_536]));
    assert!(headers_complete(&vec![b'x'; 65_537]));
}

#[test]
fn the_target_is_the_second_word() {
    assert_eq!(request_target("GET /callback?code=1 HTTP/1.1\r\nHost: x").as_deref(), Some("/callback?code=1"));
    assert_eq!(request_target(" GET\t/x"), some("/x"));
    assert_eq!(request_target("GET"), None);
    assert_eq!(request_target(""), None);
    assert_eq!(request_target("\nGET /x"), None);
}

#[test]
fn a_code_needs_the_right_state() {
    let get = |target: &str| answer(&format!("GET {target} HTTP/1.1\r\n\r\n"), "st");
    assert_eq!(
        get("/callback?code=a%20b&state=st"),
        Callback::Accept("Authorized. You can close this tab.".to_string(), "a b".to_string())
    );
    match get("/callback?code=c&state=other") {
        Callback::Abort(Some(message), e) => {
            assert_eq!(message, "State mismatch.");
            assert_eq!(e.message(), "authorization state mismatch — possible CSRF, aborting");
        }
        _ => panic!("expected an end"),
    }
    assert!(matches!(get("/callback?code=c"), Callback::Abort(Some(_), _)));
    assert_eq!(get("/callback"), Callback::Wait("Missing authorization code.".to_string()));
    assert_eq!(
        get("/favicon.ico"),
        Callback::Wait("Waiting for the authorization callback…".to_string())
    );
    match get("/callback?error=denied&error_description=not+today&code=c&state=st") {
        Callback::Abort(Some(message), e) => {
            assert_eq!(message, "Authorization failed: denied");
            assert_eq!(e.message(), "authorization failed: denied not today");
        }
        _ => panic!("expected an end"),
    }
    assert_eq!(answer("", "st"), Callback::Wait("Bad request.".to_string()));
    match get(":x") {
        Callback::Abort(None, e) => assert_eq!(e.message(), "invalid port number"),
        other => panic!("{other:?}"),
    }
    assert_eq!(
        answer_bytes(b"GET /callback?code=c&state=st HTTP/1.1\r\n\xff", "st"),
        Callback::Accept("Authorized. You can close this tab.".to_string(), "c".to_string())
    );
}

#[test]
fn the_first_value_of_a_parameter_counts() {
    let given = vec![
        ("code".to_string(), "1".to_string()),
        ("code".to_string(), "2".to_string()),
        ("state".to_string(), "s".to_string()),
    ];
    assert_eq!(find_param(&given, "code"), Some("1"));
    assert_eq!(find_param(&given, "x"), None);
    assert!(matches!(decide("/callback", &given, "s"), Callback::Accept(_, code) if code == "1"));
    assert!(matches!(decide("/callback/", &given, "s"), Callback::Wait(_)));
}

#[test]
fn a_login_registers_a_client_once() {
    let (login, endpoint, body) = match begin(server(), "res".to_string(), 80, &Credentials::default()) {
        Ok(LoginStep::Register(login, endpoint, body)) => (login, endpoint, body),
        other => panic!("{other:?}"),
    };
    assert_eq!(endpoint, "https://a/register");
    assert_eq!(body, registration_body("http://127.0.0.1:80/callback", Some("s1 s2")));
    let asking = login.ask("i".to_string(), some("s")).unwrap();
    assert_eq!(asking.state.len(), 32);
    let tokens = Credentials { access_token: some("t"), ..Credentials::default() };
    let credentials = asking.finish(tokens);
    match begin(server(), "res".to_string(), 81, &credentials) {
        Ok(LoginStep::Ask(login, id, secret)) => {
            assert_eq!(login.redirect_uri, "http://127.0.0.1:81/callback");
            assert_eq!(id, "i");
            assert_eq!(secret.as_deref(), Some("s"));
        }
        other => panic!("{other:?}"),
    }
    let closed = AuthServer { registration_endpoint: None, ..server() };
    assert!(begin(closed, "res".to_string(), 80, &Credentials::default()).is_err());
}

#[test]
fn the_exchange_belongs_to_what_was_asked() {
    let login = Login {
        server: server(),
        resource: "https://r/".to_string(),
        redirect_uri: redirect_uri(9),
    };
    let proof = pkce_for("v".repeat(64));
    let challenge = proof.challenge.clone();
    let asking = login.ask_with("i".to_string(), None, proof, "st".to_string()).unwrap();
    assert!(asking.url.starts_with("https://a/authorize?response_type=code&client_id=i&redirect_uri="));
    assert!(asking.url.contains(&format!("&state=st&code_challenge={challenge}&code_challenge_method=S256")));
    assert!(asking.url.ends_with("&resource=https%3A%2F%2Fr%2F&scope=s1+s2"));
    assert_eq!(
        asking.answer(b"GET /callback?code=c&state=st HTTP/1.1\r\n\r\n"),
        Callback::Accept("Authorized. You can close this tab.".to_string(), "c".to_string())
    );
    assert!(matches!(
        asking.answer(b"GET /callback?code=c&state=other HTTP/1.1\r\n\r\n"),
        Callback::Abort(Some(_), _)
    ));
    let form = asking.exchange("c");
    assert_eq!(find_param(&form, "code_verifier"), Some("v".repeat(64).as_str()));
    assert_eq!(find_param(&form, "redirect_uri"), Some("http://127.0.0.1:9/callback"));
    assert_eq!(find_param(&form, "resource"), Some("https://r/"));
    assert_eq!(find_param(&form, "client_secret"), None);
    let unreadable = Login {
        server: AuthServer { authorization_endpoint: "nope".to_string(), ..server() },
        resource: String::new(),
        redirect_uri: String::new(),
    };
    assert!(matches!(unreadable.ask("i".to_string(), None), Err(Trouble::Fault(_))));
}

#[test]
fn a_response_counts_its_bytes() {
    let body = "<!doctype html><meta charset=\"utf-8\"><title>mcp</title>\
                <body style=\"font:16px system-ui;padding:3rem\">é</body>";
    assert_eq!(
        respond("é"),
        format!(
            "HTTP/1.1 200 OK\r\nContent-Type: text/html; charset=utf-8\r\n\
             Content-Length: {}\r\nConnection: close\r\n\r\n{body}",
            body.len()
        )
    );
}

#[test]
fn addresses_without_query_and_fragment() {
    let at = target("https://Example.com/a/b?x=1&y#part?z");
    assert_eq!(at.path, "/a/b");
    assert_eq!(at.bare, "https://example.com/a/b");
    assert_eq!(at.bare_path, "/a/b");
    assert_eq!(at.root, "https://example.com/");
    let at = target("mailto:me ?subject=x#f");
    assert_eq!(at.bare, "mailto:me");
    assert_eq!(at.root, "mailto:");
}

#[test]
fn queries_are_extended_behind_what_is_there() {
    let pairs = |list: &[(&str, &str)]| -> Vec<(String, String)> {
        list.iter().map(|(k, v)| (k.to_string(), v.to_string())).collect()
    };
    let two = pairs(&[("a b", "c&é"), ("d", "")]);
    let extended = |url: &str, pairs: &Vec<(String, String)>| extend_query(url, pairs, "reading").unwrap();
    assert_eq!(extended("https://e.com/p", &two), "https://e.com/p?a+b=c%26%C3%A9&d=");
    assert_eq!(extended("https://e.com/p#f", &two), "https://e.com/p?a+b=c%26%C3%A9&d=#f");
    assert_eq!(extended("https://e.com/p?#f", &two), "https://e.com/p?a+b=c%26%C3%A9&d=#f");
    assert_eq!(extended("https://e.com/p?x#f", &two), "https://e.com/p?x&a+b=c%26%C3%A9&d=#f");
    assert_eq!(extended("https://e.com/p#f", &vec![]), "https://e.com/p?#f");
    assert_eq!(
        extend_query("e.com", &two, "reading").unwrap_err(),
        Trouble::Fault(Error::because("reading".to_string(), "relative URL without a base".to_string()))
    );
}

#[test]
fn an_extended_query_gives_back_what_was_put_in() {
    let pairs: Vec<(String, String)> = [("a+b", "é &=#%?"), ("", ""), ("x", "\u{0}\n~"), ("x", "+")]
        .iter()
        .map(|(k, v)| (k.to_string(), v.to_string()))
        .collect();
    for (start, before) in [("https://e.com/", 0), ("https://e.com/?", 0), ("https://e.com/?a=1&&b#f", 2)] {
        let extended = extend_query(start, &pairs, "").unwrap();
        let read: Vec<(String, String)> =
            url::Url::parse(&extended).unwrap().query_pairs().into_owned().collect();
        assert_eq!(read.len(), before + pairs.len());
        assert_eq!(read[before..], pairs[..]);
    }
}

#[test]
fn a_query_takes_one_byte_or_three_for_each_of_a_value() {
    for c in '\u{0}'..='\u{7ff}' {
        let text = c.to_string();
        let plain = c.is_ascii_alphanumeric() || "*-._ ".contains(c);
        let size = if plain { 1 } else { 3 * text.len() };
        let url = extend_query("https://e.com/", &vec![("k".to_string(), text)], "").unwrap();
        assert_eq!(url.len(), "https://e.com/?k=".len() + size, "{c:?}");
    }
}
