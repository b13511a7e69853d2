use mcp::cache::{
    cache_dir, clear, clear_message, file_name, is_entry, is_fresh, load, path, store, ttl, Entry, Removal, Sweep,
    DEFAULT_TTL,
};
use mcp::config::Root;
use mcp::json::parse_json;

fn entry(fetched_at: u64) -> Entry {
    Entry {
        fetched_at,
        url: "https://example.com/mcp".to_string(),
        tools: vec![],
    }
}

#[test]
fn an_entry_is_fresh_until_the_ttl_elapses() {
    let entry = entry(1_000);
    let url = "https://example.com/mcp";
    assert!(is_fresh(&entry, url, DEFAULT_TTL, 1_000));
    assert!(is_fresh(&entry, url, DEFAULT_TTL, 1_000 + DEFAULT_TTL - 1));
    assert!(!is_fresh(&entry, url, DEFAULT_TTL, 1_000 + DEFAULT_TTL));
}

#[test]
fn a_changed_url_invalidates_the_entry() {
    assert!(!is_fresh(
        &entry(1_000),
        "https://other.example/mcp",
        DEFAULT_TTL,
        1_000
    ));
}

#[test]
fn a_clock_moving_backwards_does_not_expire_the_entry() {
    assert!(is_fresh(
        &entry(5_000),
        "https://example.com/mcp",
        DEFAULT_TTL,
        1_000
    ));
}

#[test]
fn server_names_become_a_single_safe_path_segment() {
    assert_eq!(file_name("linear"), "linear.json");
    assert_eq!(file_name("../../etc/passwd"), "______etc_passwd.json");
}

#[test]
fn unsafe_characters_of_any_script_are_replaced() {
    assert_eq!(file_name("a b-c_d.é"), "a_b-c_d__.json");
    assert_eq!(file_name(""), ".json");
}

#[test]
fn the_lifetime_is_a_day_unless_the_environment_says_otherwise() {
    assert_eq!(ttl(None), 86_400);
    assert_eq!(ttl(Some("60")), 60);
    assert_eq!(ttl(Some("+7")), 7);
    assert_eq!(ttl(Some("0")), 0);
    assert_eq!(ttl(Some("")), 86_400);
    assert_eq!(ttl(Some("-1")), 86_400);
    assert_eq!(ttl(Some("a day")), 86_400);
    assert_eq!(ttl(Some("18446744073709551615")), u64::MAX);
    assert_eq!(ttl(Some("18446744073709551616")), 86_400);
}

#[test]
fn a_stored_list_comes_back_while_it_lives() {
    let url = "https://example.com/mcp";
    let tools = vec![parse_json(r#"{"name":"a"}"#).unwrap()];
    let stored = store(url, &tools, 10, 100).unwrap();
    assert_eq!(stored.fetched_at, 100);
    assert_eq!(stored.url, url);
    let again = store(url, &tools, 10, 100);
    assert_eq!(load(again, url, 10, 109), Some(vec![parse_json(r#"{"name":"a"}"#).unwrap()]));
    assert_eq!(load(store(url, &tools, 10, 100), url, 10, 110), None);
    assert_eq!(load(store(url, &tools, 10, 100), "https://other/", 10, 100), None);
}

#[test]
fn a_lifetime_of_zero_turns_the_cache_off() {
    assert!(store("u", &vec![], 0, 100).is_none());
    assert_eq!(load(Some(entry(100)), "https://example.com/mcp", 0, 100), None);
    assert_eq!(load(None, "u", 10, 100), None);
}

#[test]
fn the_cache_lies_below_the_directory_of_the_program() {
    let dir = cache_dir(Some("/tmp/x".to_string()), false).unwrap();
    assert_eq!(dir.root, Root::Given("/tmp/x".to_string()));
    assert_eq!(dir.segments, vec!["cache".to_string()]);
    let file = path("a/b", None, true).unwrap();
    assert_eq!(file.root, Root::User);
    assert_eq!(file.segments, vec!["mcp".to_string(), "cache".to_string(), "a_b.json".to_string()]);
    assert_eq!(cache_dir(None, false).unwrap_err().message(), "cannot determine config directory");
}

#[test]
fn removing_a_missing_list_is_no_error() {
    assert_eq!(clear("p", Removal::Removed), Ok(1));
    assert_eq!(clear("p", Removal::Missing), Ok(0));
    let e = clear("p", Removal::Failed("denied".to_string())).unwrap_err();
    assert_eq!(e.message(), "removing p: denied");
}

#[test]
fn a_sweep_removes_the_files_of_the_cache() {
    let mut sweep = Sweep::new("dir".to_string());
    assert_eq!(sweep.begin(Ok(true)), Ok(true));
    assert_eq!(sweep.begin(Ok(false)), Ok(false));
    assert_eq!(sweep.begin(Err("no".to_string())).unwrap_err().message(), "reading dir: no");
    assert_eq!(sweep.wants(Ok("linear.json".to_string())), Ok(true));
    assert_eq!(sweep.wants(Ok(file_name(""))), Ok(true));
    assert_eq!(sweep.wants(Ok("notes.txt".to_string())), Ok(false));
    assert_eq!(sweep.wants(Ok("json".to_string())), Ok(false));
    assert_eq!(sweep.wants(Err("no".to_string())).unwrap_err().message(), "reading dir: no");
    assert!(sweep.count("f", None).is_ok());
    assert_eq!(sweep.removed, 1);
    assert_eq!(sweep.count("f", Some("no".to_string())).unwrap_err().message(), "removing f: no");
    assert_eq!(sweep.removed, 1);
    assert!(is_entry("a.b.json"));
    assert!(is_entry(".json"));
    assert!(!is_entry("a.json.bak"));
    assert!(!is_entry("ajson"));
    assert!(!is_entry(""));
}

#[test]
fn the_user_is_told_how_many_lists_are_gone() {
    assert_eq!(clear_message(Some("a"), 0), "No cached schemas for a");
    assert_eq!(clear_message(Some("a"), 1), "Cleared cached schemas for a");
    assert_eq!(clear_message(None, 0), "No cached schemas to clear");
    assert_eq!(clear_message(None, 1), "Cleared cached schemas for 1 server");
    assert_eq!(clear_message(None, 12), "Cleared cached schemas for 12 servers");
}
