use hydra::guid::{normalize, strip_dashes};
use hydra::handler::{client_ip, find_suffix, resolve, resolve_host, Response};
use hydra::request::{AppState, Context, Request};
use hydra::table::LookupTable;
use std::sync::Arc;

fn table() -> LookupTable {
    let mut t = LookupTable::new();
    assert!(t.insert_record("abc123", "https://example.com/a"));
    t
}

fn state(t: LookupTable) -> AppState {
    AppState {
        state_thing: "state".to_string(),
        remote_ip: "10.0.0.1:5000".to_string(),
        version: "1.2.3".to_string(),
        guids: Arc::new(t),
        suffix: ".guid.example.org".to_string(),
    }
}

fn request(headers: &[(&str, &str)]) -> Request {
    Request {
        method: "GET".to_string(),
        path: "/".to_string(),
        query: None,
        headers: headers.iter().map(|(n, v)| (n.to_string(), v.to_string())).collect(),
    }
}

fn resolve_with(headers: &[(&str, &str)]) -> Response {
    let ctx = Context::new(state(table()), request(headers), vec![]);
    resolve(&ctx)
}

#[test]
fn normalize_removes_dashes_and_quotes() {
    assert_eq!(normalize("ab-c\"1-2\"3"), "abc123");
    assert_eq!(normalize("--\"\""), "");
    assert_eq!(normalize(""), "");
}

#[test]
fn normalize_keeps_clean_token() {
    assert_eq!(normalize("917393e3fe"), "917393e3fe");
    assert_eq!(normalize("ÄbC.9"), "ÄbC.9");
}

#[test]
fn normalize_twice_is_once() {
    let once = normalize("a-\"b\"-c");
    assert_eq!(normalize(&once), once);
}

#[test]
fn strip_dashes_keeps_quotes() {
    assert_eq!(strip_dashes("a-\"b\"-c"), "a\"b\"c");
}

#[test]
fn table_last_record_wins_and_empty_key_skipped() {
    let mut t = LookupTable::new();
    assert!(t.insert_record("ab-12", "u1"));
    assert!(t.insert_record("ab12", "u2"));
    assert!(!t.insert_record("---", "u3"));
    assert!(!t.insert_record("", "u4"));
    assert_eq!(t.len(), 1);
    assert_eq!(t.get("ab12").map(|s| s.as_str()), Some("u2"));
    assert_eq!(t.get(""), None);
}

#[test]
fn find_suffix_first_occurrence() {
    assert_eq!(find_suffix("a.x.b.x", ".x"), Some(1));
    assert_eq!(find_suffix("abc", "abcd"), None);
    assert_eq!(find_suffix("abc", ""), Some(0));
    assert_eq!(find_suffix("é.x", ".x"), Some(1));
}

#[test]
fn known_guid_resolves_to_url() {
    let r = resolve_with(&[("host", "abc-123.guid.example.org")]);
    assert_eq!(r.status, 200);
    assert_eq!(r.body, "https://example.com/a");
}

#[test]
fn quoted_guid_resolves_to_url() {
    let r = resolve_with(&[("host", "\"abc-123\".guid.example.org")]);
    assert_eq!(r.status, 200);
    assert_eq!(r.body, "https://example.com/a");
}

#[test]
fn unknown_guid_not_found() {
    let r = resolve_with(&[("host", "zzz.guid.example.org")]);
    assert_eq!(r.status, 404);
    assert!(r.body.contains("zzz"));
    assert_eq!(r.body, "Guid: \"zzz\" not found (key \"zzz\")");
}

#[test]
fn unknown_dashed_guid_names_token_and_key() {
    let r = resolve_with(&[("host", "z-z-z.guid.example.org")]);
    assert_eq!(r.status, 404);
    assert!(r.body.contains("z-z-z"));
    assert_eq!(r.body, "Guid: \"z-z-z\" not found (key \"zzz\")");
}

#[test]
fn missing_host_is_bad_request() {
    let r = resolve_with(&[("cf-connecting-ip", "1.2.3.4"), ("accept", "*/*")]);
    assert_eq!(r.status, 400);
    assert_eq!(r.body, "Host header is required.");
}

#[test]
fn host_without_suffix_is_bad_request() {
    let r = resolve_with(&[("host", "example.org")]);
    assert_eq!(r.status, 400);
    assert_eq!(r.body, "Required host header format is: [guid].guid.example.org");
}

#[test]
fn host_without_suffix_ignores_table() {
    let r = resolve_host(&LookupTable::new(), ".guid.example.org", Some("abc123"));
    assert_eq!(r.status, 400);
    assert_eq!(r.body, "Required host header format is: [guid].guid.example.org");
}

#[test]
fn first_host_header_counts() {
    let r = resolve_with(&[("host", "abc123.guid.example.org"), ("host", "zzz.guid.example.org")]);
    assert_eq!(r.status, 200);
}

#[test]
fn repeated_resolutions_agree() {
    let t = table();
    let hosts = ["zzz.guid.example.org", "abc123.guid.example.org", "x.org"];
    let forward: Vec<(u16, String)> = hosts
        .iter()
        .map(|h| {
            let r = resolve_host(&t, ".guid.example.org", Some(h));
            (r.status, r.body)
        })
        .collect();
    let backward: Vec<(u16, String)> = hosts
        .iter()
        .rev()
        .map(|h| {
            let r = resolve_host(&t, ".guid.example.org", Some(h));
            (r.status, r.body)
        })
        .collect();
    assert_eq!(forward[0], backward[2]);
    assert_eq!(forward[1], backward[1]);
    assert_eq!(forward[2], backward[0]);
}

#[test]
fn client_ip_prefers_proxy_header() {
    let ctx = Context::new(state(table()), request(&[("cf-connecting-ip", "1.2.3.4")]), vec![]);
    assert_eq!(client_ip(&ctx), "1.2.3.4");
    let ctx = Context::new(state(table()), request(&[]), vec![]);
    assert_eq!(client_ip(&ctx), "10.0.0.1:5000");
}

#[test]
fn body_is_kept_once_stored() {
    let mut ctx = Context::new(state(table()), request(&[]), vec![]);
    assert!(ctx.needs_body());
    assert_eq!(ctx.body_bytes(), None);
    ctx.store_body(vec![1, 2]);
    ctx.store_body(vec![3]);
    assert!(!ctx.needs_body());
    assert_eq!(ctx.body_bytes(), Some(&vec![1u8, 2]));
}

#[test]
fn header_lookup_by_name() {
    let req = request(&[("a", "1"), ("b", "2"), ("a", "3")]);
    assert_eq!(req.header("a").map(|s| s.as_str()), Some("1"));
    assert_eq!(req.header("b").map(|s| s.as_str()), Some("2"));
    assert_eq!(req.header("c"), None);
}

#[test]
fn context_getters_return_parts() {
    let ctx = Context::new(state(table()), request(&[("host", "h")]), vec![("id".to_string(), "7".to_string())]);
    assert_eq!(ctx.state().version, "1.2.3");
    assert_eq!(ctx.req().path, "/");
    assert_eq!(ctx.params(), &vec![("id".to_string(), "7".to_string())]);
}
