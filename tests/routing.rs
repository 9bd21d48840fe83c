use hydra::handler::Response;
use hydra::landing::{landing, render, respond, serve, wants_template};
use hydra::request::{AppState, Context, Request};
use hydra::router::{split_segments, Handler, Router};
use hydra::table::LookupTable;
use std::sync::Arc;

fn state() -> AppState {
    let mut t = LookupTable::new();
    t.insert_record("abc-123", "https://example.com/a");
    AppState {
        state_thing: "state".to_string(),
        remote_ip: "10.0.0.1:5000".to_string(),
        version: "1.2.3".to_string(),
        guids: Arc::new(t),
        suffix: ".guid.example.org".to_string(),
    }
}

fn request(method: &str, path: &str, query: Option<&str>, host: Option<&str>) -> Request {
    Request {
        method: method.to_string(),
        path: path.to_string(),
        query: query.map(|q| q.to_string()),
        headers: host.map(|h| vec![("host".to_string(), h.to_string())]).unwrap_or_default(),
    }
}

fn params(p: &[(&str, &str)]) -> Vec<(String, String)> {
    p.iter().map(|(a, b)| (a.to_string(), b.to_string())).collect()
}

#[test]
fn split_cuts_at_slashes() {
    assert_eq!(split_segments("/"), vec!["", ""]);
    assert_eq!(split_segments("/a/b"), vec!["", "a", "b"]);
    assert_eq!(split_segments(""), vec![""]);
    assert_eq!(split_segments("a//"), vec!["a", "", ""]);
}

#[test]
fn route_matches_literal_and_method() {
    let mut r = Router::new();
    r.get("/", Handler::Resolve);
    r.post("/", Handler::Landing);
    let m = r.route("/", "GET");
    assert_eq!(m.handler, Handler::Resolve);
    assert!(m.params.is_empty());
    assert_eq!(r.route("/", "POST").handler, Handler::Landing);
    assert_eq!(r.route("/", "PUT").handler, Handler::NotFound);
    assert_eq!(r.route("/x", "GET").handler, Handler::NotFound);
}

#[test]
fn route_binds_parameters() {
    let mut r = Router::new();
    r.get("/feed/:id/item/:n", Handler::Resolve);
    let m = r.route("/feed/42/item/7", "GET");
    assert_eq!(m.handler, Handler::Resolve);
    assert_eq!(m.params, params(&[("id", "42"), ("n", "7")]));
    let miss = r.route("/feed//item/7", "GET");
    assert_eq!(miss.handler, Handler::NotFound);
    assert!(miss.params.is_empty());
}

#[test]
fn route_first_registered_wins() {
    let mut r = Router::new();
    r.get("/a/:x", Handler::Landing);
    r.get("/a/b", Handler::Resolve);
    assert_eq!(r.route("/a/b", "GET").handler, Handler::Landing);
    r.add("GET", "/c", Handler::Resolve);
    r.add("GET", "/c", Handler::Landing);
    assert_eq!(r.route("/c", "GET").handler, Handler::Resolve);
}

#[test]
fn render_substitutes_every_placeholder() {
    assert_eq!(render("v{{version}} ({{version}})", "{{version}}", "1.2.3"), "v1.2.3 (1.2.3)");
    assert_eq!(render("no placeholder", "{{version}}", "1"), "no placeholder");
    assert_eq!(render("{{versio", "{{version}}", "1"), "{{versio");
    assert_eq!(render("aaa", "aa", "b"), "ba");
}

#[test]
fn landing_renders_template_without_query() {
    let ctx = Context::new(state(), request("GET", "/", None, None), vec![]);
    assert!(wants_template(Handler::Landing, &ctx));
    let r = landing(&ctx, Some("<p>Version {{version}}</p>"));
    assert_eq!(r.status, 200);
    assert_eq!(r.body, "<p>Version 1.2.3</p>");
}

#[test]
fn landing_missing_template_is_internal_error() {
    let ctx = Context::new(state(), request("GET", "/", Some(""), None), vec![]);
    let r = landing(&ctx, None);
    assert_eq!(r.status, 500);
    assert_eq!(r.body, "Internal server error");
}

#[test]
fn landing_with_query_acknowledges() {
    let ctx = Context::new(state(), request("GET", "/", Some("a=1"), None), vec![]);
    assert!(!wants_template(Handler::Landing, &ctx));
    let r = landing(&ctx, None);
    assert_eq!(r.status, 200);
    assert_eq!(r.body, "OK");
}

#[test]
fn not_found_handler_is_404() {
    let ctx = Context::new(state(), request("GET", "/", None, None), vec![]);
    let r: Response = respond(Handler::NotFound, &ctx, None);
    assert_eq!(r.status, 404);
    assert_eq!(r.body, "");
}

#[test]
fn serve_routes_to_resolution() {
    let mut r = Router::new();
    r.get("/", Handler::Resolve);
    let resp = serve(&r, state(), request("GET", "/", None, Some("abc-123.guid.example.org")), None);
    assert_eq!(resp.status, 200);
    assert_eq!(resp.body, "https://example.com/a");
    let resp = serve(&r, state(), request("GET", "/other", None, Some("abc123.guid.example.org")), None);
    assert_eq!(resp.status, 404);
}

#[test]
fn serve_root_landing_page() {
    let mut r = Router::new();
    r.get("/", Handler::Landing);
    let resp = serve(&r, state(), request("GET", "/", None, Some("example.org")), Some("version={{version}}"));
    assert_eq!(resp.status, 200);
    assert_eq!(resp.body, "version=1.2.3");
}
