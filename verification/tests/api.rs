use std::collections::VecDeque;

use runbook_tui::api::{
    format_body, is_json_content_type, make_placeholder, parse_content_type, substitute_variables, ApiItem, ApiRequest,
    ApiStatus, MAX_LOG_LINES,
};
use runbook_tui::keybinding::KeyBinding;

fn pairs(v: &[(&str, &str)]) -> Vec<(String, String)> {
    v.iter().map(|(k, x)| (k.to_string(), x.to_string())).collect()
}

fn request() -> ApiRequest {
    ApiRequest {
        id: 1,
        method: "GET".to_string(),
        url: "https://example.com".to_string(),
        status: ApiStatus::Running,
        request_headers: String::new(),
        request_body: VecDeque::new(),
        request_content_type: None,
        headers: String::new(),
        body: VecDeque::new(),
        response_content_type: None,
    }
}

#[test]
fn substitution_replaces_placeholders() {
    let vars = pairs(&[("baseUrl", "https://httpbin.org"), ("greeting", "Hello"), ("name", "runbook-tui")]);
    assert_eq!(substitute_variables("{{baseUrl}}/post", &vars), "https://httpbin.org/post");
    assert_eq!(
        substitute_variables("{\"message\":\"{{greeting}} {{name}}!\"}", &vars),
        "{\"message\":\"Hello runbook-tui!\"}"
    );
    assert_eq!(substitute_variables("{{unknown}}", &vars), "{{unknown}}");
    assert_eq!(substitute_variables("plain", &Vec::new()), "plain");
}

#[test]
fn placeholder_is_braced() {
    assert_eq!(make_placeholder("token"), "{{token}}");
}

#[test]
fn apply_variables_rewrites_url_method_headers_and_body() {
    let mut item = ApiItem {
        name: "Post".to_string(),
        key: KeyBinding::Char('a'),
        method: "{{m}}".to_string(),
        url: "{{base}}/post".to_string(),
        headers: pairs(&[("Authorization", "Bearer {{token}}")]),
        body: Some("{{greeting}}".to_string()),
        variables: pairs(&[("m", "POST"), ("base", "http://h"), ("token", "t0"), ("greeting", "hi")]),
    };
    item.apply_variables();
    assert_eq!(item.method, "POST");
    assert_eq!(item.url, "http://h/post");
    assert_eq!(item.headers[0].1, "Bearer t0");
    assert_eq!(item.body.as_deref(), Some("hi"));
    assert_eq!(item.name, "Post");
}

#[test]
fn push_line_keeps_at_most_the_limit() {
    let mut r = request();
    for i in 0..(MAX_LOG_LINES + 5) {
        r.push_line(i.to_string());
    }
    assert_eq!(r.body.len(), MAX_LOG_LINES);
    assert_eq!(r.body.front().map(|s| s.as_str()), Some("5"));
    assert_eq!(r.body.back().map(|s| s.to_string()), Some((MAX_LOG_LINES + 4).to_string()));
}

#[test]
fn set_response_pretty_prints_json() {
    let mut r = request();
    r.set_response(200, "Content-Type: application/json\n".to_string(), "{\"a\":1}".to_string());
    assert!(matches!(r.status, ApiStatus::Done(200)));
    assert_eq!(r.response_content_type.as_deref(), Some("application/json"));
    let lines: Vec<&str> = r.body.iter().map(|s| s.as_str()).collect();
    assert_eq!(lines, vec!["{", "  \"a\": 1", "}"]);
}

#[test]
fn set_response_keeps_other_bodies() {
    let mut r = request();
    r.push_line("old".to_string());
    r.set_response(404, "content-type: text/plain\n".to_string(), "not\nfound".to_string());
    assert!(matches!(r.status, ApiStatus::Done(404)));
    let lines: Vec<&str> = r.body.iter().map(|s| s.as_str()).collect();
    assert_eq!(lines, vec!["not", "found"]);
}

#[test]
fn set_error_records_failure() {
    let mut r = request();
    r.set_error("timeout".to_string());
    assert!(matches!(r.status, ApiStatus::Failed(ref e) if e == "timeout"));
}

#[test]
fn content_type_is_found_case_insensitively() {
    assert_eq!(parse_content_type("HTTP 200\nContent-Type:  Application/JSON \n"), Some("application/json".to_string()));
    assert_eq!(parse_content_type("x: y\n"), None);
    assert_eq!(parse_content_type(""), None);
}

#[test]
fn json_content_types() {
    assert!(is_json_content_type(Some("application/json")));
    assert!(is_json_content_type(Some("text/javascript")));
    assert!(!is_json_content_type(Some("text/html")));
    assert!(!is_json_content_type(None));
}

#[test]
fn format_body_only_formats_valid_json() {
    assert_eq!(format_body("[1,2]", Some("application/json")), "[\n  1,\n  2\n]");
    assert_eq!(format_body("not json", Some("application/json")), "not json");
    assert_eq!(format_body("[1,2]", Some("text/plain")), "[1,2]");
    assert_eq!(format_body("[1,2]", None), "[1,2]");
}
