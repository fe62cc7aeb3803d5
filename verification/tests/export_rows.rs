use std::collections::VecDeque;

use runbook_tui::api::{ApiRequest, ApiStatus};
use runbook_tui::app::{App, Process, ProcessStatus};
use runbook_tui::export::{api_export_text, runbook_export_text};

fn s(x: &str) -> String {
    x.to_string()
}

fn lines(xs: &[&str]) -> VecDeque<String> {
    xs.iter().map(|x| x.to_string()).collect()
}

fn request(status: ApiStatus) -> ApiRequest {
    ApiRequest {
        id: 0,
        method: s("POST"),
        url: s("https://example.org/post"),
        status,
        request_headers: s("Content-Type: application/json"),
        request_body: lines(&["{", "  \"a\": 1", "}"]),
        request_content_type: Some(s("application/json")),
        headers: s("server: x"),
        body: lines(&["ok"]),
        response_content_type: None,
    }
}

#[test]
fn runbook_export_lists_command_and_output() {
    let p = Process {
        id: 3,
        title: s("List"),
        command: s("ls -la"),
        status: ProcessStatus::Exited(0),
        output: lines(&["a", "b"]),
    };
    assert_eq!(runbook_export_text(&p), "$ ls -la\n\na\nb\n");
    let empty = Process { output: VecDeque::new(), ..p };
    assert_eq!(runbook_export_text(&empty), "$ ls -la\n\n\n");
}

#[test]
fn api_export_shows_status_only_when_not_done() {
    let done = api_export_text(&request(ApiStatus::Done(200)), "HTTP 200");
    assert_eq!(
        done,
        "POST https://example.org/post\n\n--- Request headers ---\nContent-Type: application/json\n--- Request body ---\n{\n  \"a\": 1\n}\n\n--- Response headers ---\nserver: x\n--- Response body ---\nok\n"
    );
    let failed = api_export_text(&request(ApiStatus::Failed(s("timeout"))), "failed: timeout");
    assert_eq!(
        failed,
        "POST https://example.org/post\n\n--- Request headers ---\nContent-Type: application/json\n--- Request body ---\n{\n  \"a\": 1\n}\n\nfailed: timeout\n--- Response headers ---\nserver: x\n--- Response body ---\nok\n"
    );
}

#[test]
fn variable_rows_hide_secrets() {
    let mut app = App::new_api(
        Vec::new(),
        vec![(s("host"), s("example.org")), (s("token"), s("abc")), (s("empty"), s(""))],
        vec![s("token"), s("empty")],
        Vec::new(),
        None,
        Vec::new(),
        None,
    );
    assert_eq!(app.variable_rows(), vec![s("host = example.org"), s("token = ********"), s("empty = ")]);
    app.variable_edit_index = Some(1);
    app.variable_edit_value = s("xyz");
    app.variable_edit_reveal = false;
    assert_eq!(app.variable_rows()[1], "token = ********");
    app.variable_edit_reveal = true;
    assert_eq!(app.variable_rows()[1], "token = xyz_");
    app.variable_edit_index = Some(0);
    app.variable_edit_value = s("new");
    assert_eq!(app.variable_rows()[0], "host = new_");
}
