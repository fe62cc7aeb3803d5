//! The text written when the selected process's output or the selected API
//! exchange is exported to a file.

use vstd::prelude::*;
use std::collections::VecDeque;
use crate::api::{strings_view, ApiRequest, ApiStatus};
use crate::app::Process;
use crate::text::{join_with, push_str, to_string};

verus! {

/// Lines joined with line breaks between them.
pub open spec fn lines_text(lines: Seq<String>) -> Seq<char> {
    join_with(strings_view(lines), "\n"@)
}

/// The export of a process: `$ <command>`, a blank line, its output lines
/// and a final line break.
pub open spec fn runbook_export_spec(command: Seq<char>, output: Seq<String>) -> Seq<char> {
    "$ "@ + command + "\n\n"@ + lines_text(output) + "\n"@
}

/// The export of an API exchange: the method and URL, the request headers
/// and body, the status line (only while the request runs or after it
/// failed), then the response headers and body, each under its heading.
pub open spec fn api_export_spec(r: ApiRequest, status_label: Seq<char>) -> Seq<char> {
    r.method@ + " "@ + r.url@ + "\n\n--- Request headers ---\n"@ + r.request_headers@
        + "\n--- Request body ---\n"@ + lines_text(r.request_body@) + "\n\n"@
        + (if r.status is Done {
        Seq::empty()
    } else {
        status_label + "\n"@
    }) + "--- Response headers ---\n"@ + r.headers@ + "\n--- Response body ---\n"@
        + lines_text(r.body@) + "\n"@
}

/// Lines joined with line breaks between them.
pub fn join_lines(lines: &VecDeque<String>) -> (r: String)
    ensures
        r@ == lines_text(lines@),
{
    let mut r = String::new();
    let mut i: usize = 0;
    while i < lines.len()
        invariant
            i <= lines@.len(),
            r@ == join_with(strings_view(lines@.take(i as int)), "\n"@),
        decreases lines@.len() - i,
    {
        let ghost before = strings_view(lines@.take(i as int));
        let ghost after = strings_view(lines@.take(i as int + 1));
        assert(after.drop_last() =~= before);
        if i > 0 {
            push_str(&mut r, "\n");
        }
        push_str(&mut r, lines[i].as_str());
        i = i + 1;
        proof {
            if i == 1 {
                assert(r@ =~= after[0]);
            } else {
                assert(r@ =~= join_with(before, "\n"@) + "\n"@ + after.last());
            }
        }
    }
    assert(lines@.take(i as int) =~= lines@);
    r
}

/// The text exported for a process.
pub fn runbook_export_text(p: &Process) -> (r: String)
    ensures
        r@ == runbook_export_spec(p.command@, p.output@),
{
    let mut r = to_string("$ ");
    push_str(&mut r, p.command.as_str());
    push_str(&mut r, "\n\n");
    let out = join_lines(&p.output);
    push_str(&mut r, out.as_str());
    push_str(&mut r, "\n");
    r
}

/// The text exported for an API exchange; `status_label` is the shown text
/// of its status, written only while it runs or after it failed.
pub fn api_export_text(r: &ApiRequest, status_label: &str) -> (t: String)
    ensures
        t@ == api_export_spec(*r, status_label@),
{
    let mut t = to_string(r.method.as_str());
    push_str(&mut t, " ");
    push_str(&mut t, r.url.as_str());
    push_str(&mut t, "\n\n--- Request headers ---\n");
    push_str(&mut t, r.request_headers.as_str());
    push_str(&mut t, "\n--- Request body ---\n");
    let req_body = join_lines(&r.request_body);
    push_str(&mut t, req_body.as_str());
    push_str(&mut t, "\n\n");
    let ghost head = t@;
    match &r.status {
        ApiStatus::Done(_) => {},
        _ => {
            push_str(&mut t, status_label);
            push_str(&mut t, "\n");
        },
    }
    assert(t@ =~= head + (if r.status is Done {
        Seq::empty()
    } else {
        status_label@ + "\n"@
    }));
    push_str(&mut t, "--- Response headers ---\n");
    push_str(&mut t, r.headers.as_str());
    push_str(&mut t, "\n--- Response body ---\n");
    let body = join_lines(&r.body);
    push_str(&mut t, body.as_str());
    push_str(&mut t, "\n");
    t
}

} // verus!
