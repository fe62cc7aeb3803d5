//! API entries and their requests: `{{variable}}` substitution, the bounded
//! response log, content-type detection and JSON body formatting.

use std::collections::VecDeque;
use vstd::prelude::*;
use crate::keybinding::KeyBinding;
use crate::text::{
    char_count, chars_of, concat, eq_ignore_ascii_case, eq_ignore_ascii_case_spec, has_substring,
    lines_spec, lower_text, replace_spec, replace_str, split_lines, str_contains, string_of,
    to_lowercase, to_string, trim, trim_spec,
};

verus! {

/// Most lines a process output or a response body keeps; older lines are
/// dropped first.
pub const MAX_LOG_LINES: usize = 50000;

/// The character views of a sequence of strings.
pub open spec fn strings_view(s: Seq<String>) -> Seq<Seq<char>> {
    s.map_values(|x: String| x@)
}

/// The character views of a sequence of string pairs.
pub open spec fn pairs_view(s: Seq<(String, String)>) -> Seq<(Seq<char>, Seq<char>)> {
    s.map_values(|p: (String, String)| (p.0@, p.1@))
}

/// The last `n` elements of `s` (all of them when there are fewer).
pub open spec fn last_n<T>(s: Seq<T>, n: nat) -> Seq<T> {
    if s.len() <= n {
        s
    } else {
        s.skip(s.len() - n)
    }
}

/// A bounded log after appending `line`: when it is full, its oldest line
/// is dropped first.
pub open spec fn log_push<T>(log: Seq<T>, line: T) -> Seq<T> {
    (if log.len() >= MAX_LOG_LINES {
        log.drop_first()
    } else {
        log
    }).push(line)
}

/// `{{key}}`.
pub open spec fn placeholder(key: Seq<char>) -> Seq<char> {
    seq!['{', '{'] + key + seq!['}', '}']
}

/// `text` with the placeholder of every variable replaced by its value, the
/// variables taken in order.
pub open spec fn substitute_spec(text: Seq<char>, vars: Seq<(Seq<char>, Seq<char>)>) -> Seq<char>
    decreases vars.len(),
{
    if vars.len() == 0 {
        text
    } else {
        replace_spec(substitute_spec(text, vars.drop_last()), placeholder(vars.last().0), vars.last().1)
    }
}

/// An API entry: a named request with its key binding, method, URL, headers,
/// optional body and the variables in effect for it.
#[derive(Debug, Clone)]
pub struct ApiItem {
    pub name: String,
    pub key: KeyBinding,
    pub method: String,
    pub url: String,
    pub headers: Vec<(String, String)>,
    pub body: Option<String>,
    pub variables: Vec<(String, String)>,
}

/// The view of an API entry.
pub struct ApiItemView {
    pub name: Seq<char>,
    pub key: KeyBinding,
    pub method: Seq<char>,
    pub url: Seq<char>,
    pub headers: Seq<(Seq<char>, Seq<char>)>,
    pub body: Option<Seq<char>>,
    pub variables: Seq<(Seq<char>, Seq<char>)>,
}

impl View for ApiItem {
    type V = ApiItemView;

    open spec fn view(&self) -> ApiItemView {
        ApiItemView {
            name: self.name@,
            key: self.key,
            method: self.method@,
            url: self.url@,
            headers: pairs_view(self.headers@),
            body: opt_view(self.body),
            variables: pairs_view(self.variables@),
        }
    }
}

/// The view of an optional string.
pub open spec fn opt_view(o: Option<String>) -> Option<Seq<char>> {
    match o {
        Some(s) => Some(s@),
        None => None,
    }
}

/// A copy of a list of string pairs.
pub fn clone_pairs(v: &Vec<(String, String)>) -> (r: Vec<(String, String)>)
    ensures
        r@ == v@,
{
    let mut r: Vec<(String, String)> = Vec::new();
    let mut i: usize = 0;
    while i < v.len()
        invariant
            i <= v.len(),
            r@ == v@.take(i as int),
        decreases v.len() - i,
    {
        r.push((v[i].0.clone(), v[i].1.clone()));
        i = i + 1;
        assert(r@ =~= v@.take(i as int));
    }
    assert(v@.take(v.len() as int) =~= v@);
    r
}

/// Builds `{{key}}`.
pub fn make_placeholder(key: &str) -> (r: String)
    ensures
        r@ == placeholder(key@),
{
    let a = concat("{{", key);
    let r = concat(a.as_str(), "}}");
    proof {
        reveal_strlit("{{");
        reveal_strlit("}}");
    }
    assert(r@ =~= placeholder(key@));
    r
}

/// Replaces every `{{key}}` placeholder of `text` by the variable's value,
/// the variables taken in order.
pub fn substitute_variables(text: &str, variables: &Vec<(String, String)>) -> (r: String)
    ensures
        r@ == substitute_spec(text@, pairs_view(variables@)),
{
    let mut result = to_string(text);
    let mut i: usize = 0;
    while i < variables.len()
        invariant
            i <= variables.len(),
            result@ == substitute_spec(text@, pairs_view(variables@).take(i as int)),
        decreases variables.len() - i,
    {
        let ph = make_placeholder(variables[i].0.as_str());
        result = replace_str(result.as_str(), ph.as_str(), variables[i].1.as_str());
        proof {
            let vs = pairs_view(variables@);
            assert(vs.take(i + 1).drop_last() =~= vs.take(i as int));
        }
        i = i + 1;
    }
    assert(pairs_view(variables@).take(variables.len() as int) =~= pairs_view(variables@));
    result
}

/// An API entry with its variables substituted into its URL, method, header
/// values and body.
pub open spec fn apply_variables_spec(a: ApiItemView) -> ApiItemView {
    ApiItemView {
        url: substitute_spec(a.url, a.variables),
        method: substitute_spec(a.method, a.variables),
        headers: a.headers.map_values(
            |h: (Seq<char>, Seq<char>)| (h.0, substitute_spec(h.1, a.variables)),
        ),
        body: match a.body {
            Some(b) => Some(substitute_spec(b, a.variables)),
            None => None,
        },
        ..a
    }
}

impl ApiItem {
    /// A copy of the entry.
    pub fn copy(&self) -> (r: ApiItem)
        ensures
            r@ == self@,
    {
        ApiItem {
            name: self.name.clone(),
            key: self.key,
            method: self.method.clone(),
            url: self.url.clone(),
            headers: clone_pairs(&self.headers),
            body: match &self.body {
                Some(b) => Some(b.clone()),
                None => None,
            },
            variables: clone_pairs(&self.variables),
        }
    }

    /// Substitutes the entry's variables into its URL, method, header values
    /// and body; the name, key, header names and variables are unchanged.
    pub fn apply_variables(&mut self)
        ensures
            final(self)@ == apply_variables_spec(old(self)@),
            final(self).name == old(self).name,
            final(self).key == old(self).key,
            final(self).variables == old(self).variables,
            final(self).url@ == substitute_spec(old(self).url@, pairs_view(old(self).variables@)),
            final(self).method@ == substitute_spec(old(self).method@, pairs_view(old(self).variables@)),
            final(self).headers@.len() == old(self).headers@.len(),
            forall|i: int|
                0 <= i < old(self).headers@.len() ==> {
                    &&& (#[trigger] final(self).headers@[i]).0 == old(self).headers@[i].0
                    &&& final(self).headers@[i].1@ == substitute_spec(
                        old(self).headers@[i].1@,
                        pairs_view(old(self).variables@),
                    )
                },
            final(self).body is Some <==> old(self).body is Some,
            old(self).body is Some ==> final(self).body->0@ == substitute_spec(
                old(self).body->0@,
                pairs_view(old(self).variables@),
            ),
    {
        let vars = clone_pairs(&self.variables);
        self.url = substitute_variables(self.url.as_str(), &vars);
        self.method = substitute_variables(self.method.as_str(), &vars);
        let mut i: usize = 0;
        while i < self.headers.len()
            invariant
                vars@ == old(self).variables@,
                self.variables == old(self).variables,
                self.name == old(self).name,
                self.key == old(self).key,
                self.body == old(self).body,
                self.url@ == substitute_spec(old(self).url@, pairs_view(old(self).variables@)),
                self.method@ == substitute_spec(old(self).method@, pairs_view(old(self).variables@)),
                i <= self.headers@.len(),
                self.headers@.len() == old(self).headers@.len(),
                forall|j: int|
                    0 <= j < self.headers@.len() ==> (#[trigger] self.headers@[j]).0
                        == old(self).headers@[j].0,
                forall|j: int|
                    0 <= j < i ==> (#[trigger] self.headers@[j]).1@ == substitute_spec(
                        old(self).headers@[j].1@,
                        pairs_view(old(self).variables@),
                    ),
                forall|j: int|
                    i <= j < self.headers@.len() ==> (#[trigger] self.headers@[j]).1
                        == old(self).headers@[j].1,
            decreases self.headers@.len() - i,
        {
            let name = self.headers[i].0.clone();
            let value = substitute_variables(self.headers[i].1.as_str(), &vars);
            self.headers.set(i, (name, value));
            i = i + 1;
        }
        if self.body.is_some() {
            let b = substitute_variables(self.body.as_ref().unwrap().as_str(), &vars);
            self.body = Some(b);
        }
        assert(pairs_view(self.headers@) =~= apply_variables_spec(old(self)@).headers);
    }
}

/// The state of a sent request: still running, answered with an HTTP
/// status, or failed with an error message.
#[derive(Debug, Clone)]
pub enum ApiStatus {
    Running,
    Done(u16),
    Failed(String),
}

/// The view of a request status.
pub enum ApiStatusView {
    Running,
    Done(u16),
    Failed(Seq<char>),
}

impl View for ApiStatus {
    type V = ApiStatusView;

    open spec fn view(&self) -> ApiStatusView {
        match self {
            ApiStatus::Running => ApiStatusView::Running,
            ApiStatus::Done(c) => ApiStatusView::Done(*c),
            ApiStatus::Failed(e) => ApiStatusView::Failed(e@),
        }
    }
}

/// The view of a sent request.
pub struct ApiRequestView {
    pub id: usize,
    pub method: Seq<char>,
    pub url: Seq<char>,
    pub status: ApiStatusView,
    pub request_headers: Seq<char>,
    pub request_body: Seq<Seq<char>>,
    pub request_content_type: Option<Seq<char>>,
    pub headers: Seq<char>,
    pub body: Seq<Seq<char>>,
    pub response_content_type: Option<Seq<char>>,
}

impl View for ApiRequest {
    type V = ApiRequestView;

    open spec fn view(&self) -> ApiRequestView {
        ApiRequestView {
            id: self.id,
            method: self.method@,
            url: self.url@,
            status: self.status@,
            request_headers: self.request_headers@,
            request_body: strings_view(self.request_body@),
            request_content_type: opt_view(self.request_content_type),
            headers: self.headers@,
            body: strings_view(self.body@),
            response_content_type: opt_view(self.response_content_type),
        }
    }
}

/// A sent request as the request history shows it.
#[derive(Debug, Clone)]
pub struct ApiRequest {
    pub id: usize,
    pub method: String,
    pub url: String,
    pub status: ApiStatus,
    pub request_headers: String,
    pub request_body: VecDeque<String>,
    pub request_content_type: Option<String>,
    pub headers: String,
    pub body: VecDeque<String>,
    pub response_content_type: Option<String>,
}

// ----------------------------------------------------------------------------
// Content types and body formatting
// ----------------------------------------------------------------------------

/// `content-type`.
pub open spec fn content_type_name() -> Seq<char> {
    seq!['c', 'o', 'n', 't', 'e', 'n', 't', '-', 't', 'y', 'p', 'e']
}

/// Index of the first occurrence of `c` in `s`, or `s.len()` when absent.
pub open spec fn char_index(s: Seq<char>, c: char) -> int
    decreases s.len(),
{
    if s.len() == 0 {
        0
    } else if s[0] == c {
        0
    } else {
        1 + char_index(s.drop_first(), c)
    }
}

/// The content type a header line declares: the line has a `:`, the text
/// before the first `:` is `content-type` in any ASCII case, and the value
/// is the rest, trimmed and lower-cased.
pub open spec fn content_type_of_line(l: Seq<char>) -> Option<Seq<char>> {
    let k = char_index(l, ':');
    if 0 <= k < l.len() && eq_ignore_ascii_case_spec(l.take(k), content_type_name()) {
        Some(lower_text(trim_spec(l.skip(k + 1))))
    } else {
        None
    }
}

/// The content type declared by the first header line that declares one.
pub open spec fn find_content_type(ls: Seq<Seq<char>>) -> Option<Seq<char>>
    decreases ls.len(),
{
    if ls.len() == 0 {
        None
    } else {
        match content_type_of_line(ls[0]) {
            Some(v) => Some(v),
            None => find_content_type(ls.drop_first()),
        }
    }
}

/// The content type declared in a block of header lines.
pub open spec fn parse_content_type_spec(headers: Seq<char>) -> Option<Seq<char>> {
    find_content_type(lines_spec(headers))
}

/// `json`.
pub open spec fn json_word() -> Seq<char> {
    seq!['j', 's', 'o', 'n']
}

/// `javascript`.
pub open spec fn javascript_word() -> Seq<char> {
    seq!['j', 'a', 'v', 'a', 's', 'c', 'r', 'i', 'p', 't']
}

/// A content type names JSON when it mentions `json` or `javascript`.
pub open spec fn is_json_spec(ct: Option<Seq<char>>) -> bool {
    match ct {
        Some(c) => has_substring(c, json_word()) || has_substring(c, javascript_word()),
        None => false,
    }
}

/// Name for what `serde_json` produces when it parses a text as JSON and
/// prints the value back with `to_string_pretty`: `None` when the text is
/// not JSON.
pub uninterp spec fn json_pretty(text: Seq<char>) -> Option<Seq<char>>;

/// The body as shown: pretty-printed when the content type is JSON and the
/// body parses as JSON, unchanged otherwise.
pub open spec fn format_body_spec(body: Seq<char>, ct: Option<Seq<char>>) -> Seq<char> {
    if is_json_spec(ct) && json_pretty(body) is Some {
        json_pretty(body)->0
    } else {
        body
    }
}

/// Calls `serde_json::from_str::<serde_json::Value>` on the text and then
/// `serde_json::to_string_pretty` on the value; the result is named
/// `json_pretty`, and is `None` when either step fails.
#[verifier::external_body]
pub(crate) fn pretty_json(text: &str) -> (r: Option<String>)
    ensures
        opt_view(r) == json_pretty(text@),
{
    match serde_json::from_str::<serde_json::Value>(text) {
        Ok(v) => serde_json::to_string_pretty(&v).ok(),
        Err(_) => None,
    }
}

/// Whether the content type names JSON (see `is_json_spec`).
pub fn is_json_content_type(content_type: Option<&str>) -> (b: bool)
    ensures
        b == is_json_spec(match content_type {
            Some(c) => Some(c@),
            None => None,
        }),
{
    match content_type {
        Some(ct) => {
            let j = str_contains(ct, "json");
            let js = str_contains(ct, "javascript");
            proof {
                reveal_strlit("json");
                reveal_strlit("javascript");
                assert("json"@ =~= json_word());
                assert("javascript"@ =~= javascript_word());
            }
            j || js
        },
        None => false,
    }
}

/// The body as shown (see `format_body_spec`).
pub fn format_body(body: &str, content_type: Option<&str>) -> (r: String)
    ensures
        r@ == format_body_spec(body@, match content_type {
            Some(c) => Some(c@),
            None => None,
        }),
{
    if is_json_content_type(content_type) {
        if let Some(p) = pretty_json(body) {
            return p;
        }
    }
    to_string(body)
}

proof fn lemma_char_index(s: Seq<char>, c: char, k: int)
    requires
        0 <= k <= s.len(),
        forall|j: int| 0 <= j < k ==> s[j] != c,
        k < s.len() ==> s[k] == c,
    ensures
        char_index(s, c) == k,
    decreases k,
{
    if k > 0 {
        let t = s.drop_first();
        assert forall|j: int| 0 <= j < k - 1 implies t[j] != c by {
            assert(t[j] == s[j + 1]);
        }
        if k < s.len() {
            assert(t[k - 1] == s[k]);
        }
        lemma_char_index(t, c, k - 1);
    }
}

/// The content type a single header line declares.
fn content_type_of(line: &str) -> (r: Option<String>)
    ensures
        opt_view(r) == content_type_of_line(line@),
{
    let lv = chars_of(line);
    let mut k: usize = 0;
    while k < lv.len() && lv[k] != ':'
        invariant
            lv@ == line@,
            k <= lv.len(),
            forall|j: int| 0 <= j < k ==> lv@[j] != ':',
        decreases lv.len() - k,
    {
        k = k + 1;
    }
    proof {
        lemma_char_index(line@, ':', k as int);
    }
    if k >= lv.len() {
        return None;
    }
    let mut key: Vec<char> = Vec::new();
    let mut i: usize = 0;
    while i < k
        invariant
            lv@ == line@,
            i <= k < lv.len(),
            key@ == lv@.take(i as int),
        decreases k - i,
    {
        key.push(lv[i]);
        i = i + 1;
        assert(key@ =~= lv@.take(i as int));
    }
    let mut rest: Vec<char> = Vec::new();
    let mut j: usize = k + 1;
    while j < lv.len()
        invariant
            lv@ == line@,
            k < lv.len(),
            k + 1 <= j <= lv.len(),
            rest@ == lv@.subrange(k + 1, j as int),
        decreases lv.len() - j,
    {
        rest.push(lv[j]);
        j = j + 1;
        assert(rest@ =~= lv@.subrange(k + 1, j as int));
    }
    assert(rest@ =~= lv@.skip(k + 1));
    let key_s = string_of(&key);
    let is_ct = eq_ignore_ascii_case(key_s.as_str(), "content-type");
    proof {
        reveal_strlit("content-type");
        assert("content-type"@ =~= content_type_name());
    }
    if is_ct {
        let rest_s = string_of(&rest);
        let t = trim(rest_s.as_str());
        Some(to_lowercase(t.as_str()))
    } else {
        None
    }
}

/// The content type declared in a block of header lines: the value of the
/// first `content-type: ...` line, trimmed and lower-cased.
pub fn parse_content_type(headers: &str) -> (r: Option<String>)
    ensures
        opt_view(r) == parse_content_type_spec(headers@),
{
    let lines = split_lines(headers);
    let ghost ls = lines_spec(headers@);
    let mut i: usize = 0;
    assert(ls.skip(0) =~= ls);
    while i < lines.len()
        invariant
            lines@.len() == ls.len(),
            forall|j: int| 0 <= j < lines@.len() ==> #[trigger] lines@[j]@ == ls[j],
            ls == lines_spec(headers@),
            i <= lines@.len(),
            find_content_type(ls.skip(i as int)) == find_content_type(ls),
        decreases lines@.len() - i,
    {
        assert(ls.skip(i as int)[0] == ls[i as int]);
        assert(ls.skip(i as int).drop_first() =~= ls.skip(i + 1));
        let r = content_type_of(lines[i].as_str());
        if r.is_some() {
            return r;
        }
        i = i + 1;
    }
    assert(ls.skip(i as int).len() == 0);
    None
}

proof fn lemma_last_n_push<T>(s: Seq<T>, x: T)
    requires
        last_n(s, MAX_LOG_LINES as nat).len() <= MAX_LOG_LINES,
    ensures
        log_push(last_n(s, MAX_LOG_LINES as nat), x) == last_n(s.push(x), MAX_LOG_LINES as nat),
{
    let n = MAX_LOG_LINES as nat;
    let l = last_n(s, n);
    if s.len() < n {
        assert(log_push(l, x) =~= s.push(x));
    } else if s.len() == n {
        assert(log_push(l, x) =~= s.push(x).skip(s.push(x).len() - n));
    } else {
        assert(l.len() == n);
        assert(log_push(l, x) =~= s.push(x).skip(s.push(x).len() - n));
    }
}

impl ApiRequest {
    /// Appends a line to the response body, dropping the oldest line first
    /// when the body already holds `MAX_LOG_LINES` lines.
    pub fn push_line(&mut self, line: String)
        ensures
            final(self).body@ == log_push(old(self).body@, line),
            final(self).id == old(self).id,
            final(self).method == old(self).method,
            final(self).url == old(self).url,
            final(self).status == old(self).status,
            final(self).request_headers == old(self).request_headers,
            final(self).request_body == old(self).request_body,
            final(self).request_content_type == old(self).request_content_type,
            final(self).headers == old(self).headers,
            final(self).response_content_type == old(self).response_content_type,
    {
        if self.body.len() >= MAX_LOG_LINES {
            self.body.pop_front();
        }
        self.body.push_back(line);
    }

    /// Records the response: the status, the header block and its content
    /// type, and the body's lines (pretty-printed when it is JSON), of which
    /// the last `MAX_LOG_LINES` are kept.
    pub fn set_response(&mut self, status: u16, headers: String, body: String)
        ensures
            final(self).status == ApiStatus::Done(status),
            final(self).headers == headers,
            opt_view(final(self).response_content_type) == parse_content_type_spec(headers@),
            strings_view(final(self).body@) == last_n(
                lines_spec(format_body_spec(body@, parse_content_type_spec(headers@))),
                MAX_LOG_LINES as nat,
            ),
            final(self).id == old(self).id,
            final(self).method == old(self).method,
            final(self).url == old(self).url,
            final(self).request_headers == old(self).request_headers,
            final(self).request_body == old(self).request_body,
            final(self).request_content_type == old(self).request_content_type,
    {
        self.status = ApiStatus::Done(status);
        self.response_content_type = parse_content_type(headers.as_str());
        self.headers = headers;
        self.body.clear();
        let text = match &self.response_content_type {
            Some(ct) => format_body(body.as_str(), Some(ct.as_str())),
            None => format_body(body.as_str(), None),
        };
        let lines = split_lines(text.as_str());
        let ghost ls = lines_spec(text@);
        let mut i: usize = 0;
        while i < lines.len()
            invariant
                lines@.len() == ls.len(),
                forall|j: int| 0 <= j < lines@.len() ==> #[trigger] lines@[j]@ == ls[j],
                i <= lines@.len(),
                strings_view(self.body@) == last_n(ls.take(i as int), MAX_LOG_LINES as nat),
                self.status == ApiStatus::Done(status),
                self.headers == headers,
                opt_view(self.response_content_type) == parse_content_type_spec(headers@),
                self.id == old(self).id,
                self.method == old(self).method,
                self.url == old(self).url,
                self.request_headers == old(self).request_headers,
                self.request_body == old(self).request_body,
                self.request_content_type == old(self).request_content_type,
            decreases lines@.len() - i,
        {
            let line = lines[i].clone();
            let ghost before = self.body@;
            self.push_line(line);
            proof {
                let t = ls.take(i as int);
                assert(ls.take(i + 1) =~= t.push(ls[i as int]));
                lemma_last_n_push(t, ls[i as int]);
                assert(strings_view(self.body@) =~= log_push(strings_view(before), lines@[i as int]@));
            }
            i = i + 1;
        }
        assert(ls.take(lines@.len() as int) =~= ls);
    }

    /// Marks the request as failed with the given error.
    pub fn set_error(&mut self, error: String)
        ensures
            final(self).status == ApiStatus::Failed(error),
            final(self).id == old(self).id,
            final(self).method == old(self).method,
            final(self).url == old(self).url,
            final(self).request_headers == old(self).request_headers,
            final(self).request_body == old(self).request_body,
            final(self).request_content_type == old(self).request_content_type,
            final(self).headers == old(self).headers,
            final(self).body == old(self).body,
            final(self).response_content_type == old(self).response_content_type,
    {
        self.status = ApiStatus::Failed(error);
    }
}

} // verus!
