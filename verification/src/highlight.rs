//! Syntax colouring of body lines: a line of JSON or of XML/HTML is cut into
//! tokens, each with the role that decides its colour.  Cutting loses
//! nothing: the tokens' texts put together give the line back.

use vstd::prelude::*;
use crate::text::{chars_of, string_of, white_space};

verus! {

/// What a token is, for colouring.
#[derive(Debug, Clone, Copy, PartialEq, Eq, Structural)]
pub enum TextRole {
    Plain,
    JsonString,
    JsonPunctuation,
    JsonNumber,
    JsonKeyword,
    JsonWord,
    XmlTag,
}

/// Name for the result of `char::is_alphabetic`.
pub uninterp spec fn is_alpha(c: char) -> bool;

/// Whether `char::is_alphabetic` holds of a character: among ASCII
/// characters exactly the letters; beyond ASCII as `is_alpha` names it.
pub open spec fn letter(c: char) -> bool {
    if c <= '\u{7f}' {
        'a' <= c <= 'z' || 'A' <= c <= 'Z'
    } else {
        is_alpha(c)
    }
}

/// Calls `char::is_alphabetic` (Unicode `Alphabetic`); the result is named
/// `is_alpha`.  Among ASCII characters exactly the letters have the
/// property.
#[verifier::external_body]
fn char_is_alphabetic(c: char) -> (b: bool)
    ensures
        b == is_alpha(c),
        ('a' <= c <= 'z' || 'A' <= c <= 'Z') ==> b,
        c <= '\u{7f}' && !('a' <= c <= 'z' || 'A' <= c <= 'Z') ==> !b,
{
    c.is_alphabetic()
}

/// The texts of tokens put together.
pub open spec fn token_text(ts: Seq<(Seq<char>, TextRole)>) -> Seq<char>
    decreases ts.len(),
{
    if ts.len() == 0 {
        Seq::empty()
    } else {
        ts[0].0 + token_text(ts.drop_first())
    }
}

/// The views of tokens.
pub open spec fn tokens_view(ts: Seq<(String, TextRole)>) -> Seq<(Seq<char>, TextRole)> {
    ts.map_values(|t: (String, TextRole)| (t.0@, t.1))
}

// ----------------------------------------------------------------------------
// JSON
// ----------------------------------------------------------------------------

/// JSON punctuation: braces, brackets, commas and colons.
pub open spec fn is_json_punct(c: char) -> bool {
    c == '{' || c == '}' || c == '[' || c == ']' || c == ',' || c == ':'
}

/// A character that continues a number.
pub open spec fn is_number_char(c: char) -> bool {
    ('0' <= c <= '9') || c == '.' || c == 'e' || c == 'E' || c == '+' || c == '-'
}

/// The length of the leading white space.
pub open spec fn ws_run(t: Seq<char>) -> nat
    decreases t.len(),
{
    if t.len() > 0 && white_space(t[0]) {
        1 + ws_run(t.drop_first())
    } else {
        0
    }
}

/// The length of the leading number characters.
pub open spec fn number_run(t: Seq<char>) -> nat
    decreases t.len(),
{
    if t.len() > 0 && is_number_char(t[0]) {
        1 + number_run(t.drop_first())
    } else {
        0
    }
}

/// The length of the leading alphabetic characters.
pub open spec fn alpha_run(t: Seq<char>) -> nat
    decreases t.len(),
{
    if t.len() > 0 && letter(t[0]) {
        1 + alpha_run(t.drop_first())
    } else {
        0
    }
}

/// How much of a string literal follows its opening quote: up to and
/// including the closing quote, a backslash taking the next character with
/// it; the rest of the line when the literal is not closed.
pub open spec fn string_len(t: Seq<char>) -> nat
    decreases t.len(),
{
    if t.len() == 0 {
        0
    } else if t[0] == '\\' {
        if t.len() >= 2 {
            2 + string_len(t.skip(2))
        } else {
            1
        }
    } else if t[0] == '"' {
        1
    } else {
        1 + string_len(t.drop_first())
    }
}

/// The runs and literals never reach past the end of the text.
pub proof fn lemma_runs_bounded(t: Seq<char>)
    ensures
        ws_run(t) <= t.len(),
        number_run(t) <= t.len(),
        alpha_run(t) <= t.len(),
        string_len(t) <= t.len(),
    decreases t.len(),
{
    if t.len() > 0 {
        lemma_runs_bounded(t.drop_first());
        if t.len() >= 2 {
            lemma_runs_bounded(t.skip(2));
        }
    }
}

/// The length of the first token of a non-empty line: a run of white
/// space, a string literal, one punctuation character, a number, a word, or
/// any other single character.
pub open spec fn json_token_len(s: Seq<char>) -> nat {
    let c = s[0];
    let t = s.drop_first();
    if white_space(c) {
        1 + ws_run(t)
    } else if c == '"' {
        1 + string_len(t)
    } else if is_json_punct(c) {
        1
    } else if ('0' <= c <= '9') || c == '-' {
        1 + number_run(t)
    } else if letter(c) {
        1 + alpha_run(t)
    } else {
        1
    }
}

/// `true`, `false` and `null`.
pub open spec fn is_json_keyword(w: Seq<char>) -> bool {
    w == seq!['t', 'r', 'u', 'e'] || w == seq!['f', 'a', 'l', 's', 'e'] || w == seq!['n', 'u', 'l', 'l']
}

/// The role of the first token of a non-empty line.
pub open spec fn json_token_role(s: Seq<char>) -> TextRole {
    let c = s[0];
    if white_space(c) {
        TextRole::Plain
    } else if c == '"' {
        TextRole::JsonString
    } else if is_json_punct(c) {
        TextRole::JsonPunctuation
    } else if ('0' <= c <= '9') || c == '-' {
        TextRole::JsonNumber
    } else if letter(c) {
        if is_json_keyword(s.take(json_token_len(s) as int)) {
            TextRole::JsonKeyword
        } else {
            TextRole::JsonWord
        }
    } else {
        TextRole::Plain
    }
}

/// The tokens of a JSON line, in order.
pub open spec fn json_tokens(s: Seq<char>) -> Seq<(Seq<char>, TextRole)>
    decreases s.len(),
{
    if s.len() == 0 {
        Seq::empty()
    } else {
        let n = json_token_len(s);
        proof {
            lemma_runs_bounded(s.drop_first());
        }
        seq![(s.take(n as int), json_token_role(s))] + json_tokens(s.skip(n as int))
    }
}

/// End of the run of white space in `v` from `k`.
fn scan_ws(v: &Vec<char>, k: usize) -> (e: usize)
    requires
        k <= v.len(),
    ensures
        k <= e <= v.len(),
        e - k == ws_run(v@.skip(k as int)),
{
    let mut j = k;
    while j < v.len()
        invariant
            k <= j <= v.len(),
            ws_run(v@.skip(k as int)) == (j - k) + ws_run(v@.skip(j as int)),
        ensures
            k <= j <= v.len(),
            ws_run(v@.skip(k as int)) == (j - k) + ws_run(v@.skip(j as int)),
            ws_run(v@.skip(j as int)) == 0,
        decreases v.len() - j,
    {
        proof {
            assert(v@.skip(j as int).drop_first() =~= v@.skip(j + 1));
        }
        if !crate::text::char_is_whitespace(v[j]) {
            break;
        }
        j = j + 1;
    }
    j
}

/// End of the run of number characters in `v` from `k`.
fn scan_number(v: &Vec<char>, k: usize) -> (e: usize)
    requires
        k <= v.len(),
    ensures
        k <= e <= v.len(),
        e - k == number_run(v@.skip(k as int)),
{
    let mut j = k;
    while j < v.len()
        invariant
            k <= j <= v.len(),
            number_run(v@.skip(k as int)) == (j - k) + number_run(v@.skip(j as int)),
        ensures
            k <= j <= v.len(),
            number_run(v@.skip(k as int)) == (j - k) + number_run(v@.skip(j as int)),
            number_run(v@.skip(j as int)) == 0,
        decreases v.len() - j,
    {
        proof {
            assert(v@.skip(j as int).drop_first() =~= v@.skip(j + 1));
        }
        let c = v[j];
        if !(('0' <= c && c <= '9') || c == '.' || c == 'e' || c == 'E' || c == '+' || c == '-') {
            break;
        }
        j = j + 1;
    }
    j
}

/// End of the run of alphabetic characters in `v` from `k`.
fn scan_alpha(v: &Vec<char>, k: usize) -> (e: usize)
    requires
        k <= v.len(),
    ensures
        k <= e <= v.len(),
        e - k == alpha_run(v@.skip(k as int)),
{
    let mut j = k;
    while j < v.len()
        invariant
            k <= j <= v.len(),
            alpha_run(v@.skip(k as int)) == (j - k) + alpha_run(v@.skip(j as int)),
        ensures
            k <= j <= v.len(),
            alpha_run(v@.skip(k as int)) == (j - k) + alpha_run(v@.skip(j as int)),
            alpha_run(v@.skip(j as int)) == 0,
        decreases v.len() - j,
    {
        proof {
            assert(v@.skip(j as int).drop_first() =~= v@.skip(j + 1));
        }
        if !char_is_alphabetic(v[j]) {
            break;
        }
        j = j + 1;
    }
    j
}

/// End of the string literal whose opening quote is just before `k`.
fn scan_string(v: &Vec<char>, k: usize) -> (e: usize)
    requires
        k <= v.len(),
    ensures
        k <= e <= v.len(),
        e - k == string_len(v@.skip(k as int)),
{
    let mut j = k;
    let mut closed = false;
    while j < v.len() && !closed
        invariant
            k <= j <= v.len(),
            closed ==> string_len(v@.skip(k as int)) == j - k,
            !closed ==> string_len(v@.skip(k as int)) == (j - k) + string_len(v@.skip(j as int)),
        decreases v.len() - j,
    {
        let c = v[j];
        proof {
            assert(v@.skip(j as int).drop_first() =~= v@.skip(j + 1));
            if j + 2 <= v.len() {
                assert(v@.skip(j as int).skip(2) =~= v@.skip(j + 2));
            }
        }
        if c == '\\' {
            if j + 1 < v.len() {
                j = j + 2;
            } else {
                j = j + 1;
                closed = true;
            }
        } else if c == '"' {
            j = j + 1;
            closed = true;
        } else {
            j = j + 1;
        }
    }
    j
}

/// The characters of `v` from `a` to `b` as a string.
fn slice_string(v: &Vec<char>, a: usize, b: usize) -> (r: String)
    requires
        a <= b <= v.len(),
    ensures
        r@ == v@.subrange(a as int, b as int),
{
    let mut out: Vec<char> = Vec::new();
    let mut i = a;
    while i < b
        invariant
            a <= i <= b,
            b <= v.len(),
            out@ == v@.subrange(a as int, i as int),
        decreases b - i,
    {
        out.push(v[i]);
        i = i + 1;
        proof {
            assert(out@ =~= v@.subrange(a as int, i as int));
        }
    }
    string_of(&out)
}

/// The tokens of a JSON line (see `json_tokens`).
pub fn colorize_json_line(line: &str) -> (r: Vec<(String, TextRole)>)
    ensures
        tokens_view(r@) == json_tokens(line@),
{
    let v = chars_of(line);
    let mut r: Vec<(String, TextRole)> = Vec::new();
    let mut i: usize = 0;
    proof {
        reveal_strlit("true");
        reveal_strlit("false");
        reveal_strlit("null");
        assert(v@.skip(0) =~= v@);
        assert("true"@ =~= seq!['t', 'r', 'u', 'e']);
        assert("false"@ =~= seq!['f', 'a', 'l', 's', 'e']);
        assert("null"@ =~= seq!['n', 'u', 'l', 'l']);
    }
    while i < v.len()
        invariant
            i <= v@.len(),
            v@ == line@,
            "true"@ == seq!['t', 'r', 'u', 'e'],
            "false"@ == seq!['f', 'a', 'l', 's', 'e'],
            "null"@ == seq!['n', 'u', 'l', 'l'],
            tokens_view(r@) + json_tokens(v@.skip(i as int)) == json_tokens(v@),
        decreases v@.len() - i,
    {
        let ghost s = v@.skip(i as int);
        let c = v[i];
        proof {
            assert(s[0] == c);
            assert(s.drop_first() =~= v@.skip(i + 1));
        }
        let (e, role) = if crate::text::char_is_whitespace(c) {
            (scan_ws(&v, i + 1), TextRole::Plain)
        } else if c == '"' {
            (scan_string(&v, i + 1), TextRole::JsonString)
        } else if c == '{' || c == '}' || c == '[' || c == ']' || c == ',' || c == ':' {
            (i + 1, TextRole::JsonPunctuation)
        } else if ('0' <= c && c <= '9') || c == '-' {
            (scan_number(&v, i + 1), TextRole::JsonNumber)
        } else if char_is_alphabetic(c) {
            let e = scan_alpha(&v, i + 1);
            let w = slice_string(&v, i, e);
            let keyword = crate::theme::str_eq(w.as_str(), "true") || crate::theme::str_eq(w.as_str(), "false")
                || crate::theme::str_eq(w.as_str(), "null");
            proof {
                assert(w@ =~= s.take((e - i) as int));
            }
            (e, if keyword {
                TextRole::JsonKeyword
            } else {
                TextRole::JsonWord
            })
        } else {
            (i + 1, TextRole::Plain)
        };
        proof {
            assert(e - i == json_token_len(s));
            assert(role == json_token_role(s));
        }
        let text = slice_string(&v, i, e);
        let ghost old_r = r@;
        r.push((text, role));
        proof {
            assert(text@ =~= s.take((e - i) as int));
            assert(s.skip((e - i) as int) =~= v@.skip(e as int));
            assert(json_tokens(s) == seq![(s.take((e - i) as int), role)] + json_tokens(v@.skip(e as int)));
            assert(tokens_view(r@) =~= tokens_view(old_r).push((text@, role)));
            assert(tokens_view(r@) + json_tokens(v@.skip(e as int)) =~= tokens_view(old_r) + json_tokens(s));
        }
        i = e;
    }
    proof {
        assert(v@.skip(i as int) =~= Seq::<char>::empty());
        assert(tokens_view(r@) + Seq::<(Seq<char>, TextRole)>::empty() =~= tokens_view(r@));
    }
    r
}

/// Cutting a JSON line into tokens loses nothing: the tokens' texts put
/// together are the line.
pub proof fn lemma_json_tokens_lossless(s: Seq<char>)
    ensures
        token_text(json_tokens(s)) == s,
    decreases s.len(),
{
    if s.len() > 0 {
        lemma_runs_bounded(s.drop_first());
        let n = json_token_len(s);
        lemma_json_tokens_lossless(s.skip(n as int));
        let ts = json_tokens(s);
        assert(ts.drop_first() =~= json_tokens(s.skip(n as int)));
        assert(s.take(n as int) + s.skip(n as int) =~= s);
    }
}

// ----------------------------------------------------------------------------
// XML and HTML
// ----------------------------------------------------------------------------

/// The length of the leading characters other than `<`.
pub open spec fn text_run(t: Seq<char>) -> nat
    decreases t.len(),
{
    if t.len() > 0 && t[0] != '<' {
        1 + text_run(t.drop_first())
    } else {
        0
    }
}

/// How much of a tag follows its `<`: up to and including the first `>`
/// outside quotes (single or double); the rest of the line when the tag is
/// not closed.
pub open spec fn tag_len(t: Seq<char>, quote: Option<char>) -> nat
    decreases t.len(),
{
    if t.len() == 0 {
        0
    } else {
        let c = t[0];
        match quote {
            None => if c == '"' || c == '\'' {
                1 + tag_len(t.drop_first(), Some(c))
            } else if c == '>' {
                1
            } else {
                1 + tag_len(t.drop_first(), None)
            },
            Some(q) => if c == q {
                1 + tag_len(t.drop_first(), None)
            } else {
                1 + tag_len(t.drop_first(), Some(q))
            },
        }
    }
}

/// The text runs and tags never reach past the end of the text.
pub proof fn lemma_xml_runs_bounded(t: Seq<char>, q: Option<char>)
    ensures
        text_run(t) <= t.len(),
        tag_len(t, q) <= t.len(),
    decreases t.len(),
{
    if t.len() > 0 {
        lemma_xml_runs_bounded(t.drop_first(), None);
        lemma_xml_runs_bounded(t.drop_first(), Some(t[0]));
        if let Some(c) = q {
            lemma_xml_runs_bounded(t.drop_first(), Some(c));
        }
    }
}

/// The length of the first token of a non-empty line: a tag, or the text
/// up to the next tag.
pub open spec fn xml_token_len(s: Seq<char>) -> nat {
    if s[0] == '<' {
        1 + tag_len(s.drop_first(), None)
    } else {
        text_run(s)
    }
}

/// The tokens of an XML or HTML line: tags and the text between them.
pub open spec fn xml_tokens(s: Seq<char>) -> Seq<(Seq<char>, TextRole)>
    decreases s.len(),
{
    if s.len() == 0 {
        Seq::empty()
    } else {
        let n = xml_token_len(s);
        proof {
            lemma_xml_runs_bounded(s, None);
            lemma_xml_runs_bounded(s.drop_first(), None);
        }
        if n == 0 {
            Seq::empty()
        } else {
            seq![(s.take(n as int), if s[0] == '<' { TextRole::XmlTag } else { TextRole::Plain })] + xml_tokens(
                s.skip(n as int),
            )
        }
    }
}

/// End of the tag whose `<` is just before `k`.
fn scan_tag(v: &Vec<char>, k: usize) -> (e: usize)
    requires
        k <= v.len(),
    ensures
        k <= e <= v.len(),
        e - k == tag_len(v@.skip(k as int), None),
{
    let mut j = k;
    let mut quote: Option<char> = None;
    let mut closed = false;
    while j < v.len() && !closed
        invariant
            k <= j <= v.len(),
            closed ==> tag_len(v@.skip(k as int), None) == j - k,
            !closed ==> tag_len(v@.skip(k as int), None) == (j - k) + tag_len(v@.skip(j as int), quote),
        decreases v.len() - j,
    {
        let c = v[j];
        proof {
            assert(v@.skip(j as int).drop_first() =~= v@.skip(j + 1));
        }
        match quote {
            None => {
                if c == '"' || c == '\'' {
                    quote = Some(c);
                } else if c == '>' {
                    closed = true;
                }
            },
            Some(q) => {
                if c == q {
                    quote = None;
                }
            },
        }
        j = j + 1;
    }
    j
}

/// End of the text that starts at `k`.
fn scan_text(v: &Vec<char>, k: usize) -> (e: usize)
    requires
        k <= v.len(),
    ensures
        k <= e <= v.len(),
        e - k == text_run(v@.skip(k as int)),
{
    let mut j = k;
    while j < v.len()
        invariant
            k <= j <= v.len(),
            text_run(v@.skip(k as int)) == (j - k) + text_run(v@.skip(j as int)),
        ensures
            k <= j <= v.len(),
            text_run(v@.skip(k as int)) == (j - k) + text_run(v@.skip(j as int)),
            text_run(v@.skip(j as int)) == 0,
        decreases v.len() - j,
    {
        proof {
            assert(v@.skip(j as int).drop_first() =~= v@.skip(j + 1));
        }
        if v[j] == '<' {
            break;
        }
        j = j + 1;
    }
    j
}

/// The tokens of an XML or HTML line (see `xml_tokens`).
pub fn colorize_xml_line(line: &str) -> (r: Vec<(String, TextRole)>)
    ensures
        tokens_view(r@) == xml_tokens(line@),
{
    let v = chars_of(line);
    let mut r: Vec<(String, TextRole)> = Vec::new();
    let mut i: usize = 0;
    proof {
        assert(v@.skip(0) =~= v@);
    }
    while i < v.len()
        invariant
            i <= v@.len(),
            v@ == line@,
            tokens_view(r@) + xml_tokens(v@.skip(i as int)) == xml_tokens(v@),
        decreases v@.len() - i,
    {
        let ghost s = v@.skip(i as int);
        proof {
            assert(s[0] == v@[i as int]);
            assert(s.drop_first() =~= v@.skip(i + 1));
        }
        let (e, role) = if v[i] == '<' {
            (scan_tag(&v, i + 1), TextRole::XmlTag)
        } else {
            let e = scan_text(&v, i + 1);
            proof {
                assert(text_run(s) == 1 + text_run(v@.skip(i + 1)));
            }
            (e, TextRole::Plain)
        };
        let text = slice_string(&v, i, e);
        let ghost old_r = r@;
        r.push((text, role));
        proof {
            assert(e - i == xml_token_len(s));
            assert(text@ =~= s.take((e - i) as int));
            assert(s.skip((e - i) as int) =~= v@.skip(e as int));
            assert(xml_tokens(s) == seq![(s.take((e - i) as int), role)] + xml_tokens(v@.skip(e as int)));
            assert(tokens_view(r@) =~= tokens_view(old_r).push((text@, role)));
            assert(tokens_view(r@) + xml_tokens(v@.skip(e as int)) =~= tokens_view(old_r) + xml_tokens(s));
        }
        i = e;
    }
    proof {
        assert(v@.skip(i as int) =~= Seq::<char>::empty());
        assert(tokens_view(r@) + Seq::<(Seq<char>, TextRole)>::empty() =~= tokens_view(r@));
    }
    r
}

/// Cutting an XML or HTML line into tokens loses nothing: the tokens'
/// texts put together are the line.
pub proof fn lemma_xml_tokens_lossless(s: Seq<char>)
    ensures
        token_text(xml_tokens(s)) == s,
    decreases s.len(),
{
    if s.len() > 0 {
        lemma_xml_runs_bounded(s, None);
        lemma_xml_runs_bounded(s.drop_first(), None);
        let n = xml_token_len(s);
        assert(n > 0);
        lemma_xml_tokens_lossless(s.skip(n as int));
        let ts = xml_tokens(s);
        assert(ts.drop_first() =~= xml_tokens(s.skip(n as int)));
        assert(s.take(n as int) + s.skip(n as int) =~= s);
    }
}

// ----------------------------------------------------------------------------
// Choosing the colouring
// ----------------------------------------------------------------------------

/// Whether the content type mentions `kind`.
pub open spec fn is_content_type_spec(ct: Option<Seq<char>>, kind: Seq<char>) -> bool {
    match ct {
        Some(c) => crate::text::has_substring(c, kind),
        None => false,
    }
}

/// Whether the content type mentions `kind`.
pub fn is_content_type(content_type: Option<&str>, kind: &str) -> (b: bool)
    ensures
        b == is_content_type_spec(
            match content_type {
                Some(c) => Some(c@),
                None => None,
            },
            kind@,
        ),
{
    match content_type {
        Some(ct) => crate::text::str_contains(ct, kind),
        None => false,
    }
}

/// The tokens of a body line: JSON colouring for JSON and JavaScript
/// content, XML colouring for XML and HTML content, one plain token
/// otherwise.
pub open spec fn colorize_line_spec(ct: Option<Seq<char>>, line: Seq<char>) -> Seq<(Seq<char>, TextRole)> {
    if is_content_type_spec(ct, seq!['j', 's', 'o', 'n']) || is_content_type_spec(
        ct,
        seq!['j', 'a', 'v', 'a', 's', 'c', 'r', 'i', 'p', 't'],
    ) {
        json_tokens(line)
    } else if is_content_type_spec(ct, seq!['x', 'm', 'l']) || is_content_type_spec(ct, seq!['h', 't', 'm', 'l']) {
        xml_tokens(line)
    } else {
        seq![(line, TextRole::Plain)]
    }
}

/// A line of an XML or HTML body (its content type mentions `xml` or
/// `html`, and neither `json` nor `javascript`) is cut into its XML
/// tokens: a line that opens with `<` starts with a tag token.
pub proof fn lemma_xml_bodies_coloured(ct: Seq<char>, line: Seq<char>)
    requires
        crate::text::has_substring(ct, seq!['x', 'm', 'l']) || crate::text::has_substring(ct, seq!['h', 't', 'm', 'l']),
        !crate::text::has_substring(ct, seq!['j', 's', 'o', 'n']),
        !crate::text::has_substring(ct, seq!['j', 'a', 'v', 'a', 's', 'c', 'r', 'i', 'p', 't']),
    ensures
        colorize_line_spec(Some(ct), line) == xml_tokens(line),
        line.len() > 0 && line[0] == '<' ==> colorize_line_spec(Some(ct), line).len() > 0
            && colorize_line_spec(Some(ct), line)[0].1 == TextRole::XmlTag
            && colorize_line_spec(Some(ct), line)[0].0.len() > 0
            && colorize_line_spec(Some(ct), line)[0].0[0] == '<',
{
    if line.len() > 0 && line[0] == '<' {
        lemma_xml_runs_bounded(line.drop_first(), None);
        let n = xml_token_len(line);
        assert(n >= 1);
        assert(xml_tokens(line)[0] == (line.take(n as int), TextRole::XmlTag));
    }
}

/// The tokens of a body line (see `colorize_line_spec`).
pub fn colorize_line(content_type: Option<&str>, line: &str) -> (r: Vec<(String, TextRole)>)
    ensures
        tokens_view(r@) == colorize_line_spec(
            match content_type {
                Some(c) => Some(c@),
                None => None,
            },
            line@,
        ),
{
    proof {
        reveal_strlit("json");
        reveal_strlit("javascript");
        reveal_strlit("xml");
        reveal_strlit("html");
        assert("json"@ =~= seq!['j', 's', 'o', 'n']);
        assert("javascript"@ =~= seq!['j', 'a', 'v', 'a', 's', 'c', 'r', 'i', 'p', 't']);
        assert("xml"@ =~= seq!['x', 'm', 'l']);
        assert("html"@ =~= seq!['h', 't', 'm', 'l']);
    }
    if is_content_type(content_type, "json") || is_content_type(content_type, "javascript") {
        colorize_json_line(line)
    } else if is_content_type(content_type, "xml") || is_content_type(content_type, "html") {
        colorize_xml_line(line)
    } else {
        let mut r: Vec<(String, TextRole)> = Vec::new();
        r.push((crate::text::to_string(line), TextRole::Plain));
        proof {
            assert(tokens_view(r@) =~= seq![(line@, TextRole::Plain)]);
        }
        r
    }
}

} // verus!
