//! OpenAPI documents: example values, sample bodies built from schemas,
//! parameters and API-key security turned into `{{variable}}` placeholders,
//! and the entries of a document, one per operation.

use vstd::prelude::*;
use crate::api::{is_json_spec, json_pretty, opt_view, placeholder, pairs_view, ApiItem, ApiItemView};
use crate::keybinding::KeyBinding;
use crate::text::{concat, has_substring, push_str, replace_spec, to_string, uppercase};

verus! {

// ----------------------------------------------------------------------------
// Example values
// ----------------------------------------------------------------------------

/// An example value of a document: a JSON string, or any other JSON value
/// given by its compact text.
pub enum ExampleValue {
    Text(String),
    Json(String),
}

/// The view of an example value.
pub enum ExampleView {
    Text(Seq<char>),
    Json(Seq<char>),
}

impl View for ExampleValue {
    type V = ExampleView;

    open spec fn view(&self) -> ExampleView {
        match self {
            ExampleValue::Text(s) => ExampleView::Text(s@),
            ExampleValue::Json(t) => ExampleView::Json(t@),
        }
    }
}

/// The view of an optional example value.
pub open spec fn example_opt(o: Option<ExampleValue>) -> Option<ExampleView> {
    match o {
        Some(e) => Some(e@),
        None => None,
    }
}

/// A lower-case hexadecimal digit.
pub open spec fn hex_digit(n: nat) -> char {
    if n < 10 {
        ((n + 48) as u32) as char
    } else {
        ((n + 87) as u32) as char
    }
}

/// How `serde_json` writes one character inside a string literal: quote
/// and backslash behind a backslash; backspace, tab, line feed, form feed
/// and carriage return as `\b`, `\t`, `\n`, `\f`, `\r`; the other
/// control characters below U+0020 as `\u00` and two lower-case hex
/// digits; every other character as it is.
pub open spec fn json_escape_char(c: char) -> Seq<char> {
    if c == '"' {
        seq!['\\', '"']
    } else if c == '\\' {
        seq!['\\', '\\']
    } else if c == '\u{8}' {
        seq!['\\', 'b']
    } else if c == '\t' {
        seq!['\\', 't']
    } else if c == '\n' {
        seq!['\\', 'n']
    } else if c == '\u{c}' {
        seq!['\\', 'f']
    } else if c == '\r' {
        seq!['\\', 'r']
    } else if (c as u32) < 0x20 {
        seq!['\\', 'u', '0', '0', hex_digit((c as u32 / 16) as nat), hex_digit((c as u32 % 16) as nat)]
    } else {
        seq![c]
    }
}

/// The characters of a text, each written as `json_escape_char` does.
pub open spec fn json_escaped(s: Seq<char>) -> Seq<char>
    decreases s.len(),
{
    if s.len() == 0 {
        Seq::empty()
    } else {
        json_escaped(s.drop_last()) + json_escape_char(s.last())
    }
}

/// The JSON string literal that `serde_json` writes for a text: the escaped
/// characters between double quotes.
pub open spec fn json_quoted(s: Seq<char>) -> Seq<char> {
    seq!['"'] + json_escaped(s) + seq!['"']
}

/// Calls `serde_json::to_string` on a string slice, which writes the text
/// as a JSON string literal (`format_escaped_str` with its escape table);
/// that is `json_quoted`.  Serialising a string cannot fail; the error arm
/// is never taken.
#[verifier::external_body]
fn quote_json(s: &str) -> (r: String)
    ensures
        r@ == json_quoted(s@),
{
    match serde_json::to_string(s) {
        Ok(t) => t,
        Err(_) => String::new(),
    }
}

/// The text of a value as a plain string: a string as it is, anything else
/// as compact JSON.
pub open spec fn value_text(v: ExampleView) -> Seq<char> {
    match v {
        ExampleView::Text(s) => s,
        ExampleView::Json(t) => t,
    }
}

/// The compact JSON text of a value.
pub open spec fn compact_text(v: ExampleView) -> Seq<char> {
    match v {
        ExampleView::Text(s) => json_quoted(s),
        ExampleView::Json(t) => t,
    }
}

/// The text of a value as a plain string (see `value_text`).
pub fn value_to_string(v: &ExampleValue) -> (r: String)
    ensures
        r@ == value_text(v@),
{
    match v {
        ExampleValue::Text(s) => s.clone(),
        ExampleValue::Json(t) => t.clone(),
    }
}

/// The compact JSON text of a value.
fn compact_json(v: &ExampleValue) -> (r: String)
    ensures
        r@ == compact_text(v@),
{
    match v {
        ExampleValue::Text(s) => quote_json(s.as_str()),
        ExampleValue::Json(t) => t.clone(),
    }
}

/// A copy of an example value.
pub fn copy_example(v: &ExampleValue) -> (r: ExampleValue)
    ensures
        r@ == v@,
{
    match v {
        ExampleValue::Text(s) => ExampleValue::Text(s.clone()),
        ExampleValue::Json(t) => ExampleValue::Json(t.clone()),
    }
}

/// A copy of an optional example value.
fn copy_example_opt(v: &Option<ExampleValue>) -> (r: Option<ExampleValue>)
    ensures
        example_opt(r) == example_opt(*v),
{
    match v {
        Some(e) => Some(copy_example(e)),
        None => None,
    }
}

// ----------------------------------------------------------------------------
// Schemas
// ----------------------------------------------------------------------------

/// A schema: its type, default and example values, the properties of an
/// object (in name order) and the items of an array.
pub struct OpenApiSchema {
    pub schema_type: String,
    pub default: Option<ExampleValue>,
    pub example: Option<ExampleValue>,
    pub properties: Option<Vec<(String, OpenApiSchema)>>,
    pub items: Option<Box<OpenApiSchema>>,
}

/// `object`.
pub open spec fn object_word() -> Seq<char> {
    seq!['o', 'b', 'j', 'e', 'c', 't']
}

/// `array`.
pub open spec fn array_word() -> Seq<char> {
    seq!['a', 'r', 'r', 'a', 'y']
}

/// `string`.
pub open spec fn string_word() -> Seq<char> {
    seq!['s', 't', 'r', 'i', 'n', 'g']
}

/// `integer`.
pub open spec fn integer_word() -> Seq<char> {
    seq!['i', 'n', 't', 'e', 'g', 'e', 'r']
}

/// `number`.
pub open spec fn number_word() -> Seq<char> {
    seq!['n', 'u', 'm', 'b', 'e', 'r']
}

/// `boolean`.
pub open spec fn boolean_word() -> Seq<char> {
    seq!['b', 'o', 'o', 'l', 'e', 'a', 'n']
}

/// The texts joined with commas.
pub open spec fn join_comma(ms: Seq<Seq<char>>) -> Seq<char>
    decreases ms.len(),
{
    if ms.len() == 0 {
        Seq::empty()
    } else if ms.len() == 1 {
        ms[0]
    } else {
        join_comma(ms.drop_last()) + seq![','] + ms.last()
    }
}

/// The members `"name":value` of an object built from properties: one per
/// property that has an example, in order.
pub open spec fn object_members(props: Seq<(String, OpenApiSchema)>) -> Seq<Seq<char>>
    decreases props,
{
    if props.len() == 0 {
        Seq::empty()
    } else {
        let rest = object_members(props.drop_last());
        match schema_example_spec(props.last().1) {
            Some(ex) => rest.push(json_quoted(props.last().0@) + seq![':'] + compact_text(ex)),
            None => rest,
        }
    }
}

/// An example of a value of the schema: its example, else its default,
/// else one built from its type (an object from its properties' examples,
/// an array of one example item, an empty string, zero or false).
pub open spec fn schema_example_spec(s: OpenApiSchema) -> Option<ExampleView>
    decreases s,
{
    if s.example is Some {
        example_opt(s.example)
    } else if s.default is Some {
        example_opt(s.default)
    } else if s.schema_type@ == object_word() || s.properties is Some {
        let members = match s.properties {
            Some(p) => object_members(p@),
            None => Seq::empty(),
        };
        Some(ExampleView::Json(seq!['{'] + join_comma(members) + seq!['}']))
    } else if s.schema_type@ == array_word() {
        match s.items {
            Some(it) => match schema_example_spec(*it) {
                Some(ex) => Some(ExampleView::Json(seq!['['] + compact_text(ex) + seq![']'])),
                None => Some(ExampleView::Json(seq!['[', ']'])),
            },
            None => Some(ExampleView::Json(seq!['[', ']'])),
        }
    } else if s.schema_type@ == string_word() {
        Some(ExampleView::Text(Seq::empty()))
    } else if s.schema_type@ == integer_word() || s.schema_type@ == number_word() {
        Some(ExampleView::Json(seq!['0']))
    } else if s.schema_type@ == boolean_word() {
        Some(ExampleView::Json(seq!['f', 'a', 'l', 's', 'e']))
    } else {
        None
    }
}

/// The JSON text of an object with the members of `props`.
fn object_text(props: &Vec<(String, OpenApiSchema)>) -> (r: String)
    ensures
        r@ == seq!['{'] + join_comma(object_members(props@)) + seq!['}'],
    decreases props@, 0nat,
{
    let mut body = String::new();
    let mut any = false;
    let mut i: usize = 0;
    while i < props.len()
        invariant
            i <= props@.len(),
            body@ == join_comma(object_members(props@.take(i as int))),
            any == (object_members(props@.take(i as int)).len() > 0),
        decreases props@.len() - i,
    {
        proof {
            assert(props@.take(i + 1).drop_last() =~= props@.take(i as int));
            assert(props@.take(i + 1).last() == props@[i as int]);
            assert(decreases_to!(props@ => props@[i as int]));
        }
        let ex = schema_example(&props[i].1);
        match ex {
            Some(e) => {
                let ghost ms = object_members(props@.take(i as int));
                if any {
                    crate::text::push_char(&mut body, ',');
                }
                any = true;
                let q = quote_json(props[i].0.as_str());
                push_str(&mut body, q.as_str());
                crate::text::push_char(&mut body, ':');
                let c = compact_json(&e);
                push_str(&mut body, c.as_str());
                proof {
                    let m = json_quoted(props@[i as int].0@) + seq![':'] + compact_text(e@);
                    assert(object_members(props@.take(i + 1)) == ms.push(m));
                    if ms.len() == 0 {
                        assert(body@ =~= m);
                    } else {
                        assert(join_comma(ms.push(m)) == join_comma(ms) + seq![','] + m) by {
                            assert(ms.push(m).drop_last() =~= ms);
                        }
                        assert(body@ =~= join_comma(ms) + seq![','] + m);
                    }
                    assert(join_comma(ms.push(m)) == body@);
                }
            },
            None => {},
        }
        i = i + 1;
    }
    proof {
        assert(props@.take(props@.len() as int) =~= props@);
    }
    let mut r = String::new();
    crate::text::push_char(&mut r, '{');
    push_str(&mut r, body.as_str());
    crate::text::push_char(&mut r, '}');
    proof {
        assert(r@ =~= seq!['{'] + body@ + seq!['}']);
    }
    r
}

/// An example of a value of the schema (see `schema_example_spec`).
pub fn schema_example(schema: &OpenApiSchema) -> (r: Option<ExampleValue>)
    ensures
        example_opt(r) == schema_example_spec(*schema),
    decreases *schema, 1nat,
{
    if let Some(example) = &schema.example {
        return Some(copy_example(example));
    }
    if let Some(default) = &schema.default {
        return Some(copy_example(default));
    }
    proof {
        reveal_strlit("object");
        reveal_strlit("array");
        reveal_strlit("string");
        reveal_strlit("integer");
        reveal_strlit("number");
        reveal_strlit("boolean");
        reveal_strlit("[]");
        reveal_strlit("0");
        reveal_strlit("false");
        assert("object"@ == object_word());
        assert("array"@ == array_word());
        assert("string"@ == string_word());
        assert("integer"@ == integer_word());
        assert("number"@ == number_word());
        assert("boolean"@ == boolean_word());
        assert("[]"@ =~= seq!['[', ']']);
        assert("0"@ =~= seq!['0']);
        assert("false"@ =~= seq!['f', 'a', 'l', 's', 'e']);
    }
    let ty = schema.schema_type.as_str();
    if crate::theme::str_eq(ty, "object") || schema.properties.is_some() {
        let text = match &schema.properties {
            Some(props) => {
                proof {
                    assert(decreases_to!(*schema => schema.properties));
                }
                object_text(props)
            },
            None => {
                proof {
                    assert(object_members(Seq::<(String, OpenApiSchema)>::empty()) =~= Seq::<Seq<char>>::empty());
                }
                to_string("{}")
            },
        };
        proof {
            reveal_strlit("{}");
            assert("{}"@ =~= seq!['{'] + join_comma(Seq::<Seq<char>>::empty()) + seq!['}']);
        }
        return Some(ExampleValue::Json(text));
    }
    if crate::theme::str_eq(ty, "array") {
        if let Some(items) = &schema.items {
            if let Some(ex) = schema_example(items) {
                let c = compact_json(&ex);
                let a = concat("[", c.as_str());
                let t = concat(a.as_str(), "]");
                proof {
                    reveal_strlit("[");
                    reveal_strlit("]");
                    assert(t@ =~= seq!['['] + compact_text(ex@) + seq![']']);
                }
                return Some(ExampleValue::Json(t));
            }
        }
        return Some(ExampleValue::Json(to_string("[]")));
    }
    if crate::theme::str_eq(ty, "string") {
        return Some(ExampleValue::Text(String::new()));
    }
    if crate::theme::str_eq(ty, "integer") || crate::theme::str_eq(ty, "number") {
        return Some(ExampleValue::Json(to_string("0")));
    }
    if crate::theme::str_eq(ty, "boolean") {
        return Some(ExampleValue::Json(to_string("false")));
    }
    None
}

// ----------------------------------------------------------------------------
// Request bodies
// ----------------------------------------------------------------------------

/// A media type of a request body: a schema, an example, and the values of
/// its named examples in name order.
pub struct OpenApiMediaType {
    pub schema: Option<OpenApiSchema>,
    pub example: Option<ExampleValue>,
    pub examples: Vec<Option<ExampleValue>>,
}

/// The body text of a value sent with the content type `ct`: JSON content
/// is pretty-printed, other content gets a string as it is and any other
/// value as compact JSON.
pub open spec fn body_text(v: ExampleView, ct: Seq<char>) -> Seq<char> {
    if is_json_spec(Some(ct)) {
        match v {
            ExampleView::Text(s) => json_quoted(s),
            ExampleView::Json(t) => match json_pretty(t) {
                Some(p) => p,
                None => t,
            },
        }
    } else {
        value_text(v)
    }
}

/// The body text of a value sent with the content type `ct` (see
/// `body_text`).
pub fn body_string_from_value(v: &ExampleValue, content_type: &str) -> (r: String)
    ensures
        r@ == body_text(v@, content_type@),
{
    if crate::api::is_json_content_type(Some(content_type)) {
        match v {
            ExampleValue::Text(s) => quote_json(s.as_str()),
            ExampleValue::Json(t) => match crate::api::pretty_json(t.as_str()) {
                Some(p) => p,
                None => t.clone(),
            },
        }
    } else {
        value_to_string(v)
    }
}

/// The body of a media type: from its example, else from the value of its
/// first named example, else from an example of its schema.
pub open spec fn media_body_spec(m: OpenApiMediaType, ct: Seq<char>) -> Option<Seq<char>> {
    if m.example is Some {
        Some(body_text(m.example->0@, ct))
    } else if m.examples@.len() > 0 && m.examples@[0] is Some {
        Some(body_text(m.examples@[0]->0@, ct))
    } else if m.schema is Some && schema_example_spec(m.schema->0) is Some {
        Some(body_text(schema_example_spec(m.schema->0)->0, ct))
    } else {
        None
    }
}

/// The body of a media type (see `media_body_spec`).
pub fn media_body_string(media: &OpenApiMediaType, content_type: &str) -> (r: Option<String>)
    ensures
        opt_view(r) == media_body_spec(*media, content_type@),
{
    if let Some(example) = &media.example {
        return Some(body_string_from_value(example, content_type));
    }
    if media.examples.len() > 0 {
        if let Some(example) = &media.examples[0] {
            return Some(body_string_from_value(example, content_type));
        }
    }
    if let Some(schema) = &media.schema {
        if let Some(example) = schema_example(schema) {
            return Some(body_string_from_value(&example, content_type));
        }
    }
    None
}

// ----------------------------------------------------------------------------
// URLs, parameters and security
// ----------------------------------------------------------------------------

/// `{` and `}` doubled, so that a path parameter `{id}` becomes the
/// placeholder `{{id}}`.
pub open spec fn convert_braces_spec(s: Seq<char>) -> Seq<char> {
    replace_spec(replace_spec(s, seq!['{'], seq!['{', '{']), seq!['}'], seq!['}', '}'])
}

/// Doubles the braces of `s` (see `convert_braces_spec`).
pub fn convert_braces(s: &str) -> (r: String)
    ensures
        r@ == convert_braces_spec(s@),
{
    proof {
        reveal_strlit("{");
        reveal_strlit("{{");
        reveal_strlit("}");
        reveal_strlit("}}");
        assert("{"@ =~= seq!['{']);
        assert("{{"@ =~= seq!['{', '{']);
        assert("}"@ =~= seq!['}']);
        assert("}}"@ =~= seq!['}', '}']);
    }
    let a = crate::text::replace_str(s, "{", "{{");
    crate::text::replace_str(a.as_str(), "}", "}}")
}

/// A parameter of an operation or of a path.
pub struct OpenApiParameter {
    pub name: String,
    pub location: String,
    pub example: Option<ExampleValue>,
    pub schema: Option<OpenApiSchema>,
}

/// The default value of a parameter's variable: the parameter's example,
/// else its schema's example, else its schema's default, else empty.
pub open spec fn param_default_spec(p: OpenApiParameter) -> Seq<char> {
    match p.example {
        Some(e) => value_text(e@),
        None => match p.schema {
            Some(s) => match s.example {
                Some(e) => value_text(e@),
                None => match s.default {
                    Some(d) => value_text(d@),
                    None => Seq::empty(),
                },
            },
            None => Seq::empty(),
        },
    }
}

/// The default value of a parameter's variable (see `param_default_spec`).
pub fn param_default(param: &OpenApiParameter) -> (r: String)
    ensures
        r@ == param_default_spec(*param),
{
    if let Some(example) = &param.example {
        return value_to_string(example);
    }
    if let Some(schema) = &param.schema {
        if let Some(example) = &schema.example {
            return value_to_string(example);
        }
        if let Some(default) = &schema.default {
            return value_to_string(default);
        }
    }
    String::new()
}

/// The URL after appending the query parameter `name=value`, with `?` before
/// the first one and `&` before the others.
pub open spec fn append_query_spec(url: Seq<char>, first: bool, name: Seq<char>, value: Seq<char>) -> Seq<char> {
    url + (if first {
        seq!['?']
    } else {
        seq!['&']
    }) + name + seq!['='] + value
}

/// Appends the query parameter `name=value` to the URL; afterwards no
/// parameter is the first.
pub fn append_query(url: &mut String, first: &mut bool, name: &str, value: &str)
    ensures
        final(url)@ == append_query_spec(old(url)@, *old(first), name@, value@),
        *final(first) == false,
{
    if *first {
        crate::text::push_char(url, '?');
        *first = false;
    } else {
        crate::text::push_char(url, '&');
    }
    push_str(url, name);
    crate::text::push_char(url, '=');
    push_str(url, value);
    proof {
        assert(url@ =~= append_query_spec(old(url)@, *old(first), name@, value@));
    }
}

/// The names of parameters.
pub open spec fn param_names(ps: Seq<OpenApiParameter>) -> Seq<Seq<char>> {
    ps.map_values(|p: OpenApiParameter| p.name@)
}

/// The parameters of an operation: those of its path, each replaced by the
/// operation's parameter of the same name, followed by the operation's
/// other parameters, in order.
pub open spec fn merge_params(base: Seq<OpenApiParameter>, ops: Seq<OpenApiParameter>) -> Seq<OpenApiParameter>
    decreases ops.len(),
{
    if ops.len() == 0 {
        base
    } else {
        let m = merge_params(base, ops.drop_last());
        let p = ops.last();
        let i = crate::app::name_index(param_names(m), p.name@);
        if i < m.len() {
            m.update(i, p)
        } else {
            m.push(p)
        }
    }
}

/// The parameters a list of references points to.
pub open spec fn deref_params<'a>(v: Seq<&'a OpenApiParameter>) -> Seq<OpenApiParameter> {
    v.map_values(|p: &'a OpenApiParameter| *p)
}

/// Index of the first parameter named `name`, or the length when none is.
fn param_position<'a>(ps: &Vec<&'a OpenApiParameter>, name: &str) -> (i: usize)
    ensures
        i == crate::app::name_index(param_names(deref_params(ps@)), name@),
{
    let ghost names = param_names(deref_params(ps@));
    let mut i: usize = 0;
    while i < ps.len()
        invariant
            i <= ps@.len(),
            names == param_names(deref_params(ps@)),
            forall|j: int| 0 <= j < i ==> names[j] != name@,
        decreases ps@.len() - i,
    {
        if crate::theme::str_eq(ps[i].name.as_str(), name) {
            proof {
                assert(names[i as int] == name@);
                lemma_name_index_at(names, name@, i as int);
            }
            return i;
        }
        i = i + 1;
    }
    proof {
        lemma_name_index_at(names, name@, i as int);
    }
    i
}

proof fn lemma_name_index_at(names: Seq<Seq<char>>, n: Seq<char>, i: int)
    requires
        0 <= i <= names.len(),
        forall|j: int| 0 <= j < i ==> names[j] != n,
        i < names.len() ==> names[i] == n,
    ensures
        crate::app::name_index(names, n) == i,
    decreases i,
{
    if i > 0 {
        let t = names.drop_first();
        assert forall|j: int| 0 <= j < i - 1 implies t[j] != n by {
            assert(t[j] == names[j + 1]);
        }
        if i < names.len() {
            assert(t[i - 1] == names[i]);
        }
        lemma_name_index_at(t, n, i - 1);
    }
}

/// The parameters of an operation (see `merge_params`).
pub fn collect_operation_params<'a>(path_params: &'a Vec<OpenApiParameter>, op_params: &'a Vec<OpenApiParameter>) -> (r: Vec<&'a OpenApiParameter>)
    ensures
        deref_params(r@) == merge_params(path_params@, op_params@),
{
    let mut r: Vec<&'a OpenApiParameter> = Vec::new();
    let mut i: usize = 0;
    while i < path_params.len()
        invariant
            i <= path_params@.len(),
            deref_params(r@) == path_params@.take(i as int),
        decreases path_params@.len() - i,
    {
        let ghost old_r = r@;
        let p = &path_params[i];
        r.push(p);
        proof {
            assert(*p == path_params@[i as int]);
            assert(r@ == old_r.push(p));
            assert(deref_params(r@) =~= deref_params(old_r).push(path_params@[i as int]));
            assert(path_params@.take(i + 1) =~= path_params@.take(i as int).push(path_params@[i as int]));
        }
        i = i + 1;
    }
    proof {
        assert(path_params@.take(i as int) =~= path_params@);
        assert(merge_params(path_params@, op_params@.take(0)) == path_params@);
    }
    let mut j: usize = 0;
    while j < op_params.len()
        invariant
            j <= op_params@.len(),
            deref_params(r@) == merge_params(path_params@, op_params@.take(j as int)),
        decreases op_params@.len() - j,
    {
        let p = &op_params[j];
        let pos = param_position(&r, p.name.as_str());
        proof {
            assert(op_params@.take(j + 1).drop_last() =~= op_params@.take(j as int));
            assert(op_params@.take(j + 1).last() == op_params@[j as int]);
        }
        if pos < r.len() {
            r.set(pos, p);
        } else {
            r.push(p);
        }
        j = j + 1;
        proof {
            assert(deref_params(r@) =~= merge_params(path_params@, op_params@.take(j as int)));
        }
    }
    proof {
        assert(op_params@.take(j as int) =~= op_params@);
    }
    r
}

/// `query`.
pub open spec fn query_word() -> Seq<char> {
    seq!['q', 'u', 'e', 'r', 'y']
}

/// `header`.
pub open spec fn header_word() -> Seq<char> {
    seq!['h', 'e', 'a', 'd', 'e', 'r']
}

/// `apiKey`.
pub open spec fn api_key_word() -> Seq<char> {
    seq!['a', 'p', 'i', 'K', 'e', 'y']
}

/// What an operation's request is being built from: the collection's
/// variables (in key order), the request's headers and URL, and the names
/// of the secret variables.
pub struct RequestParts {
    pub vars: Seq<(Seq<char>, Seq<char>)>,
    pub headers: Seq<(Seq<char>, Seq<char>)>,
    pub url: Seq<char>,
    pub secrets: Set<Seq<char>>,
}

/// One parameter applied: its variable is added with the parameter's
/// default unless present, and a query or header parameter adds its
/// placeholder to the URL or the headers.  The flag tells whether the next
/// query parameter is the URL's first.
pub open spec fn apply_param_spec(st: RequestParts, first: bool, p: OpenApiParameter) -> (RequestParts, bool) {
    let ph = placeholder(p.name@);
    let st1 = RequestParts { vars: crate::ordered::insert_absent(st.vars, p.name@, param_default_spec(p)), ..st };
    if p.location@ == query_word() {
        (RequestParts { url: append_query_spec(st.url, first, p.name@, ph), ..st1 }, false)
    } else if p.location@ == header_word() {
        (RequestParts { headers: st.headers.push((p.name@, ph)), ..st1 }, first)
    } else {
        (st1, first)
    }
}

/// The parameters applied in order.
pub open spec fn apply_params_spec(st: RequestParts, first: bool, ps: Seq<OpenApiParameter>) -> (RequestParts, bool)
    decreases ps.len(),
{
    if ps.len() == 0 {
        (st, first)
    } else {
        let (s, f) = apply_params_spec(st, first, ps.drop_last());
        apply_param_spec(s, f, ps.last())
    }
}

/// Applies the parameters (see `apply_params_spec`); the first query
/// parameter starts the query unless the URL has one already.
pub fn apply_parameters<'a>(
    params: &Vec<&'a OpenApiParameter>,
    variables: &mut crate::ordered::StringMap,
    headers: &mut Vec<(String, String)>,
    url: &mut String,
)
    requires
        old(variables).wf(),
    ensures
        final(variables).wf(),
        ({
            let st = RequestParts {
                vars: old(variables)@,
                headers: pairs_view(old(headers)@),
                url: old(url)@,
                secrets: Set::empty(),
            };
            let r = apply_params_spec(st, !old(url)@.contains('?'), deref_params(params@)).0;
            &&& r.vars == final(variables)@
            &&& r.headers == pairs_view(final(headers)@)
            &&& r.url == final(url)@
        }),
{
    let ghost st0 = RequestParts {
        vars: variables@,
        headers: pairs_view(headers@),
        url: url@,
        secrets: Set::empty(),
    };
    let mut first = !crate::text::has_char(url.as_str(), '?');
    let ghost first0 = first;
    let mut i: usize = 0;
    proof {
        reveal_strlit("query");
        reveal_strlit("header");
        assert("query"@ =~= query_word());
        assert("header"@ =~= header_word());
    }
    while i < params.len()
        invariant
            i <= params@.len(),
            variables.wf(),
            "query"@ == query_word(),
            "header"@ == header_word(),
            ({
                let (r, f) = apply_params_spec(st0, first0, deref_params(params@).take(i as int));
                &&& r.vars == variables@
                &&& r.headers == pairs_view(headers@)
                &&& r.url == url@
                &&& r.secrets == Set::<Seq<char>>::empty()
                &&& f == first
            }),
        decreases params@.len() - i,
    {
        let param = params[i];
        proof {
            assert(deref_params(params@).take(i + 1).drop_last() =~= deref_params(params@).take(i as int));
            assert(deref_params(params@).take(i + 1).last() == *param);
        }
        let default = param_default(param);
        let ph = crate::api::make_placeholder(param.name.as_str());
        variables.insert_if_absent(param.name.clone(), default);
        if crate::theme::str_eq(param.location.as_str(), "query") {
            append_query(url, &mut first, param.name.as_str(), ph.as_str());
        } else if crate::theme::str_eq(param.location.as_str(), "header") {
            headers.push((param.name.clone(), ph));
            proof {
                assert(pairs_view(headers@) =~= pairs_view(old(headers)@.take(0)) + pairs_view(headers@));
            }
        }
        i = i + 1;
        proof {
            let (r, f) = apply_params_spec(st0, first0, deref_params(params@).take(i as int));
            assert(r.headers =~= pairs_view(headers@));
        }
    }
    proof {
        assert(deref_params(params@).take(i as int) =~= deref_params(params@));
    }
}

/// A security scheme.
pub struct OpenApiSecurityScheme {
    pub scheme_type: String,
    pub name: String,
    pub in_location: String,
}

/// The reusable parts of a document: its security schemes, by name in name
/// order.
pub struct OpenApiComponents {
    pub security_schemes: Vec<(String, OpenApiSecurityScheme)>,
}

/// The names of security schemes.
pub open spec fn scheme_names(s: Seq<(String, OpenApiSecurityScheme)>) -> Seq<Seq<char>> {
    s.map_values(|p: (String, OpenApiSecurityScheme)| p.0@)
}

/// One scheme of a security requirement applied: an API-key scheme (of
/// type `apiKey` in any case) adds an empty variable of its name unless
/// present, marks it secret, and puts its placeholder in a header or in the
/// query; other schemes, and names without a scheme, change nothing.
pub open spec fn apply_scheme_spec(st: RequestParts, name: Seq<char>, schemes: Seq<(String, OpenApiSecurityScheme)>) -> RequestParts {
    let i = crate::app::name_index(scheme_names(schemes), name);
    if i < schemes.len() {
        let sc = schemes[i].1;
        if crate::text::eq_ignore_ascii_case_spec(sc.scheme_type@, api_key_word()) {
            let ph = placeholder(name);
            let st1 = RequestParts {
                vars: crate::ordered::insert_absent(st.vars, name, Seq::empty()),
                secrets: st.secrets.insert(name),
                ..st
            };
            if sc.in_location@ == header_word() {
                RequestParts { headers: st.headers.push((sc.name@, ph)), ..st1 }
            } else if sc.in_location@ == query_word() {
                RequestParts { url: append_query_spec(st.url, !st.url.contains('?'), sc.name@, ph), ..st1 }
            } else {
                st1
            }
        } else {
            st
        }
    } else {
        st
    }
}

/// The schemes of a requirement applied in order.
pub open spec fn apply_schemes_spec(st: RequestParts, names: Seq<Seq<char>>, schemes: Seq<(String, OpenApiSecurityScheme)>) -> RequestParts
    decreases names.len(),
{
    if names.len() == 0 {
        st
    } else {
        apply_scheme_spec(apply_schemes_spec(st, names.drop_last(), schemes), names.last(), schemes)
    }
}

/// An operation of a path.
pub struct OpenApiOperation {
    pub operation_id: String,
    pub summary: String,
    pub parameters: Vec<OpenApiParameter>,
    pub request_body: Option<OpenApiRequestBody>,
    pub security: Option<Vec<Vec<String>>>,
}

/// A request body: its media types by content type, in name order.
pub struct OpenApiRequestBody {
    pub content: Vec<(String, OpenApiMediaType)>,
}

/// The operations of a path, by method.
pub struct OpenApiPathItem {
    pub parameters: Vec<OpenApiParameter>,
    pub get: Option<OpenApiOperation>,
    pub post: Option<OpenApiOperation>,
    pub put: Option<OpenApiOperation>,
    pub delete: Option<OpenApiOperation>,
    pub patch: Option<OpenApiOperation>,
    pub head: Option<OpenApiOperation>,
    pub options: Option<OpenApiOperation>,
    pub trace: Option<OpenApiOperation>,
}

/// A server: its URL and the defaults of its variables, in name order.
pub struct OpenApiServer {
    pub url: String,
    pub variables: Vec<(String, String)>,
}

/// An OpenAPI document: its servers, its paths in path order, its
/// components and its security requirements; a requirement lists the names
/// of its schemes in name order.
pub struct OpenApiDocument {
    pub servers: Vec<OpenApiServer>,
    pub paths: Vec<(String, OpenApiPathItem)>,
    pub components: OpenApiComponents,
    pub security: Option<Vec<Vec<String>>>,
}

/// The security requirements in effect for an operation: its own, else the
/// document's, else none.
pub open spec fn requirements_of(doc: OpenApiDocument, op: OpenApiOperation) -> Seq<Vec<String>> {
    match op.security {
        Some(s) => s@,
        None => match doc.security {
            Some(s) => s@,
            None => Seq::empty(),
        },
    }
}

/// The operation's first security requirement applied (none when it has
/// no requirement).
pub open spec fn apply_security_spec(doc: OpenApiDocument, op: OpenApiOperation, st: RequestParts) -> RequestParts {
    let reqs = requirements_of(doc, op);
    if reqs.len() > 0 {
        apply_schemes_spec(st, crate::api::strings_view(reqs[0]@), doc.components.security_schemes@)
    } else {
        st
    }
}

/// Index of the scheme named `name`, or the count when none is.
fn scheme_position(schemes: &Vec<(String, OpenApiSecurityScheme)>, name: &str) -> (i: usize)
    ensures
        i == crate::app::name_index(scheme_names(schemes@), name@),
{
    let ghost names = scheme_names(schemes@);
    let mut i: usize = 0;
    while i < schemes.len()
        invariant
            i <= schemes@.len(),
            names == scheme_names(schemes@),
            forall|j: int| 0 <= j < i ==> names[j] != name@,
        decreases schemes@.len() - i,
    {
        if crate::theme::str_eq(schemes[i].0.as_str(), name) {
            proof {
                lemma_name_index_at(names, name@, i as int);
            }
            return i;
        }
        i = i + 1;
    }
    proof {
        lemma_name_index_at(names, name@, i as int);
    }
    i
}

/// Applies the operation's first security requirement (see
/// `apply_security_spec`).
pub fn apply_security(
    doc: &OpenApiDocument,
    operation: &OpenApiOperation,
    headers: &mut Vec<(String, String)>,
    url: &mut String,
    variables: &mut crate::ordered::StringMap,
    secret_keys: &mut crate::ordered::StringSet,
)
    requires
        old(variables).wf(),
        old(secret_keys).wf(),
    ensures
        final(variables).wf(),
        final(secret_keys).wf(),
        ({
            let st = RequestParts {
                vars: old(variables)@,
                headers: pairs_view(old(headers)@),
                url: old(url)@,
                secrets: old(secret_keys)@.to_set(),
            };
            apply_security_spec(*doc, *operation, st) == RequestParts {
                vars: final(variables)@,
                headers: pairs_view(final(headers)@),
                url: final(url)@,
                secrets: final(secret_keys)@.to_set(),
            }
        }),
{
    let ghost st0 = RequestParts {
        vars: variables@,
        headers: pairs_view(headers@),
        url: url@,
        secrets: secret_keys@.to_set(),
    };
    let reqs = match &operation.security {
        Some(s) => s,
        None => match &doc.security {
            Some(s) => s,
            None => {
                proof {
                    assert(requirements_of(*doc, *operation) =~= Seq::<Vec<String>>::empty());
                    assert(st0 == RequestParts {
                        vars: variables@,
                        headers: pairs_view(headers@),
                        url: url@,
                        secrets: secret_keys@.to_set(),
                    });
                }
                return;
            },
        },
    };
    if reqs.len() == 0 {
        return;
    }
    let names = &reqs[0];
    let ghost ns = crate::api::strings_view(names@);
    let schemes = &doc.components.security_schemes;
    proof {
        reveal_strlit("apiKey");
        reveal_strlit("query");
        reveal_strlit("header");
        assert("apiKey"@ =~= api_key_word());
        assert("query"@ =~= query_word());
        assert("header"@ =~= header_word());
    }
    let mut i: usize = 0;
    while i < names.len()
        invariant
            i <= names@.len(),
            ns == crate::api::strings_view(names@),
            variables.wf(),
            secret_keys.wf(),
            "apiKey"@ == api_key_word(),
            "query"@ == query_word(),
            "header"@ == header_word(),
            apply_schemes_spec(st0, ns.take(i as int), schemes@) == (RequestParts {
                vars: variables@,
                headers: pairs_view(headers@),
                url: url@,
                secrets: secret_keys@.to_set(),
            }),
        decreases names@.len() - i,
    {
        let name = &names[i];
        proof {
            assert(ns.take(i + 1).drop_last() =~= ns.take(i as int));
            assert(ns.take(i + 1).last() == name@);
        }
        let pos = scheme_position(schemes, name.as_str());
        if pos < schemes.len() {
            let scheme = &schemes[pos].1;
            if crate::text::eq_ignore_ascii_case(scheme.scheme_type.as_str(), "apiKey") {
                variables.insert_if_absent(name.clone(), String::new());
                secret_keys.insert(name.clone());
                let ph = crate::api::make_placeholder(name.as_str());
                if crate::theme::str_eq(scheme.in_location.as_str(), "header") {
                    headers.push((scheme.name.clone(), ph));
                } else if crate::theme::str_eq(scheme.in_location.as_str(), "query") {
                    let mut first = !crate::text::has_char(url.as_str(), '?');
                    append_query(url, &mut first, scheme.name.as_str(), ph.as_str());
                }
            }
        }
        i = i + 1;
        proof {
            let r = apply_schemes_spec(st0, ns.take(i as int), schemes@);
            assert(r.headers =~= pairs_view(headers@));
            assert(r.secrets =~= secret_keys@.to_set());
        }
    }
    proof {
        assert(ns.take(i as int) =~= ns);
    }
}

// ----------------------------------------------------------------------------
// Entries of a document
// ----------------------------------------------------------------------------

/// The pairs added in order, each unless its key is present.
pub open spec fn insert_all_absent(m: Seq<(Seq<char>, Seq<char>)>, ps: Seq<(Seq<char>, Seq<char>)>) -> Seq<(Seq<char>, Seq<char>)>
    decreases ps.len(),
{
    if ps.len() == 0 {
        m
    } else {
        crate::ordered::insert_absent(insert_all_absent(m, ps.drop_last()), ps.last().0, ps.last().1)
    }
}

/// The base URL (the first server's URL, or empty) and the variables the
/// first server adds to `vars`.
pub open spec fn servers_spec(servers: Seq<OpenApiServer>, vars: Seq<(Seq<char>, Seq<char>)>) -> (Seq<char>, Seq<(Seq<char>, Seq<char>)>) {
    if servers.len() == 0 {
        (Seq::empty(), vars)
    } else {
        (servers[0].url@, insert_all_absent(vars, pairs_view(servers[0].variables@)))
    }
}

/// The base URL of a document, adding the first server's variables (see
/// `servers_spec`).
pub fn base_url_from_servers(servers: &Vec<OpenApiServer>, variables: &mut crate::ordered::StringMap) -> (r: String)
    requires
        old(variables).wf(),
    ensures
        final(variables).wf(),
        (r@, final(variables)@) == servers_spec(servers@, old(variables)@),
{
    if servers.len() == 0 {
        return String::new();
    }
    let server = &servers[0];
    let ghost ps = pairs_view(server.variables@);
    let mut i: usize = 0;
    while i < server.variables.len()
        invariant
            i <= server.variables@.len(),
            ps == pairs_view(server.variables@),
            variables.wf(),
            variables@ == insert_all_absent(old(variables)@, ps.take(i as int)),
        decreases server.variables@.len() - i,
    {
        proof {
            assert(ps.take(i + 1).drop_last() =~= ps.take(i as int));
            assert(ps.take(i + 1).last() == ps[i as int]);
        }
        variables.insert_if_absent(server.variables[i].0.clone(), server.variables[i].1.clone());
        i = i + 1;
    }
    proof {
        assert(ps.take(i as int) =~= ps);
    }
    server.url.clone()
}

/// The name of an operation: its id, else its summary, else the method in
/// upper case, a space and the path.
pub open spec fn operation_name_spec(op: OpenApiOperation, method: Seq<char>, path: Seq<char>) -> Seq<char> {
    if op.operation_id@.len() > 0 {
        op.operation_id@
    } else if op.summary@.len() > 0 {
        op.summary@
    } else {
        uppercase(method) + seq![' '] + path
    }
}

/// The name of an operation (see `operation_name_spec`).
pub fn operation_name(operation: &OpenApiOperation, method: &str, path: &str) -> (r: String)
    ensures
        r@ == operation_name_spec(*operation, method@, path@),
{
    if crate::text::char_count(operation.operation_id.as_str()) > 0 {
        return operation.operation_id.clone();
    }
    if crate::text::char_count(operation.summary.as_str()) > 0 {
        return operation.summary.clone();
    }
    let mut r = crate::text::to_uppercase(method);
    crate::text::push_char(&mut r, ' ');
    push_str(&mut r, path);
    proof {
        assert(r@ =~= uppercase(method@) + seq![' '] + path@);
    }
    r
}

/// Index of the first media type whose content type mentions JSON, or the
/// count when none does.
pub open spec fn json_content_index(content: Seq<(String, OpenApiMediaType)>) -> int
    decreases content.len(),
{
    if content.len() == 0 {
        0
    } else if has_substring(content[0].0@, crate::api::json_word()) {
        0
    } else {
        1 + json_content_index(content.drop_first())
    }
}

/// The media type a body is built from: the first JSON one, else the first.
pub open spec fn selected_media(content: Seq<(String, OpenApiMediaType)>) -> Option<int> {
    let j = json_content_index(content);
    if j < content.len() {
        Some(j)
    } else if content.len() > 0 {
        Some(0)
    } else {
        None
    }
}

proof fn lemma_json_content_index(content: Seq<(String, OpenApiMediaType)>, i: int)
    requires
        0 <= i <= content.len(),
        forall|j: int| 0 <= j < i ==> !has_substring(#[trigger] content[j].0@, crate::api::json_word()),
        i < content.len() ==> has_substring(content[i].0@, crate::api::json_word()),
    ensures
        json_content_index(content) == i,
    decreases i,
{
    if i > 0 {
        let t = content.drop_first();
        assert forall|j: int| 0 <= j < i - 1 implies !has_substring(#[trigger] t[j].0@, crate::api::json_word()) by {
            assert(t[j] == content[j + 1]);
        }
        if i < content.len() {
            assert(t[i - 1] == content[i]);
        }
        lemma_json_content_index(t, i - 1);
    }
}

/// The body of an operation and its content type.
pub open spec fn op_body_spec(op: OpenApiOperation) -> (Option<Seq<char>>, Seq<char>) {
    match op.request_body {
        Some(rb) => match selected_media(rb.content@) {
            Some(i) => (media_body_spec(rb.content@[i].1, rb.content@[i].0@), rb.content@[i].0@),
            None => (None, Seq::empty()),
        },
        None => (None, Seq::empty()),
    }
}

/// Index of the first media type whose content type mentions JSON (see
/// `json_content_index`).
fn json_media_index(content: &Vec<(String, OpenApiMediaType)>) -> (i: usize)
    ensures
        i == json_content_index(content@),
{
    proof {
        reveal_strlit("json");
        assert("json"@ =~= crate::api::json_word());
    }
    let mut i: usize = 0;
    while i < content.len()
        invariant
            i <= content@.len(),
            "json"@ == crate::api::json_word(),
            forall|j: int| 0 <= j < i ==> !has_substring(#[trigger] content@[j].0@, crate::api::json_word()),
        decreases content@.len() - i,
    {
        if crate::text::str_contains(content[i].0.as_str(), "json") {
            proof {
                lemma_json_content_index(content@, i as int);
            }
            return i;
        }
        i = i + 1;
    }
    proof {
        lemma_json_content_index(content@, i as int);
    }
    i
}

/// The body of an operation and its content type (see `op_body_spec`).
fn op_body(operation: &OpenApiOperation) -> (r: (Option<String>, String))
    ensures
        (opt_view(r.0), r.1@) == op_body_spec(*operation),
{
    match &operation.request_body {
        Some(rb) => {
            let idx = json_media_index(&rb.content);
            let idx = if idx < rb.content.len() {
                idx
            } else {
                0
            };
            if idx < rb.content.len() {
                let ct = &rb.content[idx].0;
                (media_body_string(&rb.content[idx].1, ct.as_str()), ct.clone())
            } else {
                (None, String::new())
            }
        },
        None => (None, String::new()),
    }
}

/// `Content-Type`.
pub open spec fn content_type_title() -> Seq<char> {
    seq!['C', 'o', 'n', 't', 'e', 'n', 't', '-', 'T', 'y', 'p', 'e']
}

/// Whether a header names the content type, in any case.
pub open spec fn has_content_type_header(hs: Seq<(Seq<char>, Seq<char>)>) -> bool {
    exists|i: int| 0 <= i < hs.len() && crate::text::eq_ignore_ascii_case_spec(#[trigger] hs[i].0, crate::api::content_type_name())
}

/// What the entries of a document are being built from: the variables,
/// the secret variable names and the entries so far.
pub struct CollectionParts {
    pub vars: Seq<(Seq<char>, Seq<char>)>,
    pub secrets: Set<Seq<char>>,
    pub apis: Seq<ApiItemView>,
}

/// The entry of one operation, and the variables and secrets after it: the
/// URL is the base URL and the path with braces doubled; parameters and
/// security are applied; the body comes from the selected media type, with
/// a `Content-Type` header added when there is a body and no such header.
/// The entry's own variables are filled in once the document is done.
pub open spec fn operation_entry(
    doc: OpenApiDocument,
    base: Seq<char>,
    path: Seq<char>,
    item: OpenApiPathItem,
    method: Seq<char>,
    op: OpenApiOperation,
    st: CollectionParts,
) -> CollectionParts {
    let url0 = convert_braces_spec(base + path);
    let r0 = RequestParts { vars: st.vars, headers: Seq::empty(), url: url0, secrets: st.secrets };
    let r1 = apply_params_spec(r0, !url0.contains('?'), merge_params(item.parameters@, op.parameters@)).0;
    let r2 = apply_security_spec(doc, op, r1);
    let (body, ct) = op_body_spec(op);
    let headers = if body is Some && !has_content_type_header(r2.headers) {
        r2.headers.push((content_type_title(), ct))
    } else {
        r2.headers
    };
    CollectionParts {
        vars: r2.vars,
        secrets: r2.secrets,
        apis: st.apis.push(
            ApiItemView {
                name: operation_name_spec(op, method, path),
                key: KeyBinding::Char('?'),
                method: uppercase(method),
                url: r2.url,
                headers,
                body,
                variables: Seq::empty(),
            },
        ),
    }
}

/// Whether some header names the content type.
fn has_content_type(headers: &Vec<(String, String)>) -> (b: bool)
    ensures
        b == has_content_type_header(pairs_view(headers@)),
{
    proof {
        reveal_strlit("content-type");
        assert("content-type"@ =~= crate::api::content_type_name());
    }
    let ghost hs = pairs_view(headers@);
    let mut i: usize = 0;
    while i < headers.len()
        invariant
            i <= headers@.len(),
            hs == pairs_view(headers@),
            "content-type"@ == crate::api::content_type_name(),
            forall|j: int| 0 <= j < i ==> !crate::text::eq_ignore_ascii_case_spec(#[trigger] hs[j].0, crate::api::content_type_name()),
        decreases headers@.len() - i,
    {
        if crate::text::eq_ignore_ascii_case(headers[i].0.as_str(), "content-type") {
            proof {
                assert(crate::text::eq_ignore_ascii_case_spec(hs[i as int].0, crate::api::content_type_name()));
            }
            return true;
        }
        i = i + 1;
    }
    false
}

/// The entry of one operation (see `operation_entry`); its own variables
/// are left empty.
fn build_operation(
    doc: &OpenApiDocument,
    base: &str,
    path: &str,
    item: &OpenApiPathItem,
    method: &str,
    operation: &OpenApiOperation,
    variables: &mut crate::ordered::StringMap,
    secret_keys: &mut crate::ordered::StringSet,
) -> (r: ApiItem)
    requires
        old(variables).wf(),
        old(secret_keys).wf(),
    ensures
        final(variables).wf(),
        final(secret_keys).wf(),
        ({
            let st = CollectionParts { vars: old(variables)@, secrets: old(secret_keys)@.to_set(), apis: Seq::empty() };
            operation_entry(*doc, base@, path@, *item, method@, *operation, st) == CollectionParts {
                vars: final(variables)@,
                secrets: final(secret_keys)@.to_set(),
                apis: seq![r@],
            }
        }),
{
    let joined = concat(base, path);
    let mut url = convert_braces(joined.as_str());
    let mut headers: Vec<(String, String)> = Vec::new();
    let params = collect_operation_params(&item.parameters, &operation.parameters);
    let ghost url0 = url@;
    let ghost r0 = RequestParts { vars: variables@, headers: Seq::empty(), url: url0, secrets: secret_keys@.to_set() };
    proof {
        assert(pairs_view(headers@) =~= Seq::<(Seq<char>, Seq<char>)>::empty());
    }
    apply_parameters(&params, variables, &mut headers, &mut url);
    let ghost r1 = RequestParts { vars: variables@, headers: pairs_view(headers@), url: url@, secrets: r0.secrets };
    proof {
        let e0 = RequestParts { secrets: Set::empty(), ..r0 };
        lemma_params_keep_secrets(e0, !url0.contains('?'), deref_params(params@), r0.secrets);
        assert(RequestParts { secrets: r0.secrets, ..e0 } == r0);
        assert(apply_params_spec(r0, !url0.contains('?'), merge_params(item.parameters@, operation.parameters@)).0 == r1);
    }
    apply_security(doc, operation, &mut headers, &mut url, variables, secret_keys);
    let (body, ct) = op_body(operation);
    let has_ct = has_content_type(&headers);
    if body.is_some() && !has_ct {
        proof {
            reveal_strlit("Content-Type");
            assert("Content-Type"@ =~= content_type_title());
        }
        headers.push((to_string("Content-Type"), ct));
    }
    let name = operation_name(operation, method, path);
    let r = ApiItem {
        name,
        key: KeyBinding::Char('?'),
        method: crate::text::to_uppercase(method),
        url,
        headers,
        body,
        variables: Vec::new(),
    };
    proof {
        assert(pairs_view(r.variables@) =~= Seq::<(Seq<char>, Seq<char>)>::empty());
        let st = CollectionParts { vars: r0.vars, secrets: r0.secrets, apis: Seq::empty() };
        let e = operation_entry(*doc, base@, path@, *item, method@, *operation, st);
        let x = e.apis[0];
        assert(x.name == r@.name);
        assert(x.method == r@.method);
        assert(x.url == r@.url);
        assert(x.headers == r@.headers);
        assert(x.body == r@.body);
        assert(x.variables == r@.variables);
        assert(e.apis =~= seq![r@]);
    }
    r
}

proof fn lemma_params_keep_secrets(st: RequestParts, first: bool, ps: Seq<OpenApiParameter>, sec: Set<Seq<char>>)
    ensures
        apply_params_spec(st, first, ps).0.secrets == st.secrets,
        ({
            let (a, fa) = apply_params_spec(st, first, ps);
            let (b, fb) = apply_params_spec(RequestParts { secrets: sec, ..st }, first, ps);
            &&& fa == fb
            &&& b == RequestParts { secrets: sec, ..a }
        }),
    decreases ps.len(),
{
    if ps.len() > 0 {
        lemma_params_keep_secrets(st, first, ps.drop_last(), sec);
    }
}

/// The list with `(method, op)` appended when the operation is present.
pub open spec fn opt_op(s: Seq<(Seq<char>, OpenApiOperation)>, m: Seq<char>, o: Option<OpenApiOperation>) -> Seq<(Seq<char>, OpenApiOperation)> {
    match o {
        Some(op) => s.push((m, op)),
        None => s,
    }
}

/// The operations of a path with their methods, in the order get, post,
/// put, delete, patch, head, options, trace.
pub open spec fn path_operations(item: OpenApiPathItem) -> Seq<(Seq<char>, OpenApiOperation)> {
    let s = opt_op(Seq::empty(), "get"@, item.get);
    let s = opt_op(s, "post"@, item.post);
    let s = opt_op(s, "put"@, item.put);
    let s = opt_op(s, "delete"@, item.delete);
    let s = opt_op(s, "patch"@, item.patch);
    let s = opt_op(s, "head"@, item.head);
    let s = opt_op(s, "options"@, item.options);
    opt_op(s, "trace"@, item.trace)
}

/// The entries of the given operations of a path, in order.
pub open spec fn path_entries(
    doc: OpenApiDocument,
    base: Seq<char>,
    path: Seq<char>,
    item: OpenApiPathItem,
    ops: Seq<(Seq<char>, OpenApiOperation)>,
    st: CollectionParts,
) -> CollectionParts
    decreases ops.len(),
{
    if ops.len() == 0 {
        st
    } else {
        operation_entry(doc, base, path, item, ops.last().0, ops.last().1, path_entries(doc, base, path, item, ops.drop_last(), st))
    }
}

/// The entries of the given paths, in order.
pub open spec fn doc_entries(doc: OpenApiDocument, base: Seq<char>, paths: Seq<(String, OpenApiPathItem)>, st: CollectionParts) -> CollectionParts
    decreases paths.len(),
{
    if paths.len() == 0 {
        st
    } else {
        let s = doc_entries(doc, base, paths.drop_last(), st);
        path_entries(doc, base, paths.last().0@, paths.last().1, path_operations(paths.last().1), s)
    }
}

/// The entries with their variables set to `vars`.
pub open spec fn with_variables(apis: Seq<ApiItemView>, vars: Seq<(Seq<char>, Seq<char>)>) -> Seq<ApiItemView> {
    apis.map_values(|a: ApiItemView| ApiItemView { variables: vars, ..a })
}

/// The collection of an OpenAPI document: the first server gives the base
/// URL (without trailing `/`) and the first variables; every operation of
/// every path gives an entry; every entry carries all the variables.
pub open spec fn openapi_spec(doc: OpenApiDocument) -> CollectionParts {
    let (base0, vars0) = servers_spec(doc.servers@, Seq::empty());
    let base = crate::text::trim_end_char(base0, '/');
    let r = doc_entries(doc, base, doc.paths@, CollectionParts { vars: vars0, secrets: Set::empty(), apis: Seq::empty() });
    CollectionParts { apis: with_variables(r.apis, r.vars), ..r }
}

/// Adds the entry of the operation, when present.
fn add_operation(
    doc: &OpenApiDocument,
    base: &str,
    path: &str,
    item: &OpenApiPathItem,
    method: &str,
    op: &Option<OpenApiOperation>,
    variables: &mut crate::ordered::StringMap,
    secret_keys: &mut crate::ordered::StringSet,
    apis: &mut Vec<ApiItem>,
)
    requires
        old(variables).wf(),
        old(secret_keys).wf(),
    ensures
        final(variables).wf(),
        final(secret_keys).wf(),
        ({
            let st = CollectionParts {
                vars: old(variables)@,
                secrets: old(secret_keys)@.to_set(),
                apis: crate::collection::api_views(old(apis)@),
            };
            (CollectionParts {
                vars: final(variables)@,
                secrets: final(secret_keys)@.to_set(),
                apis: crate::collection::api_views(final(apis)@),
            }) == match *op {
                Some(o) => operation_entry(*doc, base@, path@, *item, method@, o, st),
                None => st,
            }
        }),
{
    if let Some(operation) = op {
        let ghost before = crate::collection::api_views(apis@);
        let ghost st0 = CollectionParts { vars: variables@, secrets: secret_keys@.to_set(), apis: Seq::empty() };
        let a = build_operation(doc, base, path, item, method, operation, variables, secret_keys);
        apis.push(a);
        proof {
            let st = CollectionParts { apis: before, ..st0 };
            let e = operation_entry(*doc, base@, path@, *item, method@, *operation, st);
            let e0 = operation_entry(*doc, base@, path@, *item, method@, *operation, st0);
            assert(e.apis =~= before + e0.apis);
            assert(e.vars == e0.vars);
            assert(e.secrets == e0.secrets);
            assert(crate::collection::api_views(apis@) =~= before.push(a@));
            assert(crate::collection::api_views(apis@) =~= e.apis);
        }
    }
}

/// The collection of an OpenAPI document (see `openapi_spec`); its
/// variables are in ascending key order.
pub fn parse_openapi(doc: &OpenApiDocument) -> (r: crate::collection::ParsedCollection)
    ensures
        r.secret_keys.wf(),
        crate::ordered::strictly_sorted(crate::ordered::keys_of(pairs_view(r.variables@))),
        pairs_view(r.variables@) == openapi_spec(*doc).vars,
        crate::collection::api_views(r.apis@) == openapi_spec(*doc).apis,
        r.secret_keys@.to_set() == openapi_spec(*doc).secrets,
{
    let mut variables = crate::ordered::StringMap::new();
    let mut secret_keys = crate::ordered::StringSet::new();
    let base_url = base_url_from_servers(&doc.servers, &mut variables);
    let base = crate::text::trim_end_matches_char(base_url.as_str(), '/');
    let mut apis: Vec<ApiItem> = Vec::new();
    let ghost st0 = CollectionParts { vars: variables@, secrets: Set::empty(), apis: Seq::empty() };
    proof {
        assert(secret_keys@.to_set() =~= Set::<Seq<char>>::empty());
        assert(crate::collection::api_views(apis@) =~= Seq::<ApiItemView>::empty());
    }
    let mut i: usize = 0;
    while i < doc.paths.len()
        invariant
            i <= doc.paths@.len(),
            variables.wf(),
            secret_keys.wf(),
            doc_entries(*doc, base@, doc.paths@.take(i as int), st0) == (CollectionParts {
                vars: variables@,
                secrets: secret_keys@.to_set(),
                apis: crate::collection::api_views(apis@),
            }),
        decreases doc.paths@.len() - i,
    {
        let path = doc.paths[i].0.as_str();
        let item = &doc.paths[i].1;
        proof {
            assert(doc.paths@.take(i + 1).drop_last() =~= doc.paths@.take(i as int));
            assert(doc.paths@.take(i + 1).last() == doc.paths@[i as int]);
        }
        let ghost s0 = CollectionParts { vars: variables@, secrets: secret_keys@.to_set(), apis: crate::collection::api_views(apis@) };
        let ghost e = Seq::<(Seq<char>, OpenApiOperation)>::empty();
        add_operation(doc, base.as_str(), path, item, "get", &item.get, &mut variables, &mut secret_keys, &mut apis);
        let ghost e = opt_op(e, "get"@, item.get);
        add_operation(doc, base.as_str(), path, item, "post", &item.post, &mut variables, &mut secret_keys, &mut apis);
        let ghost e = opt_op(e, "post"@, item.post);
        add_operation(doc, base.as_str(), path, item, "put", &item.put, &mut variables, &mut secret_keys, &mut apis);
        let ghost e = opt_op(e, "put"@, item.put);
        add_operation(doc, base.as_str(), path, item, "delete", &item.delete, &mut variables, &mut secret_keys, &mut apis);
        let ghost e = opt_op(e, "delete"@, item.delete);
        add_operation(doc, base.as_str(), path, item, "patch", &item.patch, &mut variables, &mut secret_keys, &mut apis);
        let ghost e = opt_op(e, "patch"@, item.patch);
        add_operation(doc, base.as_str(), path, item, "head", &item.head, &mut variables, &mut secret_keys, &mut apis);
        let ghost e = opt_op(e, "head"@, item.head);
        add_operation(doc, base.as_str(), path, item, "options", &item.options, &mut variables, &mut secret_keys, &mut apis);
        let ghost e = opt_op(e, "options"@, item.options);
        add_operation(doc, base.as_str(), path, item, "trace", &item.trace, &mut variables, &mut secret_keys, &mut apis);
        let ghost e = opt_op(e, "trace"@, item.trace);
        proof {
            assert(e == path_operations(*item));
            lemma_path_entries_steps(*doc, base@, path@, *item, s0);
        }
        i = i + 1;
    }
    proof {
        assert(doc.paths@.take(i as int) =~= doc.paths@);
    }
    let ghost fin = CollectionParts { vars: variables@, secrets: secret_keys@.to_set(), apis: crate::collection::api_views(apis@) };
    let mut out: Vec<ApiItem> = Vec::new();
    let mut j: usize = 0;
    while j < apis.len()
        invariant
            j <= apis@.len(),
            fin.apis == crate::collection::api_views(apis@),
            fin.vars == variables@,
            crate::collection::api_views(out@) == with_variables(fin.apis.take(j as int), fin.vars),
        decreases apis@.len() - j,
    {
        let mut c = apis[j].copy();
        c.variables = crate::api::clone_pairs(&variables.entries);
        let ghost old_out = out@;
        proof {
            assert(apis@[j as int]@ == fin.apis[j as int]);
            assert(c@ == (ApiItemView { variables: fin.vars, ..fin.apis[j as int] }));
        }
        out.push(c);
        proof {
            assert(crate::collection::api_views(out@) =~= crate::collection::api_views(old_out).push(c@));
            assert(with_variables(fin.apis.take(j + 1), fin.vars) =~= with_variables(fin.apis.take(j as int), fin.vars).push(
                ApiItemView { variables: fin.vars, ..fin.apis[j as int] },
            ));
        }
        j = j + 1;
        proof {
            assert(crate::collection::api_views(out@) =~= with_variables(fin.apis.take(j as int), fin.vars));
        }
    }
    proof {
        assert(fin.apis.take(j as int) =~= fin.apis);
    }
    crate::collection::ParsedCollection { apis: out, variables: variables.entries, secret_keys }
}

/// The entries of a path, taken method by method.
proof fn lemma_path_entries_steps(doc: OpenApiDocument, base: Seq<char>, path: Seq<char>, item: OpenApiPathItem, st: CollectionParts)
    ensures
        path_entries(doc, base, path, item, path_operations(item), st) == {
            let step = |s: CollectionParts, m: Seq<char>, o: Option<OpenApiOperation>|
                match o {
                    Some(op) => operation_entry(doc, base, path, item, m, op, s),
                    None => s,
                };
            let s = step(st, "get"@, item.get);
            let s = step(s, "post"@, item.post);
            let s = step(s, "put"@, item.put);
            let s = step(s, "delete"@, item.delete);
            let s = step(s, "patch"@, item.patch);
            let s = step(s, "head"@, item.head);
            let s = step(s, "options"@, item.options);
            step(s, "trace"@, item.trace)
        },
{
    let e0 = Seq::<(Seq<char>, OpenApiOperation)>::empty();
    let e1 = opt_op(e0, "get"@, item.get);
    let e2 = opt_op(e1, "post"@, item.post);
    let e3 = opt_op(e2, "put"@, item.put);
    let e4 = opt_op(e3, "delete"@, item.delete);
    let e5 = opt_op(e4, "patch"@, item.patch);
    let e6 = opt_op(e5, "head"@, item.head);
    let e7 = opt_op(e6, "options"@, item.options);
    lemma_path_entries_push(doc, base, path, item, e0, "get"@, item.get, st);
    lemma_path_entries_push(doc, base, path, item, e1, "post"@, item.post, st);
    lemma_path_entries_push(doc, base, path, item, e2, "put"@, item.put, st);
    lemma_path_entries_push(doc, base, path, item, e3, "delete"@, item.delete, st);
    lemma_path_entries_push(doc, base, path, item, e4, "patch"@, item.patch, st);
    lemma_path_entries_push(doc, base, path, item, e5, "head"@, item.head, st);
    lemma_path_entries_push(doc, base, path, item, e6, "options"@, item.options, st);
    lemma_path_entries_push(doc, base, path, item, e7, "trace"@, item.trace, st);
}

proof fn lemma_path_entries_push(
    doc: OpenApiDocument,
    base: Seq<char>,
    path: Seq<char>,
    item: OpenApiPathItem,
    ops: Seq<(Seq<char>, OpenApiOperation)>,
    m: Seq<char>,
    o: Option<OpenApiOperation>,
    st: CollectionParts,
)
    ensures
        path_entries(doc, base, path, item, opt_op(ops, m, o), st) == match o {
            Some(op) => operation_entry(doc, base, path, item, m, op, path_entries(doc, base, path, item, ops, st)),
            None => path_entries(doc, base, path, item, ops, st),
        },
{
    if let Some(op) = o {
        assert(ops.push((m, op)).drop_last() =~= ops);
    }
}

// ----------------------------------------------------------------------------
// Secret variables are variables
// ----------------------------------------------------------------------------

/// Every secret name is the key of a variable.
pub open spec fn secrets_covered(vars: Seq<(Seq<char>, Seq<char>)>, secrets: Set<Seq<char>>) -> bool {
    forall|k: Seq<char>| #[trigger] secrets.contains(k) ==> crate::ordered::keys_of(vars).contains(k)
}

proof fn lemma_count_less_bound(ks: Seq<Seq<char>>, k: Seq<char>)
    ensures
        crate::ordered::count_less(ks, k) <= ks.len(),
    decreases ks.len(),
{
    if ks.len() > 0 {
        lemma_count_less_bound(ks.drop_last(), k);
    }
}

/// Adding a variable unless present keeps every key and has the new one.
proof fn lemma_insert_absent_keys(m: Seq<(Seq<char>, Seq<char>)>, k: Seq<char>, v: Seq<char>)
    ensures
        crate::ordered::keys_of(crate::ordered::insert_absent(m, k, v)).contains(k),
        forall|x: Seq<char>| crate::ordered::keys_of(m).contains(x) ==> #[trigger] crate::ordered::keys_of(
            crate::ordered::insert_absent(m, k, v),
        ).contains(x),
{
    let ks = crate::ordered::keys_of(m);
    if !ks.contains(k) {
        let i = crate::ordered::count_less(ks, k) as int;
        lemma_count_less_bound(ks, k);
        let m2 = m.insert(i, (k, v));
        assert(crate::ordered::keys_of(m2) =~= ks.insert(i, k));
        assert(ks.insert(i, k)[i] == k);
        assert forall|x: Seq<char>| ks.contains(x) implies #[trigger] crate::ordered::keys_of(m2).contains(x) by {
            let j = choose|j: int| 0 <= j < ks.len() && ks[j] == x;
            if j < i {
                assert(ks.insert(i, k)[j] == x);
            } else {
                assert(ks.insert(i, k)[j + 1] == x);
            }
        }
    }
}

proof fn lemma_params_cover(st: RequestParts, first: bool, ps: Seq<OpenApiParameter>)
    requires
        secrets_covered(st.vars, st.secrets),
    ensures
        secrets_covered(apply_params_spec(st, first, ps).0.vars, apply_params_spec(st, first, ps).0.secrets),
    decreases ps.len(),
{
    if ps.len() > 0 {
        lemma_params_cover(st, first, ps.drop_last());
        let (a, f) = apply_params_spec(st, first, ps.drop_last());
        lemma_insert_absent_keys(a.vars, ps.last().name@, param_default_spec(ps.last()));
    }
}

proof fn lemma_schemes_cover(st: RequestParts, names: Seq<Seq<char>>, schemes: Seq<(String, OpenApiSecurityScheme)>)
    requires
        secrets_covered(st.vars, st.secrets),
    ensures
        secrets_covered(apply_schemes_spec(st, names, schemes).vars, apply_schemes_spec(st, names, schemes).secrets),
    decreases names.len(),
{
    if names.len() > 0 {
        lemma_schemes_cover(st, names.drop_last(), schemes);
        let a = apply_schemes_spec(st, names.drop_last(), schemes);
        lemma_insert_absent_keys(a.vars, names.last(), Seq::empty());
    }
}

proof fn lemma_path_entries_cover(
    doc: OpenApiDocument,
    base: Seq<char>,
    path: Seq<char>,
    item: OpenApiPathItem,
    ops: Seq<(Seq<char>, OpenApiOperation)>,
    st: CollectionParts,
)
    requires
        secrets_covered(st.vars, st.secrets),
    ensures
        secrets_covered(path_entries(doc, base, path, item, ops, st).vars, path_entries(doc, base, path, item, ops, st).secrets),
    decreases ops.len(),
{
    if ops.len() > 0 {
        lemma_path_entries_cover(doc, base, path, item, ops.drop_last(), st);
        let s = path_entries(doc, base, path, item, ops.drop_last(), st);
        let op = ops.last().1;
        let url0 = convert_braces_spec(base + path);
        let r0 = RequestParts { vars: s.vars, headers: Seq::empty(), url: url0, secrets: s.secrets };
        lemma_params_cover(r0, !url0.contains('?'), merge_params(item.parameters@, op.parameters@));
        let r1 = apply_params_spec(r0, !url0.contains('?'), merge_params(item.parameters@, op.parameters@)).0;
        let reqs = requirements_of(doc, op);
        if reqs.len() > 0 {
            lemma_schemes_cover(r1, crate::api::strings_view(reqs[0]@), doc.components.security_schemes@);
        }
    }
}

proof fn lemma_doc_entries_cover(doc: OpenApiDocument, base: Seq<char>, paths: Seq<(String, OpenApiPathItem)>, st: CollectionParts)
    requires
        secrets_covered(st.vars, st.secrets),
    ensures
        secrets_covered(doc_entries(doc, base, paths, st).vars, doc_entries(doc, base, paths, st).secrets),
    decreases paths.len(),
{
    if paths.len() > 0 {
        lemma_doc_entries_cover(doc, base, paths.drop_last(), st);
        let s = doc_entries(doc, base, paths.drop_last(), st);
        lemma_path_entries_cover(doc, base, paths.last().0@, paths.last().1, path_operations(paths.last().1), s);
    }
}

/// After an OpenAPI import every secret name is the key of one of the
/// collection's variables, so the variables pane can mask it.
pub proof fn lemma_openapi_secrets_are_variables(doc: OpenApiDocument)
    ensures
        secrets_covered(openapi_spec(doc).vars, openapi_spec(doc).secrets),
{
    let (base0, vars0) = servers_spec(doc.servers@, Seq::empty());
    let base = crate::text::trim_end_char(base0, '/');
    lemma_doc_entries_cover(doc, base, doc.paths@, CollectionParts { vars: vars0, secrets: Set::empty(), apis: Seq::empty() });
}

// ----------------------------------------------------------------------------
// Query strings
// ----------------------------------------------------------------------------

/// How many times `c` occurs in `s`.
pub open spec fn count_char(s: Seq<char>, c: char) -> nat
    decreases s.len(),
{
    if s.len() == 0 {
        0
    } else {
        count_char(s.drop_last(), c) + if s.last() == c {
            1nat
        } else {
            0nat
        }
    }
}

proof fn lemma_count_char_add(a: Seq<char>, b: Seq<char>, c: char)
    ensures
        count_char(a + b, c) == count_char(a, c) + count_char(b, c),
    decreases b.len(),
{
    if b.len() > 0 {
        assert((a + b).drop_last() =~= a + b.drop_last());
        assert((a + b).last() == b.last());
        lemma_count_char_add(a, b.drop_last(), c);
    }
}

proof fn lemma_count_char_absent(s: Seq<char>, c: char)
    requires
        !s.contains(c),
    ensures
        count_char(s, c) == 0,
    decreases s.len(),
{
    if s.len() > 0 {
        assert(s.drop_last().len() < s.len());
        assert(!s.drop_last().contains(c)) by {
            if s.drop_last().contains(c) {
                let j = choose|j: int| 0 <= j < s.drop_last().len() && s.drop_last()[j] == c;
                assert(s[j] == c);
            }
        }
        lemma_count_char_absent(s.drop_last(), c);
        assert(s[s.len() - 1] == s.last());
    }
}

/// Appending a query parameter whose name and value hold no `?` adds a `?`
/// to the URL only for the first parameter; every later one is introduced
/// by `&`, which the URL gains once more.
pub proof fn lemma_query_separators(url: Seq<char>, first: bool, name: Seq<char>, value: Seq<char>)
    requires
        !name.contains('?'),
        !value.contains('?'),
    ensures
        count_char(append_query_spec(url, first, name, value), '?') == count_char(url, '?') + if first {
            1nat
        } else {
            0nat
        },
        !first ==> count_char(append_query_spec(url, first, name, value), '&') == count_char(url, '&') + 1
            + count_char(name, '&') + count_char(value, '&'),
{
    let sep: Seq<char> = if first { seq!['?'] } else { seq!['&'] };
    reveal_with_fuel(count_char, 2);
    lemma_count_char_absent(name, '?');
    lemma_count_char_absent(value, '?');
    assert(count_char(seq!['='], '?') == 0);
    assert(count_char(seq!['='], '&') == 0);
    assert(count_char(seq!['?'], '?') == 1);
    assert(count_char(seq!['&'], '?') == 0);
    assert(count_char(seq!['&'], '&') == 1);
    lemma_count_char_add(url, sep, '?');
    lemma_count_char_add(url + sep, name, '?');
    lemma_count_char_add(url + sep + name, seq!['='], '?');
    lemma_count_char_add(url + sep + name + seq!['='], value, '?');
    lemma_count_char_add(url, sep, '&');
    lemma_count_char_add(url + sep, name, '&');
    lemma_count_char_add(url + sep + name, seq!['='], '&');
    lemma_count_char_add(url + sep + name + seq!['='], value, '&');
}

/// Applying parameters whose names hold no `?` to a URL with at most one
/// `?` (and the flag telling whether it has none) keeps at most one `?`
/// in the URL: the first query parameter brings the `?` and every later
/// one is joined with `&`.
pub proof fn lemma_params_single_question_mark(st: RequestParts, first: bool, ps: Seq<OpenApiParameter>)
    requires
        count_char(st.url, '?') <= 1,
        first <==> count_char(st.url, '?') == 0,
        forall|i: int| 0 <= i < ps.len() ==> !(#[trigger] ps[i].name@).contains('?'),
    ensures
        count_char(apply_params_spec(st, first, ps).0.url, '?') <= 1,
        apply_params_spec(st, first, ps).1 <==> count_char(apply_params_spec(st, first, ps).0.url, '?') == 0,
    decreases ps.len(),
{
    if ps.len() > 0 {
        let rest = ps.drop_last();
        assert forall|i: int| 0 <= i < rest.len() implies !(#[trigger] rest[i].name@).contains('?') by {
            assert(rest[i] == ps[i]);
        }
        lemma_params_single_question_mark(st, first, rest);
        let (s1, f1) = apply_params_spec(st, first, rest);
        let p = ps.last();
        assert(ps[ps.len() - 1] == p);
        let ph = placeholder(p.name@);
        assert(!ph.contains('?')) by {
            if ph.contains('?') {
                let j = choose|j: int| 0 <= j < ph.len() && ph[j] == '?';
                assert(p.name@[j - 2] == '?');
            }
        }
        if p.location@ == query_word() {
            lemma_query_separators(s1.url, f1, p.name@, ph);
        }
    }
}

} // verus!
