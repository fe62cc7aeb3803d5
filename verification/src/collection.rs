//! Collections of API requests: the entries of a Postman collection (folders
//! flattened into `Folder / Request` names) and of an OpenAPI document (one
//! entry per operation, with parameters and API-key security turned into
//! `{{variable}}` placeholders), and the key bindings given to the entries.
//! The documents arrive already parsed into the plain types below.

use vstd::prelude::*;
use crate::api::{opt_view, pairs_view, ApiItem, ApiItemView};
use crate::keybinding::KeyBinding;
use crate::ordered::{keys_of, strictly_sorted, StringMap, StringSet};
use crate::text::{
    char_count, eq_ignore_ascii_case, eq_ignore_ascii_case_spec, to_string, to_uppercase, trim,
    trim_spec, uppercase,
};

verus! {

/// The views of a list of API entries.
pub open spec fn api_views(s: Seq<ApiItem>) -> Seq<ApiItemView> {
    s.map_values(|a: ApiItem| a@)
}

/// A collection after import: its entries, its variables and the names of
/// the variables whose values are secret.
pub struct ParsedCollection {
    pub apis: Vec<ApiItem>,
    pub variables: Vec<(String, String)>,
    pub secret_keys: StringSet,
}

// ----------------------------------------------------------------------------
// Postman
// ----------------------------------------------------------------------------

/// A collection variable.
pub struct PostmanVariable {
    pub key: String,
    pub value: String,
    pub var_type: String,
}

/// A request header; a disabled header is left out.
pub struct PostmanHeader {
    pub key: String,
    pub value: String,
    pub disabled: Option<bool>,
}

/// A request body; only a `raw` body is sent.
pub struct PostmanBody {
    pub mode: String,
    pub raw: Option<String>,
}

/// A request URL: a plain string or an object with a `raw` field.
pub enum PostmanUrl {
    Raw(String),
    Object { raw: Option<String> },
}

/// A request given as an object.
pub struct PostmanRequestObject {
    pub method: String,
    pub url: Option<PostmanUrl>,
    pub header: Vec<PostmanHeader>,
    pub body: Option<PostmanBody>,
}

/// A request: a bare URL (sent with GET) or an object.
pub enum PostmanRequest {
    String(String),
    Object(PostmanRequestObject),
}

/// An item: a folder of items or a request.
pub struct PostmanItem {
    pub name: String,
    pub item: Vec<PostmanItem>,
    pub request: Option<PostmanRequest>,
}

/// A Postman collection.
pub struct PostmanCollection {
    pub variable: Vec<PostmanVariable>,
    pub item: Vec<PostmanItem>,
}

/// `GET`.
pub open spec fn get_word() -> Seq<char> {
    seq!['G', 'E', 'T']
}

/// `raw`.
pub open spec fn raw_word() -> Seq<char> {
    seq!['r', 'a', 'w']
}

/// `secret`.
pub open spec fn secret_word() -> Seq<char> {
    seq!['s', 'e', 'c', 'r', 'e', 't']
}

/// ` / `.
pub open spec fn name_separator() -> Seq<char> {
    seq![' ', '/', ' ']
}

/// The method of a request object that gives none.
pub fn default_method() -> (r: String)
    ensures
        r@ == get_word(),
{
    proof {
        reveal_strlit("GET");
    }
    to_string("GET")
}

/// The URL text of a request object.
pub open spec fn url_string_spec(url: Option<PostmanUrl>) -> Seq<char> {
    match url {
        Some(PostmanUrl::Raw(s)) => s@,
        Some(PostmanUrl::Object { raw: Some(s) }) => s@,
        _ => Seq::empty(),
    }
}

/// The URL text of a request object (empty when it has none).
pub fn url_string(url: &Option<PostmanUrl>) -> (r: String)
    ensures
        r@ == url_string_spec(*url),
{
    match url {
        Some(PostmanUrl::Raw(s)) => s.clone(),
        Some(PostmanUrl::Object { raw: Some(s) }) => s.clone(),
        _ => String::new(),
    }
}

/// A header is kept unless it is disabled or its key is blank.
pub open spec fn header_kept(h: PostmanHeader) -> bool {
    h.disabled != Some(true) && trim_spec(h.key@).len() > 0
}

/// The kept headers, in order, as key and value.
pub open spec fn kept_headers(hs: Seq<PostmanHeader>) -> Seq<(Seq<char>, Seq<char>)>
    decreases hs.len(),
{
    if hs.len() == 0 {
        Seq::empty()
    } else {
        kept_headers(hs.drop_last()) + if header_kept(hs.last()) {
            seq![(hs.last().key@, hs.last().value@)]
        } else {
            Seq::empty()
        }
    }
}

/// The body sent: the raw text of a `raw` body.
pub open spec fn body_spec(b: Option<PostmanBody>) -> Option<Seq<char>> {
    match b {
        Some(b) => if b.mode@ == raw_word() {
            opt_view(b.raw)
        } else {
            None
        },
        None => None,
    }
}

/// The name of an item inside the folder named `prefix`.
pub open spec fn item_name(prefix: Seq<char>, name: Seq<char>) -> Seq<char> {
    if prefix.len() == 0 {
        name
    } else {
        prefix + name_separator() + name
    }
}

/// The entries of an item inside the folder `prefix`: a folder gives the
/// entries of its items, a request gives one entry (a request object only
/// when it has a URL), anything else none.
pub open spec fn extract_spec(prefix: Seq<char>, item: PostmanItem, vars: Seq<(Seq<char>, Seq<char>)>) -> Seq<ApiItemView>
    decreases item,
{
    let name = item_name(prefix, item.name@);
    if item.item@.len() > 0 {
        extract_all(name, item.item@, vars)
    } else {
        match item.request {
            Some(PostmanRequest::String(url)) => seq![
                ApiItemView {
                    name,
                    key: KeyBinding::Char('?'),
                    method: get_word(),
                    url: url@,
                    headers: Seq::empty(),
                    body: None,
                    variables: vars,
                },
            ],
            Some(PostmanRequest::Object(obj)) => if obj.url is Some {
                seq![
                    ApiItemView {
                        name,
                        key: KeyBinding::Char('?'),
                        method: uppercase(obj.method@),
                        url: url_string_spec(obj.url),
                        headers: kept_headers(obj.header@),
                        body: body_spec(obj.body),
                        variables: vars,
                    },
                ]
            } else {
                Seq::empty()
            },
            None => Seq::empty(),
        }
    }
}

/// The entries of a list of items inside the folder `prefix`, in order.
pub open spec fn extract_all(prefix: Seq<char>, items: Seq<PostmanItem>, vars: Seq<(Seq<char>, Seq<char>)>) -> Seq<ApiItemView>
    decreases items,
{
    if items.len() == 0 {
        Seq::empty()
    } else {
        extract_all(prefix, items.drop_last(), vars) + extract_spec(prefix, items.last(), vars)
    }
}

/// The kept headers of a request object.
fn headers_of(hs: &Vec<PostmanHeader>) -> (r: Vec<(String, String)>)
    ensures
        pairs_view(r@) == kept_headers(hs@),
{
    let mut r: Vec<(String, String)> = Vec::new();
    let mut i: usize = 0;
    while i < hs.len()
        invariant
            i <= hs.len(),
            pairs_view(r@) == kept_headers(hs@.take(i as int)),
        decreases hs.len() - i,
    {
        let h = &hs[i];
        let disabled = match h.disabled {
            Some(d) => d,
            None => false,
        };
        let t = trim(h.key.as_str());
        let n = char_count(t.as_str());
        proof {
            assert(hs@.take(i + 1).drop_last() =~= hs@.take(i as int));
            assert(hs@.take(i + 1).last() == hs@[i as int]);
        }
        if !disabled && n > 0 {
            r.push((h.key.clone(), h.value.clone()));
        }
        i = i + 1;
        proof {
            assert(pairs_view(r@) =~= kept_headers(hs@.take(i as int)));
        }
    }
    proof {
        assert(hs@.take(hs.len() as int) =~= hs@);
    }
    r
}

/// The body sent for a request object.
fn body_of(b: &Option<PostmanBody>) -> (r: Option<String>)
    ensures
        opt_view(r) == body_spec(*b),
{
    match b {
        Some(body) => {
            proof {
                reveal_strlit("raw");
                assert("raw"@ == raw_word());
            }
            if crate::theme::str_eq(body.mode.as_str(), "raw") {
                match &body.raw {
                    Some(s) => Some(s.clone()),
                    None => None,
                }
            } else {
                None
            }
        },
        None => None,
    }
}

/// Appends the entries of `item`, inside the folder `prefix`, to `apis`.
pub fn extract_item(prefix: &str, item: &PostmanItem, variables: &Vec<(String, String)>, apis: &mut Vec<ApiItem>)
    ensures
        api_views(final(apis)@) == api_views(old(apis)@) + extract_spec(prefix@, *item, pairs_view(variables@)),
    decreases item,
{
    let name = if char_count(prefix) == 0 {
        item.name.clone()
    } else {
        proof {
            reveal_strlit(" / ");
        }
        let a = crate::text::concat(prefix, " / ");
        proof {
            assert(" / "@ == name_separator());
        }
        crate::text::concat(a.as_str(), item.name.as_str())
    };
    proof {
        assert(name@ =~= item_name(prefix@, item.name@));
    }
    let ghost vars = pairs_view(variables@);
    if item.item.len() > 0 {
        let mut i: usize = 0;
        while i < item.item.len()
            invariant
                i <= item.item@.len(),
                name@ == item_name(prefix@, item.name@),
                vars == pairs_view(variables@),
                api_views(apis@) == api_views(old(apis)@) + extract_all(name@, item.item@.take(i as int), vars),
            decreases item.item@.len() - i,
        {
            proof {
                assert(item.item@.take(i + 1).drop_last() =~= item.item@.take(i as int));
                assert(item.item@.take(i + 1).last() == item.item@[i as int]);
                assert(decreases_to!(item => item.item));
            }
            extract_item(name.as_str(), &item.item[i], variables, apis);
            i = i + 1;
            proof {
                assert(api_views(apis@) =~= api_views(old(apis)@) + extract_all(name@, item.item@.take(i as int), vars));
            }
        }
        proof {
            assert(item.item@.take(item.item@.len() as int) =~= item.item@);
        }
        return;
    }
    let ghost before = api_views(apis@);
    match &item.request {
        Some(PostmanRequest::String(url)) => {
            let a = ApiItem {
                name,
                key: KeyBinding::Char('?'),
                method: default_method(),
                url: url.clone(),
                headers: Vec::new(),
                body: None,
                variables: crate::api::clone_pairs(variables),
            };
            apis.push(a);
            proof {
                assert(pairs_view(Seq::<(String, String)>::empty()) =~= Seq::<(Seq<char>, Seq<char>)>::empty());
                assert(api_views(apis@) =~= before + extract_spec(prefix@, *item, vars));
            }
        },
        Some(PostmanRequest::Object(obj)) => {
            if obj.url.is_none() {
                proof {
                    assert(api_views(apis@) =~= before + extract_spec(prefix@, *item, vars));
                }
                return;
            }
            let a = ApiItem {
                name,
                key: KeyBinding::Char('?'),
                method: to_uppercase(obj.method.as_str()),
                url: url_string(&obj.url),
                headers: headers_of(&obj.header),
                body: body_of(&obj.body),
                variables: crate::api::clone_pairs(variables),
            };
            apis.push(a);
            proof {
                assert(api_views(apis@) =~= before + extract_spec(prefix@, *item, vars));
            }
        },
        None => {
            proof {
                assert(api_views(apis@) =~= before + extract_spec(prefix@, *item, vars));
            }
        },
    }
}

/// A variable is secret when its type is `secret`, in any case.
pub open spec fn is_secret(v: PostmanVariable) -> bool {
    eq_ignore_ascii_case_spec(v.var_type@, secret_word())
}

/// The collection's variables as key and value, in order.
pub open spec fn postman_vars(vs: Seq<PostmanVariable>) -> Seq<(Seq<char>, Seq<char>)> {
    vs.map_values(|v: PostmanVariable| (v.key@, v.value@))
}

/// The entries, variables and secret variable names of a Postman
/// collection: every entry carries all the collection's variables.
pub fn parse_postman(collection: &PostmanCollection) -> (r: ParsedCollection)
    ensures
        pairs_view(r.variables@) == postman_vars(collection.variable@),
        api_views(r.apis@) == extract_all(Seq::empty(), collection.item@, postman_vars(collection.variable@)),
        r.secret_keys.wf(),
        forall|k: Seq<char>| #[trigger] r.secret_keys@.contains(k) <==> exists|i: int|
            0 <= i < collection.variable@.len() && collection.variable@[i].key@ == k
                && is_secret(collection.variable@[i]),
{
    let mut secret_keys = StringSet::new();
    let mut variables: Vec<(String, String)> = Vec::new();
    let mut i: usize = 0;
    while i < collection.variable.len()
        invariant
            i <= collection.variable@.len(),
            secret_keys.wf(),
            pairs_view(variables@) == postman_vars(collection.variable@.take(i as int)),
            forall|k: Seq<char>| #[trigger] secret_keys@.contains(k) <==> exists|j: int|
                0 <= j < i && collection.variable@[j].key@ == k && is_secret(collection.variable@[j]),
        decreases collection.variable@.len() - i,
    {
        proof {
            reveal_strlit("secret");
            assert("secret"@ == secret_word());
        }
        let v = &collection.variable[i];
        let ghost before = secret_keys@;
        let secret = eq_ignore_ascii_case(v.var_type.as_str(), "secret");
        if secret {
            secret_keys.insert(v.key.clone());
        }
        proof {
            assert forall|k: Seq<char>| #[trigger] secret_keys@.contains(k) <==> exists|j: int|
                0 <= j < i + 1 && collection.variable@[j].key@ == k && is_secret(collection.variable@[j]) by {
                assert(secret_keys@.contains(k) == secret_keys@.to_set().contains(k));
                assert(before.contains(k) == before.to_set().contains(k));
                if exists|j: int| 0 <= j < i + 1 && collection.variable@[j].key@ == k && is_secret(collection.variable@[j]) {
                    let j = choose|j: int| 0 <= j < i + 1 && collection.variable@[j].key@ == k && is_secret(collection.variable@[j]);
                    if j < i {
                        assert(before.contains(k));
                    }
                }
                if secret_keys@.contains(k) && !before.contains(k) {
                    assert(k == v.key@);
                    assert(collection.variable@[i as int].key@ == k);
                }
            }
        }
        let ghost old_vars = variables@;
        variables.push((v.key.clone(), v.value.clone()));
        proof {
            assert(pairs_view(variables@) =~= pairs_view(old_vars).push((v.key@, v.value@)));
            assert(postman_vars(collection.variable@.take(i + 1)) =~= postman_vars(
                collection.variable@.take(i as int),
            ).push((v.key@, v.value@)));
        }
        i = i + 1;
    }
    proof {
        assert(collection.variable@.take(i as int) =~= collection.variable@);
    }
    let mut apis: Vec<ApiItem> = Vec::new();
    let mut j: usize = 0;
    let ghost vars = postman_vars(collection.variable@);
    while j < collection.item.len()
        invariant
            j <= collection.item@.len(),
            pairs_view(variables@) == vars,
            api_views(apis@) == extract_all(Seq::empty(), collection.item@.take(j as int), vars),
        decreases collection.item@.len() - j,
    {
        proof {
            assert(collection.item@.take(j + 1).drop_last() =~= collection.item@.take(j as int));
            assert(collection.item@.take(j + 1).last() == collection.item@[j as int]);
            reveal_strlit("");
            assert(""@ =~= Seq::<char>::empty());
        }
        extract_item("", &collection.item[j], &variables, &mut apis);
        j = j + 1;
        proof {
            assert(api_views(apis@) =~= extract_all(Seq::empty(), collection.item@.take(j as int), vars));
        }
    }
    proof {
        assert(collection.item@.take(j as int) =~= collection.item@);
    }
    ParsedCollection { apis, variables, secret_keys }
}

// ----------------------------------------------------------------------------
// Format detection and key bindings
// ----------------------------------------------------------------------------

/// The kinds of collection files.
#[derive(Debug, Clone, Copy, PartialEq, Eq, Structural)]
pub enum CollectionFormat {
    OpenApi,
    Postman,
}

/// Name for what `serde_json` finds in a text: `None` when it does not
/// parse as a JSON value, otherwise whether the value has an `openapi` key,
/// an `info` key whose value has a `name` key, and an `item` key.
pub uninterp spec fn json_shape(content: Seq<char>) -> Option<(bool, bool, bool)>;

/// Name for what `serde_yaml` finds in a text, as `json_shape` does.
pub uninterp spec fn yaml_shape(content: Seq<char>) -> Option<(bool, bool, bool)>;

/// Parses the text with `serde_json::from_str` into a `serde_json::Value`
/// and looks up the keys `openapi`, `info`/`name` and `item` with
/// `Value::get`; the result is named `json_shape`.
#[verifier::external_body]
fn json_document_shape(content: &str) -> (r: Option<(bool, bool, bool)>)
    ensures
        r == json_shape(content@),
{
    match serde_json::from_str::<serde_json::Value>(content) {
        Ok(v) => Some((
            v.get("openapi").is_some(),
            v.get("info").and_then(|i| i.get("name")).is_some(),
            v.get("item").is_some(),
        )),
        Err(_) => None,
    }
}

/// Parses the text with `serde_yaml::from_str` into a `serde_yaml::Value`
/// and looks up the keys `openapi`, `info`/`name` and `item` with
/// `Value::get`; the result is named `yaml_shape`.
#[verifier::external_body]
fn yaml_document_shape(content: &str) -> (r: Option<(bool, bool, bool)>)
    ensures
        r == yaml_shape(content@),
{
    match serde_yaml::from_str::<serde_yaml::Value>(content) {
        Ok(v) => Some((
            v.get("openapi").is_some(),
            v.get("info").and_then(|i| i.get("name")).is_some(),
            v.get("item").is_some(),
        )),
        Err(_) => None,
    }
}

/// The format a document's shape shows: OpenAPI when it has an `openapi`
/// key, Postman when it has `info.name` and `item`.
pub open spec fn shape_format(shape: Option<(bool, bool, bool)>) -> Option<CollectionFormat> {
    match shape {
        Some((openapi, info_name, item)) => if openapi {
            Some(CollectionFormat::OpenApi)
        } else if info_name && item {
            Some(CollectionFormat::Postman)
        } else {
            None
        },
        None => None,
    }
}

/// The format shown by the JSON reading of a text, else by its YAML
/// reading.
pub open spec fn format_from_shapes_spec(json: Option<(bool, bool, bool)>, yaml: Option<(bool, bool, bool)>) -> Option<CollectionFormat> {
    if shape_format(json) is Some {
        shape_format(json)
    } else {
        shape_format(yaml)
    }
}

/// The format shown by the two readings of a text (see
/// `format_from_shapes_spec`).
pub fn format_from_shapes(json: Option<(bool, bool, bool)>, yaml: Option<(bool, bool, bool)>) -> (r: Option<CollectionFormat>)
    ensures
        r == format_from_shapes_spec(json, yaml),
{
    let from = |shape: Option<(bool, bool, bool)>| -> (f: Option<CollectionFormat>)
        ensures
            f == shape_format(shape),
        {
            match shape {
                Some((openapi, info_name, item)) => if openapi {
                    Some(CollectionFormat::OpenApi)
                } else if info_name && item {
                    Some(CollectionFormat::Postman)
                } else {
                    None
                },
                None => None,
            }
        };
    let j = from(json);
    if j.is_some() {
        j
    } else {
        from(yaml)
    }
}

/// The format of a collection file's text, or `None` when it is neither
/// an OpenAPI document nor a Postman collection.
pub fn detect_format(content: &str) -> (r: Option<CollectionFormat>)
    ensures
        r == format_from_shapes_spec(json_shape(content@), yaml_shape(content@)),
{
    let j = json_document_shape(content);
    let from_json = format_from_shapes(j, None);
    if from_json.is_some() {
        return from_json;
    }
    let y = yaml_document_shape(content);
    format_from_shapes(j, y)
}

/// The key bound to the `i`-th entry: `a` to `z`, then `A` to `Z`, then `0`
/// to `9`.
pub open spec fn binding_char(i: int) -> char {
    if i < 26 {
        (97 + i) as char
    } else if i < 52 {
        (65 + i - 26) as char
    } else {
        (48 + i - 52) as char
    }
}

/// The entries with the first 62 bound to `a`..`z`, `A`..`Z`, `0`..`9`.
pub open spec fn with_bindings(apis: Seq<ApiItemView>) -> Seq<ApiItemView> {
    Seq::new(
        apis.len(),
        |i: int|
            if i < 62 {
                ApiItemView { key: KeyBinding::Char(binding_char(i)), ..apis[i] }
            } else {
                apis[i]
            },
    )
}

/// The key for the `i`-th entry (see `binding_char`).
fn binding_for(i: usize) -> (c: char)
    requires
        i < 62,
    ensures
        c == binding_char(i as int),
{
    let b: u8 = i as u8;
    if i < 26 {
        (97u8 + b) as char
    } else if i < 52 {
        (65u8 + b - 26) as char
    } else {
        (48u8 + b - 52) as char
    }
}

/// Binds the first 62 entries to `a`..`z`, `A`..`Z`, `0`..`9`, in order;
/// later entries keep their binding.
pub fn assign_keybindings(apis: &mut Vec<ApiItem>)
    ensures
        api_views(final(apis)@) == with_bindings(api_views(old(apis)@)),
{
    let ghost start = api_views(apis@);
    let mut i: usize = 0;
    while i < apis.len() && i < 62
        invariant
            i <= apis@.len(),
            i <= 62,
            apis@.len() == start.len(),
            forall|j: int| 0 <= j < apis@.len() ==> #[trigger] api_views(apis@)[j] == if j < i {
                ApiItemView { key: KeyBinding::Char(binding_char(j)), ..start[j] }
            } else {
                start[j]
            },
        decreases apis@.len() - i,
    {
        let ghost prev = api_views(apis@);
        let mut c = apis[i].copy();
        c.key = KeyBinding::Char(binding_for(i));
        apis.set(i, c);
        proof {
            assert forall|j: int| 0 <= j < apis@.len() implies #[trigger] api_views(apis@)[j] == if j < i + 1 {
                ApiItemView { key: KeyBinding::Char(binding_char(j)), ..start[j] }
            } else {
                start[j]
            } by {
                if j != i {
                    assert(api_views(apis@)[j] == prev[j]);
                }
            }
        }
        i = i + 1;
    }
    proof {
        assert forall|j: int| 0 <= j < apis@.len() implies #[trigger] api_views(apis@)[j] == with_bindings(start)[j] by {
        }
        assert(api_views(apis@) =~= with_bindings(start));
    }
}

} // verus!
