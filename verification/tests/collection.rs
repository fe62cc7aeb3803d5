use runbook_tui::collection::{
    assign_keybindings, detect_format, format_from_shapes, parse_postman, CollectionFormat, PostmanBody, PostmanCollection,
    PostmanHeader, PostmanItem, PostmanRequest, PostmanRequestObject, PostmanUrl, PostmanVariable,
};
use runbook_tui::keybinding::KeyBinding;
use runbook_tui::openapi::{
    body_string_from_value, parse_openapi, ExampleValue, OpenApiComponents, OpenApiDocument, OpenApiMediaType, OpenApiOperation, OpenApiParameter,
    OpenApiPathItem, OpenApiRequestBody, OpenApiSchema, OpenApiSecurityScheme, OpenApiServer,
};

fn s(x: &str) -> String {
    x.to_string()
}

fn request(name: &str, method: &str, url: &str, headers: Vec<PostmanHeader>, body: Option<PostmanBody>) -> PostmanItem {
    PostmanItem {
        name: s(name),
        item: Vec::new(),
        request: Some(PostmanRequest::Object(PostmanRequestObject {
            method: s(method),
            url: Some(PostmanUrl::Raw(s(url))),
            header: headers,
            body,
        })),
    }
}

fn header(k: &str, v: &str, disabled: Option<bool>) -> PostmanHeader {
    PostmanHeader { key: s(k), value: s(v), disabled }
}

#[test]
fn postman_readme_collection() {
    let c = PostmanCollection {
        variable: Vec::new(),
        item: vec![
            request("Get IP", "GET", "https://httpbin.org/get", Vec::new(), None),
            request(
                "Post JSON",
                "POST",
                "https://httpbin.org/post",
                vec![header("Content-Type", "application/json", None)],
                Some(PostmanBody { mode: s("raw"), raw: Some(s("{\"hello\":\"world\"}")) }),
            ),
        ],
    };
    let p = parse_postman(&c);
    assert_eq!(p.apis.len(), 2);
    assert_eq!(p.apis[0].name, "Get IP");
    assert_eq!(p.apis[0].method, "GET");
    assert_eq!(p.apis[0].url, "https://httpbin.org/get");
    assert!(p.apis[0].body.is_none());
    assert_eq!(p.apis[1].headers, vec![(s("Content-Type"), s("application/json"))]);
    assert_eq!(p.apis[1].body.as_deref(), Some("{\"hello\":\"world\"}"));
    assert_eq!(p.apis[1].key, KeyBinding::Char('?'));
}

#[test]
fn postman_folders_headers_bodies_and_secrets() {
    let folder = PostmanItem {
        name: s("Users"),
        item: vec![
            request(
                "List",
                "get",
                "{{baseUrl}}/users",
                vec![header("X-On", "1", None), header("X-Off", "0", Some(true)), header("  ", "blank", None)],
                Some(PostmanBody { mode: s("formdata"), raw: Some(s("ignored")) }),
            ),
            PostmanItem { name: s("Bare"), item: Vec::new(), request: Some(PostmanRequest::String(s("http://bare"))) },
            PostmanItem { name: s("Empty"), item: Vec::new(), request: None },
        ],
        request: None,
    };
    let c = PostmanCollection {
        variable: vec![
            PostmanVariable { key: s("baseUrl"), value: s("https://h"), var_type: s("string") },
            PostmanVariable { key: s("token"), value: s("t"), var_type: s("SECRET") },
        ],
        item: vec![folder],
    };
    let p = parse_postman(&c);
    assert_eq!(p.variables, vec![(s("baseUrl"), s("https://h")), (s("token"), s("t"))]);
    assert!(p.secret_keys.contains("token"));
    assert!(!p.secret_keys.contains("baseUrl"));
    assert_eq!(p.apis.len(), 2);
    assert_eq!(p.apis[0].name, "Users / List");
    assert_eq!(p.apis[0].method, "GET");
    assert_eq!(p.apis[0].headers, vec![(s("X-On"), s("1"))]);
    assert!(p.apis[0].body.is_none());
    assert_eq!(p.apis[0].variables.len(), 2);
    assert_eq!(p.apis[1].name, "Users / Bare");
    assert_eq!(p.apis[1].method, "GET");
    assert_eq!(p.apis[1].url, "http://bare");
}

#[test]
fn postman_url_object() {
    let item = PostmanItem {
        name: s("Obj"),
        item: Vec::new(),
        request: Some(PostmanRequest::Object(PostmanRequestObject {
            method: s("delete"),
            url: Some(PostmanUrl::Object { raw: Some(s("http://obj")) }),
            header: Vec::new(),
            body: None,
        })),
    };
    let none = PostmanItem {
        name: s("NoUrl"),
        item: Vec::new(),
        request: Some(PostmanRequest::Object(PostmanRequestObject {
            method: s("GET"),
            url: Some(PostmanUrl::Object { raw: None }),
            header: Vec::new(),
            body: None,
        })),
    };
    let p = parse_postman(&PostmanCollection { variable: Vec::new(), item: vec![item, none] });
    assert_eq!(p.apis[0].url, "http://obj");
    assert_eq!(p.apis[0].method, "DELETE");
    assert_eq!(p.apis[1].url, "");
}

fn op(id: &str, summary: &str, params: Vec<OpenApiParameter>) -> OpenApiOperation {
    OpenApiOperation { operation_id: s(id), summary: s(summary), parameters: params, request_body: None, security: None }
}

fn param(name: &str, location: &str, example: Option<ExampleValue>) -> OpenApiParameter {
    OpenApiParameter { name: s(name), location: s(location), example, schema: None }
}

fn empty_item() -> OpenApiPathItem {
    OpenApiPathItem {
        parameters: Vec::new(),
        get: None,
        post: None,
        put: None,
        delete: None,
        patch: None,
        head: None,
        options: None,
        trace: None,
    }
}

fn schema(ty: &str) -> OpenApiSchema {
    OpenApiSchema { schema_type: s(ty), default: None, example: None, properties: None, items: None }
}

/// A small document with two operations, an API-key scheme named `apiKey`
/// and a server variable `foo`.
fn sample_document() -> OpenApiDocument {
    let mut pets = empty_item();
    pets.get = Some(op("listPets", "", vec![param("limit", "query", Some(ExampleValue::Json(s("10"))))]));
    let mut body_schema = schema("object");
    body_schema.properties = Some(vec![(s("age"), schema("integer")), (s("name"), schema("string"))]);
    let mut post = op("", "Create a pet", Vec::new());
    post.request_body = Some(OpenApiRequestBody {
        content: vec![(
            s("application/json"),
            OpenApiMediaType { schema: Some(body_schema), example: None, examples: Vec::new() },
        )],
    });
    pets.post = Some(post);
    OpenApiDocument {
        servers: vec![OpenApiServer { url: s("https://{foo}.example.com/v1/"), variables: vec![(s("foo"), s("api"))] }],
        paths: vec![(s("/pets"), pets)],
        components: OpenApiComponents {
            security_schemes: vec![(
                s("apiKey"),
                OpenApiSecurityScheme { scheme_type: s("apiKey"), name: s("X-API-Key"), in_location: s("header") },
            )],
        },
        security: Some(vec![vec![s("apiKey")]]),
    }
}

fn check_sample(doc: &OpenApiDocument) {
    let parsed = parse_openapi(doc);
    assert_eq!(parsed.apis.len(), 2);
    assert!(parsed.secret_keys.contains("apiKey"));
    let keys: Vec<&str> = parsed.variables.iter().map(|(k, _)| k.as_str()).collect();
    assert!(keys.contains(&"apiKey"));
    assert!(keys.contains(&"foo"));
}

#[test]
fn parse_openapi_yaml() {
    let text = "openapi: 3.0.0\ninfo:\n  title: Pets\npaths: {}\n";
    assert_eq!(detect_format(text), Some(CollectionFormat::OpenApi));
    check_sample(&sample_document());
}

#[test]
fn parse_openapi_json() {
    let text = "{\"openapi\": \"3.0.0\", \"info\": {\"title\": \"Pets\"}, \"paths\": {}}";
    assert_eq!(detect_format(text), Some(CollectionFormat::OpenApi));
    check_sample(&sample_document());
}

#[test]
fn openapi_entries_in_detail() {
    let parsed = parse_openapi(&sample_document());
    let vars: Vec<(&str, &str)> = parsed.variables.iter().map(|(k, v)| (k.as_str(), v.as_str())).collect();
    assert_eq!(vars, vec![("apiKey", ""), ("foo", "api"), ("limit", "10")]);
    let get = &parsed.apis[0];
    assert_eq!(get.name, "listPets");
    assert_eq!(get.method, "GET");
    assert_eq!(get.url, "https://{{foo}}.example.com/v1/pets?limit={{limit}}");
    assert_eq!(get.headers, vec![(s("X-API-Key"), s("{{apiKey}}"))]);
    assert!(get.body.is_none());
    assert_eq!(get.variables.len(), 3);
    let post = &parsed.apis[1];
    assert_eq!(post.name, "Create a pet");
    assert_eq!(post.method, "POST");
    assert_eq!(post.url, "https://{{foo}}.example.com/v1/pets");
    assert_eq!(
        post.headers,
        vec![(s("X-API-Key"), s("{{apiKey}}")), (s("Content-Type"), s("application/json"))]
    );
    assert_eq!(post.body.as_deref(), Some("{\n  \"age\": 0,\n  \"name\": \"\"\n}"));
}

#[test]
fn openapi_operation_named_by_method_and_path() {
    let mut item = empty_item();
    item.delete = Some(op("", "", vec![param("id", "path", None), param("X-Trace", "header", None)]));
    let doc = OpenApiDocument {
        servers: Vec::new(),
        paths: vec![(s("/items/{id}"), item)],
        components: OpenApiComponents { security_schemes: Vec::new() },
        security: None,
    };
    let parsed = parse_openapi(&doc);
    assert_eq!(parsed.apis.len(), 1);
    assert_eq!(parsed.apis[0].name, "DELETE /items/{id}");
    assert_eq!(parsed.apis[0].url, "/items/{{id}}");
    assert_eq!(parsed.apis[0].headers, vec![(s("X-Trace"), s("{{X-Trace}}"))]);
    assert!(!parsed.secret_keys.contains("id"));
}

#[test]
fn format_detection_from_shapes() {
    assert_eq!(format_from_shapes(Some((true, false, false)), None), Some(CollectionFormat::OpenApi));
    assert_eq!(format_from_shapes(Some((false, true, true)), None), Some(CollectionFormat::Postman));
    assert_eq!(format_from_shapes(Some((false, true, false)), Some((false, true, true))), Some(CollectionFormat::Postman));
    assert_eq!(format_from_shapes(None, Some((true, true, true))), Some(CollectionFormat::OpenApi));
    assert_eq!(format_from_shapes(None, None), None);
}

#[test]
fn format_detection_from_text() {
    assert_eq!(detect_format("{\"info\": {\"name\": \"x\"}, \"item\": []}"), Some(CollectionFormat::Postman));
    assert_eq!(detect_format("info:\n  name: x\nitem: []\n"), Some(CollectionFormat::Postman));
    assert_eq!(detect_format("{\"info\": {\"title\": \"x\"}}"), None);
    assert_eq!(detect_format("just words"), None);
}

#[test]
fn keybindings_are_assigned_in_order() {
    let c = PostmanCollection {
        variable: Vec::new(),
        item: (0..70).map(|i| request(&format!("r{i}"), "GET", "http://x", Vec::new(), None)).collect(),
    };
    let mut p = parse_postman(&c);
    assign_keybindings(&mut p.apis);
    assert_eq!(p.apis[0].key, KeyBinding::Char('a'));
    assert_eq!(p.apis[25].key, KeyBinding::Char('z'));
    assert_eq!(p.apis[26].key, KeyBinding::Char('A'));
    assert_eq!(p.apis[51].key, KeyBinding::Char('Z'));
    assert_eq!(p.apis[52].key, KeyBinding::Char('0'));
    assert_eq!(p.apis[61].key, KeyBinding::Char('9'));
    assert_eq!(p.apis[62].key, KeyBinding::Char('?'));
    assert_eq!(p.apis[69].key, KeyBinding::Char('?'));
}

#[test]
fn request_objects_without_a_url_are_not_imported() {
    let no_url = PostmanItem {
        name: s("Missing"),
        item: Vec::new(),
        request: Some(PostmanRequest::Object(PostmanRequestObject {
            method: s("POST"),
            url: None,
            header: Vec::new(),
            body: None,
        })),
    };
    let kept = request("Kept", "get", "http://kept", Vec::new(), None);
    let p = parse_postman(&PostmanCollection { variable: Vec::new(), item: vec![no_url, kept] });
    assert_eq!(p.apis.len(), 1);
    assert_eq!(p.apis[0].name, "Kept");
    assert_eq!(p.apis[0].url, "http://kept");
}

#[test]
fn json_bodies_escape_strings_as_serde_json_does() {
    let v = ExampleValue::Text(s("a\"b\\c\n\t\u{1}\u{1f}\u{8}\u{c}\r\u{7f}é"));
    let body = body_string_from_value(&v, "application/json");
    assert_eq!(body, "\"a\\\"b\\\\c\\n\\t\\u0001\\u001f\\b\\f\\r\u{7f}é\"");
    let plain = ExampleValue::Text(s("plain"));
    assert_eq!(body_string_from_value(&plain, "text/plain"), "plain");
}
