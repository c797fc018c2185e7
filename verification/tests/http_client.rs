use rest_api_builder::headers::HeaderMap;
use rest_api_builder::transport::HttpClient;
use rest_api_builder::builder::{accept_all, RequestBuilder};
use rest_api_builder::error::RequestError;
use rest_api_builder::meta::{Attribute, MetaItem};
use rest_api_builder::schema::{
    generate_request_builder, FieldDefinition, FieldType, RequestDescriptor, Shape, TypeDefinition,
    TypePath,
};
use rest_api_builder::value::FieldValue;

fn named(name: &str) -> FieldType {
    FieldType::Path(TypePath {
        qualified: false,
        segments: vec![name.to_string()],
        first_argument: None,
    })
}

fn optional(inner: &str) -> FieldType {
    FieldType::Path(TypePath {
        qualified: false,
        segments: vec!["Option".to_string()],
        first_argument: Some(inner.to_string()),
    })
}

fn annotation(items: Vec<MetaItem>) -> Vec<Attribute> {
    if items.is_empty() {
        Vec::new()
    } else {
        vec![Attribute::new("request_builder", items)]
    }
}

fn field(name: &str, ty: FieldType, items: Vec<MetaItem>) -> FieldDefinition {
    FieldDefinition { name: name.to_string(), ty, attrs: annotation(items), default_value: None }
}

fn request_type(name: &str, items: Vec<MetaItem>, fields: Vec<FieldDefinition>) -> TypeDefinition {
    TypeDefinition {
        name: name.to_string(),
        shape: Shape::NamedStruct,
        attrs: annotation(items),
        fields,
    }
}

fn describe(name: &str, items: Vec<MetaItem>, fields: Vec<FieldDefinition>) -> RequestDescriptor {
    generate_request_builder(&request_type(name, items, fields)).unwrap()
}

fn text(s: &str) -> FieldValue {
    FieldValue::text(s)
}

#[derive(Debug)]
struct MockError(String);

impl std::fmt::Display for MockError {
    fn fmt(&self, f: &mut std::fmt::Formatter<'_>) -> std::fmt::Result {
        f.write_str(&self.0)
    }
}

impl std::error::Error for MockError {}

#[derive(Clone, Default)]
struct MockHttpClient {
    response: Vec<u8>,
}

impl MockHttpClient {
    fn new(response: &str) -> Self {
        Self { response: response.as_bytes().to_vec() }
    }
}

impl HttpClient for MockHttpClient {
    type Error = MockError;

    fn send(
        &self,
        _method: &str,
        _url: &str,
        _headers: HeaderMap,
        _body: Option<Vec<u8>>,
        _timeout: Option<std::time::Duration>,
    ) -> Result<Vec<u8>, Self::Error> {
        Ok(self.response.clone())
    }
}

#[derive(Clone, Default)]
struct EchoClient;

impl HttpClient for EchoClient {
    type Error = MockError;

    fn send(
        &self,
        method: &str,
        url: &str,
        headers: HeaderMap,
        body: Option<Vec<u8>>,
        _timeout: Option<std::time::Duration>,
    ) -> Result<Vec<u8>, Self::Error> {
        let mut seen = format!("{} {}", method, url);
        for (name, value) in headers.to_pairs() {
            seen.push_str(&format!(" [{}: {}]", name, value));
        }
        if let Some(body) = body {
            seen.push(' ');
            seen.push_str(&String::from_utf8(body).unwrap());
        }
        Ok(seen.into_bytes())
    }
}

#[derive(Clone, Default)]
struct FailingClient;

impl HttpClient for FailingClient {
    type Error = MockError;

    fn send(
        &self,
        _method: &str,
        _url: &str,
        _headers: HeaderMap,
        _body: Option<Vec<u8>>,
        _timeout: Option<std::time::Duration>,
    ) -> Result<Vec<u8>, Self::Error> {
        Err(MockError("connection refused".to_string()))
    }
}

fn role(name: &str, ty: FieldType, role: &str) -> FieldDefinition {
    field(name, ty, vec![MetaItem::flag(role)])
}

fn route(method: &str, path: &str) -> Vec<MetaItem> {
    vec![MetaItem::literal("method", method), MetaItem::literal("path", path)]
}

fn renamed(name: &str, ty: FieldType, role: &str, wire: &str) -> FieldDefinition {
    FieldDefinition {
        name: name.to_string(),
        ty,
        attrs: vec![
            Attribute::new("request_builder", vec![MetaItem::flag(role)]),
            Attribute::new("serde", vec![MetaItem::literal("rename", wire)]),
        ],
        default_value: None,
    }
}

fn get_user() -> RequestDescriptor {
    describe("GetUser", route("GET", "/api/users/{id}"), vec![field("id", named("u64"), vec![])])
}

#[test]
fn test_send_with_client_basic() {
    let descriptor = get_user();
    let request =
        RequestBuilder::new(&descriptor).set("id", FieldValue::Unsigned(123)).build(accept_all).unwrap();
    let client = MockHttpClient::new(r#"{"id": 123, "name": "Alice"}"#);
    let response = request.send_with_client(&client, "https://api.example.com").unwrap();
    assert_eq!(response, br#"{"id": 123, "name": "Alice"}"#);
}

#[test]
fn test_send_with_client_query_params() {
    let descriptor = describe(
        "ListUsers",
        route("GET", "/api/users"),
        vec![role("page", optional("u32"), "query"), role("limit", optional("u32"), "query")],
    );
    let request = RequestBuilder::new(&descriptor)
        .set("page", FieldValue::Unsigned(2))
        .set("limit", FieldValue::Unsigned(10))
        .build(accept_all)
        .unwrap();
    let client = MockHttpClient::new(r#"[{"id": 1}, {"id": 2}]"#);
    let response = request.send_with_client(&client, "https://api.example.com").unwrap();
    assert_eq!(response, br#"[{"id": 1}, {"id": 2}]"#);
}

#[test]
fn test_build_body_with_fields() {
    let descriptor = describe(
        "CreateUser",
        route("POST", "/api/users"),
        vec![role("name", named("String"), "body"), role("email", named("String"), "body")],
    );
    let request = RequestBuilder::new(&descriptor)
        .set("name", text("Alice"))
        .set("email", text("alice@example.com"))
        .build(accept_all)
        .unwrap();
    let body = request.build_body().unwrap();
    assert!(body.is_some());
    let json: serde_json::Value = serde_json::from_slice(&body.unwrap()).unwrap();
    assert_eq!(json["name"], "Alice");
    assert_eq!(json["email"], "alice@example.com");
}

#[test]
fn test_build_body_no_fields() {
    let descriptor = get_user();
    let request =
        RequestBuilder::new(&descriptor).set("id", FieldValue::Unsigned(123)).build(accept_all).unwrap();
    let body = request.build_body().unwrap();
    assert!(body.is_none());
}

#[test]
fn test_build_body_optional_fields() {
    let descriptor = describe(
        "UpdateUser",
        route("PATCH", "/api/users/{id}"),
        vec![
            field("id", named("u64"), vec![]),
            role("name", optional("String"), "body"),
            role("email", optional("String"), "body"),
        ],
    );
    let request = RequestBuilder::new(&descriptor)
        .set("id", FieldValue::Unsigned(123))
        .set("name", text("Bob"))
        .build(accept_all)
        .unwrap();
    let body = request.build_body().unwrap();
    assert!(body.is_some());
    let json: serde_json::Value = serde_json::from_slice(&body.unwrap()).unwrap();
    assert_eq!(json["name"], "Bob");
    assert!(json.get("email").is_none() || json["email"].is_null());
}

#[test]
fn test_build_headers_with_fields() {
    let descriptor = describe(
        "GetUsers",
        route("GET", "/api/users"),
        vec![
            role("authorization", named("String"), "header"),
            role("x_api_key", named("String"), "header"),
        ],
    );
    let request = RequestBuilder::new(&descriptor)
        .set("authorization", text("Bearer token123"))
        .set("x_api_key", text("key456"))
        .build(accept_all)
        .unwrap();
    let headers = request.build_headers();
    // header names are converted from snake case to title case
    assert_eq!(headers.get("Authorization"), Some(&"Bearer token123".to_string()));
    assert_eq!(headers.get("X-Api-Key"), Some(&"key456".to_string()));
}

#[test]
fn test_build_headers_no_fields() {
    let descriptor = get_user();
    let request =
        RequestBuilder::new(&descriptor).set("id", FieldValue::Unsigned(123)).build(accept_all).unwrap();
    let headers = request.build_headers();
    assert!(headers.is_empty());
}

#[test]
fn test_build_headers_optional_fields() {
    let descriptor = describe(
        "GetUsers",
        route("GET", "/api/users"),
        vec![
            role("authorization", optional("String"), "header"),
            role("x_custom_header", optional("String"), "header"),
        ],
    );
    let request1 = RequestBuilder::new(&descriptor)
        .set("authorization", text("Bearer token"))
        .set("x_custom_header", text("custom"))
        .build(accept_all)
        .unwrap();
    let headers1 = request1.build_headers();
    assert_eq!(headers1.len(), 2);
    assert_eq!(headers1.get("Authorization"), Some(&"Bearer token".to_string()));

    let request2 = RequestBuilder::new(&descriptor)
        .set("authorization", text("Bearer token"))
        .build(accept_all)
        .unwrap();
    let headers2 = request2.build_headers();
    assert_eq!(headers2.len(), 1);
    assert_eq!(headers2.get("Authorization"), Some(&"Bearer token".to_string()));
    assert!(headers2.get("X-Custom-Header").is_none());
}

#[test]
fn test_mixed_field_types() {
    let descriptor = describe(
        "CreatePost",
        route("POST", "/api/users/{id}/posts"),
        vec![
            field("id", named("u64"), vec![]),
            role("publish", optional("bool"), "query"),
            role("title", named("String"), "body"),
            role("content", named("String"), "body"),
            role("authorization", named("String"), "header"),
        ],
    );
    let request = RequestBuilder::new(&descriptor)
        .set("id", FieldValue::Unsigned(123))
        .set("publish", FieldValue::Bool(true))
        .set("title", text("Hello World"))
        .set("content", text("This is a test post"))
        .set("authorization", text("Bearer token"))
        .build(accept_all)
        .unwrap();

    let url = request.build_url().unwrap();
    assert_eq!(url, "/api/users/123/posts?publish=true");

    let body = request.build_body().unwrap();
    assert!(body.is_some());
    let json: serde_json::Value = serde_json::from_slice(&body.unwrap()).unwrap();
    assert_eq!(json["title"], "Hello World");
    assert_eq!(json["content"], "This is a test post");

    let headers = request.build_headers();
    assert_eq!(headers.get("Authorization"), Some(&"Bearer token".to_string()));
}

#[test]
fn test_send_with_client_full_request() {
    let descriptor = describe(
        "UpdateUser",
        route("PUT", "/api/users/{id}"),
        vec![
            field("id", named("u64"), vec![]),
            role("notify", optional("bool"), "query"),
            role("name", named("String"), "body"),
            role("authorization", named("String"), "header"),
        ],
    );
    let request = RequestBuilder::new(&descriptor)
        .set("id", FieldValue::Unsigned(42))
        .set("notify", FieldValue::Bool(true))
        .set("name", text("Updated Name"))
        .set("authorization", text("Bearer secret"))
        .build(accept_all)
        .unwrap();
    let client = MockHttpClient::new(r#"{"success": true}"#);
    let response = request.send_with_client(&client, "https://api.example.com").unwrap();
    assert_eq!(response, br#"{"success": true}"#);

    // what is handed to the client
    let seen = request.send_with_client(&EchoClient, "https://api.example.com").unwrap();
    assert_eq!(
        String::from_utf8(seen).unwrap(),
        "PUT https://api.example.com/api/users/42?notify=true [Authorization: Bearer secret] \
         {\"name\":\"Updated Name\"}"
    );
}

#[test]
fn test_custom_header_name() {
    let descriptor = describe(
        "GetData",
        route("GET", "/api/data"),
        vec![
            field("auth_token", named("String"), vec![MetaItem::literal("header", "X-Custom-Auth")]),
            field(
                "request_id",
                optional("String"),
                vec![MetaItem::literal("header", "X-Request-ID")],
            ),
        ],
    );
    let request = RequestBuilder::new(&descriptor)
        .set("auth_token", text("secret123"))
        .set("request_id", text("abc-123"))
        .build(accept_all)
        .unwrap();
    let headers = request.build_headers();
    // the custom names are used, not the converted field names
    assert_eq!(headers.get("X-Custom-Auth"), Some(&"secret123".to_string()));
    assert_eq!(headers.get("X-Request-ID"), Some(&"abc-123".to_string()));
    assert!(headers.get("Auth-Token").is_none());
    assert!(headers.get("Request-Id").is_none());
}

#[test]
fn test_serde_rename_in_body() {
    let descriptor = describe(
        "CreateUser",
        route("POST", "/api/users"),
        vec![
            renamed("user_name", named("String"), "body", "userName"),
            renamed("email", named("String"), "body", "emailAddress"),
        ],
    );
    let request = RequestBuilder::new(&descriptor)
        .set("user_name", text("johndoe"))
        .set("email", text("john@example.com"))
        .build(accept_all)
        .unwrap();
    let body = request.build_body().unwrap();
    assert!(body.is_some());
    let json: serde_json::Value = serde_json::from_slice(&body.unwrap()).unwrap();
    assert_eq!(json["userName"], "johndoe");
    assert_eq!(json["emailAddress"], "john@example.com");
    assert!(json.get("user_name").is_none());
    assert!(json.get("email").is_none());
}

#[test]
fn body_is_compact_json_in_declaration_order() {
    let descriptor = describe(
        "Create",
        route("POST", "/things"),
        vec![
            role("name", named("String"), "body"),
            role("count", named("u32"), "body"),
            role("delta", named("i64"), "body"),
            role("active", named("bool"), "body"),
            role("note", optional("String"), "body"),
        ],
    );
    let request = RequestBuilder::new(&descriptor)
        .set("name", text("a \"quoted\" name\n"))
        .set("count", FieldValue::Unsigned(12))
        .set("delta", FieldValue::Signed(-3))
        .set("active", FieldValue::Bool(true))
        .build(accept_all)
        .unwrap();
    let body = request.build_body().unwrap().unwrap();
    assert_eq!(
        String::from_utf8(body).unwrap(),
        r#"{"name":"a \"quoted\" name\n","count":12,"delta":-3,"active":true}"#
    );
}

#[test]
fn body_with_all_fields_unset_is_the_empty_object() {
    let descriptor = describe(
        "Patch",
        route("PATCH", "/things"),
        vec![role("name", optional("String"), "body"), role("note", optional("String"), "body")],
    );
    let request = RequestBuilder::new(&descriptor).build(accept_all).unwrap();
    assert_eq!(request.build_body().unwrap(), Some(b"{}".to_vec()));
}

#[test]
fn later_header_field_wins_over_earlier_one_of_the_same_name() {
    let descriptor = describe(
        "Get",
        route("GET", "/things"),
        vec![
            field("first", named("String"), vec![MetaItem::literal("header", "X-Token")]),
            field("second", named("String"), vec![MetaItem::literal("header", "X-Token")]),
        ],
    );
    let request = RequestBuilder::new(&descriptor)
        .set("first", text("one"))
        .set("second", text("two"))
        .build(accept_all)
        .unwrap();
    let headers = request.build_headers();
    assert_eq!(headers.len(), 1);
    assert_eq!(headers.get("X-Token"), Some(&"two".to_string()));
}

#[test]
fn transport_failure_becomes_http_error() {
    let descriptor = get_user();
    let request =
        RequestBuilder::new(&descriptor).set("id", FieldValue::Unsigned(1)).build(accept_all).unwrap();
    let error = request.send_with_client(&FailingClient, "https://api.example.com").unwrap_err();
    assert_eq!(error, RequestError::HttpError { message: "connection refused".to_string() });
    assert_eq!(error.to_string(), "HTTP request failed: connection refused");
}

#[test]
fn missing_path_parameter_is_wrapped_when_sending() {
    let descriptor = describe(
        "GetUser",
        route("GET", "/api/users/{id}"),
        vec![field("id", optional("u64"), vec![])],
    );
    let request = RequestBuilder::new(&descriptor).build(accept_all).unwrap();
    let error = request.send_with_client(&EchoClient, "https://api.example.com").unwrap_err();
    assert_eq!(
        error,
        RequestError::UrlBuildError {
            source: Box::new(RequestError::MissingPathParameter { param: "id".to_string() })
        }
    );
    assert_eq!(error.to_string(), "Failed to build URL: Missing required path parameter: id");
}

#[test]
fn prepare_merges_extra_headers_over_own() {
    let descriptor = describe(
        "Get",
        route("DELETE", "/things/{id}"),
        vec![
            field("id", named("u64"), vec![]),
            role("authorization", named("String"), "header"),
            role("x_trace", named("String"), "header"),
        ],
    );
    let request = RequestBuilder::new(&descriptor)
        .set("id", FieldValue::Unsigned(9))
        .set("authorization", text("own"))
        .set("x_trace", text("t1"))
        .build(accept_all)
        .unwrap();
    let mut extra = HeaderMap::new();
    extra.insert("Authorization".to_string(), "extra".to_string());
    extra.insert("X-Other".to_string(), "o".to_string());
    let wire = request
        .prepare("http://h", &extra, Some(std::time::Duration::from_secs(3)))
        .unwrap();
    assert_eq!(wire.method, "DELETE");
    assert_eq!(wire.url, "http://h/things/9");
    assert_eq!(wire.body, None);
    assert_eq!(wire.timeout, Some(std::time::Duration::from_secs(3)));
    assert_eq!(wire.headers.len(), 3);
    assert_eq!(wire.headers.get("Authorization"), Some(&"extra".to_string()));
    assert_eq!(wire.headers.get("X-Trace"), Some(&"t1".to_string()));
    assert_eq!(wire.headers.get("X-Other"), Some(&"o".to_string()));
}

#[test]
fn body_notation_is_what_the_json_encoder_writes() {
    let unsigned = [0u64, 7, 10, 12345, u64::MAX];
    let signed = [i64::MIN, -10, -1, 0, 9, i64::MAX];
    let texts = ["", "plain", "with \"quotes\" and \\ and \n and \u{1} and é"];
    let one = |value: FieldValue| {
        let descriptor = describe(
            "One",
            route("POST", "/one"),
            vec![role("v", optional("T"), "body")],
        );
        RequestBuilder::new(&descriptor).set("v", value).build(accept_all).unwrap().build_body().unwrap().unwrap()
    };
    let object = |member: Vec<u8>| {
        let mut expected = b"{\"v\":".to_vec();
        expected.extend(member);
        expected.push(b'}');
        expected
    };
    for n in unsigned {
        assert_eq!(one(FieldValue::Unsigned(n)), object(serde_json::to_vec(&n).unwrap()));
    }
    for n in signed {
        assert_eq!(one(FieldValue::Signed(n)), object(serde_json::to_vec(&n).unwrap()));
    }
    for b in [true, false] {
        assert_eq!(one(FieldValue::Bool(b)), object(serde_json::to_vec(&b).unwrap()));
    }
    for t in texts {
        assert_eq!(one(FieldValue::text(t)), object(serde_json::to_vec(t).unwrap()));
    }
    // a whole object, with keys in an order that the encoder's map keeps
    let descriptor = describe(
        "Many",
        route("POST", "/many"),
        vec![
            role("a \"key\"", named("String"), "body"),
            role("b", named("u32"), "body"),
            role("c", named("bool"), "body"),
            role("d", named("i64"), "body"),
        ],
    );
    let body = RequestBuilder::new(&descriptor)
        .set("a \"key\"", text("x"))
        .set("b", FieldValue::Unsigned(2))
        .set("c", FieldValue::Bool(false))
        .set("d", FieldValue::Signed(-4))
        .build(accept_all)
        .unwrap()
        .build_body()
        .unwrap()
        .unwrap();
    let mut map = serde_json::Map::new();
    map.insert("a \"key\"".to_string(), serde_json::Value::from("x"));
    map.insert("b".to_string(), serde_json::Value::from(2u32));
    map.insert("c".to_string(), serde_json::Value::from(false));
    map.insert("d".to_string(), serde_json::Value::from(-4i64));
    assert_eq!(body, serde_json::to_vec(&map).unwrap());
    assert_eq!(
        RequestBuilder::new(&describe("E", route("POST", "/e"), vec![role("v", optional("T"), "body")]))
            .build(accept_all)
            .unwrap()
            .build_body()
            .unwrap()
            .unwrap(),
        serde_json::to_vec(&serde_json::Map::new()).unwrap()
    );
}

#[test]
fn query_notation_is_what_the_query_encoder_writes() {
    let descriptor = describe(
        "Search",
        route("GET", "/s"),
        vec![
            role("q", optional("String"), "query"),
            role("page", optional("u32"), "query"),
            role("exact", optional("bool"), "query"),
        ],
    );
    let url = RequestBuilder::new(&descriptor)
        .set("q", text("a b&c=d/é+%"))
        .set("page", FieldValue::Unsigned(3))
        .set("exact", FieldValue::Bool(true))
        .build(accept_all)
        .unwrap()
        .build_url()
        .unwrap();
    let pairs: Vec<(&str, &str)> = vec![("q", "a b&c=d/é+%"), ("page", "3"), ("exact", "true")];
    let expected: Vec<String> = pairs
        .iter()
        .map(|(key, value)| {
            let mut entry = std::collections::BTreeMap::new();
            entry.insert(*key, *value);
            serde_qs::to_string(&entry).unwrap()
        })
        .collect();
    assert_eq!(url, format!("/s?{}", expected.join("&")));
}
