use rest_api_builder::builder::{accept_all, RequestBuilder};
use rest_api_builder::error::RequestError;
use rest_api_builder::headers::HeaderMap;
use rest_api_builder::meta::{Attribute, MetaItem};
use rest_api_builder::schema::{
    generate_request_builder, FieldDefinition, FieldType, RequestDescriptor, Shape, TypeDefinition,
    TypePath,
};
use rest_api_builder::transport::{HttpClient, RequestModifier};
use rest_api_builder::value::FieldValue;

fn named(name: &str) -> FieldType {
    FieldType::Path(TypePath {
        qualified: false,
        segments: vec![name.to_string()],
        first_argument: None,
    })
}

fn optional(inner: &str) -> FieldType {
    FieldType::Path(TypePath {
        qualified: false,
        segments: vec!["Option".to_string()],
        first_argument: Some(inner.to_string()),
    })
}

fn annotation(items: Vec<MetaItem>) -> Vec<Attribute> {
    if items.is_empty() {
        Vec::new()
    } else {
        vec![Attribute::new("request_builder", items)]
    }
}

fn field(name: &str, ty: FieldType, items: Vec<MetaItem>) -> FieldDefinition {
    FieldDefinition { name: name.to_string(), ty, attrs: annotation(items), default_value: None }
}

fn request_type(name: &str, items: Vec<MetaItem>, fields: Vec<FieldDefinition>) -> TypeDefinition {
    TypeDefinition {
        name: name.to_string(),
        shape: Shape::NamedStruct,
        attrs: annotation(items),
        fields,
    }
}

fn describe(name: &str, items: Vec<MetaItem>, fields: Vec<FieldDefinition>) -> RequestDescriptor {
    generate_request_builder(&request_type(name, items, fields)).unwrap()
}

fn text(s: &str) -> FieldValue {
    FieldValue::text(s)
}

#[derive(Debug)]
struct MockError(String);

impl std::fmt::Display for MockError {
    fn fmt(&self, f: &mut std::fmt::Formatter<'_>) -> std::fmt::Result {
        f.write_str(&self.0)
    }
}

impl std::error::Error for MockError {}


#[derive(Clone, Default)]
struct MockHttpClient;

impl HttpClient for MockHttpClient {
    type Error = MockError;

    fn send(
        &self,
        _method: &str,
        _url: &str,
        _headers: HeaderMap,
        _body: Option<Vec<u8>>,
        _timeout: Option<std::time::Duration>,
    ) -> Result<Vec<u8>, Self::Error> {
        Ok(b"{\"id\":1}".to_vec())
    }
}

fn get_user() -> RequestDescriptor {
    describe(
        "GetUser",
        vec![MetaItem::literal("method", "GET"), MetaItem::literal("path", "/users/{id}")],
        vec![field("id", named("u64"), vec![])],
    )
}

#[test]
fn test_builder_with_http_client() {
    let descriptor = get_user();
    let client = MockHttpClient;
    let builder =
        RequestBuilder::new(&descriptor).http_client(client).set("id", FieldValue::Unsigned(123));
    assert!(builder.has_http_client());
    let result = builder.build(accept_all);
    assert!(result.is_ok());
}

#[test]
fn test_builder_client_methods_chain_with_other_setters() {
    let descriptor = get_user();
    let client = MockHttpClient;
    let builder =
        RequestBuilder::new(&descriptor).set("id", FieldValue::Unsigned(100)).http_client(client);
    assert!(builder.has_http_client());
    assert_eq!(builder.slot("id"), Some(&FieldValue::Unsigned(100)));
}

#[test]
fn test_send_method() {
    let descriptor = get_user();
    let client = MockHttpClient;
    let result = RequestBuilder::new(&descriptor)
        .http_client(client)
        .base_url("https://api.example.com")
        .set("id", FieldValue::Unsigned(123))
        .send(accept_all);
    assert!(result.is_ok());
    let response = result.unwrap();
    assert_eq!(response, b"{\"id\":1}");
}

#[test]
fn test_send_and_send_async_availability() {
    let descriptor = get_user();
    // a builder with a client can send
    let with_client =
        RequestBuilder::new(&descriptor).http_client(MockHttpClient).set("id", FieldValue::Unsigned(1));
    assert!(with_client.has_http_client());
    // a builder without one cannot
    let without = RequestBuilder::new(&descriptor).set("id", FieldValue::Unsigned(2));
    assert!(!without.has_http_client());
}

#[test]
fn test_base_url_setter() {
    let descriptor = get_user();
    let builder = RequestBuilder::new(&descriptor).base_url("https://api.example.com");
    assert_eq!(builder.base_url_text(), Some(&"https://api.example.com".to_string()));
}

#[test]
fn test_send_requires_base_url() {
    let descriptor = get_user();
    let client = MockHttpClient;
    let result = RequestBuilder::new(&descriptor)
        .http_client(client)
        .set("id", FieldValue::Unsigned(123))
        .send(accept_all);
    assert!(result.is_err());
    let error = result.unwrap_err();
    assert_eq!(error, RequestError::MissingBaseUrl);
    assert!(error.to_string().contains("No base URL configured"));
}

#[test]
fn send_reports_build_errors_after_client_and_base_url() {
    let descriptor = get_user();
    let result = RequestBuilder::new(&descriptor)
        .http_client(MockHttpClient)
        .base_url("https://api.example.com")
        .send(accept_all);
    assert_eq!(result, Err(RequestError::MissingField { field: "id".to_string() }));
}

#[derive(Clone, Default)]
struct EchoClient;

impl HttpClient for EchoClient {
    type Error = MockError;

    fn send(
        &self,
        method: &str,
        url: &str,
        headers: HeaderMap,
        _body: Option<Vec<u8>>,
        timeout: Option<std::time::Duration>,
    ) -> Result<Vec<u8>, Self::Error> {
        let mut seen = format!("{} {} {:?}", method, url, timeout);
        for (name, value) in headers.to_pairs() {
            seen.push_str(&format!(" [{}: {}]", name, value));
        }
        Ok(seen.into_bytes())
    }
}

#[test]
fn send_hands_dynamic_headers_and_timeout_to_the_client() {
    let descriptor = describe(
        "GetUser",
        vec![MetaItem::literal("method", "POST"), MetaItem::literal("path", "/users/{id}")],
        vec![
            field("id", named("u64"), vec![]),
            field("authorization", named("String"), vec![MetaItem::flag("header")]),
        ],
    );
    let seen = RequestBuilder::new(&descriptor)
        .http_client(EchoClient)
        .base_url("https://api.example.com")
        .set("id", FieldValue::Unsigned(5))
        .set("authorization", text("from-field"))
        .header("Authorization", "dynamic")
        .header("X-Extra", "1")
        .timeout(std::time::Duration::from_secs(2))
        .send(accept_all)
        .unwrap();
    assert_eq!(
        String::from_utf8(seen).unwrap(),
        "POST https://api.example.com/users/5 Some(2s) [Authorization: dynamic] [X-Extra: 1]"
    );
}

#[test]
fn test_direct_builder_with_headers() {
    let descriptor = get_user();
    let builder = RequestBuilder::new(&descriptor)
        .set("id", FieldValue::Unsigned(456))
        .header("X-API-Key", "direct_key")
        .header("Authorization", "Bearer token");
    assert_eq!(builder.dynamic_header("X-API-Key"), Some(&"direct_key".to_string()));
    assert_eq!(builder.dynamic_header("Authorization"), Some(&"Bearer token".to_string()));
    let request = builder.build(accept_all);
    assert!(request.is_ok());
}

fn unit(name: &str, method: &str, path: &str) -> RequestDescriptor {
    generate_request_builder(&TypeDefinition {
        name: name.to_string(),
        shape: Shape::UnitStruct,
        attrs: annotation(vec![MetaItem::literal("method", method), MetaItem::literal("path", path)]),
        fields: Vec::new(),
    })
    .unwrap()
}

#[test]
fn test_unit_struct_builds() {
    let descriptor = unit("HealthCheck", "GET", "/health");
    let request = RequestBuilder::new(&descriptor).build(accept_all).unwrap();
    let url = request.build_url().unwrap();
    assert_eq!(url, "/health");
}

#[test]
fn test_empty_named_struct_builds() {
    let descriptor = describe(
        "StatusCheck",
        vec![MetaItem::literal("method", "GET"), MetaItem::literal("path", "/status")],
        vec![],
    );
    let request = RequestBuilder::new(&descriptor).build(accept_all).unwrap();
    let url = request.build_url().unwrap();
    assert_eq!(url, "/status");
}

#[test]
fn test_unit_struct_with_base_url() {
    let descriptor = unit("Ping", "GET", "/ping");
    let request =
        RequestBuilder::new(&descriptor).base_url("https://example.com").build(accept_all).unwrap();
    let url = request.build_url().unwrap();
    assert_eq!(url, "/ping");
}

#[test]
fn test_unit_struct_with_dynamic_headers() {
    let descriptor = unit("ClearCache", "DELETE", "/cache");
    // dynamic headers stay in the builder and are merged when sending
    let builder = RequestBuilder::new(&descriptor).header("X-Clear-All", "true");
    let request = builder.build(accept_all).unwrap();
    let headers = request.build_headers();
    assert!(headers.is_empty());
    let url = request.build_url().unwrap();
    assert_eq!(url, "/cache");
}

#[test]
fn test_empty_named_struct_with_response_type() {
    let descriptor = describe(
        "HealthCheck",
        vec![
            MetaItem::literal("method", "GET"),
            MetaItem::literal("path", "/health"),
            MetaItem::tokens("response", "HealthStatus"),
        ],
        vec![],
    );
    assert_eq!(descriptor.response, Some("HealthStatus".to_string()));
    let request = RequestBuilder::new(&descriptor).build(accept_all).unwrap();
    let url = request.build_url().unwrap();
    assert_eq!(url, "/health");
}

#[test]
fn test_unit_struct_builder_methods() {
    let descriptor = unit("ReadinessCheck", "GET", "/ready");
    let builder = RequestBuilder::new(&descriptor);
    let builder = builder.base_url("https://api.example.com");
    let builder = builder.timeout(std::time::Duration::from_secs(5));
    let request = builder.build(accept_all).unwrap();
    let url = request.build_url().unwrap();
    assert_eq!(url, "/ready");
}

fn plain(key: &str, value: &str) -> Result<String, String> {
    Ok(format!("{}~{}", key, value))
}

fn refusing(key: &str, _value: &str) -> Result<String, String> {
    Err(format!("cannot encode {}", key))
}

fn listing() -> RequestDescriptor {
    describe(
        "ListUsers",
        vec![MetaItem::literal("method", "GET"), MetaItem::literal("path", "/users")],
        vec![
            field("page", named("u32"), vec![MetaItem::flag("query")]),
            field("tag", named("String"), vec![MetaItem::literal("query", "t")]),
        ],
    )
}

#[test]
fn sending_with_an_encoder_of_the_callers_choice() {
    let descriptor = listing();
    let seen = RequestBuilder::new(&descriptor)
        .http_client(EchoClient)
        .base_url("https://api.example.com")
        .set("page", FieldValue::Unsigned(3))
        .set("tag", text("a b"))
        .send_with(accept_all, plain)
        .unwrap();
    assert_eq!(
        String::from_utf8(seen).unwrap(),
        "GET https://api.example.com/users?page~3&t~a b None"
    );
    // the default encoding of the same request
    let seen = RequestBuilder::new(&descriptor)
        .http_client(EchoClient)
        .base_url("https://api.example.com")
        .set("page", FieldValue::Unsigned(3))
        .set("tag", text("a b"))
        .send(accept_all)
        .unwrap();
    assert_eq!(
        String::from_utf8(seen).unwrap(),
        "GET https://api.example.com/users?page=3&t=a+b None"
    );
}

#[test]
fn preparing_with_an_encoder_of_the_callers_choice() {
    let descriptor = listing();
    let wire = RequestBuilder::new(&descriptor)
        .base_url("http://h")
        .set("page", FieldValue::Unsigned(1))
        .set("tag", text("x"))
        .header("X-A", "1")
        .prepare_with(accept_all, plain)
        .unwrap();
    assert_eq!(wire.method, "GET");
    assert_eq!(wire.url, "http://h/users?page~1&t~x");
    assert_eq!(wire.body, None);
    assert_eq!(wire.timeout, None);
    assert_eq!(wire.headers.to_pairs(), vec![("X-A".to_string(), "1".to_string())]);

    let wire = RequestBuilder::new(&descriptor)
        .base_url("http://h")
        .set("page", FieldValue::Unsigned(1))
        .set("tag", text("x"))
        .prepare(accept_all)
        .unwrap();
    assert_eq!(wire.url, "http://h/users?page=1&t=x");
}

#[test]
fn failures_of_preparing_and_sending_with_an_encoder() {
    let descriptor = listing();
    let full = || {
        RequestBuilder::new(&descriptor)
            .http_client(EchoClient)
            .set("page", FieldValue::Unsigned(1))
            .set("tag", text("x"))
    };
    let query_error = RequestError::UrlBuildError {
        source: Box::new(RequestError::QuerySerializationError {
            message: "cannot encode page".to_string(),
        }),
    };
    assert_eq!(full().base_url("http://h").send_with(accept_all, refusing), Err(query_error));
    assert_eq!(full().send_with(accept_all, plain), Err(RequestError::MissingBaseUrl));
    assert_eq!(full().prepare_with(accept_all, plain), Err(RequestError::MissingBaseUrl));
    assert_eq!(full().prepare(accept_all), Err(RequestError::MissingBaseUrl));
    assert_eq!(
        RequestBuilder::new(&descriptor).base_url("http://h").prepare_with(accept_all, plain),
        Err(RequestError::MissingField { field: "page".to_string() })
    );
    let request = full().build(accept_all).unwrap();
    let error = request
        .send_with(&EchoClient, "http://h", &HeaderMap::new(), None, refusing)
        .unwrap_err();
    assert_eq!(
        error.to_string(),
        "Failed to build URL: Failed to serialize query parameters: cannot encode page"
    );
}

#[test]
fn sending_without_a_client_names_the_client() {
    let descriptor = get_user();
    let detached: RequestBuilder<MockHttpClient> = RequestBuilder::detached(&descriptor);
    assert!(!detached.has_http_client());
    let error = detached
        .base_url("https://api.example.com")
        .set("id", FieldValue::Unsigned(1))
        .send(accept_all)
        .unwrap_err();
    assert_eq!(error, RequestError::MissingField { field: "http_client".to_string() });
    // the client is asked for before the base URL
    let detached: RequestBuilder<MockHttpClient> = RequestBuilder::detached(&descriptor);
    assert_eq!(
        detached.send_with(accept_all, plain),
        Err(RequestError::MissingField { field: "http_client".to_string() })
    );
}
