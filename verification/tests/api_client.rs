use rest_api_builder::client::{
    generate_api_client, parse_api_client_attributes, ApiClient, ClientAttribute, ClientDefinition,
    ClientDescriptor, ClientMetaItem, ClientMetaValue, RequestMapping,
};
use rest_api_builder::error::GenerateError;
use rest_api_builder::transport::{ConfigureRequest, NoRequestConfiguration, UnimplementedClient};
use rest_api_builder::builder::{accept_all, RequestBuilder};
use rest_api_builder::error::RequestError;
use rest_api_builder::headers::HeaderMap;
use rest_api_builder::meta::{Attribute, MetaItem};
use rest_api_builder::schema::{
    generate_request_builder, FieldDefinition, FieldType, RequestDescriptor, Shape, TypeDefinition,
    TypePath,
};
use rest_api_builder::transport::{HttpClient, RequestModifier};
use rest_api_builder::value::FieldValue;

fn named(name: &str) -> FieldType {
    FieldType::Path(TypePath {
        qualified: false,
        segments: vec![name.to_string()],
        first_argument: None,
    })
}

fn optional(inner: &str) -> FieldType {
    FieldType::Path(TypePath {
        qualified: false,
        segments: vec!["Option".to_string()],
        first_argument: Some(inner.to_string()),
    })
}

fn annotation(items: Vec<MetaItem>) -> Vec<Attribute> {
    if items.is_empty() {
        Vec::new()
    } else {
        vec![Attribute::new("request_builder", items)]
    }
}

fn field(name: &str, ty: FieldType, items: Vec<MetaItem>) -> FieldDefinition {
    FieldDefinition { name: name.to_string(), ty, attrs: annotation(items), default_value: None }
}

fn request_type(name: &str, items: Vec<MetaItem>, fields: Vec<FieldDefinition>) -> TypeDefinition {
    TypeDefinition {
        name: name.to_string(),
        shape: Shape::NamedStruct,
        attrs: annotation(items),
        fields,
    }
}

fn describe(name: &str, items: Vec<MetaItem>, fields: Vec<FieldDefinition>) -> RequestDescriptor {
    generate_request_builder(&request_type(name, items, fields)).unwrap()
}

fn text(s: &str) -> FieldValue {
    FieldValue::text(s)
}

#[derive(Debug)]
struct MockError(String);

impl std::fmt::Display for MockError {
    fn fmt(&self, f: &mut std::fmt::Formatter<'_>) -> std::fmt::Result {
        f.write_str(&self.0)
    }
}

impl std::error::Error for MockError {}


#[derive(Clone, Default)]
struct MockClient;

impl HttpClient for MockClient {
    type Error = MockError;

    fn send(
        &self,
        _method: &str,
        _url: &str,
        _headers: HeaderMap,
        _body: Option<Vec<u8>>,
        _timeout: Option<std::time::Duration>,
    ) -> Result<Vec<u8>, Self::Error> {
        Ok(vec![])
    }
}

fn requests() -> Vec<RequestDescriptor> {
    vec![
        describe(
            "GetUser",
            vec![MetaItem::literal("method", "GET"), MetaItem::literal("path", "/users/{id}")],
            vec![field("id", named("u64"), vec![])],
        ),
        describe(
            "CreateUser",
            vec![MetaItem::literal("method", "POST"), MetaItem::literal("path", "/users")],
            vec![field("name", named("String"), vec![MetaItem::flag("body")])],
        ),
        describe(
            "DeleteUser",
            vec![MetaItem::literal("method", "DELETE"), MetaItem::literal("path", "/users/{id}")],
            vec![field("id", named("u64"), vec![])],
        ),
    ]
}

fn mapping(name: &str) -> RequestMapping {
    RequestMapping { struct_name: name.to_string(), method_name: None }
}

fn mapping_as(name: &str, method: &str) -> RequestMapping {
    RequestMapping { struct_name: name.to_string(), method_name: Some(method.to_string()) }
}

fn api_client(base_url: &str, mappings: Vec<RequestMapping>) -> Vec<ClientAttribute> {
    vec![ClientAttribute {
        path: "api_client".to_string(),
        items: vec![
            ClientMetaItem {
                key: "base_url".to_string(),
                value: ClientMetaValue::Literal(base_url.to_string()),
            },
            ClientMetaItem { key: "requests".to_string(), value: ClientMetaValue::Mappings(mappings) },
        ],
    }]
}

fn config_type(name: &str, field_count: usize, attrs: Vec<ClientAttribute>) -> ClientDefinition {
    ClientDefinition { name: name.to_string(), shape: Shape::NamedStruct, field_count, attrs }
}

fn my_api() -> ClientDescriptor {
    generate_api_client(&config_type(
        "MyApiConfig",
        1,
        api_client(
            "https://api.example.com",
            vec![mapping("GetUser"), mapping_as("CreateUser", "new_user"), mapping("DeleteUser")],
        ),
    ))
    .unwrap()
}

#[derive(Clone)]
struct MyApiConfig {
    api_key: String,
}

impl NoRequestConfiguration for MyApiConfig {}

#[test]
fn api_client_test_client_struct_generation() {
    let config = MyApiConfig { api_key: "test_key".to_string() };
    let descriptor = my_api();
    let known = requests();
    assert_eq!(descriptor.client_name, "MyApiClient");
    let client = ApiClient::<MockClient, MyApiConfig>::new_with_client(&descriptor, &known, MockClient)
        .with_config(config);
    assert_eq!(client.config().clone().unwrap().api_key, "test_key");
}

#[test]
fn api_client_test_method_generation() {
    let descriptor = my_api();
    let known = requests();
    let client: ApiClient<MockClient, MyApiConfig> =
        ApiClient::new_with_client(&descriptor, &known, MockClient);
    let get_user_builder = client.request("get_user");
    let create_user_builder = client.request("new_user"); // custom name
    let delete_user_builder = client.request("delete_user");
    assert!(get_user_builder.is_some());
    assert!(create_user_builder.is_some());
    assert!(delete_user_builder.is_some());
    // the derived name of a renamed method is not offered
    assert!(client.request("create_user").is_none());
    let names: Vec<&str> = descriptor.methods.iter().map(|m| m.method_name.as_str()).collect();
    assert_eq!(names, vec!["get_user", "new_user", "delete_user"]);
    assert_eq!(descriptor.methods[1].request_name, "CreateUser");
    assert_eq!(descriptor.methods[1].builder_name, "CreateUserBuilder");
}

#[test]
fn api_client_test_with_base_url() {
    let config = MyApiConfig { api_key: "test_key".to_string() };
    let descriptor = my_api();
    let known = requests();
    let client = ApiClient::<MockClient, MyApiConfig>::new_with_client(&descriptor, &known, MockClient)
        .with_config(config)
        .with_base_url("https://custom.example.com");
    assert_eq!(client.base_url, "https://custom.example.com");
}

#[derive(Clone)]
struct GithubApiConfig {
    token: String,
}

impl NoRequestConfiguration for GithubApiConfig {}

#[test]
fn api_client_test_config_suffix_stripping() {
    let descriptor = generate_api_client(&config_type(
        "GithubApiConfig",
        1,
        api_client("https://github.com/api", vec![mapping("GetUser")]),
    ))
    .unwrap();
    let config = GithubApiConfig { token: "test_token".to_string() };
    // GithubApiClient, not GithubApiConfigClient
    assert_eq!(descriptor.client_name, "GithubApiClient");
    assert_eq!(descriptor.async_client_name, "GithubApiAsyncClient");
    assert_eq!(descriptor.config_name, "GithubApiConfig");
    let known = requests();
    let client = ApiClient::<MockClient, GithubApiConfig>::new_with_client(&descriptor, &known, MockClient)
        .with_config(config);
    assert_eq!(client.config().as_ref().unwrap().token, "test_token");
}

#[test]
fn test_without_default_attribute() {
    let descriptor = my_api();
    let known = requests();
    let client = ApiClient::<MockClient, MyApiConfig>::new_with_client(&descriptor, &known, MockClient);
    // without a configuration given there is none
    assert!(client.config().is_none());
    assert_eq!(client.base_url, "https://api.example.com");
    let client = ApiClient::<MockClient, MyApiConfig>::new(&descriptor, &known);
    assert!(client.config().is_none());
}

#[test]
fn builders_come_with_client_and_base_url() {
    let descriptor = my_api();
    let known = requests();
    let client = ApiClient::<MockClient, MyApiConfig>::new_with_client(&descriptor, &known, MockClient);
    let builder = client.request("get_user").unwrap();
    assert!(builder.has_http_client());
    assert_eq!(builder.base_url_text(), Some(&"https://api.example.com".to_string()));
    assert!(builder.slot("id").is_none());
    let response = builder.set("id", FieldValue::Unsigned(1)).send(accept_all);
    assert_eq!(response, Ok(vec![]));
}

#[derive(Clone, Default)]
struct CheckingClient;

impl HttpClient for CheckingClient {
    type Error = MockError;

    fn send(
        &self,
        _method: &str,
        _url: &str,
        headers: HeaderMap,
        _body: Option<Vec<u8>>,
        _timeout: Option<std::time::Duration>,
    ) -> Result<Vec<u8>, Self::Error> {
        assert!(headers.contains_key("X-API-Key"));
        assert!(headers.contains_key("User-Agent"));
        assert_eq!(headers.get("X-API-Key").unwrap(), "test_api_key_123");
        assert_eq!(headers.get("User-Agent").unwrap(), "my-app/1.0");
        Ok(vec![])
    }
}

#[derive(Clone)]
struct KeyedConfig {
    api_key: String,
    user_agent: String,
}

impl ConfigureRequest for KeyedConfig {
    fn configure<M: RequestModifier>(&self, modifier: M) -> M {
        modifier.header("X-API-Key", &self.api_key).header("User-Agent", &self.user_agent)
    }
}

fn keyed() -> KeyedConfig {
    KeyedConfig { api_key: "test_api_key_123".to_string(), user_agent: "my-app/1.0".to_string() }
}

#[test]
fn test_configure_request_with_api_client() {
    let descriptor = my_api();
    let known = requests();
    let client = ApiClient::<CheckingClient, KeyedConfig>::new(&descriptor, &known).with_config(keyed());
    // the builder comes with the headers of the configuration
    let result = client.request("get_user").unwrap().set("id", FieldValue::Unsigned(123)).send(accept_all);
    assert!(result.is_ok());
}

#[test]
fn test_manual_header_override() {
    let descriptor = my_api();
    let known = requests();
    let client = ApiClient::<CheckingClient, KeyedConfig>::new(&descriptor, &known).with_config(keyed());
    let builder = client
        .request("get_user")
        .unwrap()
        .set("id", FieldValue::Unsigned(123))
        .header("X-Custom-Header", "custom_value");
    assert_eq!(builder.dynamic_header("X-Custom-Header"), Some(&"custom_value".to_string()));
    let result = builder.send(accept_all);
    assert!(result.is_ok());
}

#[test]
fn test_unit_struct_auto_no_config() {
    let mut input = config_type("UnitConfig", 0, api_client("https://api.example.com", vec![mapping("GetUser")]));
    input.shape = Shape::UnitStruct;
    let descriptor = generate_api_client(&input).unwrap();
    assert!(descriptor.no_request_configuration);
    assert_eq!(descriptor.client_name, "UnitClient");
}

#[test]
fn test_empty_struct_auto_no_config() {
    let input = config_type("EmptyConfig", 0, api_client("https://api.example.com", vec![mapping("GetUser")]));
    let descriptor = generate_api_client(&input).unwrap();
    assert!(descriptor.no_request_configuration);
    // a struct with fields does not get the marker by itself
    let input = config_type("FullConfig", 2, api_client("https://api.example.com", vec![mapping("GetUser")]));
    assert!(!generate_api_client(&input).unwrap().no_request_configuration);
}

#[test]
fn test_empty_tuple_struct_auto_no_config() {
    let mut input =
        config_type("EmptyTupleConfig", 0, api_client("https://api.example.com", vec![mapping("GetUser")]));
    input.shape = Shape::TupleStruct;
    let descriptor = generate_api_client(&input).unwrap();
    assert!(descriptor.no_request_configuration);
    input.shape = Shape::Enum;
    assert!(!generate_api_client(&input).unwrap().no_request_configuration);
}

#[test]
fn client_annotation_errors() {
    // no annotation at all
    let result = parse_api_client_attributes(&vec![ClientAttribute {
        path: "derive".to_string(),
        items: vec![],
    }]);
    assert_eq!(result, Err(GenerateError::MissingClientAttribute));
    assert_eq!(result.unwrap_err().to_string(), "Missing #[api_client(...)] attribute");

    // an unknown key
    let result = parse_api_client_attributes(&vec![ClientAttribute {
        path: "api_client".to_string(),
        items: vec![ClientMetaItem { key: "retries".to_string(), value: ClientMetaValue::Other }],
    }]);
    assert_eq!(result, Err(GenerateError::UnknownClientKey { key: "retries".to_string() }));
    assert_eq!(result.unwrap_err().to_string(), "Unknown attribute key: retries");

    // no base URL
    let result = parse_api_client_attributes(&vec![ClientAttribute {
        path: "api_client".to_string(),
        items: vec![ClientMetaItem {
            key: "requests".to_string(),
            value: ClientMetaValue::Mappings(vec![mapping("GetUser")]),
        }],
    }]);
    assert_eq!(result, Err(GenerateError::MissingClientKey { key: "base_url".to_string() }));
    assert_eq!(result.unwrap_err().to_string(), "Missing 'base_url' attribute");

    // no requests
    let result = parse_api_client_attributes(&vec![ClientAttribute {
        path: "api_client".to_string(),
        items: vec![ClientMetaItem {
            key: "base_url".to_string(),
            value: ClientMetaValue::Literal("https://api.example.com".to_string()),
        }],
    }]);
    assert_eq!(result, Err(GenerateError::MissingClientKey { key: "requests".to_string() }));

    // a base URL that is no string literal
    let result = parse_api_client_attributes(&vec![ClientAttribute {
        path: "api_client".to_string(),
        items: vec![ClientMetaItem { key: "base_url".to_string(), value: ClientMetaValue::Other }],
    }]);
    assert_eq!(result, Err(GenerateError::MalformedAttribute { key: "base_url".to_string() }));
}

#[test]
fn first_client_annotation_decides() {
    let mut attrs = api_client("https://first.example.com", vec![mapping("GetUser")]);
    attrs.extend(api_client("https://second.example.com", vec![mapping("DeleteUser")]));
    let parsed = parse_api_client_attributes(&attrs).unwrap();
    assert_eq!(parsed.base_url, "https://first.example.com");
    assert_eq!(parsed.requests, vec![mapping("GetUser")]);
}

#[test]
fn unknown_request_type_gives_no_builder() {
    let descriptor = generate_api_client(&config_type(
        "MyApiConfig",
        1,
        api_client("https://api.example.com", vec![mapping("GetUser"), mapping("ListTeams")]),
    ))
    .unwrap();
    let known = requests();
    let client = ApiClient::<MockClient, MyApiConfig>::new_with_client(&descriptor, &known, MockClient);
    assert!(client.request("get_user").is_some());
    assert!(client.request("list_teams").is_none());
    assert!(client.request("nothing").is_none());
}

#[test]
fn unimplemented_client_fails_every_time() {
    let descriptor = describe(
        "GetUser",
        vec![MetaItem::literal("path", "/users/{id}")],
        vec![field("id", named("u64"), vec![])],
    );
    let result = RequestBuilder::new(&descriptor)
        .http_client(UnimplementedClient)
        .base_url("https://api.example.com")
        .set("id", FieldValue::Unsigned(1))
        .send(accept_all);
    assert_eq!(
        result,
        Err(RequestError::HttpError { message: "No blocking client found.".to_string() })
    );
}

#[derive(Clone)]
struct MarkedClient {
    mark: u32,
}

impl Default for MarkedClient {
    fn default() -> Self {
        MarkedClient { mark: 42 }
    }
}

impl HttpClient for MarkedClient {
    type Error = MockError;

    fn send(
        &self,
        _method: &str,
        _url: &str,
        _headers: HeaderMap,
        _body: Option<Vec<u8>>,
        _timeout: Option<std::time::Duration>,
    ) -> Result<Vec<u8>, Self::Error> {
        Ok(vec![self.mark as u8])
    }
}

#[test]
fn a_new_client_has_the_default_transport_client() {
    let descriptor = my_api();
    let known = requests();
    let client = ApiClient::<MarkedClient, MyApiConfig>::new(&descriptor, &known);
    let response =
        client.request("get_user").unwrap().set("id", FieldValue::Unsigned(1)).send(accept_all);
    assert_eq!(response, Ok(vec![42]));
    let client = client.with_http_client(MarkedClient { mark: 7 });
    let response =
        client.request("get_user").unwrap().set("id", FieldValue::Unsigned(1)).send(accept_all);
    assert_eq!(response, Ok(vec![7]));
}
