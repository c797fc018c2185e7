use rest_api_builder::attributes::{
    parse_field_attributes, parse_field_attributes_with, parse_struct_attributes,
    parse_struct_attributes_with, read_field_item, read_field_items, read_struct_item,
    read_struct_items, FieldAttributes, FieldKind, StructAttributes,
};
use rest_api_builder::schema::{generate_field_with, generate_request_builder_with};
use rest_api_builder::builder::{accept_all, RequestBuilder};
use rest_api_builder::error::{GenerateError, RequestError};
use rest_api_builder::meta::{Attribute, MetaItem};
use rest_api_builder::schema::{
    generate_request_builder, FieldDefinition, FieldType, RequestDescriptor, Shape, TypeDefinition,
    TypePath,
};
use rest_api_builder::value::FieldValue;

fn named(name: &str) -> FieldType {
    FieldType::Path(TypePath {
        qualified: false,
        segments: vec![name.to_string()],
        first_argument: None,
    })
}

fn optional(inner: &str) -> FieldType {
    FieldType::Path(TypePath {
        qualified: false,
        segments: vec!["Option".to_string()],
        first_argument: Some(inner.to_string()),
    })
}

fn annotation(items: Vec<MetaItem>) -> Vec<Attribute> {
    if items.is_empty() {
        Vec::new()
    } else {
        vec![Attribute::new("request_builder", items)]
    }
}

fn field(name: &str, ty: FieldType, items: Vec<MetaItem>) -> FieldDefinition {
    FieldDefinition { name: name.to_string(), ty, attrs: annotation(items), default_value: None }
}

fn request_type(name: &str, items: Vec<MetaItem>, fields: Vec<FieldDefinition>) -> TypeDefinition {
    TypeDefinition {
        name: name.to_string(),
        shape: Shape::NamedStruct,
        attrs: annotation(items),
        fields,
    }
}

fn describe(name: &str, items: Vec<MetaItem>, fields: Vec<FieldDefinition>) -> RequestDescriptor {
    generate_request_builder(&request_type(name, items, fields)).unwrap()
}

fn text(s: &str) -> FieldValue {
    FieldValue::text(s)
}

fn generate(
    name: &str,
    items: Vec<MetaItem>,
    fields: Vec<FieldDefinition>,
) -> Result<RequestDescriptor, GenerateError> {
    generate_request_builder(&request_type(name, items, fields))
}

#[test]
fn test_method_attribute() {
    let descriptor = describe(
        "GetUsers",
        vec![MetaItem::literal("method", "GET")],
        vec![field("limit", optional("u32"), vec![])],
    );
    assert_eq!(descriptor.method, "GET");
    let _builder = RequestBuilder::new(&descriptor);
}

#[test]
fn test_path_attribute() {
    let descriptor = describe(
        "GetUser",
        vec![MetaItem::literal("path", "/api/users/{id}")],
        vec![field("id", named("u64"), vec![])],
    );
    assert_eq!(descriptor.path, Some("/api/users/{id}".to_string()));
    let _builder = RequestBuilder::new(&descriptor);
}

#[test]
fn test_response_attribute() {
    let descriptor = describe(
        "GetUser",
        vec![MetaItem::tokens("response", "User")],
        vec![field("id", named("u64"), vec![])],
    );
    assert_eq!(descriptor.response, Some("User".to_string()));
    let _builder = RequestBuilder::new(&descriptor);
}

#[test]
fn test_combined_struct_attributes() {
    let descriptor = describe(
        "CreatePost",
        vec![
            MetaItem::flag("into"),
            MetaItem::literal("method", "POST"),
            MetaItem::literal("path", "/api/posts"),
            MetaItem::tokens("response", "String"),
        ],
        vec![field("title", named("String"), vec![]), field("content", named("String"), vec![])],
    );
    assert_eq!(descriptor.method, "POST");
    assert_eq!(descriptor.path, Some("/api/posts".to_string()));
    assert_eq!(descriptor.response, Some("String".to_string()));
    assert!(descriptor.fields[0].into && descriptor.fields[1].into);
    let _post = RequestBuilder::new(&descriptor)
        .set("title", text("Test"))
        .set("content", text("Content"))
        .build(accept_all)
        .unwrap();
}

#[test]
fn test_field_path_attribute() {
    let descriptor = describe(
        "GetUser",
        vec![],
        vec![
            field("id", named("u64"), vec![MetaItem::flag("path")]),
            field("include_posts", optional("bool"), vec![MetaItem::flag("query")]),
        ],
    );
    assert_eq!(descriptor.fields[0].kind, FieldKind::Path);
    assert_eq!(descriptor.fields[1].kind, FieldKind::Query);
    let _builder = RequestBuilder::new(&descriptor).set("id", FieldValue::Unsigned(123));
}

#[test]
fn test_field_query_attribute() {
    let descriptor = describe(
        "SearchUsers",
        vec![],
        vec![
            field("name", named("String"), vec![MetaItem::flag("query")]),
            field("limit", optional("u32"), vec![MetaItem::flag("query")]),
        ],
    );
    assert_eq!(descriptor.fields[0].kind, FieldKind::Query);
    assert_eq!(descriptor.fields[1].kind, FieldKind::Query);
    let _builder = RequestBuilder::new(&descriptor).set("name", text("alice"));
}

#[test]
fn test_field_body_attribute() {
    let descriptor = describe(
        "CreateUser",
        vec![],
        vec![
            field("name", named("String"), vec![MetaItem::flag("body")]),
            field("email", named("String"), vec![MetaItem::flag("body")]),
        ],
    );
    assert_eq!(descriptor.fields[0].kind, FieldKind::Body);
    assert_eq!(descriptor.fields[1].kind, FieldKind::Body);
    let _builder = RequestBuilder::new(&descriptor)
        .set("name", text("alice"))
        .set("email", text("alice@example.com"));
}

#[test]
fn test_field_header_attribute() {
    let descriptor = describe(
        "AuthenticatedRequest",
        vec![],
        vec![
            field("authorization", named("String"), vec![MetaItem::flag("header")]),
            field("page", optional("u32"), vec![MetaItem::flag("query")]),
        ],
    );
    assert_eq!(descriptor.fields[0].kind, FieldKind::Header);
    assert_eq!(descriptor.fields[0].wire_name, "Authorization");
    let _builder = RequestBuilder::new(&descriptor).set("authorization", text("Bearer token"));
}

#[test]
fn test_mixed_field_attributes() {
    let descriptor = describe(
        "UpdateUser",
        vec![MetaItem::literal("method", "PUT"), MetaItem::literal("path", "/api/users/{id}")],
        vec![
            field("id", named("u64"), vec![MetaItem::flag("path")]),
            field("name", named("String"), vec![MetaItem::flag("body"), MetaItem::flag("into")]),
            field("email", optional("String"), vec![MetaItem::flag("body")]),
            field(
                "authorization",
                named("String"),
                vec![MetaItem::flag("header"), MetaItem::flag("into")],
            ),
        ],
    );
    assert!(!descriptor.fields[0].into);
    assert!(descriptor.fields[1].into);
    assert!(!descriptor.fields[2].into);
    assert!(descriptor.fields[3].into);
    let _builder = RequestBuilder::new(&descriptor)
        .set("id", FieldValue::Unsigned(123))
        .set("name", text("alice"))
        .set("authorization", text("Bearer token"));
}

#[test]
fn attribute_parsing_test_default_attribute() {
    let descriptor = describe(
        "Config",
        vec![],
        vec![
            field("name", named("String"), vec![]),
            field("timeout", named("u32"), vec![MetaItem::flag("default")]),
            field("retries", named("usize"), vec![MetaItem::flag("default")]),
        ],
    );
    let config =
        RequestBuilder::new(&descriptor).set("name", text("production")).build(accept_all).unwrap();
    assert_eq!(config.get("name"), Some(&text("production")));
    assert_eq!(config.get("timeout"), Some(&FieldValue::Unsigned(0)));
    assert_eq!(config.get("retries"), Some(&FieldValue::Unsigned(0)));
}

#[test]
fn test_default_attribute_with_custom_values() {
    let descriptor = describe(
        "Config",
        vec![],
        vec![
            field("name", named("String"), vec![]),
            field("timeout", named("u32"), vec![MetaItem::flag("default")]),
        ],
    );
    let config = RequestBuilder::new(&descriptor)
        .set("name", text("staging"))
        .set("timeout", FieldValue::Unsigned(5000))
        .build(accept_all)
        .unwrap();
    assert_eq!(config.get("name"), Some(&text("staging")));
    assert_eq!(config.get("timeout"), Some(&FieldValue::Unsigned(5000)));
}

#[test]
fn test_default_with_optional_field() {
    let descriptor = describe(
        "Settings",
        vec![],
        vec![
            field("enabled", named("bool"), vec![MetaItem::flag("default")]),
            field("description", optional("String"), vec![]),
        ],
    );
    let settings =
        RequestBuilder::new(&descriptor).set("description", text("test")).build(accept_all).unwrap();
    assert_eq!(settings.get("enabled"), Some(&FieldValue::Bool(false)));
    assert_eq!(settings.get("description"), Some(&text("test")));
}

#[test]
fn test_struct_level_default() {
    let descriptor = describe(
        "ServerConfig",
        vec![MetaItem::flag("default")],
        vec![
            field("host", named("String"), vec![]),
            field("port", named("u16"), vec![]),
            field("timeout_ms", named("u64"), vec![]),
            field("retries", named("usize"), vec![]),
        ],
    );
    let config = RequestBuilder::new(&descriptor).build(accept_all).unwrap();
    assert_eq!(config.get("host"), Some(&text("")));
    assert_eq!(config.get("port"), Some(&FieldValue::Unsigned(0)));
    assert_eq!(config.get("timeout_ms"), Some(&FieldValue::Unsigned(0)));
    assert_eq!(config.get("retries"), Some(&FieldValue::Unsigned(0)));
}

#[test]
fn test_struct_level_default_with_overrides() {
    let descriptor = describe(
        "AppConfig",
        vec![MetaItem::flag("default")],
        vec![
            field("name", named("String"), vec![]),
            field("debug", named("bool"), vec![]),
            field("max_connections", named("usize"), vec![]),
        ],
    );
    let config = RequestBuilder::new(&descriptor)
        .set("name", text("MyApp"))
        .set("debug", FieldValue::Bool(true))
        .build(accept_all)
        .unwrap();
    assert_eq!(config.get("name"), Some(&text("MyApp")));
    assert_eq!(config.get("debug"), Some(&FieldValue::Bool(true)));
    assert_eq!(config.get("max_connections"), Some(&FieldValue::Unsigned(0)));
}

#[test]
fn test_struct_default_with_field_override() {
    let descriptor = describe(
        "MixedConfig",
        vec![MetaItem::flag("default"), MetaItem::flag("into")],
        vec![field("name", named("String"), vec![]), field("enabled", named("bool"), vec![])],
    );
    let config = RequestBuilder::new(&descriptor).set("name", text("test")).build(accept_all).unwrap();
    assert_eq!(config.get("name"), Some(&text("test")));
    assert_eq!(config.get("enabled"), Some(&FieldValue::Bool(false)));
}

#[test]
fn unknown_struct_key_is_refused() {
    let result = generate("GetUser", vec![MetaItem::flag("retries")], vec![]);
    assert_eq!(result, Err(GenerateError::UnsupportedAttribute { key: "retries".to_string() }));
    assert_eq!(
        result.unwrap_err().to_string(),
        "unsupported request_builder attribute: retries"
    );
}

#[test]
fn unknown_field_key_is_refused() {
    let result =
        generate("GetUser", vec![], vec![field("id", named("u64"), vec![MetaItem::flag("cookie")])]);
    assert_eq!(
        result,
        Err(GenerateError::UnsupportedFieldAttribute { key: "cookie".to_string() })
    );
}

#[test]
fn first_offending_key_decides() {
    let result = generate(
        "GetUser",
        vec![MetaItem::flag("into"), MetaItem::flag("first"), MetaItem::flag("second")],
        vec![],
    );
    assert_eq!(result, Err(GenerateError::UnsupportedAttribute { key: "first".to_string() }));
}

#[test]
fn malformed_values_are_refused() {
    // a flag with a value
    let result = generate("GetUser", vec![MetaItem::literal("into", "yes")], vec![]);
    assert_eq!(result, Err(GenerateError::MalformedAttribute { key: "into".to_string() }));
    // a valued key without value
    let result = generate("GetUser", vec![MetaItem::flag("method")], vec![]);
    assert_eq!(result, Err(GenerateError::MalformedAttribute { key: "method".to_string() }));
    // a response that is a string literal, not a type
    let result = generate("GetUser", vec![MetaItem::literal("response", "User")], vec![]);
    assert_eq!(result, Err(GenerateError::MalformedAttribute { key: "response".to_string() }));
    // a response that is no type
    let result = generate("GetUser", vec![MetaItem::tokens("response", "+ +")], vec![]);
    assert_eq!(result, Err(GenerateError::MalformedAttribute { key: "response".to_string() }));
    // a validator that is no path
    let result = generate(
        "GetUser",
        vec![],
        vec![field("id", named("u64"), vec![MetaItem::literal("validate", "not a path")])],
    );
    assert_eq!(result, Err(GenerateError::MalformedAttribute { key: "validate".to_string() }));
    // a role with tokens in place of a name
    let result = generate(
        "GetUser",
        vec![],
        vec![field("id", named("u64"), vec![MetaItem::tokens("header", "Name")])],
    );
    assert_eq!(result, Err(GenerateError::MalformedAttribute { key: "header".to_string() }));
}

#[test]
fn later_entry_overwrites_earlier_one() {
    let attrs = vec![Attribute::new(
        "request_builder",
        vec![MetaItem::literal("method", "GET"), MetaItem::literal("method", "POST")],
    )];
    let settings = parse_struct_attributes(&attrs).unwrap();
    assert_eq!(settings.method, Some("POST".to_string()));

    let attrs = vec![Attribute::new(
        "request_builder",
        vec![MetaItem::literal("header", "X-One"), MetaItem::flag("query")],
    )];
    let settings = parse_field_attributes(&attrs).unwrap();
    assert_eq!(settings.kind, FieldKind::Query);
    assert_eq!(settings.rename, Some("X-One".to_string()));
}

#[test]
fn other_attributes_are_passed_over() {
    let attrs = vec![
        Attribute::new("derive", vec![MetaItem::flag("Debug")]),
        Attribute::new("request_builder", vec![MetaItem::flag("into")]),
        Attribute::new("doc", vec![MetaItem::flag("hidden")]),
        Attribute::new("request_builder", vec![MetaItem::flag("default")]),
    ];
    let settings = parse_struct_attributes(&attrs).unwrap();
    assert!(settings.into);
    assert!(settings.default);
    assert_eq!(settings.method, None);
}

#[test]
fn shapes_other_than_structs_are_refused() {
    let mut input = request_type("Choice", vec![], vec![]);
    input.shape = Shape::Enum;
    let result = generate_request_builder(&input);
    assert_eq!(result, Err(GenerateError::NotAStruct));
    assert_eq!(
        result.unwrap_err().to_string(),
        "RequestBuilder can only be derived for structs"
    );
    input.shape = Shape::Union;
    assert_eq!(generate_request_builder(&input), Err(GenerateError::NotAStruct));
    input.shape = Shape::TupleStruct;
    let result = generate_request_builder(&input);
    assert_eq!(result, Err(GenerateError::UnnamedFields));
    assert_eq!(
        result.unwrap_err().to_string(),
        "RequestBuilder only supports structs with named fields"
    );
}

#[test]
fn annotation_errors_come_before_shape_errors() {
    let mut input = request_type("Choice", vec![MetaItem::flag("bogus")], vec![]);
    input.shape = Shape::Enum;
    assert_eq!(
        generate_request_builder(&input),
        Err(GenerateError::UnsupportedAttribute { key: "bogus".to_string() })
    );
}

#[test]
fn unmatched_placeholder_is_refused() {
    let result = generate(
        "GetUser",
        vec![MetaItem::literal("path", "/users/{id}/posts/{post}")],
        vec![field("id", named("u64"), vec![])],
    );
    assert_eq!(result, Err(GenerateError::UnmatchedPathParameter { param: "post".to_string() }));
    assert_eq!(
        result.unwrap_err().to_string(),
        "Path parameter 'post' does not match any field"
    );
}

#[test]
fn path_field_outside_template_is_refused() {
    let result = generate(
        "GetUser",
        vec![MetaItem::literal("path", "/users/{id}")],
        vec![
            field("id", named("u64"), vec![MetaItem::flag("path")]),
            field("other", named("u64"), vec![MetaItem::flag("path")]),
        ],
    );
    assert_eq!(result, Err(GenerateError::PathFieldNotInTemplate { field: "other".to_string() }));
}

#[test]
fn duplicate_field_is_refused() {
    let result = generate(
        "GetUser",
        vec![],
        vec![field("id", named("u64"), vec![]), field("id", named("u32"), vec![])],
    );
    assert_eq!(result, Err(GenerateError::DuplicateField { field: "id".to_string() }));
}

#[test]
fn default_needs_a_known_type() {
    let result = generate(
        "GetUser",
        vec![],
        vec![field("tags", named("Tags"), vec![MetaItem::flag("default")])],
    );
    assert_eq!(result, Err(GenerateError::NoDefault { field: "tags".to_string() }));
    // an optional field passes through and needs no default
    let result = generate(
        "GetUser",
        vec![MetaItem::flag("default")],
        vec![field("tags", optional("Tags"), vec![])],
    );
    assert!(result.is_ok());
}

#[test]
fn missing_field_error_is_typed() {
    let descriptor = describe("GetUser", vec![], vec![field("id", named("u64"), vec![])]);
    let error = RequestBuilder::new(&descriptor).build(accept_all).unwrap_err();
    assert_eq!(error, RequestError::MissingField { field: "id".to_string() });
    assert_eq!(error.to_string(), "Missing required field: id");
}

fn any_text(_: &str) -> bool {
    true
}

fn no_text(_: &str) -> bool {
    false
}

#[test]
fn syntax_verdicts_come_from_the_checker_of_the_callers_choice() {
    let type_level = vec![Attribute::new(
        "request_builder",
        vec![MetaItem::literal("method", "GET"), MetaItem::tokens("response", "+ +")],
    )];
    // a checker that takes every text for a type
    let settings = parse_struct_attributes_with(&type_level, &any_text).unwrap();
    assert_eq!(settings.response, Some("+ +".to_string()));
    assert_eq!(settings.method, Some("GET".to_string()));
    // a checker that takes no text for a type
    assert_eq!(
        parse_struct_attributes_with(&type_level, &no_text),
        Err(GenerateError::MalformedAttribute { key: "response".to_string() })
    );
    let field_level = vec![Attribute::new(
        "request_builder",
        vec![MetaItem::flag("header"), MetaItem::literal("validate", "not a path")],
    )];
    let settings = parse_field_attributes_with(&field_level, &any_text).unwrap();
    assert_eq!(settings.validate, Some("not a path".to_string()));
    assert_eq!(settings.kind, FieldKind::Header);
    assert_eq!(
        parse_field_attributes_with(&field_level, &no_text),
        Err(GenerateError::MalformedAttribute { key: "validate".to_string() })
    );
    // where no entry asks, the checker does not matter
    let plain = vec![Attribute::new(
        "request_builder",
        vec![MetaItem::flag("into"), MetaItem::literal("path", "/x")],
    )];
    assert_eq!(
        parse_struct_attributes_with(&plain, &no_text),
        parse_struct_attributes_with(&plain, &any_text)
    );
    assert_eq!(parse_struct_attributes_with(&plain, &no_text), parse_struct_attributes(&plain));
}

#[test]
fn the_checker_is_asked_about_the_right_texts_and_not_after_a_failure() {
    let asked = std::cell::RefCell::new(Vec::new());
    let recording = |text: &str| {
        asked.borrow_mut().push(text.to_string());
        text != "bad"
    };
    let items = vec![
        MetaItem::literal("validate", "first"),
        MetaItem::literal("header", "X-Name"),
        MetaItem::tokens("validate", "tokens are malformed and not asked about"),
        MetaItem::literal("validate", "bad"),
        MetaItem::literal("validate", "after"),
    ];
    assert_eq!(
        read_field_items(&items[..2].iter().map(|i| i.duplicate()).collect(), &recording)
            .unwrap()
            .validate,
        Some("first".to_string())
    );
    assert_eq!(*asked.borrow(), vec!["first".to_string()]);
    asked.borrow_mut().clear();
    assert_eq!(
        read_field_items(&items, &recording),
        Err(GenerateError::MalformedAttribute { key: "validate".to_string() })
    );
    // the third entry fails, so nothing after it is asked about
    assert_eq!(*asked.borrow(), vec!["first".to_string()]);
    asked.borrow_mut().clear();
    let items =
        vec![MetaItem::tokens("response", "A"), MetaItem::tokens("response", "bad"), MetaItem::flag("x")];
    assert_eq!(
        read_struct_items(&items, &recording),
        Err(GenerateError::MalformedAttribute { key: "response".to_string() })
    );
    assert_eq!(*asked.borrow(), vec!["A".to_string(), "bad".to_string()]);
}

#[test]
fn one_entry_with_its_verdict() {
    let none = || StructAttributes {
        into: false,
        default: false,
        method: None,
        path: None,
        query_config: None,
        response: None,
    };
    let response = MetaItem::tokens("response", "User");
    assert_eq!(read_struct_item(none(), &response, true).unwrap().response, Some("User".to_string()));
    assert_eq!(
        read_struct_item(none(), &response, false),
        Err(GenerateError::MalformedAttribute { key: "response".to_string() })
    );
    // the verdict counts for no other entry
    assert_eq!(
        read_struct_item(none(), &MetaItem::flag("into"), false),
        read_struct_item(none(), &MetaItem::flag("into"), true)
    );
    let bare = || FieldAttributes {
        into: false,
        default: false,
        validate: None,
        kind: FieldKind::Unspecified,
        rename: None,
    };
    let validate = MetaItem::literal("validate", "check");
    assert_eq!(read_field_item(bare(), &validate, true).unwrap().validate, Some("check".to_string()));
    assert_eq!(
        read_field_item(bare(), &validate, false),
        Err(GenerateError::MalformedAttribute { key: "validate".to_string() })
    );
}

#[test]
fn generation_with_checkers_of_the_callers_choice() {
    let definition = request_type(
        "GetUser",
        vec![MetaItem::tokens("response", "User")],
        vec![
            field("id", named("u64"), vec![MetaItem::literal("validate", "checks::id")]),
            field("name", named("String"), vec![MetaItem::literal("validate", "checks::name")]),
        ],
    );
    let descriptor = generate_request_builder_with(&definition, &any_text, &any_text).unwrap();
    assert_eq!(descriptor.response, Some("User".to_string()));
    assert_eq!(descriptor.fields[1].validate, Some("checks::name".to_string()));
    assert_eq!(Ok(descriptor), generate_request_builder(&definition));
    assert_eq!(
        generate_request_builder_with(&definition, &no_text, &any_text),
        Err(GenerateError::MalformedAttribute { key: "response".to_string() })
    );
    assert_eq!(
        generate_request_builder_with(&definition, &any_text, &no_text),
        Err(GenerateError::MalformedAttribute { key: "validate".to_string() })
    );
    // after the type's annotations failed no field is asked about
    let asked = std::cell::RefCell::new(Vec::new());
    let recording = |text: &str| {
        asked.borrow_mut().push(text.to_string());
        text != "checks::id"
    };
    assert!(generate_request_builder_with(&definition, &no_text, &recording).is_err());
    assert!(asked.borrow().is_empty());
    // after a field failed no later field is asked about
    assert!(generate_request_builder_with(&definition, &any_text, &recording).is_err());
    assert_eq!(*asked.borrow(), vec!["checks::id".to_string()]);
    let settings = parse_struct_attributes(&vec![]).unwrap();
    assert_eq!(
        generate_field_with(&settings, &definition.fields[0], &any_text).unwrap().validate,
        Some("checks::id".to_string())
    );
}

#[test]
fn a_default_that_comes_with_the_field() {
    let tags = || FieldValue::opaque("", b"[]".to_vec());
    let definition = request_type(
        "Create",
        vec![MetaItem::flag("default"), MetaItem::literal("path", "/c")],
        vec![
            FieldDefinition::new("tags", named("Tags"), vec![]).with_default(tags()),
            FieldDefinition::new("count", named("u32"), vec![]).with_default(FieldValue::Unsigned(7)),
            FieldDefinition::new("size", named("u32"), vec![]),
            FieldDefinition::new(
                "host",
                FieldType::Path(TypePath {
                    qualified: false,
                    segments: vec!["std".to_string(), "string".to_string(), "String".to_string()],
                    first_argument: None,
                }),
                vec![],
            )
            .with_default(text("")),
        ],
    );
    let descriptor = generate_request_builder(&definition).unwrap();
    let request = RequestBuilder::new(&descriptor).build(accept_all).unwrap();
    assert_eq!(request.get("tags"), Some(&tags()));
    // the default that comes with the field wins over the default of the type's name
    assert_eq!(request.get("count"), Some(&FieldValue::Unsigned(7)));
    assert_eq!(request.get("size"), Some(&FieldValue::Unsigned(0)));
    assert_eq!(request.get("host"), Some(&text("")));
    // a value that was set wins over both
    let request =
        RequestBuilder::new(&descriptor).set("count", FieldValue::Unsigned(1)).build(accept_all).unwrap();
    assert_eq!(request.get("count"), Some(&FieldValue::Unsigned(1)));
}
