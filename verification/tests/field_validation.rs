use rest_api_builder::builder::{accept_all, RequestBuilder};
use rest_api_builder::error::{GenerateError, RequestError};
use rest_api_builder::meta::{Attribute, MetaItem};
use rest_api_builder::schema::{
    generate_request_builder, FieldDefinition, FieldType, RequestDescriptor, Shape, TypeDefinition,
    TypePath,
};
use rest_api_builder::value::FieldValue;

fn named(name: &str) -> FieldType {
    FieldType::Path(TypePath {
        qualified: false,
        segments: vec![name.to_string()],
        first_argument: None,
    })
}

fn optional(inner: &str) -> FieldType {
    FieldType::Path(TypePath {
        qualified: false,
        segments: vec!["Option".to_string()],
        first_argument: Some(inner.to_string()),
    })
}

fn annotation(items: Vec<MetaItem>) -> Vec<Attribute> {
    if items.is_empty() {
        Vec::new()
    } else {
        vec![Attribute::new("request_builder", items)]
    }
}

fn field(name: &str, ty: FieldType, items: Vec<MetaItem>) -> FieldDefinition {
    FieldDefinition { name: name.to_string(), ty, attrs: annotation(items), default_value: None }
}

fn request_type(name: &str, items: Vec<MetaItem>, fields: Vec<FieldDefinition>) -> TypeDefinition {
    TypeDefinition {
        name: name.to_string(),
        shape: Shape::NamedStruct,
        attrs: annotation(items),
        fields,
    }
}

fn describe(name: &str, items: Vec<MetaItem>, fields: Vec<FieldDefinition>) -> RequestDescriptor {
    generate_request_builder(&request_type(name, items, fields)).unwrap()
}

fn text(s: &str) -> FieldValue {
    FieldValue::text(s)
}

fn validators(validator: &str, value: &FieldValue) -> Result<(), String> {
    match (validator, value) {
        ("validate_positive", FieldValue::Unsigned(n)) => {
            if *n > 0 {
                Ok(())
            } else {
                Err("value must be positive".to_string())
            }
        }
        ("validate_email", FieldValue::Text(s)) => {
            if s.contains('@') {
                Ok(())
            } else {
                Err("invalid email format".to_string())
            }
        }
        ("validate_min_length", FieldValue::Text(s)) => {
            if s.len() >= 3 {
                Ok(())
            } else {
                Err("must be at least 3 characters".to_string())
            }
        }
        _ => Err(format!("no validator called {}", validator)),
    }
}

fn create_user() -> RequestDescriptor {
    describe(
        "CreateUser",
        vec![],
        vec![
            field("email", named("String"), vec![MetaItem::literal("validate", "validate_email")]),
            field("age", named("u32"), vec![]),
        ],
    )
}

fn update_user() -> RequestDescriptor {
    describe(
        "UpdateUser",
        vec![],
        vec![
            field("id", named("u64"), vec![]),
            field("email", optional("String"), vec![MetaItem::literal("validate", "validate_email")]),
        ],
    )
}

fn config() -> RequestDescriptor {
    describe(
        "Config",
        vec![],
        vec![field(
            "timeout",
            named("u32"),
            vec![MetaItem::flag("default"), MetaItem::literal("validate", "validate_positive")],
        )],
    )
}

#[test]
fn test_validation_success() {
    let descriptor = create_user();
    let result = RequestBuilder::new(&descriptor)
        .set("email", text("user@example.com"))
        .set("age", FieldValue::Unsigned(25))
        .build(validators);
    assert!(result.is_ok());
    let user = result.unwrap();
    assert_eq!(user.get("email"), Some(&text("user@example.com")));
    assert_eq!(user.get("age"), Some(&FieldValue::Unsigned(25)));
}

#[test]
fn test_validation_failure() {
    let descriptor = create_user();
    let result = RequestBuilder::new(&descriptor)
        .set("email", text("invalid-email"))
        .set("age", FieldValue::Unsigned(25))
        .build(validators);
    assert!(result.is_err());
    let error = result.unwrap_err();
    assert_eq!(
        error,
        RequestError::ValidationError {
            field: "email".to_string(),
            message: "invalid email format".to_string()
        }
    );
    let err = error.to_string();
    assert!(err.contains("Validation failed"));
    assert!(err.contains("email"));
    assert!(err.contains("invalid email format"));
    assert_eq!(err, "Validation failed for field 'email': invalid email format");
}

#[test]
fn test_validation_multiple_fields() {
    let descriptor = describe(
        "CreatePost",
        vec![],
        vec![
            field(
                "title",
                named("String"),
                vec![MetaItem::literal("validate", "validate_min_length")],
            ),
            field(
                "content",
                named("String"),
                vec![MetaItem::literal("validate", "validate_min_length")],
            ),
        ],
    );
    let result1 = RequestBuilder::new(&descriptor)
        .set("title", text("Hello"))
        .set("content", text("World"))
        .build(validators);
    assert!(result1.is_ok());

    let result2 = RequestBuilder::new(&descriptor)
        .set("title", text("Hi"))
        .set("content", text("World"))
        .build(validators);
    assert!(result2.is_err());
    assert!(result2.unwrap_err().to_string().contains("title"));

    let result3 = RequestBuilder::new(&descriptor)
        .set("title", text("Hello"))
        .set("content", text("Hi"))
        .build(validators);
    assert!(result3.is_err());
    assert!(result3.unwrap_err().to_string().contains("content"));
}

#[test]
fn test_validation_optional_field_some() {
    let descriptor = update_user();
    let result1 = RequestBuilder::new(&descriptor)
        .set("id", FieldValue::Unsigned(123))
        .set("email", text("valid@example.com"))
        .build(validators);
    assert!(result1.is_ok());

    let result2 = RequestBuilder::new(&descriptor)
        .set("id", FieldValue::Unsigned(123))
        .set("email", text("invalid"))
        .build(validators);
    assert!(result2.is_err());
    assert!(result2.unwrap_err().to_string().contains("email"));
}

#[test]
fn test_validation_optional_field_none() {
    let descriptor = update_user();
    let result =
        RequestBuilder::new(&descriptor).set("id", FieldValue::Unsigned(123)).build(validators);
    assert!(result.is_ok());
    let user = result.unwrap();
    assert_eq!(user.get("id"), Some(&FieldValue::Unsigned(123)));
    assert_eq!(user.get("email"), None);
}

#[test]
fn test_validation_with_default() {
    let descriptor = config();
    // not set, so the default 0 is taken, and the validator rejects it
    let result = RequestBuilder::new(&descriptor).build(validators);
    assert!(result.is_err());
    assert!(result.unwrap_err().to_string().contains("timeout"));
}

#[test]
fn test_validation_with_default_valid() {
    let descriptor = config();
    let result =
        RequestBuilder::new(&descriptor).set("timeout", FieldValue::Unsigned(30)).build(validators);
    assert!(result.is_ok());
    let config = result.unwrap();
    assert_eq!(config.get("timeout"), Some(&FieldValue::Unsigned(30)));
}

#[test]
fn test_validation_combined_with_into() {
    let descriptor = describe(
        "CreateUser",
        vec![],
        vec![field(
            "email",
            named("String"),
            vec![MetaItem::flag("into"), MetaItem::literal("validate", "validate_email")],
        )],
    );
    let result1 =
        RequestBuilder::new(&descriptor).set("email", text("user@example.com")).build(validators);
    assert!(result1.is_ok());
    let result2 = RequestBuilder::new(&descriptor).set("email", text("invalid")).build(validators);
    assert!(result2.is_err());
}

#[test]
fn no_validator_runs_after_the_first_failure() {
    let descriptor = describe(
        "CreatePost",
        vec![],
        vec![
            field(
                "title",
                named("String"),
                vec![MetaItem::literal("validate", "validate_min_length")],
            ),
            field(
                "content",
                named("String"),
                vec![MetaItem::literal("validate", "validate_min_length")],
            ),
            field("author", named("String"), vec![]),
        ],
    );
    let calls = std::cell::RefCell::new(Vec::new());
    let recording = |validator: &str, value: &FieldValue| {
        calls.borrow_mut().push(value.to_text());
        validators(validator, value)
    };
    // both values are too short and author is missing: the first failure decides
    let result = RequestBuilder::new(&descriptor)
        .set("title", text("Hi"))
        .set("content", text("Yo"))
        .build(recording);
    assert_eq!(
        result.unwrap_err(),
        RequestError::ValidationError {
            field: "title".to_string(),
            message: "must be at least 3 characters".to_string()
        }
    );
    assert_eq!(*calls.borrow(), vec!["Hi".to_string()]);
}

#[test]
fn failures_come_in_declaration_order() {
    let descriptor = describe(
        "CreatePost",
        vec![],
        vec![
            field("id", named("u64"), vec![]),
            field(
                "title",
                named("String"),
                vec![MetaItem::literal("validate", "validate_min_length")],
            ),
        ],
    );
    // id is missing and title is invalid: id comes first
    let result = RequestBuilder::new(&descriptor).set("title", text("Hi")).build(validators);
    assert_eq!(result.unwrap_err(), RequestError::MissingField { field: "id".to_string() });
}

#[test]
fn generation_error_type_is_comparable() {
    let result = generate_request_builder(&request_type(
        "GetUser",
        vec![MetaItem::flag("nonsense")],
        vec![],
    ));
    assert_eq!(result, Err(GenerateError::UnsupportedAttribute { key: "nonsense".to_string() }));
}
