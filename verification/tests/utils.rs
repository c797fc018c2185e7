use rest_api_builder::naming::{
    builder_name, generate_async_client_name, generate_client_name, pascal_to_snake_case,
    snake_to_title_case, struct_name_to_method_name,
};
use rest_api_builder::schema::{option_inner_type, FieldType, TypePath};
use rest_api_builder::template::{extract_path_params, substitute};
use rest_api_builder::text::{chars_of, same_text, string_of};
use rest_api_builder::value::{zero_value, FieldValue};

#[test]
fn test_extract_path_params() {
    assert_eq!(extract_path_params("/api/users/{id}/posts/{post_id}"), vec!["id", "post_id"]);
    assert_eq!(extract_path_params("/api/users"), Vec::<String>::new());
    assert_eq!(extract_path_params("/api/{version}/users/{id}"), vec!["version", "id"]);
}

#[test]
fn path_params_at_the_edges() {
    assert_eq!(extract_path_params(""), Vec::<String>::new());
    // an empty name is left out
    assert_eq!(extract_path_params("/a/{}/b"), Vec::<String>::new());
    // a name that is never closed runs to the end
    assert_eq!(extract_path_params("/a/{rest"), vec!["rest"]);
    assert_eq!(extract_path_params("/a/{"), Vec::<String>::new());
    // an opening brace inside a name belongs to the name
    assert_eq!(extract_path_params("{a{b}c}"), vec!["a{b"]);
    assert_eq!(extract_path_params("{a}{b}"), vec!["a", "b"]);
    assert_eq!(extract_path_params("}{x}"), vec!["x"]);
}

#[test]
fn substitute_replaces_every_occurrence() {
    assert_eq!(substitute("/users/{id}", "id", "123"), "/users/123");
    assert_eq!(substitute("/{id}/{id}", "id", "7"), "/7/7");
    assert_eq!(substitute("/users/{id}", "name", "x"), "/users/{id}");
    assert_eq!(substitute("/users/{id", "id", "x"), "/users/{id");
    assert_eq!(substitute("{a}{a}{a}", "a", ""), "");
    assert_eq!(substitute("{{a}}", "a", "{a}"), "{{a}}");
}

#[test]
fn title_case_at_the_edges() {
    assert_eq!(snake_to_title_case(""), "");
    assert_eq!(snake_to_title_case("_"), "-");
    assert_eq!(snake_to_title_case("a__b"), "A--B");
    assert_eq!(snake_to_title_case("API_KEY"), "Api-Key");
    assert_eq!(snake_to_title_case("x_api_key"), "X-Api-Key");
    assert_eq!(snake_to_title_case("trailing_"), "Trailing-");
    // the uppercase mapping of one character may be several
    assert_eq!(snake_to_title_case("ßtraße"), "SStraße");
}

#[test]
fn snake_case_at_the_edges() {
    assert_eq!(pascal_to_snake_case(""), "");
    assert_eq!(pascal_to_snake_case("already_snake"), "already_snake");
    assert_eq!(pascal_to_snake_case("X"), "x");
    assert_eq!(pascal_to_snake_case("getUser"), "get_user");
    assert_eq!(struct_name_to_method_name("DeleteUser"), "delete_user");
}

#[test]
fn type_names() {
    assert_eq!(builder_name("GetUser"), "GetUserBuilder");
    assert_eq!(generate_client_name("MyApiConfig"), "MyApiClient");
    assert_eq!(generate_client_name("MyApi"), "MyApiClient");
    assert_eq!(generate_client_name("Config"), "Client");
    assert_eq!(generate_client_name("ConfigStore"), "ConfigStoreClient");
    assert_eq!(generate_async_client_name("MyApiConfig"), "MyApiAsyncClient");
    assert_eq!(generate_async_client_name("Github"), "GithubAsyncClient");
}

#[test]
fn strings_and_characters() {
    assert_eq!(chars_of("héllo"), vec!['h', 'é', 'l', 'l', 'o']);
    assert_eq!(string_of(&vec!['a', 'ß', 'c']), "aßc");
    assert!(same_text("abc", "abc"));
    assert!(!same_text("abc", "abd"));
    assert!(!same_text("abc", "ab"));
}

#[test]
fn values_as_text() {
    assert_eq!(FieldValue::Unsigned(0).to_text(), "0");
    assert_eq!(FieldValue::Unsigned(10).to_text(), "10");
    assert_eq!(FieldValue::Unsigned(u64::MAX).to_text(), "18446744073709551615");
    assert_eq!(FieldValue::Signed(-1).to_text(), "-1");
    assert_eq!(FieldValue::Signed(i64::MIN).to_text(), "-9223372036854775808");
    assert_eq!(FieldValue::Signed(i64::MAX).to_text(), "9223372036854775807");
    assert_eq!(FieldValue::Bool(true).to_text(), "true");
    assert_eq!(FieldValue::Bool(false).to_text(), "false");
    assert_eq!(FieldValue::text("as it is").to_text(), "as it is");
}

#[test]
fn default_values_by_type_name() {
    assert_eq!(zero_value("bool"), Some(FieldValue::Bool(false)));
    assert_eq!(zero_value("u8"), Some(FieldValue::Unsigned(0)));
    assert_eq!(zero_value("usize"), Some(FieldValue::Unsigned(0)));
    assert_eq!(zero_value("i32"), Some(FieldValue::Signed(0)));
    assert_eq!(zero_value("String"), Some(FieldValue::text("")));
    assert_eq!(zero_value("Vec"), None);
}

fn path(segments: &[&str], argument: Option<&str>) -> FieldType {
    FieldType::Path(TypePath {
        qualified: false,
        segments: segments.iter().map(|s| s.to_string()).collect(),
        first_argument: argument.map(|s| s.to_string()),
    })
}

#[test]
fn option_types_are_recognized() {
    assert_eq!(option_inner_type(&path(&["Option"], Some("u32"))), Some(&"u32".to_string()));
    assert_eq!(
        option_inner_type(&path(&["std", "option", "Option"], Some("String"))),
        Some(&"String".to_string())
    );
    assert_eq!(
        option_inner_type(&path(&["core", "option", "Option"], Some("bool"))),
        Some(&"bool".to_string())
    );
    assert_eq!(option_inner_type(&path(&["Option"], None)), None);
    assert_eq!(option_inner_type(&path(&["Vec"], Some("u32"))), None);
    assert_eq!(option_inner_type(&path(&["option", "Option"], Some("u32"))), None);
    assert_eq!(option_inner_type(&path(&["std", "option", "Opt"], Some("u32"))), None);
    assert_eq!(option_inner_type(&FieldType::Other), None);
    let qualified = FieldType::Path(TypePath {
        qualified: true,
        segments: vec!["Option".to_string()],
        first_argument: Some("u32".to_string()),
    });
    assert_eq!(option_inner_type(&qualified), None);
}

#[test]
fn test_snake_to_title_case() {
    assert_eq!(snake_to_title_case("authorization"), "Authorization");
    assert_eq!(snake_to_title_case("content_type"), "Content-Type");
    assert_eq!(snake_to_title_case("x_custom_header"), "X-Custom-Header");
    assert_eq!(snake_to_title_case("api_key"), "Api-Key");
}

#[test]
fn test_pascal_to_snake_case() {
    assert_eq!(pascal_to_snake_case("GetUser"), "get_user");
    assert_eq!(pascal_to_snake_case("CreateUserRequest"), "create_user_request");
    assert_eq!(pascal_to_snake_case("APIClient"), "a_p_i_client");
}
