//! The two error universes: what can go wrong while a request type is
//! described, and what can go wrong while a request is built and sent.

use crate::text::{append_str, chars_of, string_of};
use vstd::prelude::*;

verus! {

/// A failure while a request is built, serialized or sent.
#[derive(Debug, PartialEq, Eq)]
pub enum RequestError {
    /// A required field was not set in the builder.
    MissingField { field: String },
    /// A path placeholder names a field that holds no value.
    MissingPathParameter { param: String },
    /// The query-string encoder refused the query fields.
    QuerySerializationError { message: String },
    /// The JSON encoder refused the body fields.
    BodySerializationError { message: String },
    /// The response could not be decoded into the declared response shape.
    ResponseDeserializationError { message: String },
    /// A field's validator rejected its value.
    ValidationError { field: String, message: String },
    /// No base URL was configured.
    MissingBaseUrl,
    /// The URL could not be built; the cause is inside.
    UrlBuildError { source: Box<RequestError> },
    /// The transport client failed.
    HttpError { message: String },
}

/// What a `RequestError` says, over plain text.
pub enum ErrorModel {
    MissingField { field: Seq<char> },
    MissingPathParameter { param: Seq<char> },
    QuerySerializationError { message: Seq<char> },
    BodySerializationError { message: Seq<char> },
    ResponseDeserializationError { message: Seq<char> },
    ValidationError { field: Seq<char>, message: Seq<char> },
    MissingBaseUrl,
    UrlBuildError { source: Box<ErrorModel> },
    HttpError { message: Seq<char> },
}

/// The model of an error: its variant, with each text taken by its view.
pub open spec fn error_model(e: RequestError) -> ErrorModel
    decreases e,
{
    match e {
        RequestError::MissingField { field } => ErrorModel::MissingField { field: field@ },
        RequestError::MissingPathParameter { param } => ErrorModel::MissingPathParameter {
            param: param@,
        },
        RequestError::QuerySerializationError {
            message,
        } => ErrorModel::QuerySerializationError { message: message@ },
        RequestError::BodySerializationError { message } => ErrorModel::BodySerializationError {
            message: message@,
        },
        RequestError::ResponseDeserializationError {
            message,
        } => ErrorModel::ResponseDeserializationError { message: message@ },
        RequestError::ValidationError { field, message } => ErrorModel::ValidationError {
            field: field@,
            message: message@,
        },
        RequestError::MissingBaseUrl => ErrorModel::MissingBaseUrl,
        RequestError::UrlBuildError { source } => ErrorModel::UrlBuildError {
            source: Box::new(error_model(*source)),
        },
        RequestError::HttpError { message } => ErrorModel::HttpError { message: message@ },
    }
}

impl View for RequestError {
    type V = ErrorModel;

    open spec fn view(&self) -> ErrorModel {
        error_model(*self)
    }
}

/// The message of an error.
pub open spec fn error_text(e: ErrorModel) -> Seq<char>
    decreases e,
{
    match e {
        ErrorModel::MissingField { field } => "Missing required field: "@ + field,
        ErrorModel::MissingPathParameter { param } => "Missing required path parameter: "@
            + param,
        ErrorModel::QuerySerializationError { message } => "Failed to serialize query parameters: "@
            + message,
        ErrorModel::BodySerializationError { message } => "Failed to serialize request body: "@
            + message,
        ErrorModel::ResponseDeserializationError {
            message,
        } => "Failed to deserialize response body: "@ + message,
        ErrorModel::ValidationError { field, message } => "Validation failed for field '"@ + field
            + "': "@ + message,
        ErrorModel::MissingBaseUrl => "No base URL configured. Use .base_url() to set one."@,
        ErrorModel::UrlBuildError { source } => "Failed to build URL: "@ + error_text(*source),
        ErrorModel::HttpError { message } => "HTTP request failed: "@ + message,
    }
}

fn prefixed(prefix: &str, rest: &str) -> (r: Vec<char>)
    ensures
        r@ == prefix@ + rest@,
{
    let mut out = chars_of(prefix);
    append_str(&mut out, rest);
    out
}

impl RequestError {
    /// The error of a required field that was left unset.
    pub fn missing_field(field: &str) -> (e: Self)
        ensures
            e@ == (ErrorModel::MissingField { field: field@ }),
    {
        RequestError::MissingField { field: string_of(&chars_of(field)) }
    }

    /// The error of a path placeholder whose field holds no value.
    pub fn missing_path_parameter(param: &str) -> (e: Self)
        ensures
            e@ == (ErrorModel::MissingPathParameter { param: param@ }),
    {
        RequestError::MissingPathParameter { param: string_of(&chars_of(param)) }
    }

    /// The error of a field whose validator answered with `message`.
    pub fn validation_error(field: &str, message: &str) -> (e: Self)
        ensures
            e@ == (ErrorModel::ValidationError { field: field@, message: message@ }),
    {
        RequestError::ValidationError {
            field: string_of(&chars_of(field)),
            message: string_of(&chars_of(message)),
        }
    }

    /// The error of a transport failure; its message is what the transport's
    /// error displays.
    pub fn http_error<E: std::fmt::Display>(error: E) -> (e: Self)
        ensures
            e matches RequestError::HttpError { message }
                && vstd::string::to_string_from_display_ensures::<E>(&error, message),
    {
        RequestError::HttpError { message: error.to_string() }
    }

    /// The error of a URL that could not be built because of `cause`.
    pub fn url_build_error(cause: RequestError) -> (e: Self)
        ensures
            e@ == (ErrorModel::UrlBuildError { source: Box::new(cause@) }),
    {
        RequestError::UrlBuildError { source: Box::new(cause) }
    }

    /// The message of this error.
    pub fn to_string(&self) -> (r: String)
        ensures
            r@ == error_text(self@),
        decreases self,
    {
        let out = match self {
            RequestError::MissingField { field } => prefixed(
                "Missing required field: ",
                field.as_str(),
            ),
            RequestError::MissingPathParameter { param } => prefixed(
                "Missing required path parameter: ",
                param.as_str(),
            ),
            RequestError::QuerySerializationError { message } => prefixed(
                "Failed to serialize query parameters: ",
                message.as_str(),
            ),
            RequestError::BodySerializationError { message } => prefixed(
                "Failed to serialize request body: ",
                message.as_str(),
            ),
            RequestError::ResponseDeserializationError { message } => prefixed(
                "Failed to deserialize response body: ",
                message.as_str(),
            ),
            RequestError::ValidationError { field, message } => {
                let mut out = prefixed("Validation failed for field '", field.as_str());
                append_str(&mut out, "': ");
                append_str(&mut out, message.as_str());
                out
            },
            RequestError::MissingBaseUrl => chars_of(
                "No base URL configured. Use .base_url() to set one.",
            ),
            RequestError::UrlBuildError { source } => {
                let inner = source.to_string();
                prefixed("Failed to build URL: ", inner.as_str())
            },
            RequestError::HttpError { message } => prefixed(
                "HTTP request failed: ",
                message.as_str(),
            ),
        };
        string_of(&out)
    }
}

/// A failure while a request type or a client is described.
#[derive(Debug, PartialEq, Eq)]
pub enum GenerateError {
    /// A type-level annotation key that is not recognized.
    UnsupportedAttribute { key: String },
    /// A field-level annotation key that is not recognized.
    UnsupportedFieldAttribute { key: String },
    /// A recognized key whose value is missing, unexpected or of the wrong
    /// form.
    MalformedAttribute { key: String },
    /// The annotated type is not a struct.
    NotAStruct,
    /// The annotated struct has unnamed fields.
    UnnamedFields,
    /// Two fields carry the same name.
    DuplicateField { field: String },
    /// A path placeholder that no field is named after.
    UnmatchedPathParameter { param: String },
    /// A field marked as path parameter that the template does not mention.
    PathFieldNotInTemplate { field: String },
    /// A default value was asked for a field whose type has none here.
    NoDefault { field: String },
    /// The client annotation is absent.
    MissingClientAttribute,
    /// A key that the client annotation requires is absent.
    MissingClientKey { key: String },
    /// A key of the client annotation that is not recognized.
    UnknownClientKey { key: String },
}

/// What a `GenerateError` says, over plain text.
pub enum GenerateErrorModel {
    UnsupportedAttribute { key: Seq<char> },
    UnsupportedFieldAttribute { key: Seq<char> },
    MalformedAttribute { key: Seq<char> },
    NotAStruct,
    UnnamedFields,
    DuplicateField { field: Seq<char> },
    UnmatchedPathParameter { param: Seq<char> },
    PathFieldNotInTemplate { field: Seq<char> },
    NoDefault { field: Seq<char> },
    MissingClientAttribute,
    MissingClientKey { key: Seq<char> },
    UnknownClientKey { key: Seq<char> },
}

impl View for GenerateError {
    type V = GenerateErrorModel;

    open spec fn view(&self) -> GenerateErrorModel {
        match self {
            GenerateError::UnsupportedAttribute { key } => GenerateErrorModel::UnsupportedAttribute {
                key: key@,
            },
            GenerateError::UnsupportedFieldAttribute {
                key,
            } => GenerateErrorModel::UnsupportedFieldAttribute { key: key@ },
            GenerateError::MalformedAttribute { key } => GenerateErrorModel::MalformedAttribute {
                key: key@,
            },
            GenerateError::NotAStruct => GenerateErrorModel::NotAStruct,
            GenerateError::UnnamedFields => GenerateErrorModel::UnnamedFields,
            GenerateError::DuplicateField { field } => GenerateErrorModel::DuplicateField {
                field: field@,
            },
            GenerateError::UnmatchedPathParameter {
                param,
            } => GenerateErrorModel::UnmatchedPathParameter { param: param@ },
            GenerateError::PathFieldNotInTemplate {
                field,
            } => GenerateErrorModel::PathFieldNotInTemplate { field: field@ },
            GenerateError::NoDefault { field } => GenerateErrorModel::NoDefault { field: field@ },
            GenerateError::MissingClientAttribute => GenerateErrorModel::MissingClientAttribute,
            GenerateError::MissingClientKey { key } => GenerateErrorModel::MissingClientKey {
                key: key@,
            },
            GenerateError::UnknownClientKey { key } => GenerateErrorModel::UnknownClientKey {
                key: key@,
            },
        }
    }
}

/// The diagnostic of a generation failure.
pub open spec fn generate_error_text(e: GenerateErrorModel) -> Seq<char> {
    match e {
        GenerateErrorModel::UnsupportedAttribute { key } => "unsupported request_builder attribute: "@
            + key,
        GenerateErrorModel::UnsupportedFieldAttribute {
            key,
        } => "unsupported field-level request_builder attribute: "@ + key,
        GenerateErrorModel::MalformedAttribute { key } => "malformed request_builder attribute: "@
            + key,
        GenerateErrorModel::NotAStruct => "RequestBuilder can only be derived for structs"@,
        GenerateErrorModel::UnnamedFields => "RequestBuilder only supports structs with named fields"@,
        GenerateErrorModel::DuplicateField { field } => "Duplicate field: "@ + field,
        GenerateErrorModel::UnmatchedPathParameter { param } => "Path parameter '"@ + param
            + "' does not match any field"@,
        GenerateErrorModel::PathFieldNotInTemplate { field } => "Path field '"@ + field
            + "' does not appear in the path template"@,
        GenerateErrorModel::NoDefault { field } => "No default value for field: "@ + field,
        GenerateErrorModel::MissingClientAttribute => "Missing #[api_client(...)] attribute"@,
        GenerateErrorModel::MissingClientKey { key } => "Missing '"@ + key + "' attribute"@,
        GenerateErrorModel::UnknownClientKey { key } => "Unknown attribute key: "@ + key,
    }
}

fn wrapped(prefix: &str, middle: &str, suffix: &str) -> (r: Vec<char>)
    ensures
        r@ == prefix@ + middle@ + suffix@,
{
    let mut out = chars_of(prefix);
    append_str(&mut out, middle);
    append_str(&mut out, suffix);
    out
}

impl GenerateError {
    /// The diagnostic of this failure.
    pub fn to_string(&self) -> (r: String)
        ensures
            r@ == generate_error_text(self@),
    {
        let out = match self {
            GenerateError::UnsupportedAttribute { key } => prefixed(
                "unsupported request_builder attribute: ",
                key.as_str(),
            ),
            GenerateError::UnsupportedFieldAttribute { key } => prefixed(
                "unsupported field-level request_builder attribute: ",
                key.as_str(),
            ),
            GenerateError::MalformedAttribute { key } => prefixed(
                "malformed request_builder attribute: ",
                key.as_str(),
            ),
            GenerateError::NotAStruct => chars_of("RequestBuilder can only be derived for structs"),
            GenerateError::UnnamedFields => chars_of(
                "RequestBuilder only supports structs with named fields",
            ),
            GenerateError::DuplicateField { field } => prefixed(
                "Duplicate field: ",
                field.as_str(),
            ),
            GenerateError::UnmatchedPathParameter { param } => wrapped(
                "Path parameter '",
                param.as_str(),
                "' does not match any field",
            ),
            GenerateError::PathFieldNotInTemplate { field } => wrapped(
                "Path field '",
                field.as_str(),
                "' does not appear in the path template",
            ),
            GenerateError::NoDefault { field } => prefixed(
                "No default value for field: ",
                field.as_str(),
            ),
            GenerateError::MissingClientAttribute => chars_of(
                "Missing #[api_client(...)] attribute",
            ),
            GenerateError::MissingClientKey { key } => wrapped(
                "Missing '",
                key.as_str(),
                "' attribute",
            ),
            GenerateError::UnknownClientKey { key } => prefixed(
                "Unknown attribute key: ",
                key.as_str(),
            ),
        };
        string_of(&out)
    }
}

} // verus!
