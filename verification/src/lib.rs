//! Schema-driven REST request builders with verified contracts.
//!
//! The annotations of a request type are read from their tokens by
//! [`tokens::parse_attribute`], and the type is described once by
//! [`schema::generate_request_builder`]. A [`builder::RequestBuilder`] for the
//! described type collects field values and builds a [`request::Request`],
//! which knows its URL, its JSON body and its headers and can be sent through
//! any [`transport::HttpClient`]. A [`client::ApiClient`] hands out builders
//! that carry a client and a base URL already.
//!
//! Every function states what it returns in terms of plain mathematical
//! models; [`laws`] holds what follows for all inputs.

pub mod attributes;
pub mod builder;
pub mod client;
pub mod encode;
pub mod error;
pub mod headers;
pub mod laws;
pub mod meta;
pub mod naming;
pub mod request;
pub mod schema;
pub mod template;
pub mod text;
pub mod tokens;
pub mod transport;
pub mod value;

pub use builder::{accept_all, RequestBuilder};
pub use client::ApiClient;
pub use error::{GenerateError, RequestError};
pub use headers::HeaderMap;
pub use request::{PreparedRequest, Request};
pub use schema::{generate_request_builder, RequestDescriptor};
pub use transport::{
    ConfigureRequest, HttpClient, NoRequestConfiguration, RequestModifier, UnimplementedClient,
};
pub use value::FieldValue;
