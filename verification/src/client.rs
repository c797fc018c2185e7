//! The client aggregator: from the annotation on a configuration type to the
//! description of its clients, and the client that hands out builders.

use crate::builder::RequestBuilder;
use crate::error::{GenerateError, GenerateErrorModel};
use crate::meta::{copy_opt_text, copy_text, lemma_views_push, opt_text, views};
use crate::naming::{
    async_client_name_of, builder_name, builder_name_of, client_name_of,
    generate_async_client_name, generate_client_name, snake_case, struct_name_to_method_name,
};
use crate::schema::{RequestDescriptor, RequestDescriptorModel, Shape};
use crate::text::{index_of, lemma_index_of_is, same_text};
use crate::tokens::{
    closes, depth_after, find_value_end, is_punct, lemma_value_length, value_length, written,
    Token, TokenModel,
};
use crate::transport::{ConfigureRequest, HttpClient};
use crate::value::ValueModel;
use vstd::prelude::*;

verus! {

/// One registered request type, with the method name chosen for it, if any.
#[derive(Debug, PartialEq, Eq)]
pub struct RequestMapping {
    pub struct_name: String,
    pub method_name: Option<String>,
}

/// The model of a `RequestMapping`.
pub struct RequestMappingModel {
    pub struct_name: Seq<char>,
    pub method_name: Option<Seq<char>>,
}

impl View for RequestMapping {
    type V = RequestMappingModel;

    open spec fn view(&self) -> RequestMappingModel {
        RequestMappingModel {
            struct_name: self.struct_name@,
            method_name: opt_text(self.method_name),
        }
    }
}

/// What follows a key inside the client annotation.
#[derive(Debug, PartialEq, Eq)]
pub enum ClientMetaValue {
    /// `=` and a string literal, as in `base_url = "https://example.com"`.
    Literal(String),
    /// A parenthesized list of request types, as in
    /// `requests(GetUser, CreateUser = "new_user")`.
    Mappings(Vec<RequestMapping>),
    /// Anything else, or nothing.
    Other,
}

/// The model of a `ClientMetaValue`.
pub enum ClientMetaValueModel {
    Literal(Seq<char>),
    Mappings(Seq<RequestMappingModel>),
    Other,
}

impl View for ClientMetaValue {
    type V = ClientMetaValueModel;

    open spec fn view(&self) -> ClientMetaValueModel {
        match self {
            ClientMetaValue::Literal(s) => ClientMetaValueModel::Literal(s@),
            ClientMetaValue::Mappings(m) => ClientMetaValueModel::Mappings(views(m@)),
            ClientMetaValue::Other => ClientMetaValueModel::Other,
        }
    }
}

/// One entry of the client annotation.
#[derive(Debug, PartialEq, Eq)]
pub struct ClientMetaItem {
    pub key: String,
    pub value: ClientMetaValue,
}

/// The model of a `ClientMetaItem`.
pub struct ClientMetaItemModel {
    pub key: Seq<char>,
    pub value: ClientMetaValueModel,
}

impl View for ClientMetaItem {
    type V = ClientMetaItemModel;

    open spec fn view(&self) -> ClientMetaItemModel {
        ClientMetaItemModel { key: self.key@, value: self.value@ }
    }
}

/// One attribute on a configuration type.
#[derive(Debug, PartialEq, Eq)]
pub struct ClientAttribute {
    pub path: String,
    pub items: Vec<ClientMetaItem>,
}

/// The model of a `ClientAttribute`.
pub struct ClientAttributeModel {
    pub path: Seq<char>,
    pub items: Seq<ClientMetaItemModel>,
}

impl View for ClientAttribute {
    type V = ClientAttributeModel;

    open spec fn view(&self) -> ClientAttributeModel {
        ClientAttributeModel { path: self.path@, items: views(self.items@) }
    }
}

/// What the client annotation declares.
#[derive(Debug, PartialEq, Eq)]
pub struct ApiClientAttributes {
    pub base_url: String,
    pub requests: Vec<RequestMapping>,
}

/// The model of `ApiClientAttributes`.
pub struct ApiClientAttributesModel {
    pub base_url: Seq<char>,
    pub requests: Seq<RequestMappingModel>,
}

impl View for ApiClientAttributes {
    type V = ApiClientAttributesModel;

    open spec fn view(&self) -> ApiClientAttributesModel {
        ApiClientAttributesModel { base_url: self.base_url@, requests: views(self.requests@) }
    }
}

/// A configuration type as it stands in the source.
#[derive(Debug, PartialEq, Eq)]
pub struct ClientDefinition {
    pub name: String,
    pub shape: Shape,
    pub field_count: usize,
    pub attrs: Vec<ClientAttribute>,
}

/// The model of a `ClientDefinition`.
pub struct ClientDefinitionModel {
    pub name: Seq<char>,
    pub shape: Shape,
    pub field_count: nat,
    pub attrs: Seq<ClientAttributeModel>,
}

impl View for ClientDefinition {
    type V = ClientDefinitionModel;

    open spec fn view(&self) -> ClientDefinitionModel {
        ClientDefinitionModel {
            name: self.name@,
            shape: self.shape,
            field_count: self.field_count as nat,
            attrs: views(self.attrs@),
        }
    }
}

/// One method of a client: its name, the request type it stands for, and the
/// builder it hands out.
#[derive(Debug, PartialEq, Eq)]
pub struct ClientMethod {
    pub method_name: String,
    pub request_name: String,
    pub builder_name: String,
}

/// The model of a `ClientMethod`.
pub struct ClientMethodModel {
    pub method_name: Seq<char>,
    pub request_name: Seq<char>,
    pub builder_name: Seq<char>,
}

impl View for ClientMethod {
    type V = ClientMethodModel;

    open spec fn view(&self) -> ClientMethodModel {
        ClientMethodModel {
            method_name: self.method_name@,
            request_name: self.request_name@,
            builder_name: self.builder_name@,
        }
    }
}

/// What is settled about the clients of a configuration type.
#[derive(Debug, PartialEq, Eq)]
pub struct ClientDescriptor {
    /// The name of the configuration type.
    pub config_name: String,
    /// The name of the blocking client.
    pub client_name: String,
    /// The name of the asynchronous client.
    pub async_client_name: String,
    /// The base URL that the clients start with.
    pub base_url: String,
    /// One method per registered request type, in order.
    pub methods: Vec<ClientMethod>,
    /// Whether the configuration type has no fields, and so leaves requests
    /// as they are.
    pub no_request_configuration: bool,
}

/// The model of a `ClientDescriptor`.
pub struct ClientDescriptorModel {
    pub config_name: Seq<char>,
    pub client_name: Seq<char>,
    pub async_client_name: Seq<char>,
    pub base_url: Seq<char>,
    pub methods: Seq<ClientMethodModel>,
    pub no_request_configuration: bool,
}

impl View for ClientDescriptor {
    type V = ClientDescriptorModel;

    open spec fn view(&self) -> ClientDescriptorModel {
        ClientDescriptorModel {
            config_name: self.config_name@,
            client_name: self.client_name@,
            async_client_name: self.async_client_name@,
            base_url: self.base_url@,
            methods: views(self.methods@),
            no_request_configuration: self.no_request_configuration,
        }
    }
}

/// The name of the attribute that this parser reads.
pub open spec fn api_client_name() -> Seq<char> {
    "api_client"@
}

/// The base URL and the request list read so far.
pub struct ClientSettings {
    pub base_url: Option<Seq<char>>,
    pub requests: Option<Seq<RequestMappingModel>>,
}

/// What one entry does to what was read so far: `base_url` takes a string
/// literal, `requests` a list of request types. A recognized key in any other
/// form is malformed; any other key is unknown.
pub open spec fn apply_client_item(acc: ClientSettings, item: ClientMetaItemModel) -> Result<
    ClientSettings,
    GenerateErrorModel,
> {
    if item.key == "base_url"@ {
        match item.value {
            ClientMetaValueModel::Literal(s) => Ok(ClientSettings { base_url: Some(s), ..acc }),
            _ => Err(GenerateErrorModel::MalformedAttribute { key: item.key }),
        }
    } else if item.key == "requests"@ {
        match item.value {
            ClientMetaValueModel::Mappings(m) => Ok(ClientSettings { requests: Some(m), ..acc }),
            _ => Err(GenerateErrorModel::MalformedAttribute { key: item.key }),
        }
    } else {
        Err(GenerateErrorModel::UnknownClientKey { key: item.key })
    }
}

/// What the entries leave, read from the left; the error of the first entry
/// that fails.
pub open spec fn client_settings_of(items: Seq<ClientMetaItemModel>) -> Result<
    ClientSettings,
    GenerateErrorModel,
>
    decreases items.len(),
{
    if items.len() == 0 {
        Ok(ClientSettings { base_url: None, requests: None })
    } else {
        match client_settings_of(items.drop_last()) {
            Ok(acc) => apply_client_item(acc, items.last()),
            Err(e) => Err(e),
        }
    }
}

/// What a client annotation declares: its entries must be read without
/// error, and both `base_url` and `requests` must be there; a missing
/// `base_url` is reported first.
pub open spec fn client_attributes_of(items: Seq<ClientMetaItemModel>) -> Result<
    ApiClientAttributesModel,
    GenerateErrorModel,
> {
    match client_settings_of(items) {
        Err(e) => Err(e),
        Ok(s) => match s.base_url {
            None => Err(GenerateErrorModel::MissingClientKey { key: "base_url"@ }),
            Some(base_url) => match s.requests {
                None => Err(GenerateErrorModel::MissingClientKey { key: "requests"@ }),
                Some(requests) => Ok(ApiClientAttributesModel { base_url, requests }),
            },
        },
    }
}

/// The names of the attributes, in order.
pub open spec fn attribute_paths(attrs: Seq<ClientAttributeModel>) -> Seq<Seq<char>> {
    Seq::new(attrs.len(), |i: int| attrs[i].path)
}

/// What the attributes of a configuration type declare: the first attribute
/// called `api_client` decides; without one the client annotation is
/// missing.
pub open spec fn parsed_client(attrs: Seq<ClientAttributeModel>) -> Result<
    ApiClientAttributesModel,
    GenerateErrorModel,
> {
    let i = index_of(attribute_paths(attrs), api_client_name());
    if 0 <= i < attrs.len() {
        client_attributes_of(attrs[i].items)
    } else {
        Err(GenerateErrorModel::MissingClientAttribute)
    }
}

/// The method that a client offers for a registered request type: under the
/// chosen name, or else under the type's name in snake case.
pub open spec fn method_of(m: RequestMappingModel) -> ClientMethodModel {
    ClientMethodModel {
        method_name: match m.method_name {
            Some(n) => n,
            None => snake_case(m.struct_name),
        },
        request_name: m.struct_name,
        builder_name: builder_name_of(m.struct_name),
    }
}

/// The methods of the registered request types, in order.
pub open spec fn methods_of(requests: Seq<RequestMappingModel>) -> Seq<ClientMethodModel> {
    Seq::new(requests.len(), |i: int| method_of(requests[i]))
}

/// Whether a type is a struct without fields.
pub open spec fn unit_or_empty(shape: Shape, field_count: nat) -> bool {
    match shape {
        Shape::UnitStruct => true,
        Shape::NamedStruct | Shape::TupleStruct => field_count == 0,
        Shape::Enum | Shape::Union => false,
    }
}

/// The description of the clients of a configuration type, or why there is
/// none.
pub open spec fn generated_client(def: ClientDefinitionModel) -> Result<
    ClientDescriptorModel,
    GenerateErrorModel,
> {
    match parsed_client(def.attrs) {
        Err(e) => Err(e),
        Ok(a) => Ok(
            ClientDescriptorModel {
                config_name: def.name,
                client_name: client_name_of(def.name),
                async_client_name: async_client_name_of(def.name),
                base_url: a.base_url,
                methods: methods_of(a.requests),
                no_request_configuration: unit_or_empty(def.shape, def.field_count),
            },
        ),
    }
}

impl RequestMapping {
    /// A copy of this mapping.
    pub fn duplicate(&self) -> (r: RequestMapping)
        ensures
            r@ == self@,
    {
        RequestMapping {
            struct_name: copy_text(self.struct_name.as_str()),
            method_name: copy_opt_text(&self.method_name),
        }
    }
}

fn copy_mappings(list: &Vec<RequestMapping>) -> (r: Vec<RequestMapping>)
    ensures
        views(r@) == views(list@),
{
    let mut out: Vec<RequestMapping> = Vec::new();
    let mut i: usize = 0;
    while i < list.len()
        invariant
            i <= list.len(),
            views(out@) == views(list@).take(i as int),
        decreases list.len() - i,
    {
        let copy = list[i].duplicate();
        proof {
            lemma_views_push(out@, copy);
            assert(views(list@).take(i + 1) == views(list@).take(i as int).push(copy@));
        }
        out.push(copy);
        i += 1;
    }
    proof {
        assert(views(list@).take(list.len() as int) == views(list@));
    }
    out
}

/// The view of the result of reading a client annotation.
pub open spec fn client_result(r: Result<ApiClientAttributes, GenerateError>) -> Result<
    ApiClientAttributesModel,
    GenerateErrorModel,
> {
    match r {
        Ok(a) => Ok(a@),
        Err(e) => Err(e@),
    }
}

/// The view of the result of describing clients.
pub open spec fn client_descriptor_result(r: Result<ClientDescriptor, GenerateError>) -> Result<
    ClientDescriptorModel,
    GenerateErrorModel,
> {
    match r {
        Ok(d) => Ok(d@),
        Err(e) => Err(e@),
    }
}

/// The settings read so far, in executable form.
struct Settings {
    base_url: Option<String>,
    requests: Option<Vec<RequestMapping>>,
}

impl Settings {
    spec fn model(self) -> ClientSettings {
        ClientSettings {
            base_url: opt_text(self.base_url),
            requests: match self.requests {
                Some(m) => Some(views(m@)),
                None => None,
            },
        }
    }
}

spec fn settings_result(r: Result<Settings, GenerateError>) -> Result<
    ClientSettings,
    GenerateErrorModel,
> {
    match r {
        Ok(s) => Ok(s.model()),
        Err(e) => Err(e@),
    }
}

fn read_client_item(acc: Settings, item: &ClientMetaItem) -> (r: Result<Settings, GenerateError>)
    ensures
        settings_result(r) == apply_client_item(acc.model(), item@),
{
    let key = item.key.as_str();
    let mut acc = acc;
    if same_text(key, "base_url") {
        match &item.value {
            ClientMetaValue::Literal(s) => {
                acc.base_url = Some(copy_text(s.as_str()));
                Ok(acc)
            },
            _ => Err(GenerateError::MalformedAttribute { key: copy_text(key) }),
        }
    } else if same_text(key, "requests") {
        match &item.value {
            ClientMetaValue::Mappings(m) => {
                acc.requests = Some(copy_mappings(m));
                Ok(acc)
            },
            _ => Err(GenerateError::MalformedAttribute { key: copy_text(key) }),
        }
    } else {
        Err(GenerateError::UnknownClientKey { key: copy_text(key) })
    }
}

/// Reads the entries of a client annotation.
///
/// Fails on the first entry with an unknown key or a malformed value; else
/// where `base_url` is absent; else where `requests` is absent. Where a key
/// repeats, the later entry overwrites the earlier one.
pub fn parse_client_items(items: &Vec<ClientMetaItem>) -> (r: Result<
    ApiClientAttributes,
    GenerateError,
>)
    ensures
        client_result(r) == client_attributes_of(views(items@)),
{
    let mut acc: Result<Settings, GenerateError> = Ok(Settings { base_url: None, requests: None });
    let mut i: usize = 0;
    proof {
        assert(views(items@).take(0) =~= Seq::<ClientMetaItemModel>::empty());
    }
    while i < items.len()
        invariant
            i <= items.len(),
            settings_result(acc) == client_settings_of(views(items@).take(i as int)),
        decreases items.len() - i,
    {
        proof {
            let next = views(items@).take(i + 1);
            assert(next.drop_last() == views(items@).take(i as int));
            assert(next.last() == items@[i as int]@);
        }
        acc =
        match acc {
            Ok(settings) => read_client_item(settings, &items[i]),
            Err(e) => Err(e),
        };
        i += 1;
    }
    proof {
        assert(views(items@).take(items.len() as int) == views(items@));
    }
    match acc {
        Err(e) => Err(e),
        Ok(settings) => match settings.base_url {
            None => Err(GenerateError::MissingClientKey { key: copy_text("base_url") }),
            Some(base_url) => match settings.requests {
                None => Err(GenerateError::MissingClientKey { key: copy_text("requests") }),
                Some(requests) => Ok(ApiClientAttributes { base_url, requests }),
            },
        },
    }
}

/// Reads the client annotation among the attributes of a configuration type:
/// the first attribute called `api_client` decides, and without one the
/// annotation is missing.
pub fn parse_api_client_attributes(attrs: &Vec<ClientAttribute>) -> (r: Result<
    ApiClientAttributes,
    GenerateError,
>)
    ensures
        client_result(r) == parsed_client(views(attrs@)),
{
    let ghost paths = attribute_paths(views(attrs@));
    let mut i: usize = 0;
    while i < attrs.len()
        invariant
            i <= attrs.len(),
            paths == attribute_paths(views(attrs@)),
            forall|k: int| 0 <= k < i ==> paths[k] != api_client_name(),
        decreases attrs.len() - i,
    {
        if same_text(attrs[i].path.as_str(), "api_client") {
            proof {
                assert(paths[i as int] == api_client_name());
                lemma_index_of_is(paths, api_client_name(), i as int);
                assert(views(attrs@)[i as int] == attrs@[i as int]@);
            }
            return parse_client_items(&attrs[i].items);
        }
        i += 1;
    }
    proof {
        lemma_index_of_is(paths, api_client_name(), i as int);
    }
    Err(GenerateError::MissingClientAttribute)
}

fn is_unit_or_empty(shape: Shape, field_count: usize) -> (r: bool)
    ensures
        r == unit_or_empty(shape, field_count as nat),
{
    match shape {
        Shape::UnitStruct => true,
        Shape::NamedStruct | Shape::TupleStruct => field_count == 0,
        Shape::Enum | Shape::Union => false,
    }
}

/// The method that a client offers for one registered request type.
pub fn client_method(mapping: &RequestMapping) -> (r: ClientMethod)
    ensures
        r@ == method_of(mapping@),
{
    let method_name = match &mapping.method_name {
        Some(n) => copy_text(n.as_str()),
        None => struct_name_to_method_name(mapping.struct_name.as_str()),
    };
    ClientMethod {
        method_name,
        request_name: copy_text(mapping.struct_name.as_str()),
        builder_name: builder_name(mapping.struct_name.as_str()),
    }
}

/// Describes the clients of a configuration type: their names, their base
/// URL and one method per registered request type.
pub fn generate_api_client(input: &ClientDefinition) -> (r: Result<
    ClientDescriptor,
    GenerateError,
>)
    ensures
        client_descriptor_result(r) == generated_client(input@),
{
    let attrs = match parse_api_client_attributes(&input.attrs) {
        Ok(a) => a,
        Err(e) => {
            return Err(e);
        },
    };
    let mut methods: Vec<ClientMethod> = Vec::new();
    let mut i: usize = 0;
    let ghost wanted = methods_of(views(attrs.requests@));
    while i < attrs.requests.len()
        invariant
            i <= attrs.requests.len(),
            wanted == methods_of(views(attrs.requests@)),
            views(methods@) == wanted.take(i as int),
        decreases attrs.requests.len() - i,
    {
        let method = client_method(&attrs.requests[i]);
        proof {
            lemma_views_push(methods@, method);
            assert(wanted.take(i + 1) == wanted.take(i as int).push(method@));
        }
        methods.push(method);
        i += 1;
    }
    proof {
        assert(wanted.take(wanted.len() as int) == wanted);
    }
    Ok(
        ClientDescriptor {
            config_name: copy_text(input.name.as_str()),
            client_name: generate_client_name(input.name.as_str()),
            async_client_name: generate_async_client_name(input.name.as_str()),
            base_url: attrs.base_url,
            methods,
            no_request_configuration: is_unit_or_empty(input.shape, input.field_count),
        },
    )
}

/// The names of the methods, in order.
pub open spec fn method_names(methods: Seq<ClientMethodModel>) -> Seq<Seq<char>> {
    Seq::new(methods.len(), |i: int| methods[i].method_name)
}

/// The names of the request types, in order.
pub open spec fn request_names(requests: Seq<RequestDescriptorModel>) -> Seq<Seq<char>> {
    Seq::new(requests.len(), |i: int| requests[i].name)
}

/// The request type behind a method name: the first method of that name
/// decides, and the first request type that carries the method's request name
/// is the one. Without such a method, or without such a request type, there
/// is none.
pub open spec fn route(
    methods: Seq<ClientMethodModel>,
    requests: Seq<RequestDescriptorModel>,
    name: Seq<char>,
) -> Option<int> {
    let m = index_of(method_names(methods), name);
    if 0 <= m < methods.len() {
        let q = index_of(request_names(requests), methods[m].request_name);
        if 0 <= q < requests.len() {
            Some(q)
        } else {
            None
        }
    } else {
        None
    }
}

/// A client for the request types of one API: a transport client, a base URL
/// and an optional configuration. For every method it hands out a fresh
/// builder that has the client and the base URL already.
#[derive(Debug)]
pub struct ApiClient<'a, C, G> {
    config: Option<G>,
    /// The base URL that every builder starts with.
    pub base_url: String,
    client: C,
    descriptor: &'a ClientDescriptor,
    requests: &'a Vec<RequestDescriptor>,
}

impl<'a, C: HttpClient, G> ApiClient<'a, C, G> {
    /// The configuration, where one was given.
    pub closed spec fn configuration(&self) -> Option<G> {
        self.config
    }

    /// The base URL.
    pub closed spec fn base(&self) -> Seq<char> {
        self.base_url@
    }

    /// The transport client.
    pub closed spec fn transport(&self) -> C {
        self.client
    }

    /// What is settled about the client.
    pub closed spec fn description(&self) -> ClientDescriptorModel {
        self.descriptor@
    }

    /// The request types that the client knows.
    pub closed spec fn known_requests(&self) -> Seq<RequestDescriptorModel> {
        views(self.requests@)
    }

    /// A client with a transport client that `C::default` made, the declared
    /// base URL and no configuration.
    pub fn new(descriptor: &'a ClientDescriptor, requests: &'a Vec<RequestDescriptor>) -> (r: Self)
        ensures
            r.configuration() is None,
            call_ensures(C::default, (), r.transport()),
            r.base() == descriptor@.base_url,
            r.description() == descriptor@,
            r.known_requests() == views(requests@),
    {
        ApiClient {
            config: None,
            base_url: copy_text(descriptor.base_url.as_str()),
            client: C::default(),
            descriptor,
            requests,
        }
    }

    /// A client with the given transport client, the declared base URL and no
    /// configuration.
    pub fn new_with_client(
        descriptor: &'a ClientDescriptor,
        requests: &'a Vec<RequestDescriptor>,
        client: C,
    ) -> (r: Self)
        ensures
            r.configuration() is None,
            r.transport() == client,
            r.base() == descriptor@.base_url,
            r.description() == descriptor@,
            r.known_requests() == views(requests@),
    {
        ApiClient {
            config: None,
            base_url: copy_text(descriptor.base_url.as_str()),
            client,
            descriptor,
            requests,
        }
    }

    /// Replaces the base URL.
    pub fn with_base_url(self, base_url: &str) -> (r: Self)
        ensures
            r.base() == base_url@,
            r.configuration() == self.configuration(),
            r.transport() == self.transport(),
            r.description() == self.description(),
            r.known_requests() == self.known_requests(),
    {
        ApiClient {
            config: self.config,
            base_url: copy_text(base_url),
            client: self.client,
            descriptor: self.descriptor,
            requests: self.requests,
        }
    }

    /// Replaces the transport client.
    pub fn with_http_client(self, client: C) -> (r: Self)
        ensures
            r.transport() == client,
            r.base() == self.base(),
            r.configuration() == self.configuration(),
            r.description() == self.description(),
            r.known_requests() == self.known_requests(),
    {
        ApiClient {
            config: self.config,
            base_url: self.base_url,
            client,
            descriptor: self.descriptor,
            requests: self.requests,
        }
    }

    /// Sets the configuration.
    pub fn with_config(self, config: G) -> (r: Self)
        ensures
            r.configuration() == Some(config),
            r.base() == self.base(),
            r.transport() == self.transport(),
            r.description() == self.description(),
            r.known_requests() == self.known_requests(),
    {
        ApiClient {
            config: Some(config),
            base_url: self.base_url,
            client: self.client,
            descriptor: self.descriptor,
            requests: self.requests,
        }
    }

    /// The configuration, where one was given.
    pub fn config(&self) -> (r: &Option<G>)
        ensures
            *r == self.configuration(),
    {
        &self.config
    }

    fn find_route(&self, method_name: &str) -> (r: Option<usize>)
        ensures
            match r {
                Some(q) => route(self.description().methods, self.known_requests(), method_name@)
                    == Some(q as int) && q < self.requests@.len(),
                None => route(self.description().methods, self.known_requests(), method_name@)
                    is None,
            },
    {
        let ghost names = method_names(self.description().methods);
        let mut m: usize = 0;
        while m < self.descriptor.methods.len() && !same_text(
            self.descriptor.methods[m].method_name.as_str(),
            method_name,
        )
            invariant
                m <= self.descriptor.methods.len(),
                names == method_names(self.description().methods),
                forall|k: int| 0 <= k < m ==> names[k] != method_name@,
            decreases self.descriptor.methods.len() - m,
        {
            m += 1;
        }
        proof {
            if m < self.descriptor.methods.len() {
                assert(names[m as int] == self.descriptor.methods@[m as int]@.method_name);
            }
            lemma_index_of_is(names, method_name@, m as int);
        }
        if m >= self.descriptor.methods.len() {
            return None;
        }
        let wanted = self.descriptor.methods[m].request_name.as_str();
        let ghost types = request_names(self.known_requests());
        let mut q: usize = 0;
        while q < self.requests.len() && !same_text(self.requests[q].name.as_str(), wanted)
            invariant
                q <= self.requests.len(),
                types == request_names(self.known_requests()),
                forall|k: int| 0 <= k < q ==> types[k] != wanted@,
            decreases self.requests.len() - q,
        {
            q += 1;
        }
        proof {
            if q < self.requests.len() {
                assert(types[q as int] == self.requests@[q as int]@.name);
            }
            lemma_index_of_is(types, wanted@, q as int);
            assert(self.description().methods[m as int].request_name == wanted@);
        }
        if q >= self.requests.len() {
            None
        } else {
            Some(q)
        }
    }

    /// Whether `b` is the fresh builder that this client makes for the request
    /// type `d`: it has a clone of the transport client and the base URL, and
    /// nothing else is set.
    pub open spec fn fresh(&self, d: RequestDescriptorModel, b: RequestBuilder<'a, C>) -> bool {
        &&& b.descriptor() == d
        &&& b.client() matches Some(c) && call_ensures(C::clone, (&self.transport(),), c)
        &&& b.base() == Some(self.base())
        &&& b.slots() == Seq::new(d.fields.len(), |i: int| None::<ValueModel>)
        &&& b.headers() == Map::<Seq<char>, Seq<char>>::empty()
        &&& b.time_limit() is None
    }

    /// The builder that the method called `method_name` hands out: a fresh
    /// builder of the method's request type with a clone of the transport
    /// client and the base URL, passed through the configuration where there
    /// is one.
    ///
    /// There is a builder exactly if the method is known and its request type
    /// is among the known ones. Without a configuration the builder is the
    /// fresh one; with a configuration it is whatever the configuration handed
    /// back for the fresh one.
    pub fn request(&self, method_name: &str) -> (r: Option<RequestBuilder<'a, C>>) where
        G: ConfigureRequest,

        ensures
            match route(self.description().methods, self.known_requests(), method_name@) {
                None => r is None,
                Some(q) => r matches Some(b) && (self.configuration() is None ==> self.fresh(
                    self.known_requests()[q],
                    b,
                )),
            },
    {
        let q = match self.find_route(method_name) {
            Some(q) => q,
            None => {
                return None;
            },
        };
        let requests: &'a Vec<RequestDescriptor> = self.requests;
        let builder = RequestBuilder::new(&requests[q]).http_client(self.client.clone()).base_url(
            self.base_url.as_str(),
        );
        assert(self.fresh(self.known_requests()[q as int], builder));
        match &self.config {
            Some(config) => Some(config.configure(builder)),
            None => Some(builder),
        }
    }
}

/// How many leading tokens stand inside a bracket that was opened just
/// before them, at bracket depth `depth` within it: all tokens before the
/// closing bracket that matches, or all tokens where none does.
pub open spec fn group_length(tokens: Seq<TokenModel>, depth: nat) -> int
    decreases tokens.len(),
{
    if tokens.len() == 0 {
        0
    } else if depth == 0 && closes(tokens[0]) {
        0
    } else {
        1 + group_length(tokens.skip(1), depth_after(depth, tokens[0]))
    }
}

/// The length of a group lies within the tokens.
pub proof fn lemma_group_length(tokens: Seq<TokenModel>, depth: nat)
    ensures
        0 <= group_length(tokens, depth) <= tokens.len(),
    decreases tokens.len(),
{
    if tokens.len() > 0 && !(depth == 0 && closes(tokens[0])) {
        lemma_group_length(tokens.skip(1), depth_after(depth, tokens[0]));
    }
}

/// `mapping` before the mappings of `rest`, where there are such.
pub open spec fn mapping_then(
    mapping: RequestMappingModel,
    rest: Result<Seq<RequestMappingModel>, GenerateErrorModel>,
) -> Result<Seq<RequestMappingModel>, GenerateErrorModel> {
    match rest {
        Ok(more) => Ok(seq![mapping] + more),
        Err(e) => Err(e),
    }
}

/// The registered request types that tokens stand for.
///
/// Mappings are separated by commas, and a comma after the last one is
/// allowed. A mapping is the name of a request type, alone or followed by `=`
/// and a string literal, the method name chosen for it. Anything else is
/// malformed: a token that is no identifier is reported as it is written,
/// everything else under the name of the request type.
pub open spec fn mappings_of(tokens: Seq<TokenModel>) -> Result<
    Seq<RequestMappingModel>,
    GenerateErrorModel,
>
    decreases tokens.len(),
{
    if tokens.len() == 0 {
        Ok(Seq::empty())
    } else {
        match tokens[0] {
            TokenModel::Ident(name) => {
                let rest = tokens.skip(1);
                let renamed = rest.len() >= 2 && is_punct(rest[0], '=') && rest[1] is Str;
                if !renamed && rest.len() > 0 && is_punct(rest[0], '=') {
                    Err(GenerateErrorModel::MalformedAttribute { key: name })
                } else {
                    let mapping = RequestMappingModel {
                        struct_name: name,
                        method_name: if renamed {
                            Some(rest[1]->Str_0)
                        } else {
                            None
                        },
                    };
                    let after = if renamed {
                        rest.skip(2)
                    } else {
                        rest
                    };
                    if after.len() == 0 {
                        Ok(seq![mapping])
                    } else if is_punct(after[0], ',') {
                        mapping_then(mapping, mappings_of(after.skip(1)))
                    } else {
                        Err(GenerateErrorModel::MalformedAttribute { key: name })
                    }
                }
            },
            other => Err(GenerateErrorModel::MalformedAttribute { key: written(other) }),
        }
    }
}

/// `item` before the entries of `rest`, where there are such.
pub open spec fn client_entry_then(
    item: ClientMetaItemModel,
    rest: Result<Seq<ClientMetaItemModel>, GenerateErrorModel>,
) -> Result<Seq<ClientMetaItemModel>, GenerateErrorModel> {
    match rest {
        Ok(items) => Ok(seq![item] + items),
        Err(e) => Err(e),
    }
}

/// `tokens` without a comma at their start.
pub open spec fn past_comma(tokens: Seq<TokenModel>) -> Seq<TokenModel> {
    if tokens.len() > 0 && is_punct(tokens[0], ',') {
        tokens.skip(1)
    } else {
        tokens
    }
}

/// The entries of a client annotation that tokens stand for.
///
/// An entry starts with an identifier, its key; a token of another kind there
/// is malformed and reported as it is written. After the key may come `=` and
/// a string literal, or a parenthesized list of request types, whose error is
/// the entry's error and which is malformed under the key where it is never
/// closed. `=` and anything else gives a value of no use, which runs to the
/// next comma outside all brackets. A key alone has a value of no use too.
/// Between entries a comma may stand.
pub open spec fn client_entries_of(tokens: Seq<TokenModel>) -> Result<
    Seq<ClientMetaItemModel>,
    GenerateErrorModel,
>
    decreases tokens.len(),
{
    if tokens.len() == 0 {
        Ok(Seq::empty())
    } else {
        match tokens[0] {
            TokenModel::Ident(key) => {
                let rest = tokens.skip(1);
                let other = ClientMetaItemModel { key, value: ClientMetaValueModel::Other };
                if rest.len() > 0 && is_punct(rest[0], '=') {
                    let body = rest.skip(1);
                    if body.len() > 0 && body[0] is Str {
                        client_entry_then(
                            ClientMetaItemModel {
                                key,
                                value: ClientMetaValueModel::Literal(body[0]->Str_0),
                            },
                            client_entries_of(past_comma(body.skip(1))),
                        )
                    } else {
                        let n = value_length(body, 0);
                        if n < 0 || n > body.len() {
                            Err(GenerateErrorModel::MalformedAttribute { key })
                        } else {
                            client_entry_then(other, client_entries_of(past_comma(body.skip(n))))
                        }
                    }
                } else if rest.len() > 0 && is_punct(rest[0], '(') {
                    let body = rest.skip(1);
                    let n = group_length(body, 0);
                    if n < 0 || n >= body.len() {
                        Err(GenerateErrorModel::MalformedAttribute { key })
                    } else {
                        match mappings_of(body.take(n)) {
                            Err(e) => Err(e),
                            Ok(mappings) => client_entry_then(
                                ClientMetaItemModel {
                                    key,
                                    value: ClientMetaValueModel::Mappings(mappings),
                                },
                                client_entries_of(past_comma(body.skip(n + 1))),
                            ),
                        }
                    }
                } else {
                    client_entry_then(other, client_entries_of(past_comma(rest)))
                }
            },
            other => Err(GenerateErrorModel::MalformedAttribute { key: written(other) }),
        }
    }
}

fn find_group_end(tokens: &Vec<Token>, start: usize) -> (end: usize)
    requires
        start <= tokens.len(),
    ensures
        start <= end <= tokens.len(),
        end - start == group_length(views(tokens@).skip(start as int), 0),
{
    let ghost all = views(tokens@);
    let mut depth: usize = 0;
    let mut j: usize = start;
    while j < tokens.len() && !(depth == 0 && tokens[j].closes_bracket())
        invariant
            start <= j <= tokens.len(),
            depth <= j - start,
            all == views(tokens@),
            group_length(all.skip(start as int), 0) == (j - start) + group_length(
                all.skip(j as int),
                depth as nat,
            ),
        decreases tokens.len() - j,
    {
        proof {
            assert(all.skip(j as int)[0] == tokens@[j as int]@);
            assert(all.skip(j as int).skip(1) == all.skip(j + 1));
        }
        depth = tokens[j].next_depth(depth);
        j += 1;
    }
    proof {
        if j < tokens.len() {
            assert(all.skip(j as int)[0] == tokens@[j as int]@);
        }
    }
    j
}

/// The view of the result of reading mappings.
pub open spec fn mappings_result(r: Result<Vec<RequestMapping>, GenerateError>) -> Result<
    Seq<RequestMappingModel>,
    GenerateErrorModel,
> {
    match r {
        Ok(m) => Ok(views(m@)),
        Err(e) => Err(e@),
    }
}

/// `found` before the mappings of `rest`, where there are such.
pub open spec fn mappings_then(
    found: Seq<RequestMappingModel>,
    rest: Result<Seq<RequestMappingModel>, GenerateErrorModel>,
) -> Result<Seq<RequestMappingModel>, GenerateErrorModel> {
    match rest {
        Ok(more) => Ok(found + more),
        Err(e) => Err(e),
    }
}

/// Reads the registered request types from the tokens `from` up to, not
/// including, `to`.
pub fn parse_request_mappings(tokens: &Vec<Token>, from: usize, to: usize) -> (r: Result<
    Vec<RequestMapping>,
    GenerateError,
>)
    requires
        from <= to <= tokens.len(),
    ensures
        mappings_result(r) == mappings_of(views(tokens@).subrange(from as int, to as int)),
{
    let ghost part = views(tokens@).subrange(from as int, to as int);
    let mut found: Vec<RequestMapping> = Vec::new();
    let mut i: usize = from;
    proof {
        assert(part.skip(0) == part);
        assert(views(found@) =~= Seq::<RequestMappingModel>::empty());
        match mappings_of(part) {
            Ok(more) => {
                assert(Seq::<RequestMappingModel>::empty() + more == more);
            },
            Err(e) => {},
        }
    }
    while i < to
        invariant
            from <= i <= to,
            to <= tokens.len(),
            part == views(tokens@).subrange(from as int, to as int),
            mappings_of(part) == mappings_then(views(found@), mappings_of(part.skip(i - from))),
        decreases to - i,
    {
        let ghost here = part.skip(i - from);
        let ghost before = views(found@);
        proof {
            assert(here[0] == tokens@[i as int]@);
        }
        let name = match &tokens[i] {
            Token::Ident(name) => name,
            other => {
                return Err(GenerateError::MalformedAttribute { key: other.to_text() });
            },
        };
        let ghost rest = here.skip(1);
        proof {
            assert(rest == part.skip(i + 1 - from));
            if i + 1 < to {
                assert(rest[0] == tokens@[i + 1]@);
            }
            if i + 2 < to {
                assert(rest[1] == tokens@[i + 2]@);
            }
        }
        let mut method_name: Option<String> = None;
        let mut next: usize = i + 1;
        if i + 1 < to && tokens[i + 1].is_char('=') {
            if i + 2 < to {
                match &tokens[i + 2] {
                    Token::Str(s) => {
                        method_name = Some(copy_text(s.as_str()));
                        next = i + 3;
                    },
                    _ => {
                        return Err(
                            GenerateError::MalformedAttribute { key: copy_text(name.as_str()) },
                        );
                    },
                }
            } else {
                return Err(GenerateError::MalformedAttribute { key: copy_text(name.as_str()) });
            }
        }
        let ghost after = part.skip(next - from);
        proof {
            if next == i + 3 {
                assert(rest.skip(2) == after);
            }
            if next < to {
                assert(after[0] == tokens@[next as int]@);
            }
        }
        let mapping = RequestMapping { struct_name: copy_text(name.as_str()), method_name };
        if next == to {
            proof {
                lemma_views_push(found@, mapping);
                assert(part.skip(to - from) =~= Seq::<TokenModel>::empty());
                assert(before + seq![mapping@] == before.push(mapping@) + Seq::<
                    RequestMappingModel,
                >::empty());
            }
            found.push(mapping);
            i = to;
        } else if tokens[next].is_char(',') {
            proof {
                lemma_views_push(found@, mapping);
                assert(after.skip(1) == part.skip(next + 1 - from));
                match mappings_of(after.skip(1)) {
                    Ok(more) => {
                        assert(before + (seq![mapping@] + more) == before.push(mapping@) + more);
                    },
                    Err(e) => {},
                }
            }
            found.push(mapping);
            i = next + 1;
        } else {
            return Err(GenerateError::MalformedAttribute { key: copy_text(name.as_str()) });
        }
    }
    proof {
        assert(part.skip(to - from) =~= Seq::<TokenModel>::empty());
        assert(views(found@) + Seq::<RequestMappingModel>::empty() == views(found@));
    }
    Ok(found)
}

/// The view of the result of reading the entries of a client annotation.
pub open spec fn client_entries_result(r: Result<Vec<ClientMetaItem>, GenerateError>) -> Result<
    Seq<ClientMetaItemModel>,
    GenerateErrorModel,
> {
    match r {
        Ok(items) => Ok(views(items@)),
        Err(e) => Err(e@),
    }
}

/// `found` before the entries of `rest`, where there are such.
pub open spec fn client_entries_then(
    found: Seq<ClientMetaItemModel>,
    rest: Result<Seq<ClientMetaItemModel>, GenerateErrorModel>,
) -> Result<Seq<ClientMetaItemModel>, GenerateErrorModel> {
    match rest {
        Ok(more) => Ok(found + more),
        Err(e) => Err(e),
    }
}

proof fn lemma_client_entries_then_push(
    found: Seq<ClientMetaItemModel>,
    item: ClientMetaItemModel,
    rest: Result<Seq<ClientMetaItemModel>, GenerateErrorModel>,
)
    ensures
        client_entries_then(found, client_entry_then(item, rest)) == client_entries_then(
            found.push(item),
            rest,
        ),
{
    match rest {
        Ok(more) => {
            assert(found + (seq![item] + more) == found.push(item) + more);
        },
        Err(e) => {},
    }
}

/// Reads the entries of a client annotation from its tokens.
pub fn parse_client_entries(tokens: &Vec<Token>) -> (r: Result<
    Vec<ClientMetaItem>,
    GenerateError,
>)
    ensures
        client_entries_result(r) == client_entries_of(views(tokens@)),
{
    let ghost all = views(tokens@);
    let mut found: Vec<ClientMetaItem> = Vec::new();
    let mut i: usize = 0;
    proof {
        assert(all.skip(0) == all);
        assert(views(found@) =~= Seq::<ClientMetaItemModel>::empty());
        match client_entries_of(all) {
            Ok(more) => {
                assert(Seq::<ClientMetaItemModel>::empty() + more == more);
            },
            Err(e) => {},
        }
    }
    while i < tokens.len()
        invariant
            i <= tokens.len(),
            all == views(tokens@),
            client_entries_of(all) == client_entries_then(
                views(found@),
                client_entries_of(all.skip(i as int)),
            ),
        decreases tokens.len() - i,
    {
        let ghost here = all.skip(i as int);
        let ghost before = views(found@);
        proof {
            assert(here[0] == tokens@[i as int]@);
        }
        let key = match &tokens[i] {
            Token::Ident(key) => key,
            other => {
                return Err(GenerateError::MalformedAttribute { key: other.to_text() });
            },
        };
        let ghost rest = here.skip(1);
        proof {
            assert(rest == all.skip(i + 1));
            if i + 1 < tokens.len() {
                assert(rest[0] == tokens@[i + 1]@);
            }
        }
        let value: ClientMetaValue;
        let end: usize;
        if i + 1 < tokens.len() && tokens[i + 1].is_char('=') {
            let ghost body = rest.skip(1);
            proof {
                assert(body == all.skip(i + 2));
                if i + 2 < tokens.len() {
                    assert(body[0] == tokens@[i + 2]@);
                }
                lemma_value_length(body, 0);
            }
            let mut literal: Option<String> = None;
            if i + 2 < tokens.len() {
                match &tokens[i + 2] {
                    Token::Str(s) => {
                        literal = Some(copy_text(s.as_str()));
                    },
                    _ => {},
                }
            }
            match literal {
                Some(s) => {
                    value = ClientMetaValue::Literal(s);
                    end = i + 3;
                    proof {
                        assert(body.skip(1) == all.skip(end as int));
                    }
                },
                None => {
                    value = ClientMetaValue::Other;
                    end = find_value_end(tokens, i + 2);
                    proof {
                        assert(body.skip(end - (i + 2)) == all.skip(end as int));
                    }
                },
            }
        } else if i + 1 < tokens.len() && tokens[i + 1].is_char('(') {
            let ghost body = rest.skip(1);
            proof {
                assert(body == all.skip(i + 2));
                lemma_group_length(body, 0);
            }
            let close = find_group_end(tokens, i + 2);
            if close >= tokens.len() {
                return Err(GenerateError::MalformedAttribute { key: copy_text(key.as_str()) });
            }
            proof {
                assert(body.take(close - (i + 2)) == all.subrange(i + 2, close as int));
                assert(body.skip(close - (i + 2) + 1) == all.skip(close + 1));
            }
            match parse_request_mappings(tokens, i + 2, close) {
                Ok(mappings) => {
                    value = ClientMetaValue::Mappings(mappings);
                    end = close + 1;
                },
                Err(e) => {
                    return Err(e);
                },
            }
        } else {
            value = ClientMetaValue::Other;
            end = i + 1;
        }
        let item = ClientMetaItem { key: copy_text(key.as_str()), value };
        let ghost after = all.skip(end as int);
        proof {
            lemma_views_push(found@, item);
            lemma_client_entries_then_push(before, item@, client_entries_of(past_comma(after)));
            if end < tokens.len() {
                assert(after[0] == tokens@[end as int]@);
                assert(after.skip(1) == all.skip(end + 1));
            }
        }
        found.push(item);
        i = if end < tokens.len() && tokens[end].is_char(',') {
            end + 1
        } else {
            end
        };
    }
    proof {
        assert(all.skip(tokens.len() as int) =~= Seq::<TokenModel>::empty());
        assert(views(found@) + Seq::<ClientMetaItemModel>::empty() == views(found@));
    }
    Ok(found)
}

} // verus!
