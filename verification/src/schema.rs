//! Request descriptors: what a request type declares, normalized.
//!
//! A `TypeDefinition` holds what stands in the source: a name, a shape,
//! annotations and fields. `generate_request_builder` turns it into a `RequestDescriptor`,
//! which says for every field where it travels, under which name, how its
//! slot is resolved when the request is built, and which validator guards it.

use crate::attributes::{
    field_attributes_of, field_result, field_told, is_path_syntax, is_type_syntax,
    parse_field_attributes_with, parse_struct_attributes_with, request_builder_name,
    struct_attributes_of, struct_result, struct_told, FieldKind, StructAttributes,
    StructAttributesModel,
};
use crate::error::{GenerateError, GenerateErrorModel};
use crate::meta::{
    collect_items, copy_opt_text, copy_text, items_named, lemma_views_push, opt_ref_text,
    opt_text, views,
    Attribute, AttributeModel, MetaItem, MetaItemModel, MetaValue, MetaValueModel,
};
use crate::naming::{builder_name, builder_name_of, snake_to_title_case, title_case};
use crate::template::{extract_path_params, path_params};
use crate::text::{index_of, lemma_index_of_is, same_text, texts};
use crate::value::{opt_value, zero_of, zero_value, FieldValue, ValueModel};
use vstd::prelude::*;

verus! {

/// What kind of type an annotation stands on.
#[derive(Debug, Clone, Copy, PartialEq, Eq, Structural)]
pub enum Shape {
    /// A struct with named fields, possibly none.
    NamedStruct,
    /// A struct without fields and without braces.
    UnitStruct,
    /// A struct with unnamed fields.
    TupleStruct,
    /// An enum.
    Enum,
    /// A union.
    Union,
}

/// A type written as a path, such as `Option<u32>` or `std::string::String`.
#[derive(Debug, PartialEq, Eq)]
pub struct TypePath {
    /// Whether the path is qualified by a type, as in `<T as Trait>::Item`.
    pub qualified: bool,
    /// The identifiers of the segments, in order.
    pub segments: Vec<String>,
    /// The first argument between the angle brackets of the last segment,
    /// where there is one and it is a type.
    pub first_argument: Option<String>,
}

/// The type of a field, as far as it matters here.
#[derive(Debug, PartialEq, Eq)]
pub enum FieldType {
    /// A type written as a path.
    Path(TypePath),
    /// Any other type: a reference, a tuple, an array and so on.
    Other,
}

/// The model of a `TypePath`.
pub struct TypePathModel {
    pub qualified: bool,
    pub segments: Seq<Seq<char>>,
    pub first_argument: Option<Seq<char>>,
}

/// The model of a `FieldType`.
pub enum FieldTypeModel {
    Path(TypePathModel),
    Other,
}

impl View for TypePath {
    type V = TypePathModel;

    open spec fn view(&self) -> TypePathModel {
        TypePathModel {
            qualified: self.qualified,
            segments: texts(self.segments@),
            first_argument: opt_text(self.first_argument),
        }
    }
}

impl View for FieldType {
    type V = FieldTypeModel;

    open spec fn view(&self) -> FieldTypeModel {
        match self {
            FieldType::Path(p) => FieldTypeModel::Path(p@),
            FieldType::Other => FieldTypeModel::Other,
        }
    }
}

/// One field as it stands in the source.
#[derive(Debug, PartialEq, Eq)]
pub struct FieldDefinition {
    pub name: String,
    pub ty: FieldType,
    pub attrs: Vec<Attribute>,
    /// The default value of the field's type, where the caller knows it.
    pub default_value: Option<FieldValue>,
}

/// The model of a `FieldDefinition`.
pub struct FieldDefinitionModel {
    pub name: Seq<char>,
    pub ty: FieldTypeModel,
    pub attrs: Seq<AttributeModel>,
    pub default_value: Option<ValueModel>,
}

impl View for FieldDefinition {
    type V = FieldDefinitionModel;

    open spec fn view(&self) -> FieldDefinitionModel {
        FieldDefinitionModel {
            name: self.name@,
            ty: self.ty@,
            attrs: views(self.attrs@),
            default_value: opt_value(self.default_value),
        }
    }
}

/// An annotated type as it stands in the source.
#[derive(Debug, PartialEq, Eq)]
pub struct TypeDefinition {
    pub name: String,
    pub shape: Shape,
    pub attrs: Vec<Attribute>,
    pub fields: Vec<FieldDefinition>,
}

/// The model of a `TypeDefinition`.
pub struct TypeDefinitionModel {
    pub name: Seq<char>,
    pub shape: Shape,
    pub attrs: Seq<AttributeModel>,
    pub fields: Seq<FieldDefinitionModel>,
}

impl View for TypeDefinition {
    type V = TypeDefinitionModel;

    open spec fn view(&self) -> TypeDefinitionModel {
        TypeDefinitionModel {
            name: self.name@,
            shape: self.shape,
            attrs: views(self.attrs@),
            fields: views(self.fields@),
        }
    }
}

/// How the slot of a field is resolved when the request is built.
#[derive(Debug, PartialEq, Eq)]
pub enum Extraction {
    /// The field is optional: its slot is passed on as it is.
    PassThrough,
    /// An unset slot takes this value, the default of the field's type.
    UseDefault(FieldValue),
    /// An unset slot is an error.
    Required,
}

/// The model of an `Extraction`.
pub enum ExtractionModel {
    PassThrough,
    UseDefault(ValueModel),
    Required,
}

impl View for Extraction {
    type V = ExtractionModel;

    open spec fn view(&self) -> ExtractionModel {
        match self {
            Extraction::PassThrough => ExtractionModel::PassThrough,
            Extraction::UseDefault(v) => ExtractionModel::UseDefault(v@),
            Extraction::Required => ExtractionModel::Required,
        }
    }
}

/// What is settled about one field of a request type.
#[derive(Debug, PartialEq, Eq)]
pub struct FieldDescriptor {
    /// The field's name.
    pub name: String,
    /// Whether the field's own type is optional.
    pub optional: bool,
    /// Where the field travels.
    pub kind: FieldKind,
    /// The key under which the field travels.
    pub wire_name: String,
    /// Whether the setter accepts convertible values.
    pub into: bool,
    /// How the slot is resolved when the request is built.
    pub extraction: Extraction,
    /// The validator that guards the field's value.
    pub validate: Option<String>,
}

/// The model of a `FieldDescriptor`.
pub struct FieldDescriptorModel {
    pub name: Seq<char>,
    pub optional: bool,
    pub kind: FieldKind,
    pub wire_name: Seq<char>,
    pub into: bool,
    pub extraction: ExtractionModel,
    pub validate: Option<Seq<char>>,
}

impl View for FieldDescriptor {
    type V = FieldDescriptorModel;

    open spec fn view(&self) -> FieldDescriptorModel {
        FieldDescriptorModel {
            name: self.name@,
            optional: self.optional,
            kind: self.kind,
            wire_name: self.wire_name@,
            into: self.into,
            extraction: self.extraction@,
            validate: opt_text(self.validate),
        }
    }
}

/// What is settled about a request type.
#[derive(Debug, PartialEq, Eq)]
pub struct RequestDescriptor {
    /// The name of the request type.
    pub name: String,
    /// The name of its builder.
    pub builder_name: String,
    /// The HTTP method; `GET` where none is declared.
    pub method: String,
    /// The URL path template, where one is declared.
    pub path: Option<String>,
    /// The declared response type.
    pub response: Option<String>,
    /// The expression that yields a custom query-string configuration.
    pub query_config: Option<String>,
    /// The fields, in declaration order.
    pub fields: Vec<FieldDescriptor>,
}

/// The model of a `RequestDescriptor`.
pub struct RequestDescriptorModel {
    pub name: Seq<char>,
    pub builder_name: Seq<char>,
    pub method: Seq<char>,
    pub path: Option<Seq<char>>,
    pub response: Option<Seq<char>>,
    pub query_config: Option<Seq<char>>,
    pub fields: Seq<FieldDescriptorModel>,
}

impl View for RequestDescriptor {
    type V = RequestDescriptorModel;

    open spec fn view(&self) -> RequestDescriptorModel {
        RequestDescriptorModel {
            name: self.name@,
            builder_name: self.builder_name@,
            method: self.method@,
            path: opt_text(self.path),
            response: opt_text(self.response),
            query_config: opt_text(self.query_config),
            fields: views(self.fields@),
        }
    }
}

/// Whether the segments spell `Option`, `std::option::Option` or
/// `core::option::Option`.
pub open spec fn is_option_path(segments: Seq<Seq<char>>) -> bool {
    ||| segments == seq!["Option"@]
    ||| segments == seq!["std"@, "option"@, "Option"@]
    ||| segments == seq!["core"@, "option"@, "Option"@]
}

/// The type inside `Option<..>`: for an unqualified path that spells
/// `Option`, the first type argument. Any other type has none.
pub open spec fn option_inner(ty: FieldTypeModel) -> Option<Seq<char>> {
    match ty {
        FieldTypeModel::Path(p) => if !p.qualified && is_option_path(p.segments) {
            p.first_argument
        } else {
            None
        },
        FieldTypeModel::Other => None,
    }
}

/// The default value of a type: that of its name, for an unqualified path of
/// one segment without arguments. Any other type has none here.
pub open spec fn zero_of_type(ty: FieldTypeModel) -> Option<ValueModel> {
    match ty {
        FieldTypeModel::Path(p) => if !p.qualified && p.segments.len() == 1 && p.first_argument
            is None {
            zero_of(p.segments[0])
        } else {
            None
        },
        FieldTypeModel::Other => None,
    }
}

/// The name of the attribute that holds serialization directives.
pub open spec fn serde_name() -> Seq<char> {
    "serde"@
}

/// The name that the serialization directives give a field: the literal of the
/// last `rename` entry.
pub open spec fn serde_rename(items: Seq<MetaItemModel>) -> Option<Seq<char>>
    decreases items.len(),
{
    if items.len() == 0 {
        None
    } else {
        match items.last().value {
            MetaValueModel::Literal(s) => if items.last().key == "rename"@ {
                Some(s)
            } else {
                serde_rename(items.drop_last())
            },
            _ => serde_rename(items.drop_last()),
        }
    }
}

/// The key under which a field travels.
///
/// An explicit name in the role annotation wins. Without one, a header is
/// named by the field's name in hyphenated title case; a query or body field
/// by its serialization rename, or else by its own name; any other field by
/// its own name.
pub open spec fn wire_name_of(
    name: Seq<char>,
    kind: FieldKind,
    rename: Option<Seq<char>>,
    serde: Option<Seq<char>>,
) -> Seq<char> {
    match kind {
        FieldKind::Header => match rename {
            Some(r) => r,
            None => title_case(name),
        },
        FieldKind::Query | FieldKind::Body => match rename {
            Some(r) => r,
            None => match serde {
                Some(r) => r,
                None => name,
            },
        },
        _ => name,
    }
}

/// The default value of a field: the one that comes with the field, or
/// else the default of its type, by the type's name.
pub open spec fn default_of(field: FieldDefinitionModel) -> Option<ValueModel> {
    match field.default_value {
        Some(v) => Some(v),
        None => zero_of_type(field.ty),
    }
}

/// The entries of a field's `request_builder` annotations.
pub open spec fn field_items(field: FieldDefinitionModel) -> Seq<MetaItemModel> {
    items_named(field.attrs, request_builder_name())
}

/// What is settled about one field, given the settings of its type and the
/// verdicts about the texts that its entries ask about.
///
/// The field's annotations are read first; their error is the field's error.
/// An optional field passes its slot through. Any other field falls back to
/// its default where the type or the field asks for defaults, which fails
/// where it has none, and is required otherwise. The setter converts where
/// the type or the field says `into`.
pub open spec fn describe_field(
    settings: StructAttributesModel,
    field: FieldDefinitionModel,
    verdicts: Seq<bool>,
) -> Result<FieldDescriptorModel, GenerateErrorModel> {
    match field_attributes_of(field_items(field), verdicts) {
        Err(e) => Err(e),
        Ok(fa) => {
            let optional = option_inner(field.ty) is Some;
            let wire = wire_name_of(
                field.name,
                fa.kind,
                fa.rename,
                serde_rename(items_named(field.attrs, serde_name())),
            );
            let made = |extraction: ExtractionModel|
                FieldDescriptorModel {
                    name: field.name,
                    optional,
                    kind: fa.kind,
                    wire_name: wire,
                    into: settings.into || fa.into,
                    extraction,
                    validate: fa.validate,
                };
            if optional {
                Ok(made(ExtractionModel::PassThrough))
            } else if settings.default || fa.default {
                match default_of(field) {
                    Some(z) => Ok(made(ExtractionModel::UseDefault(z))),
                    None => Err(GenerateErrorModel::NoDefault { field: field.name }),
                }
            } else {
                Ok(made(ExtractionModel::Required))
            }
        },
    }
}

/// What is settled about the first `n` fields, in declaration order, where
/// `verdicts` holds the verdicts of each field; the error of the first field
/// that fails.
pub open spec fn describe_fields_upto(
    settings: StructAttributesModel,
    fields: Seq<FieldDefinitionModel>,
    verdicts: Seq<Seq<bool>>,
    n: nat,
) -> Result<Seq<FieldDescriptorModel>, GenerateErrorModel>
    decreases n,
{
    if n == 0 {
        Ok(Seq::empty())
    } else {
        match describe_fields_upto(settings, fields, verdicts, (n - 1) as nat) {
            Err(e) => Err(e),
            Ok(before) => match describe_field(settings, fields[n - 1], verdicts[n - 1]) {
                Err(e) => Err(e),
                Ok(f) => Ok(before.push(f)),
            },
        }
    }
}

/// What is settled about all fields.
pub open spec fn describe_fields(
    settings: StructAttributesModel,
    fields: Seq<FieldDefinitionModel>,
    verdicts: Seq<Seq<bool>>,
) -> Result<Seq<FieldDescriptorModel>, GenerateErrorModel> {
    describe_fields_upto(settings, fields, verdicts, fields.len())
}

/// What is settled about the fields up to `n` depends on the verdicts of the
/// fields before `n` alone.
pub proof fn lemma_describe_fields_prefix(
    settings: StructAttributesModel,
    fields: Seq<FieldDefinitionModel>,
    first: Seq<Seq<bool>>,
    second: Seq<Seq<bool>>,
    n: nat,
)
    requires
        forall|i: int| 0 <= i < n ==> first[i] == second[i],
    ensures
        describe_fields_upto(settings, fields, first, n) == describe_fields_upto(
            settings,
            fields,
            second,
            n,
        ),
    decreases n,
{
    if n > 0 {
        lemma_describe_fields_prefix(settings, fields, first, second, (n - 1) as nat);
    }
}

/// The names of the fields, in declaration order.
pub open spec fn field_names(fields: Seq<FieldDescriptorModel>) -> Seq<Seq<char>> {
    Seq::new(fields.len(), |i: int| fields[i].name)
}

/// The index of the first field called `name`, or the number of fields where
/// there is none.
pub open spec fn field_index(fields: Seq<FieldDescriptorModel>, name: Seq<char>) -> int {
    index_of(field_names(fields), name)
}

/// Whether some field is called `name`.
pub open spec fn has_field(fields: Seq<FieldDescriptorModel>, name: Seq<char>) -> bool {
    field_index(fields, name) < fields.len()
}

/// The first field, in declaration order, whose name an earlier field
/// carries already.
pub open spec fn first_duplicate(fields: Seq<FieldDescriptorModel>) -> Option<Seq<char>>
    decreases fields.len(),
{
    if fields.len() == 0 {
        None
    } else {
        match first_duplicate(fields.drop_last()) {
            Some(n) => Some(n),
            None => if has_field(fields.drop_last(), fields.last().name) {
                Some(fields.last().name)
            } else {
                None
            },
        }
    }
}

/// The first placeholder, in order of appearance, that no field is named
/// after.
pub open spec fn first_unmatched(params: Seq<Seq<char>>, fields: Seq<FieldDescriptorModel>)
    -> Option<Seq<char>>
    decreases params.len(),
{
    if params.len() == 0 {
        None
    } else {
        match first_unmatched(params.drop_last(), fields) {
            Some(p) => Some(p),
            None => if has_field(fields, params.last()) {
                None
            } else {
                Some(params.last())
            },
        }
    }
}

/// The first field, in declaration order, that is marked as path parameter
/// although no placeholder carries its name.
pub open spec fn first_stray(fields: Seq<FieldDescriptorModel>, params: Seq<Seq<char>>)
    -> Option<Seq<char>>
    decreases fields.len(),
{
    if fields.len() == 0 {
        None
    } else {
        match first_stray(fields.drop_last(), params) {
            Some(n) => Some(n),
            None => if fields.last().kind == FieldKind::Path && !params.contains(
                fields.last().name,
            ) {
                Some(fields.last().name)
            } else {
                None
            },
        }
    }
}

/// What is wrong between a template and the fields, if anything: first an
/// unmatched placeholder, then a stray path field. Without a template nothing
/// is wrong.
pub open spec fn template_fault(path: Option<Seq<char>>, fields: Seq<FieldDescriptorModel>)
    -> Option<GenerateErrorModel> {
    match path {
        None => None,
        Some(t) => match first_unmatched(path_params(t), fields) {
            Some(p) => Some(GenerateErrorModel::UnmatchedPathParameter { param: p }),
            None => match first_stray(fields, path_params(t)) {
                Some(n) => Some(GenerateErrorModel::PathFieldNotInTemplate { field: n }),
                None => None,
            },
        },
    }
}

/// The HTTP method of a request type that declares none.
pub open spec fn default_method() -> Seq<char> {
    "GET"@
}

/// The entries of a type's `request_builder` annotations.
pub open spec fn type_items(def: TypeDefinitionModel) -> Seq<MetaItemModel> {
    items_named(def.attrs, request_builder_name())
}

/// The descriptor of an annotated type, or why there is none, given the
/// verdicts about the texts that the entries of the type and of each field
/// ask about.
///
/// In this order: the type's annotations must parse; the type must be a
/// struct with named fields or without fields; every field must be described
/// without error; no two fields may share a name; and template and fields must
/// fit together.
pub open spec fn generated(
    def: TypeDefinitionModel,
    type_verdicts: Seq<bool>,
    field_verdicts: Seq<Seq<bool>>,
) -> Result<RequestDescriptorModel, GenerateErrorModel> {
    match struct_attributes_of(type_items(def), type_verdicts) {
        Err(e) => Err(e),
        Ok(settings) => match def.shape {
            Shape::Enum | Shape::Union => Err(GenerateErrorModel::NotAStruct),
            Shape::TupleStruct => Err(GenerateErrorModel::UnnamedFields),
            Shape::NamedStruct | Shape::UnitStruct => match describe_fields(
                settings,
                def.fields,
                field_verdicts,
            ) {
                Err(e) => Err(e),
                Ok(fields) => match first_duplicate(fields) {
                    Some(n) => Err(GenerateErrorModel::DuplicateField { field: n }),
                    None => match template_fault(settings.path, fields) {
                        Some(e) => Err(e),
                        None => Ok(
                            RequestDescriptorModel {
                                name: def.name,
                                builder_name: builder_name_of(def.name),
                                method: match settings.method {
                                    Some(m) => m,
                                    None => default_method(),
                                },
                                path: settings.path,
                                response: settings.response,
                                query_config: settings.query_config,
                                fields,
                            },
                        ),
                    },
                },
            },
        },
    }
}

/// Every verdict about a field that counts is an answer of the checker: for
/// each of the first `n` fields that is reached without an earlier failure,
/// there is one verdict per entry, and every verdict that counts is an answer
/// of the checker.
pub open spec fn fields_told<F: Fn(&str) -> bool>(
    check: F,
    settings: StructAttributesModel,
    fields: Seq<FieldDefinitionModel>,
    verdicts: Seq<Seq<bool>>,
    n: nat,
) -> bool {
    forall|i: int|
        0 <= i < n && describe_fields_upto(settings, fields, verdicts, i as nat) is Ok ==> (
        #[trigger] verdicts[i]).len() == field_items(fields[i]).len() && field_told(
            check,
            field_items(fields[i]),
            verdicts[i],
            field_items(fields[i]).len(),
        )
}

/// What describing a field with a checker of the caller's choice may give:
/// there are verdicts, one per entry, such that every verdict that counts is
/// an answer of the checker, and the result is what is settled about the
/// field under them.
pub open spec fn field_described_with<F: Fn(&str) -> bool>(
    check: F,
    settings: StructAttributesModel,
    field: FieldDefinitionModel,
    r: Result<FieldDescriptor, GenerateError>,
) -> bool {
    exists|verdicts: Seq<bool>|
        verdicts.len() == field_items(field).len() && field_told(
            check,
            field_items(field),
            verdicts,
            field_items(field).len(),
        ) && #[trigger] describe_field(settings, field, verdicts) == field_descriptor_result(r)
}

/// What describing a field gives: what is settled about it under some
/// verdicts, one per entry.
pub open spec fn field_described(
    settings: StructAttributesModel,
    field: FieldDefinitionModel,
    r: Result<FieldDescriptor, GenerateError>,
) -> bool {
    exists|verdicts: Seq<bool>|
        verdicts.len() == field_items(field).len() && #[trigger] describe_field(
            settings,
            field,
            verdicts,
        ) == field_descriptor_result(r)
}

/// What describing a type with checkers of the caller's choice may give:
/// there are verdicts, one per entry of the type and of each field, such that
/// every verdict that counts is an answer of its checker, and the result is
/// the descriptor that is generated under them. The fields count where the
/// type's annotations are read without error and the type is a struct with
/// named fields or without fields.
pub open spec fn described_with<F: Fn(&str) -> bool, G: Fn(&str) -> bool>(
    is_type: F,
    is_path: G,
    def: TypeDefinitionModel,
    r: Result<RequestDescriptor, GenerateError>,
) -> bool {
    exists|type_verdicts: Seq<bool>, field_verdicts: Seq<Seq<bool>>|
        type_verdicts.len() == type_items(def).len() && field_verdicts.len() == def.fields.len()
            && struct_told(is_type, type_items(def), type_verdicts, type_items(def).len()) && (
        struct_attributes_of(type_items(def), type_verdicts) is Ok && (def.shape
            == Shape::NamedStruct || def.shape == Shape::UnitStruct) ==> fields_told(
            is_path,
            struct_attributes_of(type_items(def), type_verdicts)->Ok_0,
            def.fields,
            field_verdicts,
            def.fields.len(),
        )) && #[trigger] generated(def, type_verdicts, field_verdicts) == descriptor_result(r)
}

/// What describing a type gives: the descriptor that is generated under some
/// verdicts, one per entry of the type and of each field.
pub open spec fn described(def: TypeDefinitionModel, r: Result<RequestDescriptor, GenerateError>)
    -> bool {
    exists|type_verdicts: Seq<bool>, field_verdicts: Seq<Seq<bool>>|
        type_verdicts.len() == type_items(def).len() && field_verdicts.len() == def.fields.len()
            && #[trigger] generated(def, type_verdicts, field_verdicts) == descriptor_result(r)
}

/// A descriptor is well formed where no two fields share a name and template
/// and fields fit together.
pub open spec fn well_formed(d: RequestDescriptorModel) -> bool {
    first_duplicate(d.fields) is None && template_fault(d.path, d.fields) is None
}

fn spells_option(segments: &Vec<String>) -> (r: bool)
    ensures
        r == is_option_path(texts(segments@)),
{
    let n = segments.len();
    let ghost segs = texts(segments@);
    let ghost bare = seq!["Option"@];
    let ghost std_path = seq!["std"@, "option"@, "Option"@];
    let ghost core_path = seq!["core"@, "option"@, "Option"@];
    proof {
        assert(bare.len() == 1 && bare[0] == "Option"@);
        assert(std_path.len() == 3 && std_path[0] == "std"@ && std_path[1] == "option"@
            && std_path[2] == "Option"@);
        assert(core_path.len() == 3 && core_path[0] == "core"@ && core_path[1] == "option"@
            && core_path[2] == "Option"@);
        assert(is_option_path(segs) == (segs == bare || segs == std_path || segs == core_path));
    }
    if n == 1 {
        let r = same_text(segments[0].as_str(), "Option");
        proof {
            assert(segs[0] == segments@[0]@);
            if r {
                assert(segs =~= bare);
            }
        }
        r
    } else if n == 3 {
        let first = same_text(segments[0].as_str(), "std");
        let first_core = same_text(segments[0].as_str(), "core");
        let second = same_text(segments[1].as_str(), "option");
        let third = same_text(segments[2].as_str(), "Option");
        proof {
            assert(segs[0] == segments@[0]@ && segs[1] == segments@[1]@ && segs[2]
                == segments@[2]@);
            if first && second && third {
                assert(segs =~= std_path);
            }
            if first_core && second && third {
                assert(segs =~= core_path);
            }
        }
        (first || first_core) && second && third
    } else {
        false
    }
}

/// The type inside `Option<..>`, where `ty` is such a type.
///
/// `Option<T>`, `std::option::Option<T>` and `core::option::Option<T>` give
/// `T`; every other type gives nothing.
pub fn option_inner_type(ty: &FieldType) -> (r: Option<&String>)
    ensures
        opt_ref_text(r) == option_inner(ty@),
{
    match ty {
        FieldType::Path(p) => {
            if !p.qualified && spells_option(&p.segments) {
                p.first_argument.as_ref()
            } else {
                None
            }
        },
        FieldType::Other => None,
    }
}

fn zero_value_of(ty: &FieldType) -> (r: Option<FieldValue>)
    ensures
        opt_value(r) == zero_of_type(ty@),
{
    match ty {
        FieldType::Path(p) => {
            if !p.qualified && p.segments.len() == 1 && p.first_argument.is_none() {
                assert(texts(p.segments@)[0] == p.segments@[0]@);
                zero_value(p.segments[0].as_str())
            } else {
                None
            }
        },
        FieldType::Other => None,
    }
}

fn find_serde_rename(items: &Vec<MetaItem>) -> (r: Option<String>)
    ensures
        opt_text(r) == serde_rename(views(items@)),
{
    let mut found: Option<String> = None;
    let mut i: usize = 0;
    proof {
        assert(views(items@).take(0) =~= Seq::<MetaItemModel>::empty());
    }
    while i < items.len()
        invariant
            i <= items.len(),
            opt_text(found) == serde_rename(views(items@).take(i as int)),
        decreases items.len() - i,
    {
        proof {
            let next = views(items@).take(i + 1);
            assert(next.drop_last() == views(items@).take(i as int));
            assert(next.last() == items@[i as int]@);
        }
        match &items[i].value {
            MetaValue::Literal(s) => {
                if same_text(items[i].key.as_str(), "rename") {
                    found = Some(copy_text(s.as_str()));
                }
            },
            _ => {},
        }
        i += 1;
    }
    proof {
        assert(views(items@).take(items.len() as int) == views(items@));
    }
    found
}

fn wire_name(name: &str, kind: FieldKind, rename: &Option<String>, serde: &Option<String>) -> (r:
    String)
    ensures
        r@ == wire_name_of(name@, kind, opt_text(*rename), opt_text(*serde)),
{
    match kind {
        FieldKind::Header => match rename {
            Some(r) => copy_text(r.as_str()),
            None => snake_to_title_case(name),
        },
        FieldKind::Query | FieldKind::Body => match rename {
            Some(r) => copy_text(r.as_str()),
            None => match serde {
                Some(r) => copy_text(r.as_str()),
                None => copy_text(name),
            },
        },
        _ => copy_text(name),
    }
}

/// The view of the result of describing a field.
pub open spec fn field_descriptor_result(r: Result<FieldDescriptor, GenerateError>) -> Result<
    FieldDescriptorModel,
    GenerateErrorModel,
> {
    match r {
        Ok(f) => Ok(f@),
        Err(e) => Err(e@),
    }
}

/// The view of the result of describing a type.
pub open spec fn descriptor_result(r: Result<RequestDescriptor, GenerateError>) -> Result<
    RequestDescriptorModel,
    GenerateErrorModel,
> {
    match r {
        Ok(d) => Ok(d@),
        Err(e) => Err(e@),
    }
}

fn default_value_of(field: &FieldDefinition) -> (r: Option<FieldValue>)
    ensures
        opt_value(r) == default_of(field@),
{
    match &field.default_value {
        Some(v) => Some(v.duplicate()),
        None => zero_value_of(&field.ty),
    }
}

/// Settles what one field declares, given the settings of its type, asking
/// `check` whether the literal of a `validate` entry is a path.
pub fn generate_field_with<F: Fn(&str) -> bool>(
    settings: &StructAttributes,
    field: &FieldDefinition,
    check: &F,
) -> (r: Result<FieldDescriptor, GenerateError>)
    requires
        forall|s: &str| call_requires(*check, (s,)),
    ensures
        field_described_with(*check, settings@, field@, r),
{
    let parsed = parse_field_attributes_with(&field.attrs, check);
    let ghost verdicts = choose|verdicts: Seq<bool>|
        verdicts.len() == field_items(field@).len() && field_told(
            *check,
            field_items(field@),
            verdicts,
            field_items(field@).len(),
        ) && #[trigger] field_attributes_of(field_items(field@), verdicts) == field_result(
            parsed,
        );
    let fa = match parsed {
        Ok(fa) => fa,
        Err(e) => {
            let r = Err(e);
            assert(describe_field(settings@, field@, verdicts) == field_descriptor_result(r));
            return r;
        },
    };
    let optional = option_inner_type(&field.ty).is_some();
    let serde_items = collect_items(&field.attrs, "serde");
    let serde = find_serde_rename(&serde_items);
    let wire = wire_name(field.name.as_str(), fa.kind, &fa.rename, &serde);
    let extraction = if optional {
        Extraction::PassThrough
    } else if settings.default || fa.default {
        match default_value_of(field) {
            Some(z) => Extraction::UseDefault(z),
            None => {
                let r = Err(GenerateError::NoDefault { field: copy_text(field.name.as_str()) });
                assert(describe_field(settings@, field@, verdicts) == field_descriptor_result(r));
                return r;
            },
        }
    } else {
        Extraction::Required
    };
    let r = Ok(
        FieldDescriptor {
            name: copy_text(field.name.as_str()),
            optional,
            kind: fa.kind,
            wire_name: wire,
            into: settings.into || fa.into,
            extraction,
            validate: copy_opt_text(&fa.validate),
        },
    );
    assert(describe_field(settings@, field@, verdicts) == field_descriptor_result(r));
    r
}

/// Settles what one field declares, given the settings of its type. Whether
/// the literal of a `validate` entry is a path is for Rust's own syntax to
/// say.
pub fn generate_field(settings: &StructAttributes, field: &FieldDefinition) -> (r: Result<
    FieldDescriptor,
    GenerateError,
>)
    ensures
        field_described(settings@, field@, r),
{
    let r = generate_field_with(settings, field, &is_path_syntax);
    proof {
        let verdicts = choose|verdicts: Seq<bool>|
            verdicts.len() == field_items(field@).len() && field_told(
                is_path_syntax,
                field_items(field@),
                verdicts,
                field_items(field@).len(),
            ) && #[trigger] describe_field(settings@, field@, verdicts)
                == field_descriptor_result(r);
        assert(describe_field(settings@, field@, verdicts) == field_descriptor_result(r));
    }
    r
}

/// The index of the first field called `name`, or the number of fields where
/// there is none.
pub fn find_field(fields: &Vec<FieldDescriptor>, name: &str) -> (i: usize)
    ensures
        i == field_index(views(fields@), name@),
        i <= fields.len(),
{
    let ghost names = field_names(views(fields@));
    let mut i: usize = 0;
    while i < fields.len()
        invariant
            i <= fields.len(),
            names == field_names(views(fields@)),
            forall|k: int| 0 <= k < i ==> names[k] != name@,
        decreases fields.len() - i,
    {
        if same_text(fields[i].name.as_str(), name) {
            proof {
                assert(names[i as int] == name@);
                lemma_index_of_is(names, name@, i as int);
            }
            return i;
        }
        i += 1;
    }
    proof {
        lemma_index_of_is(names, name@, i as int);
    }
    i
}

fn find_duplicate(fields: &Vec<FieldDescriptor>) -> (r: Option<String>)
    ensures
        opt_text(r) == first_duplicate(views(fields@)),
{
    let mut found: Option<String> = None;
    let mut i: usize = 0;
    proof {
        assert(views(fields@).take(0) =~= Seq::<FieldDescriptorModel>::empty());
    }
    while i < fields.len()
        invariant
            i <= fields.len(),
            opt_text(found) == first_duplicate(views(fields@).take(i as int)),
        decreases fields.len() - i,
    {
        let ghost front = views(fields@).take(i as int);
        proof {
            let next = views(fields@).take(i + 1);
            assert(next.drop_last() == front);
            assert(next.last() == fields@[i as int]@);
        }
        if found.is_none() {
            let name = fields[i].name.as_str();
            let mut k: usize = 0;
            let ghost names = field_names(front);
            while k < i && !same_text(fields[k].name.as_str(), name)
                invariant
                    k <= i,
                    i < fields.len(),
                    names == field_names(front),
                    front == views(fields@).take(i as int),
                    forall|j: int| 0 <= j < k ==> names[j] != name@,
                decreases i - k,
            {
                k += 1;
            }
            proof {
                if k < i {
                    assert(names[k as int] == fields@[k as int]@.name);
                }
                lemma_index_of_is(names, name@, k as int);
            }
            if k < i {
                found = Some(copy_text(name));
            }
        }
        i += 1;
    }
    proof {
        assert(views(fields@).take(fields.len() as int) == views(fields@));
    }
    found
}

fn find_unmatched(params: &Vec<String>, fields: &Vec<FieldDescriptor>) -> (r: Option<String>)
    ensures
        opt_text(r) == first_unmatched(texts(params@), views(fields@)),
{
    let mut found: Option<String> = None;
    let mut i: usize = 0;
    proof {
        assert(texts(params@).take(0) =~= Seq::<Seq<char>>::empty());
    }
    while i < params.len()
        invariant
            i <= params.len(),
            opt_text(found) == first_unmatched(texts(params@).take(i as int), views(fields@)),
        decreases params.len() - i,
    {
        proof {
            let next = texts(params@).take(i + 1);
            assert(next.drop_last() == texts(params@).take(i as int));
            assert(next.last() == params@[i as int]@);
        }
        if found.is_none() {
            let at = find_field(fields, params[i].as_str());
            if at >= fields.len() {
                found = Some(copy_text(params[i].as_str()));
            }
        }
        i += 1;
    }
    proof {
        assert(texts(params@).take(params.len() as int) == texts(params@));
    }
    found
}

fn holds_text(list: &Vec<String>, text: &str) -> (r: bool)
    ensures
        r == texts(list@).contains(text@),
{
    let mut i: usize = 0;
    while i < list.len()
        invariant
            i <= list.len(),
            forall|k: int| 0 <= k < i ==> texts(list@)[k] != text@,
        decreases list.len() - i,
    {
        if same_text(list[i].as_str(), text) {
            assert(texts(list@)[i as int] == text@);
            return true;
        }
        i += 1;
    }
    false
}

fn find_stray(fields: &Vec<FieldDescriptor>, params: &Vec<String>) -> (r: Option<String>)
    ensures
        opt_text(r) == first_stray(views(fields@), texts(params@)),
{
    let mut found: Option<String> = None;
    let mut i: usize = 0;
    proof {
        assert(views(fields@).take(0) =~= Seq::<FieldDescriptorModel>::empty());
    }
    while i < fields.len()
        invariant
            i <= fields.len(),
            opt_text(found) == first_stray(views(fields@).take(i as int), texts(params@)),
        decreases fields.len() - i,
    {
        proof {
            let next = views(fields@).take(i + 1);
            assert(next.drop_last() == views(fields@).take(i as int));
            assert(next.last() == fields@[i as int]@);
        }
        if found.is_none() && fields[i].kind == FieldKind::Path && !holds_text(
            params,
            fields[i].name.as_str(),
        ) {
            found = Some(copy_text(fields[i].name.as_str()));
        }
        i += 1;
    }
    proof {
        assert(views(fields@).take(fields.len() as int) == views(fields@));
    }
    found
}

fn find_template_fault(path: &Option<String>, fields: &Vec<FieldDescriptor>) -> (r: Option<
    GenerateError,
>)
    ensures
        match r {
            Some(e) => template_fault(opt_text(*path), views(fields@)) == Some(e@),
            None => template_fault(opt_text(*path), views(fields@)) is None,
        },
{
    match path {
        None => None,
        Some(t) => {
            let params = extract_path_params(t.as_str());
            match find_unmatched(&params, fields) {
                Some(p) => Some(GenerateError::UnmatchedPathParameter { param: p }),
                None => match find_stray(fields, &params) {
                    Some(n) => Some(GenerateError::PathFieldNotInTemplate { field: n }),
                    None => None,
                },
            }
        },
    }
}

/// Describes an annotated type, asking `is_type` whether the tokens of a
/// `response` entry are a type and `is_path` whether the literal of a
/// `validate` entry is a path.
///
/// Fails on the first thing that is wrong, in this order: an unsupported or
/// malformed annotation of the type; a type that is no struct, or a struct
/// with unnamed fields; the first field with an unsupported or malformed
/// annotation, or with a default that it does not have; a field name that
/// occurs twice; a placeholder that no field is named after; a path field
/// that the template does not mention. After a failure no checker is asked.
pub fn generate_request_builder_with<F: Fn(&str) -> bool, G: Fn(&str) -> bool>(
    input: &TypeDefinition,
    is_type: &F,
    is_path: &G,
) -> (r: Result<RequestDescriptor, GenerateError>)
    requires
        forall|s: &str| call_requires(*is_type, (s,)),
        forall|s: &str| call_requires(*is_path, (s,)),
    ensures
        described_with(*is_type, *is_path, input@, r),
        r matches Ok(d) ==> well_formed(d@),
{
    let ghost def = input@;
    let parsed = parse_struct_attributes_with(&input.attrs, is_type);
    let ghost type_verdicts = choose|verdicts: Seq<bool>|
        verdicts.len() == type_items(def).len() && struct_told(
            *is_type,
            type_items(def),
            verdicts,
            type_items(def).len(),
        ) && #[trigger] struct_attributes_of(type_items(def), verdicts) == struct_result(parsed);
    let ghost none = Seq::new(def.fields.len(), |i: int| Seq::<bool>::empty());
    let settings = match parsed {
        Ok(s) => s,
        Err(e) => {
            let r = Err(e);
            assert(generated(def, type_verdicts, none) == descriptor_result(r));
            return r;
        },
    };
    match input.shape {
        Shape::Enum | Shape::Union => {
            let r = Err(GenerateError::NotAStruct);
            assert(generated(def, type_verdicts, none) == descriptor_result(r));
            return r;
        },
        Shape::TupleStruct => {
            let r = Err(GenerateError::UnnamedFields);
            assert(generated(def, type_verdicts, none) == descriptor_result(r));
            return r;
        },
        _ => {},
    }
    let mut described: Result<Vec<FieldDescriptor>, GenerateError> = Ok(Vec::new());
    let ghost mut field_verdicts: Seq<Seq<bool>> = Seq::empty();
    let mut i: usize = 0;
    proof {
        assert(views(Seq::<FieldDescriptor>::empty()) =~= Seq::<FieldDescriptorModel>::empty());
    }
    while i < input.fields.len()
        invariant
            i <= input.fields.len(),
            def == input@,
            forall|s: &str| call_requires(*is_path, (s,)),
            field_verdicts.len() == i,
            fields_told(*is_path, settings@, def.fields, field_verdicts, i as nat),
            match described {
                Ok(fs) => describe_fields_upto(settings@, def.fields, field_verdicts, i as nat)
                    == Ok::<Seq<FieldDescriptorModel>, GenerateErrorModel>(views(fs@)),
                Err(e) => describe_fields_upto(settings@, def.fields, field_verdicts, i as nat)
                    == Err::<Seq<FieldDescriptorModel>, GenerateErrorModel>(e@),
            },
        decreases input.fields.len() - i,
    {
        let ghost before = field_verdicts;
        let ghost mut verdicts: Seq<bool> = Seq::empty();
        proof {
            assert(def.fields[i as int] == input.fields@[i as int]@);
        }
        described =
        match described {
            Err(e) => Err(e),
            Ok(mut fs) => {
                let made = generate_field_with(&settings, &input.fields[i], is_path);
                proof {
                    let field = def.fields[i as int];
                    verdicts =
                    choose|verdicts: Seq<bool>|
                        verdicts.len() == field_items(field).len() && field_told(
                            *is_path,
                            field_items(field),
                            verdicts,
                            field_items(field).len(),
                        ) && #[trigger] describe_field(settings@, field, verdicts)
                            == field_descriptor_result(made);
                }
                match made {
                    Err(e) => Err(e),
                    Ok(f) => {
                        proof {
                            lemma_views_push(fs@, f);
                        }
                        fs.push(f);
                        Ok(fs)
                    },
                }
            },
        };
        proof {
            field_verdicts = before.push(verdicts);
            lemma_describe_fields_prefix(settings@, def.fields, before, field_verdicts, i as nat);
            assert forall|k: int|
                0 <= k < i + 1 && describe_fields_upto(
                    settings@,
                    def.fields,
                    field_verdicts,
                    k as nat,
                ) is Ok implies (#[trigger] field_verdicts[k]).len() == field_items(
                def.fields[k],
            ).len() && field_told(
                *is_path,
                field_items(def.fields[k]),
                field_verdicts[k],
                field_items(def.fields[k]).len(),
            ) by {
                lemma_describe_fields_prefix(
                    settings@,
                    def.fields,
                    before,
                    field_verdicts,
                    k as nat,
                );
                if k < i {
                    assert(field_verdicts[k] == before[k]);
                }
            }
        }
        i += 1;
    }
    let ghost outcome = generated(def, type_verdicts, field_verdicts);
    let fields = match described {
        Ok(fs) => fs,
        Err(e) => {
            let r = Err(e);
            assert(outcome == descriptor_result(r));
            return r;
        },
    };
    if let Some(n) = find_duplicate(&fields) {
        let r = Err(GenerateError::DuplicateField { field: n });
        assert(outcome == descriptor_result(r));
        return r;
    }
    if let Some(e) = find_template_fault(&settings.path, &fields) {
        let r = Err(e);
        assert(outcome == descriptor_result(r));
        return r;
    }
    let method = match &settings.method {
        Some(m) => copy_text(m.as_str()),
        None => copy_text("GET"),
    };
    let r = Ok(
        RequestDescriptor {
            name: copy_text(input.name.as_str()),
            builder_name: builder_name(input.name.as_str()),
            method,
            path: copy_opt_text(&settings.path),
            response: copy_opt_text(&settings.response),
            query_config: copy_opt_text(&settings.query_config),
            fields,
        },
    );
    assert(outcome == descriptor_result(r));
    r
}

/// Describes an annotated type: reads its annotations and those of its
/// fields, and settles how its requests are built. Whether the tokens of a
/// `response` entry are a type and the literal of a `validate` entry is a
/// path is for Rust's own syntax to say.
///
/// Fails on the first thing that is wrong, in this order: an unsupported or
/// malformed annotation of the type; a type that is no struct, or a struct
/// with unnamed fields; the first field with an unsupported or malformed
/// annotation, or with a default that it does not have; a field name that
/// occurs twice; a placeholder that no field is named after; a path field
/// that the template does not mention.
pub fn generate_request_builder(input: &TypeDefinition) -> (r: Result<
    RequestDescriptor,
    GenerateError,
>)
    ensures
        described(input@, r),
        r matches Ok(d) ==> well_formed(d@),
{
    let r = generate_request_builder_with(input, &is_type_syntax, &is_path_syntax);
    proof {
        let def = input@;
        let (type_verdicts, field_verdicts) = choose|
            type_verdicts: Seq<bool>,
            field_verdicts: Seq<Seq<bool>>,
        |
            type_verdicts.len() == type_items(def).len() && field_verdicts.len()
                == def.fields.len() && struct_told(
                is_type_syntax,
                type_items(def),
                type_verdicts,
                type_items(def).len(),
            ) && (struct_attributes_of(type_items(def), type_verdicts) is Ok && (def.shape
                == Shape::NamedStruct || def.shape == Shape::UnitStruct) ==> fields_told(
                is_path_syntax,
                struct_attributes_of(type_items(def), type_verdicts)->Ok_0,
                def.fields,
                field_verdicts,
                def.fields.len(),
            )) && #[trigger] generated(def, type_verdicts, field_verdicts) == descriptor_result(
                r,
            );
        assert(generated(def, type_verdicts, field_verdicts) == descriptor_result(r));
    }
    r
}

impl FieldType {
    /// The type written as the single identifier `name`, as in `u64`.
    pub fn named(name: &str) -> (r: FieldType)
        ensures
            r@ == FieldTypeModel::Path(
                TypePathModel { qualified: false, segments: seq![name@], first_argument: None },
            ),
    {
        let mut segments: Vec<String> = Vec::new();
        segments.push(copy_text(name));
        assert(texts(segments@) =~= seq![name@]);
        FieldType::Path(TypePath { qualified: false, segments, first_argument: None })
    }

    /// The type `Option<inner>`.
    pub fn option_of(inner: &str) -> (r: FieldType)
        ensures
            r@ == FieldTypeModel::Path(
                TypePathModel {
                    qualified: false,
                    segments: seq!["Option"@],
                    first_argument: Some(inner@),
                },
            ),
            option_inner(r@) == Some(inner@),
    {
        let mut segments: Vec<String> = Vec::new();
        segments.push(copy_text("Option"));
        assert(texts(segments@) =~= seq!["Option"@]);
        FieldType::Path(
            TypePath { qualified: false, segments, first_argument: Some(copy_text(inner)) },
        )
    }
}

impl FieldDefinition {
    /// The field called `name` of type `ty` with the attributes `attrs`.
    pub fn new(name: &str, ty: FieldType, attrs: Vec<Attribute>) -> (r: FieldDefinition)
        ensures
            r@ == (FieldDefinitionModel {
                name: name@,
                ty: ty@,
                attrs: views(attrs@),
                default_value: None,
            }),
    {
        FieldDefinition { name: copy_text(name), ty, attrs, default_value: None }
    }

    /// This field with `value` as the default value of its type.
    pub fn with_default(self, value: FieldValue) -> (r: FieldDefinition)
        ensures
            r@ == (FieldDefinitionModel { default_value: Some(value@), ..self@ }),
    {
        FieldDefinition {
            name: self.name,
            ty: self.ty,
            attrs: self.attrs,
            default_value: Some(value),
        }
    }
}

impl TypeDefinition {
    /// The struct called `name` with the named fields `fields` and the
    /// attributes `attrs`.
    pub fn named_struct(name: &str, attrs: Vec<Attribute>, fields: Vec<FieldDefinition>) -> (r:
        TypeDefinition)
        ensures
            r@ == (TypeDefinitionModel {
                name: name@,
                shape: Shape::NamedStruct,
                attrs: views(attrs@),
                fields: views(fields@),
            }),
    {
        TypeDefinition { name: copy_text(name), shape: Shape::NamedStruct, attrs, fields }
    }

    /// The unit struct called `name` with the attributes `attrs`.
    pub fn unit_struct(name: &str, attrs: Vec<Attribute>) -> (r: TypeDefinition)
        ensures
            r@ == (TypeDefinitionModel {
                name: name@,
                shape: Shape::UnitStruct,
                attrs: views(attrs@),
                fields: Seq::empty(),
            }),
    {
        let fields: Vec<FieldDefinition> = Vec::new();
        assert(views(fields@) =~= Seq::<FieldDefinitionModel>::empty());
        TypeDefinition { name: copy_text(name), shape: Shape::UnitStruct, attrs, fields }
    }
}

} // verus!
