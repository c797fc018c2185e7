//! The attribute parser: from the entries of `request_builder` annotations to
//! the settings of a request type and of each of its fields.

use crate::error::{GenerateError, GenerateErrorModel};
use crate::meta::{
    collect_items, copy_text, items_named, opt_ref_text, opt_text, views, Attribute, MetaItem,
    MetaItemModel, MetaValue, MetaValueModel,
};
use crate::text::same_text;
use vstd::prelude::*;

verus! {

/// Whether `text` parses as a path.
///
/// Trusted: the body calls `syn::parse_str::<syn::Path>`. Nothing is claimed
/// about the answer.
#[verifier::external_body]
pub(crate) fn is_path_syntax(text: &str) -> (r: bool) {
    syn::parse_str::<syn::Path>(text).is_ok()
}

/// Whether `text` parses as a type.
///
/// Trusted: the body calls `syn::parse_str::<syn::Type>`. Nothing is claimed
/// about the answer.
#[verifier::external_body]
pub(crate) fn is_type_syntax(text: &str) -> (r: bool) {
    syn::parse_str::<syn::Type>(text).is_ok()
}

/// Where a field goes in the request.
#[derive(Debug, Clone, Copy, PartialEq, Eq, Structural)]
pub enum FieldKind {
    /// No role was declared.
    Unspecified,
    /// The field fills a placeholder of the URL path.
    Path,
    /// The field goes into the query string.
    Query,
    /// The field goes into the JSON body.
    Body,
    /// The field becomes an HTTP header.
    Header,
}

/// The settings that the annotations of a request type declare.
#[derive(Debug, PartialEq, Eq)]
pub struct StructAttributes {
    /// Setters accept convertible values.
    pub into: bool,
    /// Unset fields fall back to their type's default value.
    pub default: bool,
    /// The HTTP method.
    pub method: Option<String>,
    /// The URL path template.
    pub path: Option<String>,
    /// The expression that yields a custom query-string configuration.
    pub query_config: Option<String>,
    /// The declared response type.
    pub response: Option<String>,
}

/// The model of `StructAttributes`.
pub struct StructAttributesModel {
    pub into: bool,
    pub default: bool,
    pub method: Option<Seq<char>>,
    pub path: Option<Seq<char>>,
    pub query_config: Option<Seq<char>>,
    pub response: Option<Seq<char>>,
}

impl View for StructAttributes {
    type V = StructAttributesModel;

    open spec fn view(&self) -> StructAttributesModel {
        StructAttributesModel {
            into: self.into,
            default: self.default,
            method: opt_text(self.method),
            path: opt_text(self.path),
            query_config: opt_text(self.query_config),
            response: opt_text(self.response),
        }
    }
}

/// The settings that the annotations of one field declare.
#[derive(Debug, PartialEq, Eq)]
pub struct FieldAttributes {
    /// The setter accepts convertible values.
    pub into: bool,
    /// The field falls back to its type's default value when unset.
    pub default: bool,
    /// The path of the function that validates the field's value.
    pub validate: Option<String>,
    /// Where the field goes in the request.
    pub kind: FieldKind,
    /// The name under which the field travels, where it differs from the
    /// field's own.
    pub rename: Option<String>,
}

/// The model of `FieldAttributes`.
pub struct FieldAttributesModel {
    pub into: bool,
    pub default: bool,
    pub validate: Option<Seq<char>>,
    pub kind: FieldKind,
    pub rename: Option<Seq<char>>,
}

impl View for FieldAttributes {
    type V = FieldAttributesModel;

    open spec fn view(&self) -> FieldAttributesModel {
        FieldAttributesModel {
            into: self.into,
            default: self.default,
            validate: opt_text(self.validate),
            kind: self.kind,
            rename: opt_text(self.rename),
        }
    }
}

/// The name of the attribute that this parser reads.
pub open spec fn request_builder_name() -> Seq<char> {
    "request_builder"@
}

/// The settings before any entry is read.
pub open spec fn no_struct_attributes() -> StructAttributesModel {
    StructAttributesModel {
        into: false,
        default: false,
        method: None,
        path: None,
        query_config: None,
        response: None,
    }
}

/// The settings before any entry is read.
pub open spec fn no_field_attributes() -> FieldAttributesModel {
    FieldAttributesModel {
        into: false,
        default: false,
        validate: None,
        kind: FieldKind::Unspecified,
        rename: None,
    }
}

/// The text about which the syntax of types is asked for a type-level
/// entry: the tokens of a `response` entry. No other entry asks.
pub open spec fn struct_asks(item: MetaItemModel) -> Option<Seq<char>> {
    match item.value {
        MetaValueModel::Tokens(t) => if item.key == "response"@ {
            Some(t)
        } else {
            None
        },
        _ => None,
    }
}

/// The text about which the syntax of paths is asked for a field-level entry:
/// the literal of a `validate` entry. No other entry asks.
pub open spec fn field_asks(item: MetaItemModel) -> Option<Seq<char>> {
    match item.value {
        MetaValueModel::Literal(s) => if item.key == "validate"@ {
            Some(s)
        } else {
            None
        },
        _ => None,
    }
}

/// What one type-level entry does to the settings read so far, where
/// `verdict` says whether the text that the entry asks about is a type.
///
/// `into` and `default` stand alone. `method`, `path` and `query_config` take
/// a string literal. `response` takes tokens that were judged a type. A
/// recognized key in any other form is malformed; any other key is
/// unsupported. The verdict counts for no other entry.
pub open spec fn apply_struct_item(
    acc: StructAttributesModel,
    item: MetaItemModel,
    verdict: bool,
) -> Result<StructAttributesModel, GenerateErrorModel> {
    let malformed = Err(GenerateErrorModel::MalformedAttribute { key: item.key });
    if item.key == "into"@ {
        match item.value {
            MetaValueModel::Absent => Ok(StructAttributesModel { into: true, ..acc }),
            _ => malformed,
        }
    } else if item.key == "method"@ {
        match item.value {
            MetaValueModel::Literal(s) => Ok(StructAttributesModel { method: Some(s), ..acc }),
            _ => malformed,
        }
    } else if item.key == "path"@ {
        match item.value {
            MetaValueModel::Literal(s) => Ok(StructAttributesModel { path: Some(s), ..acc }),
            _ => malformed,
        }
    } else if item.key == "response"@ {
        match item.value {
            MetaValueModel::Tokens(t) => if verdict {
                Ok(StructAttributesModel { response: Some(t), ..acc })
            } else {
                malformed
            },
            _ => malformed,
        }
    } else if item.key == "default"@ {
        match item.value {
            MetaValueModel::Absent => Ok(StructAttributesModel { default: true, ..acc }),
            _ => malformed,
        }
    } else if item.key == "query_config"@ {
        match item.value {
            MetaValueModel::Literal(s) => Ok(
                StructAttributesModel { query_config: Some(s), ..acc },
            ),
            _ => malformed,
        }
    } else {
        Err(GenerateErrorModel::UnsupportedAttribute { key: item.key })
    }
}

/// The role that a role key declares.
pub open spec fn role_of(key: Seq<char>) -> Option<FieldKind> {
    if key == "query"@ {
        Some(FieldKind::Query)
    } else if key == "body"@ {
        Some(FieldKind::Body)
    } else if key == "header"@ {
        Some(FieldKind::Header)
    } else {
        None
    }
}

/// What one field-level entry does to the settings read so far, where
/// `verdict` says whether the text that the entry asks about is a path.
///
/// `into`, `default` and `path` stand alone. `query`, `body` and `header`
/// stand alone or take a string literal, the name under which the field
/// travels. `validate` takes a string literal that was judged a path. A
/// recognized key in any other form is malformed; any other key is
/// unsupported. The verdict counts for no other entry.
pub open spec fn apply_field_item(
    acc: FieldAttributesModel,
    item: MetaItemModel,
    verdict: bool,
) -> Result<FieldAttributesModel, GenerateErrorModel> {
    let malformed = Err(GenerateErrorModel::MalformedAttribute { key: item.key });
    if item.key == "into"@ {
        match item.value {
            MetaValueModel::Absent => Ok(FieldAttributesModel { into: true, ..acc }),
            _ => malformed,
        }
    } else if item.key == "path"@ {
        match item.value {
            MetaValueModel::Absent => Ok(FieldAttributesModel { kind: FieldKind::Path, ..acc }),
            _ => malformed,
        }
    } else if role_of(item.key) is Some {
        match item.value {
            MetaValueModel::Absent => Ok(
                FieldAttributesModel { kind: role_of(item.key)->0, ..acc },
            ),
            MetaValueModel::Literal(s) => Ok(
                FieldAttributesModel { kind: role_of(item.key)->0, rename: Some(s), ..acc },
            ),
            MetaValueModel::Tokens(_) => malformed,
        }
    } else if item.key == "default"@ {
        match item.value {
            MetaValueModel::Absent => Ok(FieldAttributesModel { default: true, ..acc }),
            _ => malformed,
        }
    } else if item.key == "validate"@ {
        match item.value {
            MetaValueModel::Literal(s) => if verdict {
                Ok(FieldAttributesModel { validate: Some(s), ..acc })
            } else {
                malformed
            },
            _ => malformed,
        }
    } else {
        Err(GenerateErrorModel::UnsupportedFieldAttribute { key: item.key })
    }
}

/// The settings after the first `n` entries, read from the left, where the
/// verdicts say, entry by entry, whether the text asked about is a type: each
/// entry acts on what the entries before it left, and the first entry that
/// fails decides the error.
pub open spec fn struct_attributes_upto(
    items: Seq<MetaItemModel>,
    verdicts: Seq<bool>,
    n: nat,
) -> Result<StructAttributesModel, GenerateErrorModel>
    decreases n,
{
    if n == 0 {
        Ok(no_struct_attributes())
    } else {
        match struct_attributes_upto(items, verdicts, (n - 1) as nat) {
            Ok(acc) => apply_struct_item(acc, items[n - 1], verdicts[n - 1]),
            Err(e) => Err(e),
        }
    }
}

/// The settings after all entries.
pub open spec fn struct_attributes_of(items: Seq<MetaItemModel>, verdicts: Seq<bool>) -> Result<
    StructAttributesModel,
    GenerateErrorModel,
> {
    struct_attributes_upto(items, verdicts, items.len())
}

/// The settings after the first `n` entries, read from the left, where the
/// verdicts say, entry by entry, whether the text asked about is a path: each
/// entry acts on what the entries before it left, and the first entry that
/// fails decides the error.
pub open spec fn field_attributes_upto(
    items: Seq<MetaItemModel>,
    verdicts: Seq<bool>,
    n: nat,
) -> Result<FieldAttributesModel, GenerateErrorModel>
    decreases n,
{
    if n == 0 {
        Ok(no_field_attributes())
    } else {
        match field_attributes_upto(items, verdicts, (n - 1) as nat) {
            Ok(acc) => apply_field_item(acc, items[n - 1], verdicts[n - 1]),
            Err(e) => Err(e),
        }
    }
}

/// The settings after all entries.
pub open spec fn field_attributes_of(items: Seq<MetaItemModel>, verdicts: Seq<bool>) -> Result<
    FieldAttributesModel,
    GenerateErrorModel,
> {
    field_attributes_upto(items, verdicts, items.len())
}

/// The checker, asked about `text`, may answer with `verdict`.
pub open spec fn judged<F: Fn(&str) -> bool>(check: F, text: Seq<char>, verdict: bool) -> bool {
    exists|s: &str| s@ == text && #[trigger] call_ensures(check, (s,), verdict)
}

/// Every verdict that counts is an answer of the checker: for each of the
/// first `n` type-level entries that is reached without an earlier failure
/// and asks about a text, the checker may answer so when asked about that
/// text.
pub open spec fn struct_told<F: Fn(&str) -> bool>(
    check: F,
    items: Seq<MetaItemModel>,
    verdicts: Seq<bool>,
    n: nat,
) -> bool {
    forall|i: int|
        0 <= i < n && struct_attributes_upto(items, verdicts, i as nat) is Ok
            && (#[trigger] struct_asks(items[i])) is Some ==> judged(
            check,
            struct_asks(items[i])->0,
            verdicts[i],
        )
}

/// Every verdict that counts is an answer of the checker: for each of the
/// first `n` field-level entries that is reached without an earlier failure
/// and asks about a text, the checker may answer so when asked about that
/// text.
pub open spec fn field_told<F: Fn(&str) -> bool>(
    check: F,
    items: Seq<MetaItemModel>,
    verdicts: Seq<bool>,
    n: nat,
) -> bool {
    forall|i: int|
        0 <= i < n && field_attributes_upto(items, verdicts, i as nat) is Ok
            && (#[trigger] field_asks(items[i])) is Some ==> judged(
            check,
            field_asks(items[i])->0,
            verdicts[i],
        )
}

/// The settings up to `n` depend on the verdicts before `n` alone.
pub proof fn lemma_struct_attributes_prefix(
    items: Seq<MetaItemModel>,
    first: Seq<bool>,
    second: Seq<bool>,
    n: nat,
)
    requires
        forall|i: int| 0 <= i < n ==> first[i] == second[i],
    ensures
        struct_attributes_upto(items, first, n) == struct_attributes_upto(items, second, n),
    decreases n,
{
    if n > 0 {
        lemma_struct_attributes_prefix(items, first, second, (n - 1) as nat);
    }
}

/// The settings up to `n` depend on the verdicts before `n` alone.
pub proof fn lemma_field_attributes_prefix(
    items: Seq<MetaItemModel>,
    first: Seq<bool>,
    second: Seq<bool>,
    n: nat,
)
    requires
        forall|i: int| 0 <= i < n ==> first[i] == second[i],
    ensures
        field_attributes_upto(items, first, n) == field_attributes_upto(items, second, n),
    decreases n,
{
    if n > 0 {
        lemma_field_attributes_prefix(items, first, second, (n - 1) as nat);
    }
}

/// What reading type-level entries with a checker of the caller's choice may
/// give: there are verdicts, one per entry, such that every verdict that
/// counts is an answer of the checker, and the result is the settings that
/// the entries leave under them.
pub open spec fn struct_parsed_with<F: Fn(&str) -> bool>(
    check: F,
    items: Seq<MetaItemModel>,
    r: Result<StructAttributes, GenerateError>,
) -> bool {
    exists|verdicts: Seq<bool>|
        verdicts.len() == items.len() && struct_told(check, items, verdicts, items.len())
            && #[trigger] struct_attributes_of(items, verdicts) == struct_result(r)
}

/// What reading field-level entries with a checker of the caller's choice may
/// give: there are verdicts, one per entry, such that every verdict that
/// counts is an answer of the checker, and the result is the settings that
/// the entries leave under them.
pub open spec fn field_parsed_with<F: Fn(&str) -> bool>(
    check: F,
    items: Seq<MetaItemModel>,
    r: Result<FieldAttributes, GenerateError>,
) -> bool {
    exists|verdicts: Seq<bool>|
        verdicts.len() == items.len() && field_told(check, items, verdicts, items.len())
            && #[trigger] field_attributes_of(items, verdicts) == field_result(r)
}

/// What reading type-level entries gives: the settings that the entries leave
/// under some verdicts, one per entry.
pub open spec fn struct_parsed(
    items: Seq<MetaItemModel>,
    r: Result<StructAttributes, GenerateError>,
) -> bool {
    exists|verdicts: Seq<bool>|
        verdicts.len() == items.len() && #[trigger] struct_attributes_of(items, verdicts)
            == struct_result(r)
}

/// What reading field-level entries gives: the settings that the entries leave
/// under some verdicts, one per entry.
pub open spec fn field_parsed(
    items: Seq<MetaItemModel>,
    r: Result<FieldAttributes, GenerateError>,
) -> bool {
    exists|verdicts: Seq<bool>|
        verdicts.len() == items.len() && #[trigger] field_attributes_of(items, verdicts)
            == field_result(r)
}

/// The view of a parse result.
pub open spec fn struct_result(r: Result<StructAttributes, GenerateError>) -> Result<
    StructAttributesModel,
    GenerateErrorModel,
> {
    match r {
        Ok(a) => Ok(a@),
        Err(e) => Err(e@),
    }
}

/// The view of a parse result.
pub open spec fn field_result(r: Result<FieldAttributes, GenerateError>) -> Result<
    FieldAttributesModel,
    GenerateErrorModel,
> {
    match r {
        Ok(a) => Ok(a@),
        Err(e) => Err(e@),
    }
}

fn malformed(key: &String) -> (e: GenerateError)
    ensures
        e@ == (GenerateErrorModel::MalformedAttribute { key: key@ }),
{
    GenerateError::MalformedAttribute { key: copy_text(key.as_str()) }
}

/// What one type-level entry does to the settings read so far, given the
/// verdict about the text that the entry asks about: see `apply_struct_item`.
pub fn read_struct_item(acc: StructAttributes, item: &MetaItem, verdict: bool) -> (r: Result<
    StructAttributes,
    GenerateError,
>)
    ensures
        struct_result(r) == apply_struct_item(acc@, item@, verdict),
{
    let key = item.key.as_str();
    let mut acc = acc;
    if same_text(key, "into") {
        match &item.value {
            MetaValue::Absent => {
                acc.into = true;
                Ok(acc)
            },
            _ => Err(malformed(&item.key)),
        }
    } else if same_text(key, "method") {
        match &item.value {
            MetaValue::Literal(s) => {
                acc.method = Some(copy_text(s.as_str()));
                Ok(acc)
            },
            _ => Err(malformed(&item.key)),
        }
    } else if same_text(key, "path") {
        match &item.value {
            MetaValue::Literal(s) => {
                acc.path = Some(copy_text(s.as_str()));
                Ok(acc)
            },
            _ => Err(malformed(&item.key)),
        }
    } else if same_text(key, "response") {
        match &item.value {
            MetaValue::Tokens(t) => {
                if verdict {
                    acc.response = Some(copy_text(t.as_str()));
                    Ok(acc)
                } else {
                    Err(malformed(&item.key))
                }
            },
            _ => Err(malformed(&item.key)),
        }
    } else if same_text(key, "default") {
        match &item.value {
            MetaValue::Absent => {
                acc.default = true;
                Ok(acc)
            },
            _ => Err(malformed(&item.key)),
        }
    } else if same_text(key, "query_config") {
        match &item.value {
            MetaValue::Literal(s) => {
                acc.query_config = Some(copy_text(s.as_str()));
                Ok(acc)
            },
            _ => Err(malformed(&item.key)),
        }
    } else {
        Err(GenerateError::UnsupportedAttribute { key: copy_text(key) })
    }
}

fn role_for(key: &str) -> (r: Option<FieldKind>)
    ensures
        r == role_of(key@),
{
    if same_text(key, "query") {
        Some(FieldKind::Query)
    } else if same_text(key, "body") {
        Some(FieldKind::Body)
    } else if same_text(key, "header") {
        Some(FieldKind::Header)
    } else {
        None
    }
}

/// What one field-level entry does to the settings read so far, given the
/// verdict about the text that the entry asks about: see `apply_field_item`.
pub fn read_field_item(acc: FieldAttributes, item: &MetaItem, verdict: bool) -> (r: Result<
    FieldAttributes,
    GenerateError,
>)
    ensures
        field_result(r) == apply_field_item(acc@, item@, verdict),
{
    let key = item.key.as_str();
    let mut acc = acc;
    if same_text(key, "into") {
        match &item.value {
            MetaValue::Absent => {
                acc.into = true;
                Ok(acc)
            },
            _ => Err(malformed(&item.key)),
        }
    } else if same_text(key, "path") {
        match &item.value {
            MetaValue::Absent => {
                acc.kind = FieldKind::Path;
                Ok(acc)
            },
            _ => Err(malformed(&item.key)),
        }
    } else if let Some(kind) = role_for(key) {
        match &item.value {
            MetaValue::Absent => {
                acc.kind = kind;
                Ok(acc)
            },
            MetaValue::Literal(s) => {
                acc.kind = kind;
                acc.rename = Some(copy_text(s.as_str()));
                Ok(acc)
            },
            MetaValue::Tokens(_) => Err(malformed(&item.key)),
        }
    } else if same_text(key, "default") {
        match &item.value {
            MetaValue::Absent => {
                acc.default = true;
                Ok(acc)
            },
            _ => Err(malformed(&item.key)),
        }
    } else if same_text(key, "validate") {
        match &item.value {
            MetaValue::Literal(s) => {
                if verdict {
                    acc.validate = Some(copy_text(s.as_str()));
                    Ok(acc)
                } else {
                    Err(malformed(&item.key))
                }
            },
            _ => Err(malformed(&item.key)),
        }
    } else {
        Err(GenerateError::UnsupportedFieldAttribute { key: copy_text(key) })
    }
}

fn struct_question(item: &MetaItem) -> (r: Option<&String>)
    ensures
        opt_ref_text(r) == struct_asks(item@),
{
    match &item.value {
        MetaValue::Tokens(t) => {
            if same_text(item.key.as_str(), "response") {
                Some(t)
            } else {
                None
            }
        },
        _ => None,
    }
}

fn field_question(item: &MetaItem) -> (r: Option<&String>)
    ensures
        opt_ref_text(r) == field_asks(item@),
{
    match &item.value {
        MetaValue::Literal(s) => {
            if same_text(item.key.as_str(), "validate") {
                Some(s)
            } else {
                None
            }
        },
        _ => None,
    }
}

/// Reads type-level entries, asking `check` whether the tokens of a
/// `response` entry are a type.
///
/// The entries are read in order; where a key repeats, the later entry
/// overwrites the earlier one. The result is an error exactly if some entry
/// is unsupported or malformed, and then it is the error of the first such
/// entry. After a failure the checker is not asked.
pub fn read_struct_items<F: Fn(&str) -> bool>(items: &Vec<MetaItem>, check: &F) -> (r: Result<
    StructAttributes,
    GenerateError,
>)
    requires
        forall|s: &str| call_requires(*check, (s,)),
    ensures
        struct_parsed_with(*check, views(items@), r),
{
    let ghost all = views(items@);
    let mut acc: Result<StructAttributes, GenerateError> = Ok(
        StructAttributes {
            into: false,
            default: false,
            method: None,
            path: None,
            query_config: None,
            response: None,
        },
    );
    let ghost mut verdicts: Seq<bool> = Seq::empty();
    let mut i: usize = 0;
    while i < items.len()
        invariant
            i <= items.len(),
            all == views(items@),
            forall|s: &str| call_requires(*check, (s,)),
            verdicts.len() == i,
            struct_told(*check, all, verdicts, i as nat),
            struct_result(acc) == struct_attributes_upto(all, verdicts, i as nat),
        decreases items.len() - i,
    {
        let ghost before = verdicts;
        let mut verdict = false;
        proof {
            assert(all[i as int] == items@[i as int]@);
        }
        acc =
        match acc {
            Ok(settings) => {
                match struct_question(&items[i]) {
                    Some(text) => {
                        let asked = text.as_str();
                        verdict = check(asked);
                        proof {
                            assert(call_ensures(*check, (asked,), verdict));
                            assert(judged(*check, struct_asks(all[i as int])->0, verdict));
                        }
                    },
                    None => {},
                }
                read_struct_item(settings, &items[i], verdict)
            },
            Err(e) => Err(e),
        };
        proof {
            verdicts = before.push(verdict);
            lemma_struct_attributes_prefix(all, before, verdicts, i as nat);
            assert forall|k: int|
                0 <= k < i + 1 && struct_attributes_upto(all, verdicts, k as nat) is Ok
                    && (#[trigger] struct_asks(all[k])) is Some implies judged(
                *check,
                struct_asks(all[k])->0,
                verdicts[k],
            ) by {
                lemma_struct_attributes_prefix(all, before, verdicts, k as nat);
                if k < i {
                    assert(verdicts[k] == before[k]);
                }
            }
        }
        i += 1;
    }
    proof {
        assert(struct_attributes_of(all, verdicts) == struct_result(acc));
    }
    acc
}

/// Reads field-level entries, asking `check` whether the literal of a
/// `validate` entry is a path.
///
/// The entries are read in order; where a key repeats, the later entry
/// overwrites the earlier one. The result is an error exactly if some entry
/// is unsupported or malformed, and then it is the error of the first such
/// entry. After a failure the checker is not asked.
pub fn read_field_items<F: Fn(&str) -> bool>(items: &Vec<MetaItem>, check: &F) -> (r: Result<
    FieldAttributes,
    GenerateError,
>)
    requires
        forall|s: &str| call_requires(*check, (s,)),
    ensures
        field_parsed_with(*check, views(items@), r),
{
    let ghost all = views(items@);
    let mut acc: Result<FieldAttributes, GenerateError> = Ok(
        FieldAttributes {
            into: false,
            default: false,
            validate: None,
            kind: FieldKind::Unspecified,
            rename: None,
        },
    );
    let ghost mut verdicts: Seq<bool> = Seq::empty();
    let mut i: usize = 0;
    while i < items.len()
        invariant
            i <= items.len(),
            all == views(items@),
            forall|s: &str| call_requires(*check, (s,)),
            verdicts.len() == i,
            field_told(*check, all, verdicts, i as nat),
            field_result(acc) == field_attributes_upto(all, verdicts, i as nat),
        decreases items.len() - i,
    {
        let ghost before = verdicts;
        let mut verdict = false;
        proof {
            assert(all[i as int] == items@[i as int]@);
        }
        acc =
        match acc {
            Ok(settings) => {
                match field_question(&items[i]) {
                    Some(text) => {
                        let asked = text.as_str();
                        verdict = check(asked);
                        proof {
                            assert(call_ensures(*check, (asked,), verdict));
                            assert(judged(*check, field_asks(all[i as int])->0, verdict));
                        }
                    },
                    None => {},
                }
                read_field_item(settings, &items[i], verdict)
            },
            Err(e) => Err(e),
        };
        proof {
            verdicts = before.push(verdict);
            lemma_field_attributes_prefix(all, before, verdicts, i as nat);
            assert forall|k: int|
                0 <= k < i + 1 && field_attributes_upto(all, verdicts, k as nat) is Ok
                    && (#[trigger] field_asks(all[k])) is Some implies judged(
                *check,
                field_asks(all[k])->0,
                verdicts[k],
            ) by {
                lemma_field_attributes_prefix(all, before, verdicts, k as nat);
                if k < i {
                    assert(verdicts[k] == before[k]);
                }
            }
        }
        i += 1;
    }
    proof {
        assert(field_attributes_of(all, verdicts) == field_result(acc));
    }
    acc
}

/// Reads the type-level `request_builder` annotations, asking `check`
/// whether the tokens of a `response` entry are a type.
///
/// Attributes of any other name are passed over; the entries of the others
/// are read as `read_struct_items` reads them.
pub fn parse_struct_attributes_with<F: Fn(&str) -> bool>(attrs: &Vec<Attribute>, check: &F) -> (r:
    Result<StructAttributes, GenerateError>)
    requires
        forall|s: &str| call_requires(*check, (s,)),
    ensures
        struct_parsed_with(*check, items_named(views(attrs@), request_builder_name()), r),
{
    let items = collect_items(attrs, "request_builder");
    read_struct_items(&items, check)
}

/// Reads the `request_builder` annotations of one field, asking `check`
/// whether the literal of a `validate` entry is a path.
///
/// Attributes of any other name are passed over; the entries of the others
/// are read as `read_field_items` reads them.
pub fn parse_field_attributes_with<F: Fn(&str) -> bool>(attrs: &Vec<Attribute>, check: &F) -> (r:
    Result<FieldAttributes, GenerateError>)
    requires
        forall|s: &str| call_requires(*check, (s,)),
    ensures
        field_parsed_with(*check, items_named(views(attrs@), request_builder_name()), r),
{
    let items = collect_items(attrs, "request_builder");
    read_field_items(&items, check)
}

/// Reads the type-level `request_builder` annotations. Whether the tokens of
/// a `response` entry are a type is for Rust's own syntax to say.
///
/// Attributes of any other name are passed over. The entries are read in
/// order; where a key repeats, the later entry overwrites the earlier one.
/// The result is an error exactly if some entry is unsupported or malformed,
/// and then it is the error of the first such entry.
pub fn parse_struct_attributes(attrs: &Vec<Attribute>) -> (r: Result<
    StructAttributes,
    GenerateError,
>)
    ensures
        struct_parsed(items_named(views(attrs@), request_builder_name()), r),
{
    let r = parse_struct_attributes_with(attrs, &is_type_syntax);
    proof {
        let items = items_named(views(attrs@), request_builder_name());
        let verdicts = choose|verdicts: Seq<bool>|
            verdicts.len() == items.len() && struct_told(
                is_type_syntax,
                items,
                verdicts,
                items.len(),
            ) && #[trigger] struct_attributes_of(items, verdicts) == struct_result(r);
        assert(struct_attributes_of(items, verdicts) == struct_result(r));
    }
    r
}

/// Reads the `request_builder` annotations of one field. Whether the literal
/// of a `validate` entry is a path is for Rust's own syntax to say.
///
/// Attributes of any other name are passed over. The entries are read in
/// order; where a key repeats, the later entry overwrites the earlier one.
/// The result is an error exactly if some entry is unsupported or malformed,
/// and then it is the error of the first such entry.
pub fn parse_field_attributes(attrs: &Vec<Attribute>) -> (r: Result<
    FieldAttributes,
    GenerateError,
>)
    ensures
        field_parsed(items_named(views(attrs@), request_builder_name()), r),
{
    let r = parse_field_attributes_with(attrs, &is_path_syntax);
    proof {
        let items = items_named(views(attrs@), request_builder_name());
        let verdicts = choose|verdicts: Seq<bool>|
            verdicts.len() == items.len() && field_told(
                is_path_syntax,
                items,
                verdicts,
                items.len(),
            ) && #[trigger] field_attributes_of(items, verdicts) == field_result(r);
        assert(field_attributes_of(items, verdicts) == field_result(r));
    }
    r
}

} // verus!
