//! Laws: what holds of building and of the wire form for all descriptors,
//! slots and verdicts.

use crate::attributes::{
    apply_field_item, apply_struct_item, field_asks, field_attributes_of, role_of, struct_asks,
    FieldAttributesModel, FieldKind, StructAttributesModel,
};
use crate::builder::{built, built_upto, checked, resolved, validated, with_slot};
use crate::error::ErrorModel;
use crate::headers::{has_key, lemma_map_of_dom};
use crate::meta::MetaItemModel;
use crate::request::{
    CLOSE_BRACE, OPEN_BRACE, body_fields, encoded_pairs, headers_of, joined, json_members, json_object, query_fields,
    shown, travelling, url_text, with_query,
};
use crate::encode::query_pair_text;
use crate::schema::{
    describe_field, field_index, field_items, FieldDefinitionModel, FieldDescriptorModel,
};
use crate::value::{display_text, ValueModel};
use vstd::prelude::*;

verus! {

/// Once building has failed, looking at more fields changes nothing.
pub proof fn law_failure_is_final(
    fields: Seq<FieldDescriptorModel>,
    slots: Seq<Option<ValueModel>>,
    verdicts: Seq<Option<Seq<char>>>,
    k: nat,
    m: nat,
)
    requires
        k <= m,
        built_upto(fields, slots, verdicts, k) is Err,
    ensures
        built_upto(fields, slots, verdicts, m) == built_upto(fields, slots, verdicts, k),
    decreases m,
{
    if m > k {
        law_failure_is_final(fields, slots, verdicts, k, (m - 1) as nat);
    }
}

/// A required field that was left unset fails the build with the
/// missing-field error that names exactly that field, where no field before
/// it fails.
pub proof fn law_missing_field(
    fields: Seq<FieldDescriptorModel>,
    slots: Seq<Option<ValueModel>>,
    verdicts: Seq<Option<Seq<char>>>,
    i: int,
)
    requires
        0 <= i < fields.len(),
        fields[i].extraction is Required,
        slots[i] is None,
        built_upto(fields, slots, verdicts, i as nat) is Ok,
    ensures
        built(fields, slots, verdicts) == Err::<Seq<Option<ValueModel>>, ErrorModel>(
            ErrorModel::MissingField { field: fields[i].name },
        ),
{
    assert(built_upto(fields, slots, verdicts, (i + 1) as nat) is Err);
    law_failure_is_final(fields, slots, verdicts, (i + 1) as nat, fields.len());
}

/// A request is never built while a required field is unset.
pub proof fn law_unset_required_never_builds(
    fields: Seq<FieldDescriptorModel>,
    slots: Seq<Option<ValueModel>>,
    verdicts: Seq<Option<Seq<char>>>,
    i: int,
)
    requires
        0 <= i < fields.len(),
        fields[i].extraction is Required,
        slots[i] is None,
    ensures
        built(fields, slots, verdicts) is Err,
{
    if built_upto(fields, slots, verdicts, i as nat) is Ok {
        law_missing_field(fields, slots, verdicts, i);
    } else {
        law_failure_is_final(fields, slots, verdicts, i as nat, fields.len());
    }
}

/// A value that its validator rejects fails the build with the validation
/// error that names the field and carries the validator's message, where no
/// field before it fails.
pub proof fn law_validation_failure(
    fields: Seq<FieldDescriptorModel>,
    slots: Seq<Option<ValueModel>>,
    verdicts: Seq<Option<Seq<char>>>,
    i: int,
    message: Seq<char>,
)
    requires
        0 <= i < fields.len(),
        validated(fields[i], slots[i]),
        verdicts[i] == Some(message),
        built_upto(fields, slots, verdicts, i as nat) is Ok,
    ensures
        built(fields, slots, verdicts) == Err::<Seq<Option<ValueModel>>, ErrorModel>(
            ErrorModel::ValidationError { field: fields[i].name, message },
        ),
{
    assert(built_upto(fields, slots, verdicts, (i + 1) as nat) is Err);
    law_failure_is_final(fields, slots, verdicts, (i + 1) as nat, fields.len());
}

/// Building stops at the first failure: what the validators of later fields
/// would say does not matter.
pub proof fn law_stops_at_first_failure(
    fields: Seq<FieldDescriptorModel>,
    slots: Seq<Option<ValueModel>>,
    first: Seq<Option<Seq<char>>>,
    second: Seq<Option<Seq<char>>>,
    i: int,
)
    requires
        0 <= i < fields.len(),
        checked(fields[i], slots[i], first[i]) is Err,
        forall|j: int| 0 <= j <= i ==> first[j] == second[j],
    ensures
        built(fields, slots, first) == built(fields, slots, second),
{
    crate::builder::lemma_built_upto_prefix(fields, slots, first, second, (i + 1) as nat);
    assert(built_upto(fields, slots, first, (i + 1) as nat) is Err);
    law_failure_is_final(fields, slots, first, (i + 1) as nat, fields.len());
    law_failure_is_final(fields, slots, second, (i + 1) as nat, fields.len());
}

/// An absent value is not validated: the verdict about an optional field
/// whose slot is unset does not matter.
pub proof fn law_absent_value_not_validated(
    field: FieldDescriptorModel,
    first: Option<Seq<char>>,
    second: Option<Seq<char>>,
)
    requires
        field.extraction is PassThrough,
    ensures
        checked(field, None, first) == checked(field, None, second),
        checked(field, None, first) == Ok::<Option<ValueModel>, ErrorModel>(None),
{
}

/// A built request holds one value per field, and each is what its slot
/// resolves to: the value that was set, or else the default, or else
/// nothing.
pub proof fn law_values_are_resolved_slots(
    fields: Seq<FieldDescriptorModel>,
    slots: Seq<Option<ValueModel>>,
    verdicts: Seq<Option<Seq<char>>>,
    n: nat,
)
    requires
        built_upto(fields, slots, verdicts, n) is Ok,
    ensures
        built_upto(fields, slots, verdicts, n)->Ok_0.len() == n,
        forall|i: int|
            0 <= i < n ==> resolved(fields[i], slots[i]) == Ok::<Option<ValueModel>, ErrorModel>(
                #[trigger] built_upto(fields, slots, verdicts, n)->Ok_0[i],
            ),
        forall|i: int|
            0 <= i < n && slots[i] is Some ==> #[trigger] built_upto(
                fields,
                slots,
                verdicts,
                n,
            )->Ok_0[i] == slots[i],
    decreases n,
{
    if n > 0 {
        law_values_are_resolved_slots(fields, slots, verdicts, (n - 1) as nat);
    }
}

/// Building is a function of descriptor, slots and verdicts: two builders
/// with equal slots, whose validators give the same verdicts, build equal
/// requests or fail with equal errors.
pub proof fn law_equal_builders_build_equal(
    fields: Seq<FieldDescriptorModel>,
    first_slots: Seq<Option<ValueModel>>,
    second_slots: Seq<Option<ValueModel>>,
    first_verdicts: Seq<Option<Seq<char>>>,
    second_verdicts: Seq<Option<Seq<char>>>,
)
    requires
        first_slots == second_slots,
        forall|i: int| 0 <= i < fields.len() ==> first_verdicts[i] == second_verdicts[i],
    ensures
        built(fields, first_slots, first_verdicts) == built(
            fields,
            second_slots,
            second_verdicts,
        ),
{
    crate::builder::lemma_built_upto_prefix(
        fields,
        first_slots,
        first_verdicts,
        second_verdicts,
        fields.len(),
    );
}

/// Setters of different fields commute.
pub proof fn law_setters_commute(
    fields: Seq<FieldDescriptorModel>,
    slots: Seq<Option<ValueModel>>,
    a: Seq<char>,
    x: ValueModel,
    b: Seq<char>,
    y: ValueModel,
)
    requires
        field_index(fields, a) != field_index(fields, b),
    ensures
        with_slot(fields, with_slot(fields, slots, a, x), b, y) == with_slot(
            fields,
            with_slot(fields, slots, b, y),
            a,
            x,
        ),
{
    assert(with_slot(fields, with_slot(fields, slots, a, x), b, y) =~= with_slot(
        fields,
        with_slot(fields, slots, b, y),
        a,
        x,
    ));
}

/// Of two calls of one setter the later one counts.
pub proof fn law_last_setter_wins(
    fields: Seq<FieldDescriptorModel>,
    slots: Seq<Option<ValueModel>>,
    a: Seq<char>,
    x: ValueModel,
    y: ValueModel,
)
    ensures
        with_slot(fields, with_slot(fields, slots, a, x), a, y) == with_slot(fields, slots, a, y),
{
    assert(with_slot(fields, with_slot(fields, slots, a, x), a, y) =~= with_slot(
        fields,
        slots,
        a,
        y,
    ));
}

/// Everything that travels stems from a field of that role that holds a
/// value: a field without a value never appears.
pub proof fn law_travelling_has_source(
    kind: FieldKind,
    fields: Seq<FieldDescriptorModel>,
    values: Seq<Option<ValueModel>>,
    n: nat,
    k: int,
)
    requires
        0 <= k < travelling(kind, fields, values, n).len(),
    ensures
        exists|i: int|
            0 <= i < n && i < fields.len() && i < values.len() && (#[trigger] fields[i]).kind
                == kind && values[i] is Some && travelling(kind, fields, values, n)[k] == (
                fields[i].wire_name,
                values[i]->0,
            ),
    decreases n,
{
    if n > 0 {
        let before = travelling(kind, fields, values, (n - 1) as nat);
        if k < before.len() {
            law_travelling_has_source(kind, fields, values, (n - 1) as nat, k);
            let i = choose|i: int|
                0 <= i < n - 1 && i < fields.len() && i < values.len() && (#[trigger] fields[i]).kind
                    == kind && values[i] is Some && before[k] == (
                    fields[i].wire_name,
                    values[i]->0,
                );
            assert(fields[i].kind == kind);
        } else {
            assert(fields[n - 1].kind == kind);
        }
    }
}

/// Every field of a role that holds a value travels.
pub proof fn law_source_travels(
    kind: FieldKind,
    fields: Seq<FieldDescriptorModel>,
    values: Seq<Option<ValueModel>>,
    n: nat,
    i: int,
)
    requires
        0 <= i < n,
        n <= fields.len(),
        n <= values.len(),
        fields[i].kind == kind,
        values[i] is Some,
    ensures
        exists|k: int|
            0 <= k < travelling(kind, fields, values, n).len() && #[trigger] travelling(
                kind,
                fields,
                values,
                n,
            )[k] == (fields[i].wire_name, values[i]->0),
    decreases n,
{
    let all = travelling(kind, fields, values, n);
    let before = travelling(kind, fields, values, (n - 1) as nat);
    if i == n - 1 {
        assert(all[all.len() - 1] == (fields[i].wire_name, values[i]->0));
    } else {
        law_source_travels(kind, fields, values, (n - 1) as nat, i);
        let k = choose|k: int|
            0 <= k < before.len() && #[trigger] before[k] == (fields[i].wire_name, values[i]->0);
        assert(all[k] == before[k]);
    }
}

/// Where no field of a role holds a value, nothing of that role travels.
pub proof fn law_nothing_travels(
    kind: FieldKind,
    fields: Seq<FieldDescriptorModel>,
    values: Seq<Option<ValueModel>>,
    n: nat,
)
    requires
        forall|i: int|
            0 <= i < n && i < fields.len() && i < values.len() && (#[trigger] fields[i]).kind
                == kind ==> values[i] is None,
    ensures
        travelling(kind, fields, values, n).len() == 0,
    decreases n,
{
    if n > 0 {
        law_nothing_travels(kind, fields, values, (n - 1) as nat);
        if n <= fields.len() && n <= values.len() && fields[n - 1].kind == kind {
            assert(values[n - 1] is None);
        }
    }
}

/// Without a query field that holds a value, the URL is the path alone.
pub proof fn law_no_query_no_mark(
    path: Seq<char>,
    fields: Seq<FieldDescriptorModel>,
    values: Seq<Option<ValueModel>>,
)
    requires
        forall|i: int|
            0 <= i < fields.len() && i < values.len() && (#[trigger] fields[i]).kind
                == FieldKind::Query ==> values[i] is None,
    ensures
        url_text(path, query_fields(fields, values)) == path,
{
    law_nothing_travels(FieldKind::Query, fields, values, fields.len());
    assert(encoded_pairs(query_fields(fields, values)).len() == 0);
}

/// Two query fields that hold values both appear, joined by `&` into one
/// query string.
pub proof fn law_two_query_fields(
    path: Seq<char>,
    a: (Seq<char>, ValueModel),
    b: (Seq<char>, ValueModel),
)
    ensures
        joined(encoded_pairs(seq![a, b])) == query_pair_text(a.0, display_text(a.1)) + seq!['&']
            + query_pair_text(b.0, display_text(b.1)),
        url_text(path, seq![a, b]) == with_query(
            path,
            query_pair_text(a.0, display_text(a.1)) + seq!['&'] + query_pair_text(
                b.0,
                display_text(b.1),
            ),
        ),
{
    let parts = encoded_pairs(seq![a, b]);
    assert(parts.len() == 2);
    assert(parts.drop_last().len() == 1);
    assert(parts.drop_last()[0] == query_pair_text(a.0, display_text(a.1)));
    assert(parts.last() == query_pair_text(b.0, display_text(b.1)));
    assert(joined(parts.drop_last()) == parts.drop_last()[0]);
}

/// Where every body field is unset, the body is the empty JSON object.
pub proof fn law_empty_body(fields: Seq<FieldDescriptorModel>, values: Seq<Option<ValueModel>>)
    requires
        forall|i: int|
            0 <= i < fields.len() && i < values.len() && (#[trigger] fields[i]).kind
                == FieldKind::Body ==> values[i] is None,
    ensures
        json_object(body_fields(fields, values)) == seq![OPEN_BRACE, CLOSE_BRACE],
{
    law_nothing_travels(FieldKind::Body, fields, values, fields.len());
    assert(json_members(body_fields(fields, values)) == Seq::<u8>::empty());
    assert(json_object(body_fields(fields, values)) =~= seq![OPEN_BRACE, CLOSE_BRACE]);
}

/// The header names of a request are exactly the names under which its
/// header fields with a value travel: no other name appears.
pub proof fn law_header_names(
    fields: Seq<FieldDescriptorModel>,
    values: Seq<Option<ValueModel>>,
    name: Seq<char>,
)
    requires
        values.len() == fields.len(),
    ensures
        headers_of(fields, values).contains_key(name) <==> exists|i: int|
            0 <= i < fields.len() && (#[trigger] fields[i]).kind == FieldKind::Header
                && values[i] is Some && fields[i].wire_name == name,
{
    let pairs = travelling(FieldKind::Header, fields, values, fields.len());
    let entries = shown(pairs);
    lemma_map_of_dom(entries, name);
    if has_key(entries, name) {
        let k = choose|k: int| 0 <= k < entries.len() && (#[trigger] entries[k]).0 == name;
        law_travelling_has_source(FieldKind::Header, fields, values, fields.len(), k);
    }
    if exists|i: int|
        0 <= i < fields.len() && (#[trigger] fields[i]).kind == FieldKind::Header && values[i]
            is Some && fields[i].wire_name == name {
        let i = choose|i: int|
            0 <= i < fields.len() && (#[trigger] fields[i]).kind == FieldKind::Header
                && values[i] is Some && fields[i].wire_name == name;
        law_source_travels(FieldKind::Header, fields, values, fields.len(), i);
        let k = choose|k: int|
            0 <= k < pairs.len() && #[trigger] pairs[k] == (fields[i].wire_name, values[i]->0);
        assert(entries[k].0 == name);
    }
}

/// A header field with an explicit name travels under exactly that name.
pub proof fn law_explicit_header_name(
    settings: StructAttributesModel,
    field: FieldDefinitionModel,
    verdicts: Seq<bool>,
    name: Seq<char>,
)
    requires
        describe_field(settings, field, verdicts) is Ok,
        field_attributes_of(field_items(field), verdicts)->Ok_0.kind == FieldKind::Header,
        field_attributes_of(field_items(field), verdicts)->Ok_0.rename == Some(name),
    ensures
        describe_field(settings, field, verdicts)->Ok_0.kind == FieldKind::Header,
        describe_field(settings, field, verdicts)->Ok_0.wire_name == name,
{
}

/// Type-level entries with different keys commute: where each of two entries
/// is accepted, reading them in either order leaves the same settings.
pub proof fn law_struct_entries_commute(
    acc: StructAttributesModel,
    a: MetaItemModel,
    b: MetaItemModel,
    about_a: bool,
    about_b: bool,
)
    requires
        a.key != b.key,
        apply_struct_item(acc, a, about_a) is Ok,
        apply_struct_item(acc, b, about_b) is Ok,
    ensures
        apply_struct_item(apply_struct_item(acc, a, about_a)->Ok_0, b, about_b) is Ok,
        apply_struct_item(apply_struct_item(acc, a, about_a)->Ok_0, b, about_b)
            == apply_struct_item(apply_struct_item(acc, b, about_b)->Ok_0, a, about_a),
{
}

/// Of two type-level entries with one key the later one counts.
pub proof fn law_struct_later_entry_wins(
    acc: StructAttributesModel,
    a: MetaItemModel,
    b: MetaItemModel,
    about_a: bool,
    about_b: bool,
)
    requires
        a.key == b.key,
        apply_struct_item(acc, a, about_a) is Ok,
    ensures
        apply_struct_item(apply_struct_item(acc, a, about_a)->Ok_0, b, about_b)
            == apply_struct_item(acc, b, about_b),
{
}

/// Whether an entry declares where a field travels.
pub open spec fn declares_role(item: MetaItemModel) -> bool {
    item.key == "path"@ || role_of(item.key) is Some
}

/// Field-level entries with different keys commute, unless both declare a
/// role: where each of two entries is accepted, reading them in either order
/// leaves the same settings.
pub proof fn law_field_entries_commute(
    acc: FieldAttributesModel,
    a: MetaItemModel,
    b: MetaItemModel,
    about_a: bool,
    about_b: bool,
)
    requires
        a.key != b.key,
        !(declares_role(a) && declares_role(b)),
        apply_field_item(acc, a, about_a) is Ok,
        apply_field_item(acc, b, about_b) is Ok,
    ensures
        apply_field_item(apply_field_item(acc, a, about_a)->Ok_0, b, about_b) is Ok,
        apply_field_item(apply_field_item(acc, a, about_a)->Ok_0, b, about_b) == apply_field_item(
            apply_field_item(acc, b, about_b)->Ok_0,
            a,
            about_a,
        ),
{
}

/// Of two role declarations the later one decides where the field travels.
pub proof fn law_later_role_wins(
    acc: FieldAttributesModel,
    a: MetaItemModel,
    b: MetaItemModel,
    about_a: bool,
    about_b: bool,
)
    requires
        declares_role(a),
        declares_role(b),
        apply_field_item(acc, a, about_a) is Ok,
        apply_field_item(acc, b, about_b) is Ok,
    ensures
        apply_field_item(apply_field_item(acc, a, about_a)->Ok_0, b, about_b) is Ok,
        apply_field_item(apply_field_item(acc, a, about_a)->Ok_0, b, about_b)->Ok_0.kind
            == apply_field_item(acc, b, about_b)->Ok_0.kind,
{
    reveal_strlit("into");
    reveal_strlit("path");
    reveal_strlit("query");
    reveal_strlit("body");
    reveal_strlit("header");
    assert("into"@[0] == 'i' && "path"@[0] == 'p' && "query"@[0] == 'q' && "body"@[0] == 'b'
        && "header"@[0] == 'h');
}

/// Whether a type-level entry is accepted does not depend on what was read
/// before it.
pub proof fn law_acceptance_is_local(
    first: StructAttributesModel,
    second: StructAttributesModel,
    item: MetaItemModel,
    verdict: bool,
)
    ensures
        apply_struct_item(first, item, verdict) is Ok <==> apply_struct_item(
            second,
            item,
            verdict,
        ) is Ok,
        apply_struct_item(first, item, verdict) is Err ==> apply_struct_item(first, item, verdict)
            == apply_struct_item(second, item, verdict),
{
}

/// The verdict about an entry counts only where the entry asks: what a
/// type-level entry does is the same under every verdict unless it is a
/// `response` entry with tokens, and what a field-level entry does is the
/// same under every verdict unless it is a `validate` entry with a literal.
pub proof fn law_verdicts_count_where_asked(
    settings: StructAttributesModel,
    attributes: FieldAttributesModel,
    item: MetaItemModel,
)
    ensures
        struct_asks(item) is None ==> apply_struct_item(settings, item, true) == apply_struct_item(
            settings,
            item,
            false,
        ),
        field_asks(item) is None ==> apply_field_item(attributes, item, true) == apply_field_item(
            attributes,
            item,
            false,
        ),
{
}

} // verus!
