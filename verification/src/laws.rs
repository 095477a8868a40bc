//! What holds of every plan the derive computes, of the serde key it reads
//! each field under, and of every resource a
//! derived model builds.
use vstd::prelude::*;
use crate::attrs::{
    field_attrs, field_attrs_upto, is_jsonapi, is_serde, serde_rename, struct_type, struct_type_from,
};
use crate::meta::punct_is;
use crate::input::{Attribute, Data, Delimiter, Field, Fields, Meta, ModelInput, Token};
use crate::meta::MetaError;
use crate::model::{
    expected_plan, field_role, fold_fields, relationship_names, AttributeFieldView, FieldRole, PlanAcc,
    PlanView,
};
use crate::resource::{
    attributes_upto, entry_keys, first_index, lemma_first_index_from, resource_attributes,
    resource_included, resource_relationships, IdentifierView, RelationshipView,
};
use crate::serde_name::{
    apply_rule, last_direct_value, last_ser_value, lemma_seg_end, rule_named, seg_end, serde_key, serde_value,
    serde_value_from, struct_rename_rule, unraw, RenameRule,
};
use crate::text::{lowercase, string_literal_value};

verus! {

/// The fields of a struct with named fields; none for any other item.
pub open spec fn named_fields(input: ModelInput) -> Seq<Field> {
    match input.data {
        Data::Struct(Fields::Named(f)) => f@,
        _ => seq![],
    }
}

/// An attribute field of a plan stands for the field at its index, which
/// the derive reads as an attribute with these keys.
pub open spec fn stands_for_field(fields: Seq<Field>, e: AttributeFieldView, rule: Option<RenameRule>) -> bool {
    &&& e.field_index < fields.len()
    &&& fields[e.field_index as int].name@ == e.field
    &&& field_role(fields[e.field_index as int], rule) == Ok::<FieldRole, (usize, MetaError)>(
        FieldRole::Attribute { serde_key: e.serde_key, jsonapi_key: e.jsonapi_key },
    )
}

/// Whether the derive reads a field as an attribute.
pub open spec fn is_attribute_role(r: Result<FieldRole, (usize, MetaError)>) -> bool {
    r matches Ok(FieldRole::Attribute { .. })
}

/// One of the first `n` fields has this name and is read with this role.
pub open spec fn some_field_named(fields: Seq<Field>, n: int, name: Seq<char>, role: FieldRole, rule: Option<RenameRule>) -> bool {
    exists|k: int|
        0 <= k < n && field_role(#[trigger] fields[k], rule) == Ok::<FieldRole, (usize, MetaError)>(role)
            && fields[k].name@ == name
}

/// What the derive has gathered from the first `n` fields, when it succeeds.
pub open spec fn fold_facts(fields: Seq<Field>, n: int, acc: PlanAcc, rule: Option<RenameRule>) -> bool {
    &&& forall|j: int|
        0 <= j < acc.attributes.len() ==> (#[trigger] acc.attributes[j]).field_index < n
            && stands_for_field(fields, acc.attributes[j], rule)
    &&& forall|j: int, l: int|
        0 <= j < l < acc.attributes.len() ==> (#[trigger] acc.attributes[j]).field_index
            < (#[trigger] acc.attributes[l]).field_index
    &&& forall|k: int|
        0 <= k < n && is_attribute_role(#[trigger] field_role(fields[k], rule)) ==> exists|j: int|
            0 <= j < acc.attributes.len() && (#[trigger] acc.attributes[j]).field_index == k
    &&& forall|j: int|
        0 <= j < acc.has_one.len() ==> some_field_named(fields, n, #[trigger] acc.has_one[j], FieldRole::HasOne, rule)
    &&& forall|j: int|
        0 <= j < acc.has_many.len() ==> some_field_named(fields, n, #[trigger] acc.has_many[j], FieldRole::HasMany, rule)
    &&& acc.has_id <==> exists|k: int| 0 <= k < n && (#[trigger] fields[k]).name@ == "id"@
    &&& forall|k: int| 0 <= k < n ==> (#[trigger] field_role(fields[k], rule)) is Ok
}

proof fn lemma_fold(fields: Seq<Field>, n: int, rule: Option<RenameRule>)
    requires
        0 <= n <= fields.len(),
        fields.len() <= usize::MAX,
        fold_fields(fields, n, rule) is Ok,
    ensures
        fold_facts(fields, n, fold_fields(fields, n, rule)->Ok_0, rule),
    decreases n,
{
    if n > 0 {
        lemma_fold(fields, n - 1, rule);
        let prev = fold_fields(fields, n - 1, rule)->Ok_0;
        let acc = fold_fields(fields, n, rule)->Ok_0;
        let f = fields[n - 1];
        let role = field_role(f, rule)->Ok_0;
        assert(field_role(fields[n - 1], rule) is Ok);
        match role {
            FieldRole::Attribute { serde_key, jsonapi_key } => {
                let e = AttributeFieldView {
                    field_index: (n - 1) as usize,
                    field: f.name@,
                    serde_key,
                    jsonapi_key,
                };
                assert(acc.attributes == prev.attributes.push(e));
                assert(acc.attributes[prev.attributes.len() as int] == e);
                assert(f.name@ != "id"@);
            },
            FieldRole::Id => {
                assert(fields[n - 1].name@ == "id"@);
            },
            FieldRole::HasOne => {
                assert(f.name@ != "id"@);
            },
            FieldRole::HasMany => {
                assert(f.name@ != "id"@);
            },
            FieldRole::Skipped => {
                assert(f.name@ != "id"@);
            },
        }
        assert(acc.attributes.len() >= prev.attributes.len());
        assert(forall|j: int| 0 <= j < prev.attributes.len() ==> acc.attributes[j] == prev.attributes[j]);
        assert(acc.attributes.len() > prev.attributes.len() ==> is_attribute_role(field_role(fields[n - 1], rule))
            && acc.attributes[prev.attributes.len() as int].field_index == n - 1);
        assert forall|k: int|
            0 <= k < n && is_attribute_role(#[trigger] field_role(fields[k], rule)) implies exists|j: int|
            0 <= j < acc.attributes.len() && (#[trigger] acc.attributes[j]).field_index == k by {
            if k == n - 1 {
                assert(acc.attributes[prev.attributes.len() as int].field_index == k);
            } else {
                let j = choose|j: int|
                    0 <= j < prev.attributes.len() && (#[trigger] prev.attributes[j]).field_index == k;
                assert(acc.attributes[j] == prev.attributes[j]);
            }
        }
        assert(acc.has_one == prev.has_one || (role == FieldRole::HasOne && acc.has_one
            == prev.has_one.push(f.name@)));
        assert(acc.has_many == prev.has_many || (role == FieldRole::HasMany && acc.has_many
            == prev.has_many.push(f.name@)));
        assert forall|j: int| 0 <= j < acc.has_one.len() implies some_field_named(
            fields,
            n,
            #[trigger] acc.has_one[j],
            FieldRole::HasOne,
        rule,
        ) by {
            if j < prev.has_one.len() {
                assert(acc.has_one[j] == prev.has_one[j]);
                assert(some_field_named(fields, n - 1, prev.has_one[j], FieldRole::HasOne, rule));
                let k = choose|k: int|
                    0 <= k < n - 1 && field_role(#[trigger] fields[k], rule) == Ok::<
                        FieldRole,
                        (usize, MetaError),
                    >(FieldRole::HasOne) && fields[k].name@ == prev.has_one[j];
                assert(fields[k].name@ == acc.has_one[j]);
            } else {
                assert(fields[n - 1].name@ == acc.has_one[j]);
            }
        }
        assert forall|j: int| 0 <= j < acc.has_many.len() implies some_field_named(
            fields,
            n,
            #[trigger] acc.has_many[j],
            FieldRole::HasMany,
        rule,
        ) by {
            if j < prev.has_many.len() {
                assert(acc.has_many[j] == prev.has_many[j]);
                assert(some_field_named(fields, n - 1, prev.has_many[j], FieldRole::HasMany, rule));
                let k = choose|k: int|
                    0 <= k < n - 1 && field_role(#[trigger] fields[k], rule) == Ok::<
                        FieldRole,
                        (usize, MetaError),
                    >(FieldRole::HasMany) && fields[k].name@ == prev.has_many[j];
                assert(fields[k].name@ == acc.has_many[j]);
            } else {
                assert(fields[n - 1].name@ == acc.has_many[j]);
            }
        }
        assert(fold_facts(fields, n, acc, rule));
    }
}

/// Every field read without error lets the gathering go on.
proof fn lemma_fold_ok(fields: Seq<Field>, n: int, rule: Option<RenameRule>)
    requires
        0 <= n <= fields.len(),
        forall|k: int| 0 <= k < n ==> (#[trigger] field_role(fields[k], rule)) is Ok,
    ensures
        fold_fields(fields, n, rule) is Ok,
    decreases n,
{
    if n > 0 {
        lemma_fold_ok(fields, n - 1, rule);
        assert(field_role(fields[n - 1], rule) is Ok);
    }
}

proof fn lemma_plan_fold(input: ModelInput)
    requires
        expected_plan(input) is Ok,
    ensures
        input.data matches Data::Struct(Fields::Named(f)) && fold_fields(f@, f@.len() as int, struct_rename_rule(input.attrs@)) is Ok
            && fold_facts(named_fields(input), f@.len() as int, fold_fields(f@, f@.len() as int, struct_rename_rule(input.attrs@))->Ok_0, struct_rename_rule(input.attrs@))
            && named_fields(input) == f@ && f@.len() <= usize::MAX && expected_plan(input)->Ok_0
            == (PlanView {
                resource_type: struct_type(input.attrs@, input.ident@)->Ok_0,
                attributes: fold_fields(f@, f@.len() as int, struct_rename_rule(input.attrs@))->Ok_0.attributes,
                has_one: fold_fields(f@, f@.len() as int, struct_rename_rule(input.attrs@))->Ok_0.has_one,
                has_many: fold_fields(f@, f@.len() as int, struct_rename_rule(input.attrs@))->Ok_0.has_many,
            }),
{
    match input.data {
        Data::Struct(Fields::Named(f)) => {
            assert(f@.len() == f.len());
            lemma_fold(f@, f@.len() as int, struct_rename_rule(input.attrs@));
        },
        _ => {},
    }
}

/// The plan's attribute fields are the struct's attribute fields in
/// declaration order: each one stands for a field that the derive reads as
/// an attribute, with that field's keys; their field indices strictly
/// increase; and every field read as an attribute has one.
pub proof fn law_attributes_in_declaration_order(input: ModelInput)
    requires
        expected_plan(input) is Ok,
    ensures
        ({
            let plan = expected_plan(input)->Ok_0;
            let fields = named_fields(input);
            &&& forall|j: int|
                0 <= j < plan.attributes.len() ==> stands_for_field(
                    fields,
                    #[trigger] plan.attributes[j],
                struct_rename_rule(input.attrs@),
                )
            &&& forall|j: int, l: int|
                0 <= j < l < plan.attributes.len() ==> (#[trigger] plan.attributes[j]).field_index
                    < (#[trigger] plan.attributes[l]).field_index
            &&& forall|k: int|
                0 <= k < fields.len() && is_attribute_role(#[trigger] field_role(fields[k], struct_rename_rule(input.attrs@)))
                    ==> exists|j: int|
                    0 <= j < plan.attributes.len() && (#[trigger] plan.attributes[j]).field_index
                        == k
        }),
{
    lemma_plan_fold(input);
    let plan = expected_plan(input)->Ok_0;
    let fields = named_fields(input);
    match input.data {
        Data::Struct(Fields::Named(f)) => {
            let acc = fold_fields(f@, f@.len() as int, struct_rename_rule(input.attrs@))->Ok_0;
            assert(plan.attributes == acc.attributes);
            assert forall|k: int|
                0 <= k < fields.len() && is_attribute_role(#[trigger] field_role(fields[k], struct_rename_rule(input.attrs@))) implies exists|j: int|
                0 <= j < plan.attributes.len() && (#[trigger] plan.attributes[j]).field_index == k by {
                let j = choose|j: int|
                    0 <= j < acc.attributes.len() && (#[trigger] acc.attributes[j]).field_index == k;
                assert(plan.attributes[j].field_index == k);
            }
        },
        _ => {},
    }
}

/// A field that the derive does not read as an attribute (the `id` field, a
/// skipped field, a relationship field) is never an attribute field of the
/// plan.
pub proof fn law_only_attribute_fields_become_attributes(input: ModelInput, k: int)
    requires
        expected_plan(input) is Ok,
        0 <= k < named_fields(input).len(),
        !is_attribute_role(field_role(named_fields(input)[k], struct_rename_rule(input.attrs@))),
    ensures
        forall|j: int|
            0 <= j < expected_plan(input)->Ok_0.attributes.len() ==> (#[trigger] expected_plan(
                input,
            )->Ok_0.attributes[j]).field_index != k,
{
    law_attributes_in_declaration_order(input);
}

/// The plan's has-one and has-many fields name fields that the derive reads
/// as has-one and has-many relationships.
pub proof fn law_relationship_fields(input: ModelInput)
    requires
        expected_plan(input) is Ok,
    ensures
        ({
            let plan = expected_plan(input)->Ok_0;
            let fields = named_fields(input);
            &&& forall|j: int|
                0 <= j < plan.has_one.len() ==> some_field_named(
                    fields,
                    fields.len() as int,
                    #[trigger] plan.has_one[j],
                    FieldRole::HasOne,
                struct_rename_rule(input.attrs@),
                )
            &&& forall|j: int|
                0 <= j < plan.has_many.len() ==> some_field_named(
                    fields,
                    fields.len() as int,
                    #[trigger] plan.has_many[j],
                    FieldRole::HasMany,
                struct_rename_rule(input.attrs@),
                )
        }),
{
    lemma_plan_fold(input);
}

/// A model has an `id` field: the derive succeeds only on a struct with a
/// field named `id`, and no attribute field of its plan is that field.
pub proof fn law_id_required(input: ModelInput)
    requires
        expected_plan(input) is Ok,
    ensures
        exists|k: int|
            0 <= k < named_fields(input).len() && (#[trigger] named_fields(input)[k]).name@
                == "id"@,
        forall|j: int|
            0 <= j < expected_plan(input)->Ok_0.attributes.len() ==> (#[trigger] expected_plan(
                input,
            )->Ok_0.attributes[j]).field != "id"@,
{
    lemma_plan_fold(input);
}

/// A struct whose resource type and field attributes read without error,
/// but with no field named `id`, is refused for the missing id.
pub proof fn law_missing_id(input: ModelInput)
    requires
        struct_type(input.attrs@, input.ident@) is Ok,
        input.data matches Data::Struct(Fields::Named(_)),
        forall|k: int|
            0 <= k < named_fields(input).len() ==> (#[trigger] field_role(named_fields(input)[k], struct_rename_rule(input.attrs@))) is Ok,
        forall|k: int|
            0 <= k < named_fields(input).len() ==> (#[trigger] named_fields(input)[k]).name@ != "id"@,
    ensures
        expected_plan(input) == Err::<PlanView, crate::model::DeriveError>(
            crate::model::DeriveError::MissingId,
        ),
{
    match input.data {
        Data::Struct(Fields::Named(f)) => {
            assert(f@.len() == f.len());
            assert(named_fields(input) == f@);
            lemma_fold_ok(f@, f@.len() as int, struct_rename_rule(input.attrs@));
            lemma_fold(f@, f@.len() as int, struct_rename_rule(input.attrs@));
        },
        _ => {},
    }
}

proof fn lemma_struct_type_skips(attrs: Seq<Attribute>, ident: Seq<char>, n: int)
    requires
        0 <= n <= attrs.len(),
        forall|i: int| 0 <= i < n ==> !is_jsonapi(#[trigger] attrs[i]),
    ensures
        struct_type_from(attrs, 0, ident) == struct_type_from(attrs, n, ident),
    decreases n,
{
    if n > 0 {
        lemma_struct_type_skips(attrs, ident, n - 1);
        assert(!is_jsonapi(attrs[n - 1]));
    }
}

/// Without a `jsonapi` attribute on the struct, the resource type is the
/// struct's name in lower case.
pub proof fn law_default_resource_type(attrs: Seq<Attribute>, ident: Seq<char>)
    requires
        forall|i: int| 0 <= i < attrs.len() ==> !is_jsonapi(#[trigger] attrs[i]),
    ensures
        struct_type(attrs, ident) == Ok::<Seq<char>, crate::model::DeriveError>(lowercase(ident)),
{
    lemma_struct_type_skips(attrs, ident, attrs.len() as int);
}

/// When the first `jsonapi` attribute of the struct is
/// `#[jsonapi(type = "..")]` or `#[jsonapi(resource_type = "..")]`, the
/// resource type is that string.
pub proof fn law_explicit_resource_type(attrs: Seq<Attribute>, ident: Seq<char>, n: int, v: Seq<char>)
    requires
        0 <= n < attrs.len(),
        forall|i: int| 0 <= i < n ==> !is_jsonapi(#[trigger] attrs[i]),
        is_jsonapi(attrs[n]),
        attrs[n].meta matches Meta::List(toks) && toks@.len() == 3 && (toks@[0] matches Token::Ident(
            key,
        ) && (key@ == "type"@ || key@ == "resource_type"@)) && crate::meta::punct_is(toks@[1], '=')
            && (toks@[2] matches Token::Literal(raw) && string_literal_value(raw@) == Some(v)),
    ensures
        struct_type(attrs, ident) == Ok::<Seq<char>, crate::model::DeriveError>(v),
{
    lemma_struct_type_skips(attrs, ident, n);
    match attrs[n].meta {
        Meta::List(toks) => {
            let t = toks@;
            assert(!crate::meta::colon2_at(t, 0));
            assert(!crate::meta::colon2_at(t, 1));
            assert(crate::meta::path_tail(t, 1) == Ok::<(bool, int), MetaError>((false, 1)));
            let item = crate::meta::item_at(crate::meta::Scope::Struct, t, 0);
            assert(item matches Ok((it, e)) && e == 3 && it.value == Some(v));
            let items = crate::meta::items_from(crate::meta::Scope::Struct, t, 0);
            assert(items.1 is None);
            assert(crate::meta::last_value(items.0) == Some(v));
        },
        _ => {},
    }
}

proof fn lemma_insert_prefix(attrs: Seq<Attribute>, p: int, a: Attribute, m: int)
    requires
        0 <= m <= p <= attrs.len(),
    ensures
        field_attrs_upto(attrs.insert(p, a), m) == field_attrs_upto(attrs, m),
    decreases m,
{
    attrs.insert_ensures(p, a);
    if m > 0 {
        lemma_insert_prefix(attrs, p, a, m - 1);
        assert(attrs.insert(p, a)[m - 1] == attrs[m - 1]);
    }
}

proof fn lemma_insert_suffix(attrs: Seq<Attribute>, p: int, a: Attribute, m: int)
    requires
        0 <= p <= m <= attrs.len(),
        !is_jsonapi(a),
    ensures
        field_attrs_upto(attrs.insert(p, a), m + 1) is Ok <==> field_attrs_upto(attrs, m) is Ok,
        field_attrs_upto(attrs, m) is Ok ==> field_attrs_upto(attrs.insert(p, a), m + 1)
            == field_attrs_upto(attrs, m),
    decreases m,
{
    attrs.insert_ensures(p, a);
    if m == p {
        lemma_insert_prefix(attrs, p, a, p);
        assert(attrs.insert(p, a)[p] == a);
    } else {
        lemma_insert_suffix(attrs, p, a, m - 1);
        assert(attrs.insert(p, a)[m] == attrs[m - 1]);
    }
}

/// Attributes other than `jsonapi` on a field (a `serde(rename)` among
/// them) do not change what its `jsonapi` attributes ask for: adding one
/// keeps whether they read without error and, when they do, what they ask for.
pub proof fn law_other_attributes_keep_jsonapi_reading(attrs: Seq<Attribute>, p: int, a: Attribute)
    requires
        0 <= p <= attrs.len(),
        !is_jsonapi(a),
    ensures
        field_attrs(attrs.insert(p, a)) is Ok <==> field_attrs(attrs) is Ok,
        field_attrs(attrs) is Ok ==> field_attrs(attrs.insert(p, a)) == field_attrs(attrs),
{
    attrs.insert_ensures(p, a);
    lemma_insert_suffix(attrs, p, a, attrs.len() as int);
}

/// A field's JSON:API key and role do not depend on its other attributes:
/// adding a `serde` attribute (a rename, say) to a field keeps whether the
/// derive reads it without error, keeps its role, and, for an attribute
/// field, keeps its JSON:API key; only its serde key may change.
pub proof fn law_serde_attributes_keep_jsonapi_key(f: Field, g: Field, p: int, a: Attribute, rule: Option<RenameRule>)
    requires
        f.name@ == g.name@,
        0 <= p <= f.attrs@.len(),
        g.attrs@ == f.attrs@.insert(p, a),
        !is_jsonapi(a),
    ensures
        field_role(f, rule) is Ok <==> field_role(g, rule) is Ok,
        field_role(f, rule) matches Ok(FieldRole::Attribute { jsonapi_key: k1, .. }) ==> field_role(g, rule) matches Ok(
            FieldRole::Attribute { jsonapi_key: k2, .. },
        ) && k1 == k2,
        field_role(f, rule) matches Ok(r) && !(r is Attribute) ==> field_role(g, rule) == field_role(f, rule),
{
    law_other_attributes_keep_jsonapi_reading(f.attrs@, p, a);
}

/// The names of the first `n` fields that the derive reads with this role,
/// in declaration order.
pub open spec fn names_with_role(fields: Seq<Field>, n: int, rule: Option<RenameRule>, role: FieldRole) -> Seq<Seq<char>>
    decreases n,
{
    if n <= 0 {
        seq![]
    } else {
        names_with_role(fields, n - 1, rule, role) + if field_role(fields[n - 1], rule) == Ok::<
            FieldRole,
            (usize, MetaError),
        >(role) {
            seq![fields[n - 1].name@]
        } else {
            seq![]
        }
    }
}

/// The attribute fields among the first `n` fields, in declaration order,
/// each with its index, name and keys.
pub open spec fn attribute_list(fields: Seq<Field>, n: int, rule: Option<RenameRule>) -> Seq<AttributeFieldView>
    decreases n,
{
    if n <= 0 {
        seq![]
    } else {
        attribute_list(fields, n - 1, rule) + match field_role(fields[n - 1], rule) {
            Ok(FieldRole::Attribute { serde_key, jsonapi_key }) => seq![
                AttributeFieldView {
                    field_index: (n - 1) as usize,
                    field: fields[n - 1].name@,
                    serde_key,
                    jsonapi_key,
                },
            ],
            _ => seq![],
        }
    }
}

proof fn lemma_fold_lists(fields: Seq<Field>, n: int, rule: Option<RenameRule>)
    requires
        0 <= n <= fields.len(),
        fold_fields(fields, n, rule) is Ok,
    ensures
        fold_fields(fields, n, rule)->Ok_0.has_one == names_with_role(fields, n, rule, FieldRole::HasOne),
        fold_fields(fields, n, rule)->Ok_0.has_many == names_with_role(fields, n, rule, FieldRole::HasMany),
        fold_fields(fields, n, rule)->Ok_0.attributes == attribute_list(fields, n, rule),
    decreases n,
{
    if n > 0 {
        assert(fold_fields(fields, n - 1, rule) is Ok);
        lemma_fold_lists(fields, n - 1, rule);
        let prev = fold_fields(fields, n - 1, rule)->Ok_0;
        let acc = fold_fields(fields, n, rule)->Ok_0;
        let f = fields[n - 1];
        assert(field_role(f, rule) is Ok);
        let role = field_role(f, rule)->Ok_0;
        match role {
            FieldRole::Attribute { serde_key, jsonapi_key } => {
                assert(acc.attributes =~= prev.attributes + seq![
                    AttributeFieldView { field_index: (n - 1) as usize, field: f.name@, serde_key, jsonapi_key },
                ]);
                assert(acc.has_one =~= prev.has_one + Seq::<Seq<char>>::empty());
                assert(acc.has_many =~= prev.has_many + Seq::<Seq<char>>::empty());
            },
            FieldRole::HasOne => {
                assert(acc.has_one =~= prev.has_one + seq![f.name@]);
                assert(acc.has_many =~= prev.has_many + Seq::<Seq<char>>::empty());
                assert(acc.attributes =~= prev.attributes + Seq::<AttributeFieldView>::empty());
            },
            FieldRole::HasMany => {
                assert(acc.has_many =~= prev.has_many + seq![f.name@]);
                assert(acc.has_one =~= prev.has_one + Seq::<Seq<char>>::empty());
                assert(acc.attributes =~= prev.attributes + Seq::<AttributeFieldView>::empty());
            },
            _ => {
                assert(acc.has_one =~= prev.has_one + Seq::<Seq<char>>::empty());
                assert(acc.has_many =~= prev.has_many + Seq::<Seq<char>>::empty());
                assert(acc.attributes =~= prev.attributes + Seq::<AttributeFieldView>::empty());
            },
        }
    }
}

/// The plan lists exactly the fields that the derive reads as attributes,
/// in declaration order, and exactly the has-one and the has-many fields,
/// each in declaration order; its relationship names are the has-one names
/// followed by the has-many names, and there are none exactly when no field
/// is a relationship.
pub proof fn law_plan_lists_fields(input: ModelInput)
    requires
        expected_plan(input) is Ok,
    ensures
        ({
            let plan = expected_plan(input)->Ok_0;
            let fields = named_fields(input);
            let n = fields.len() as int;
            let rule = struct_rename_rule(input.attrs@);
            &&& plan.attributes == attribute_list(fields, n, rule)
            &&& plan.has_one == names_with_role(fields, n, rule, FieldRole::HasOne)
            &&& plan.has_many == names_with_role(fields, n, rule, FieldRole::HasMany)
            &&& relationship_names(plan) == if plan.has_one.len() == 0 && plan.has_many.len() == 0 {
                None
            } else {
                Some(
                    names_with_role(fields, n, rule, FieldRole::HasOne) + names_with_role(
                        fields,
                        n,
                        rule,
                        FieldRole::HasMany,
                    ),
                )
            }
        }),
{
    lemma_plan_fold(input);
    match input.data {
        Data::Struct(Fields::Named(f)) => {
            lemma_fold_lists(f@, f@.len() as int, struct_rename_rule(input.attrs@));
        },
        _ => {},
    }
}

/// What a derived model builds agrees with its plan: the resource's type is
/// the struct's resource type; the resource has relationships, and the model
/// includes resources, exactly when the model has relationship fields; the
/// relationships are named by the relationship fields, has-one first, and
/// hold the identifier of each has-one field's model and the identifiers of
/// each has-many field's models.
pub proof fn law_resource_follows_plan<R>(
    input: ModelInput,
    has_one: Seq<IdentifierView>,
    has_many: Seq<Seq<IdentifierView>>,
    included_one: Seq<Seq<R>>,
    included_many: Seq<Seq<Seq<R>>>,
)
    requires
        expected_plan(input) is Ok,
    ensures
        ({
            let plan = expected_plan(input)->Ok_0;
            let rels = resource_relationships(plan, has_one, has_many);
            &&& plan.resource_type == struct_type(input.attrs@, input.ident@)->Ok_0
            &&& rels is None <==> relationship_names(plan) is None
            &&& resource_included(plan, included_one, included_many) is None <==> relationship_names(
                plan,
            ) is None
            &&& rels matches Some(r) ==> {
                &&& r.len() == plan.has_one.len() + plan.has_many.len()
                &&& r.map_values(|e: (Seq<char>, RelationshipView)| e.0) == relationship_names(
                    plan,
                )->Some_0
                &&& forall|i: int|
                    0 <= i < plan.has_one.len() ==> (#[trigger] r[i]).1 == RelationshipView::Single(
                        has_one[i],
                    )
                &&& forall|j: int|
                    0 <= j < plan.has_many.len() ==> (#[trigger] r[plan.has_one.len() + j]).1
                        == RelationshipView::Multiple(has_many[j])
            }
        }),
{
    let plan = expected_plan(input)->Ok_0;
    lemma_plan_fold(input);
    match resource_relationships(plan, has_one, has_many) {
        Some(r) => {
            assert(r.map_values(|e: (Seq<char>, RelationshipView)| e.0) =~= plan.has_one
                + plan.has_many);
        },
        None => {},
    }
}

/// No two entries of an ordered map have the same key.
pub open spec fn keys_distinct(entries: Seq<(Seq<char>, usize)>) -> bool {
    forall|i: int, j: int|
        0 <= i < j < entries.len() ==> (#[trigger] entries[i]).0 != (#[trigger] entries[j]).0
}

/// An entry comes from one of the first `n` attribute fields: its key is
/// that field's JSON:API key, and it holds the position of that field's serde
/// key in the serialized object.
pub open spec fn entry_from_field(
    fields: Seq<AttributeFieldView>,
    object: Seq<Seq<char>>,
    n: int,
    e: (Seq<char>, usize),
) -> bool {
    exists|j: int|
        0 <= j < n && (#[trigger] fields[j]).jsonapi_key == e.0 && e.1 < object.len()
            && object[e.1 as int] == fields[j].serde_key
}

proof fn lemma_entry_keys(entries: Seq<(Seq<char>, usize)>)
    ensures
        entry_keys(entries).len() == entries.len(),
        forall|i: int| 0 <= i < entries.len() ==> #[trigger] entry_keys(entries)[i] == entries[i].0,
{
}

proof fn lemma_attributes_upto(fields: Seq<AttributeFieldView>, object: Seq<Seq<char>>, n: int)
    requires
        0 <= n <= fields.len(),
        object.len() <= usize::MAX,
    ensures
        keys_distinct(attributes_upto(fields, object, n)),
        forall|i: int|
            0 <= i < attributes_upto(fields, object, n).len() ==> entry_from_field(
                fields,
                object,
                n,
                #[trigger] attributes_upto(fields, object, n)[i],
            ),
    decreases n,
{
    if n > 0 {
        lemma_attributes_upto(fields, object, n - 1);
        let acc = attributes_upto(fields, object, n - 1);
        let out = attributes_upto(fields, object, n);
        let f = fields[n - 1];
        assert forall|i: int| 0 <= i < acc.len() implies entry_from_field(
            fields,
            object,
            n,
            #[trigger] acc[i],
        ) by {
            assert(entry_from_field(fields, object, n - 1, acc[i]));
            let j = choose|j: int|
                0 <= j < n - 1 && (#[trigger] fields[j]).jsonapi_key == acc[i].0 && acc[i].1
                    < object.len() && object[acc[i].1 as int] == fields[j].serde_key;
            assert(fields[j].jsonapi_key == acc[i].0);
        }
        lemma_first_index_from(object, f.serde_key, 0);
        match first_index(object, f.serde_key) {
            Some(x) => {
                let e = (f.jsonapi_key, x as usize);
                assert(entry_from_field(fields, object, n, e)) by {
                    assert(fields[n - 1].jsonapi_key == e.0);
                }
                lemma_entry_keys(acc);
                lemma_first_index_from(entry_keys(acc), f.jsonapi_key, 0);
                match first_index(entry_keys(acc), f.jsonapi_key) {
                    Some(p) => {
                        assert(out == acc.update(p, e));
                        assert forall|i: int, j: int|
                            0 <= i < j < out.len() implies (#[trigger] out[i]).0 != (
                            #[trigger] out[j]).0 by {
                            assert(acc[i].0 != acc[j].0);
                        }
                        assert forall|i: int| 0 <= i < out.len() implies entry_from_field(
                            fields,
                            object,
                            n,
                            #[trigger] out[i],
                        ) by {
                            if i != p {
                                assert(out[i] == acc[i]);
                            }
                        }
                    },
                    None => {
                        assert(out == acc.push(e));
                        assert forall|i: int, j: int|
                            0 <= i < j < out.len() implies (#[trigger] out[i]).0 != (
                            #[trigger] out[j]).0 by {
                            if j == acc.len() {
                                assert(entry_keys(acc)[i] != f.jsonapi_key);
                            } else {
                                assert(acc[i].0 != acc[j].0);
                            }
                        }
                        assert forall|i: int| 0 <= i < out.len() implies entry_from_field(
                            fields,
                            object,
                            n,
                            #[trigger] out[i],
                        ) by {
                            if i < acc.len() {
                                assert(out[i] == acc[i]);
                            }
                        }
                    },
                }
            },
            None => {},
        }
    }
}

/// The attributes map of a resource holds each key at most once, and each
/// of its entries comes from an attribute field: its key is the field's
/// JSON:API key, and its value is the serialized object's value under the
/// field's serde key.
pub proof fn law_resource_attributes_from_fields(fields: Seq<AttributeFieldView>, object: Seq<Seq<char>>)
    requires
        object.len() <= usize::MAX,
    ensures
        keys_distinct(resource_attributes(fields, object)),
        forall|i: int|
            0 <= i < resource_attributes(fields, object).len() ==> entry_from_field(
                fields,
                object,
                fields.len() as int,
                #[trigger] resource_attributes(fields, object)[i],
            ),
{
    lemma_attributes_upto(fields, object, fields.len() as int);
}

/// The entries of the first `n` attribute fields whose serde key the
/// serialized object has: each field's JSON:API key with the position of its
/// serde key, in declaration order.
pub open spec fn present_attributes(fields: Seq<AttributeFieldView>, object: Seq<Seq<char>>, n: int) -> Seq<
    (Seq<char>, usize),
>
    decreases n,
{
    if n <= 0 {
        seq![]
    } else {
        present_attributes(fields, object, n - 1) + match first_index(object, fields[n - 1].serde_key) {
            Some(i) => seq![(fields[n - 1].jsonapi_key, i as usize)],
            None => seq![],
        }
    }
}

proof fn lemma_attributes_in_order(fields: Seq<AttributeFieldView>, object: Seq<Seq<char>>, n: int)
    requires
        0 <= n <= fields.len(),
        object.len() <= usize::MAX,
        forall|i: int, j: int|
            0 <= i < j < fields.len() ==> (#[trigger] fields[i]).jsonapi_key != (#[trigger] fields[j]).jsonapi_key,
    ensures
        attributes_upto(fields, object, n) == present_attributes(fields, object, n),
    decreases n,
{
    if n > 0 {
        lemma_attributes_in_order(fields, object, n - 1);
        lemma_attributes_upto(fields, object, n - 1);
        let acc = attributes_upto(fields, object, n - 1);
        let f = fields[n - 1];
        lemma_first_index_from(object, f.serde_key, 0);
        match first_index(object, f.serde_key) {
            Some(x) => {
                lemma_entry_keys(acc);
                lemma_first_index_from(entry_keys(acc), f.jsonapi_key, 0);
                assert forall|k: int| 0 <= k < entry_keys(acc).len() implies entry_keys(acc)[k]
                    != f.jsonapi_key by {
                    assert(entry_from_field(fields, object, n - 1, acc[k]));
                    let j = choose|j: int|
                        0 <= j < n - 1 && (#[trigger] fields[j]).jsonapi_key == acc[k].0 && acc[k].1
                            < object.len() && object[acc[k].1 as int] == fields[j].serde_key;
                    assert(fields[j].jsonapi_key != fields[n - 1].jsonapi_key);
                }
                assert(first_index(entry_keys(acc), f.jsonapi_key) is None);
                assert(acc.push((f.jsonapi_key, x as usize)) =~= acc + seq![(f.jsonapi_key, x as usize)]);
            },
            None => {
                assert(acc =~= acc + Seq::<(Seq<char>, usize)>::empty());
            },
        }
    }
}

/// When the attribute fields have distinct JSON:API keys, the attributes
/// map lists, in declaration order, every attribute field whose serde key
/// the serialized object has, under its JSON:API key with the value under
/// its serde key; a field whose serde key it lacks is left out.
pub proof fn law_attributes_follow_fields(fields: Seq<AttributeFieldView>, object: Seq<Seq<char>>)
    requires
        object.len() <= usize::MAX,
        forall|i: int, j: int|
            0 <= i < j < fields.len() ==> (#[trigger] fields[i]).jsonapi_key != (#[trigger] fields[j]).jsonapi_key,
    ensures
        resource_attributes(fields, object) == present_attributes(fields, object, fields.len() as int),
{
    lemma_attributes_in_order(fields, object, fields.len() as int);
}

/// A field that the derive does not read as an attribute (a skipped field,
/// a relationship field, the `id` field) puts nothing in a resource's
/// attributes: no key there is its name, unless an attribute field uses that
/// name as its JSON:API key.
pub proof fn law_non_attribute_field_absent(input: ModelInput, object: Seq<Seq<char>>, k: int)
    requires
        object.len() <= usize::MAX,
        expected_plan(input) is Ok,
        0 <= k < named_fields(input).len(),
        !is_attribute_role(field_role(named_fields(input)[k], struct_rename_rule(input.attrs@))),
        forall|j: int|
            0 <= j < expected_plan(input)->Ok_0.attributes.len() ==> (#[trigger] expected_plan(
                input,
            )->Ok_0.attributes[j]).jsonapi_key != named_fields(input)[k].name@,
    ensures
        forall|i: int|
            0 <= i < resource_attributes(expected_plan(input)->Ok_0.attributes, object).len() ==> (
            #[trigger] resource_attributes(expected_plan(input)->Ok_0.attributes, object)[i]).0
                != named_fields(input)[k].name@,
{
    let fields = expected_plan(input)->Ok_0.attributes;
    law_resource_attributes_from_fields(fields, object);
    assert forall|i: int| 0 <= i < resource_attributes(fields, object).len() implies (
    #[trigger] resource_attributes(fields, object)[i]).0 != named_fields(input)[k].name@ by {
        let e = resource_attributes(fields, object)[i];
        assert(entry_from_field(fields, object, fields.len() as int, e));
        let j = choose|j: int|
            0 <= j < fields.len() && (#[trigger] fields[j]).jsonapi_key == e.0 && e.1 < object.len()
                && object[e.1 as int] == fields[j].serde_key;
        assert(fields[j].jsonapi_key != named_fields(input)[k].name@);
    }
}

} // verus!

verus! {

/// No token of the list is the identifier `key`.
pub open spec fn lacks_ident(toks: Seq<Token>, key: Seq<char>) -> bool {
    forall|j: int| 0 <= j < toks.len() ==> !(#[trigger] toks[j] matches Token::Ident(k) && k@ == key)
}

proof fn lemma_seg_end_before_comma(toks: Seq<Token>, i: int, c: int)
    requires
        0 <= i <= c < toks.len(),
        punct_is(toks[c], ','),
    ensures
        seg_end(toks, i) <= c,
    decreases c - i,
{
    if i < c && !punct_is(toks[i], ',') {
        lemma_seg_end_before_comma(toks, i + 1, c);
    }
}

proof fn lemma_no_key_after(toks: Seq<Token>, key: Seq<char>, from: int, i: int)
    requires
        0 <= from <= i,
        forall|j: int| from <= j < toks.len() ==> !(#[trigger] toks[j] matches Token::Ident(k) && k@ == key),
    ensures
        last_ser_value(toks, i, key) is None,
    decreases toks.len() - i,
{
    if i < toks.len() {
        lemma_seg_end(toks, i);
        let e = seg_end(toks, i);
        assert(!(toks[i] matches Token::Ident(k) && k@ == key));
        if i <= e < toks.len() {
            lemma_no_key_after(toks, key, from, e + 1);
        }
    }
}

proof fn lemma_no_key_before(toks: Seq<Token>, key: Seq<char>, p: int, i: int)
    requires
        0 <= i <= p < toks.len(),
        p > 0 ==> punct_is(toks[p - 1], ','),
        forall|j: int| 0 <= j < p ==> !(#[trigger] toks[j] matches Token::Ident(k) && k@ == key),
    ensures
        last_ser_value(toks, i, key) == last_ser_value(toks, p, key),
    decreases p - i,
{
    if i < p {
        lemma_seg_end_before_comma(toks, i, p - 1);
        lemma_seg_end(toks, i);
        let e = seg_end(toks, i);
        assert(!(toks[i] matches Token::Ident(k) && k@ == key));
        lemma_no_key_before(toks, key, p, e + 1);
    }
}

/// A `serde` argument list with a `key = "value"` item, all of whose other
/// items (before it and after it) never name `key`, gives `key` that value,
/// wherever the item stands: adding items such as `, default` after it, or
/// `default,` before it, leaves the value unchanged. A `serde` attribute
/// that is a field's only attribute gives it this serde name.
pub proof fn law_rename_item_anywhere(
    before: Seq<Token>,
    after: Seq<Token>,
    key: Seq<char>,
    k: String,
    eq: Token,
    raw: String,
)
    requires
        k@ == key,
        punct_is(eq, '='),
        before.len() > 0 ==> punct_is(before.last(), ','),
        after.len() > 0 ==> punct_is(after[0], ','),
        lacks_ident(before, key),
        lacks_ident(after, key),
    ensures
        last_ser_value(before + seq![Token::Ident(k), eq, Token::Literal(raw)] + after, 0, key)
            == string_literal_value(raw@),
{
    let item = seq![Token::Ident(k), eq, Token::Literal(raw)];
    let toks = before + item + after;
    let p = before.len() as int;
    assert(toks[p] == Token::Ident(k));
    assert(toks[p + 1] == eq);
    assert(toks[p + 2] == Token::Literal(raw));
    assert(p > 0 ==> toks[p - 1] == before.last());
    assert forall|j: int| 0 <= j < p implies !(#[trigger] toks[j] matches Token::Ident(kk) && kk@ == key) by {
        assert(toks[j] == before[j]);
    }
    lemma_no_key_before(toks, key, p, 0);
    assert forall|j: int| p + 3 <= j < toks.len() implies !(#[trigger] toks[j] matches Token::Ident(kk) && kk@
        == key) by {
        assert(toks[j] == after[j - p - 3]);
    }
    if after.len() > 0 {
        assert(toks[p + 3] == after[0]);
    }
    assert(seg_end(toks, p + 3) == p + 3);
    assert(seg_end(toks, p + 2) == p + 3);
    assert(seg_end(toks, p + 1) == p + 3);
    assert(seg_end(toks, p) == p + 3);
    lemma_no_key_after(toks, key, p + 3, p + 4);
}

/// A field whose only attribute is `#[serde(..)]` with a `rename = ".."`
/// item, whose other items never name `rename`, has that value as its serde
/// name, whatever items stand before or after it.
pub proof fn law_serde_rename_anywhere(
    attrs: Seq<Attribute>,
    before: Seq<Token>,
    after: Seq<Token>,
    k: String,
    eq: Token,
    raw: String,
)
    requires
        attrs.len() == 1,
        is_serde(attrs[0]),
        attrs[0].meta matches Meta::List(toks) && toks@ == before + seq![Token::Ident(k), eq, Token::Literal(raw)] + after,
        k@ == "rename"@,
        punct_is(eq, '='),
        before.len() > 0 ==> punct_is(before.last(), ','),
        after.len() > 0 ==> punct_is(after[0], ','),
        lacks_ident(before, "rename"@),
        lacks_ident(after, "rename"@),
    ensures
        serde_rename(attrs) == string_literal_value(raw@),
{
    law_rename_item_anywhere(before, after, "rename"@, k, eq, raw);
    assert(crate::serde_name::serde_value_from(attrs, 1, "rename"@) is None);
    match attrs[0].meta {
        Meta::List(toks) => {
            assert(last_ser_value(toks@, 0, "rename"@) == string_literal_value(raw@));
        },
        _ => {},
    }
}

} // verus!

verus! {

/// The included resources of a model with relationship fields are the
/// resources of every has-one field, in order, followed by those of every
/// model of every has-many field: nothing given is included, one more
/// has-one list adds its resources at the end of the has-one part, one more
/// has-many field adds its models' resources at the end, and the two parts
/// are joined in that order. A model without relationship fields includes
/// nothing.
pub proof fn law_included_concatenates<R>(
    plan: PlanView,
    has_one: Seq<Seq<R>>,
    has_many: Seq<Seq<Seq<R>>>,
    next_one: Seq<R>,
    next_many: Seq<Seq<R>>,
)
    ensures
        plan.has_one.len() == 0 && plan.has_many.len() == 0 ==> resource_included(plan, has_one, has_many)
            is None,
        plan.has_one.len() > 0 || plan.has_many.len() > 0 ==> {
            &&& resource_included(plan, Seq::<Seq<R>>::empty(), Seq::<Seq<Seq<R>>>::empty())
                == Some(Seq::<R>::empty())
            &&& resource_included(plan, has_one.push(next_one), Seq::<Seq<Seq<R>>>::empty()) == Some(
                resource_included(plan, has_one, Seq::<Seq<Seq<R>>>::empty())->Some_0 + next_one,
            )
            &&& resource_included(plan, Seq::<Seq<R>>::empty(), has_many.push(next_many)) == Some(
                resource_included(plan, Seq::<Seq<R>>::empty(), has_many)->Some_0
                    + resource_included(plan, next_many, Seq::<Seq<Seq<R>>>::empty())->Some_0,
            )
            &&& resource_included(plan, has_one, has_many) == Some(
                resource_included(plan, has_one, Seq::<Seq<Seq<R>>>::empty())->Some_0
                    + resource_included(plan, Seq::<Seq<R>>::empty(), has_many)->Some_0,
            )
        },
{
    if plan.has_one.len() > 0 || plan.has_many.len() > 0 {
        let f = |m: Seq<Seq<R>>| m.flatten();
        assert(Seq::<Seq<Seq<R>>>::empty().map_values(f) =~= Seq::<Seq<R>>::empty());
        assert(Seq::<Seq<R>>::empty().flatten() =~= Seq::<R>::empty());
        has_one.lemma_flatten_push(next_one);
        assert(has_many.push(next_many).map_values(f) =~= has_many.map_values(f).push(next_many.flatten()));
        has_many.map_values(f).lemma_flatten_push(next_many.flatten());
        assert(has_one.flatten() + Seq::<R>::empty() =~= has_one.flatten());
        assert(has_one.push(next_one).flatten() + Seq::<R>::empty() =~= has_one.push(next_one).flatten());
        assert(next_many.flatten() + Seq::<R>::empty() =~= next_many.flatten());
        assert(Seq::<R>::empty() + has_many.map_values(f).flatten() =~= has_many.map_values(f).flatten());
        assert(Seq::<R>::empty() + has_many.push(next_many).map_values(f).flatten() =~= has_many.push(
            next_many,
        ).map_values(f).flatten());
    }
}

} // verus!

verus! {

proof fn lemma_flags_grow(attrs: Seq<Attribute>, p: int, a: Attribute, m: int)
    requires
        0 <= p <= m <= attrs.len(),
        field_attrs_upto(attrs, m) is Ok,
        field_attrs_upto(attrs.insert(p, a), m + 1) is Ok,
    ensures
        ({
            let x = field_attrs_upto(attrs, m)->Ok_0;
            let y = field_attrs_upto(attrs.insert(p, a), m + 1)->Ok_0;
            &&& x.skip ==> y.skip
            &&& x.has_one ==> y.has_one
            &&& x.has_many ==> y.has_many
        }),
    decreases m,
{
    attrs.insert_ensures(p, a);
    if m == p {
        lemma_insert_prefix(attrs, p, a, p);
        assert(attrs.insert(p, a)[p] == a);
    } else {
        assert(attrs.insert(p, a)[m] == attrs[m - 1]);
        assert(field_attrs_upto(attrs.insert(p, a), m) is Ok);
        assert(field_attrs_upto(attrs, m - 1) is Ok);
        lemma_flags_grow(attrs, p, a, m - 1);
    }
}

/// A flag asked for by the `jsonapi` attributes of a field stays asked for
/// when a further attribute is added anywhere among them: adding an
/// attribute never turns `skip`, `has_one` or `has_many` from set to unset.
pub proof fn law_field_flags_stay(attrs: Seq<Attribute>, p: int, a: Attribute)
    requires
        0 <= p <= attrs.len(),
        field_attrs(attrs) is Ok,
        field_attrs(attrs.insert(p, a)) is Ok,
    ensures
        field_attrs(attrs)->Ok_0.skip ==> field_attrs(attrs.insert(p, a))->Ok_0.skip,
        field_attrs(attrs)->Ok_0.has_one ==> field_attrs(attrs.insert(p, a))->Ok_0.has_one,
        field_attrs(attrs)->Ok_0.has_many ==> field_attrs(attrs.insert(p, a))->Ok_0.has_many,
{
    attrs.insert_ensures(p, a);
    lemma_flags_grow(attrs, p, a, attrs.len() as int);
}

} // verus!

verus! {

/// Each of serde's `rename_all` names reads as its rule, and no other text
/// reads as that rule.
pub proof fn law_rule_names(s: Seq<char>)
    ensures
        rule_named(s) == Some(RenameRule::LowerCase) <==> s == "lowercase"@,
        rule_named(s) == Some(RenameRule::UpperCase) <==> s == "UPPERCASE"@,
        rule_named(s) == Some(RenameRule::PascalCase) <==> s == "PascalCase"@,
        rule_named(s) == Some(RenameRule::CamelCase) <==> s == "camelCase"@,
        rule_named(s) == Some(RenameRule::SnakeCase) <==> s == "snake_case"@,
        rule_named(s) == Some(RenameRule::ScreamingSnakeCase) <==> s == "SCREAMING_SNAKE_CASE"@,
        rule_named(s) == Some(RenameRule::KebabCase) <==> s == "kebab-case"@,
        rule_named(s) == Some(RenameRule::ScreamingKebabCase) <==> s == "SCREAMING-KEBAB-CASE"@,
{
    reveal_strlit("lowercase");
    reveal_strlit("UPPERCASE");
    reveal_strlit("PascalCase");
    reveal_strlit("camelCase");
    reveal_strlit("snake_case");
    reveal_strlit("SCREAMING_SNAKE_CASE");
    reveal_strlit("kebab-case");
    reveal_strlit("SCREAMING-KEBAB-CASE");
    assert("lowercase"@[0] == 'l');
    assert("UPPERCASE"@[0] == 'U');
    assert("PascalCase"@[0] == 'P');
    assert("camelCase"@[0] == 'c');
    assert("snake_case"@[0] == 's');
    assert("SCREAMING_SNAKE_CASE"@[0] == 'S');
    assert("SCREAMING_SNAKE_CASE"@[9] == '_');
    assert("kebab-case"@[0] == 'k');
    assert("SCREAMING-KEBAB-CASE"@[0] == 'S');
    assert("SCREAMING-KEBAB-CASE"@[9] == '-');
}

/// A struct whose only attribute is `#[serde(..)]` with a
/// `rename_all = ".."` item, whose other items never name `rename_all`, has
/// the rule that the item's text names, wherever the item stands.
pub proof fn law_struct_rule_anywhere(
    attrs: Seq<Attribute>,
    before: Seq<Token>,
    after: Seq<Token>,
    k: String,
    eq: Token,
    raw: String,
)
    requires
        attrs.len() == 1,
        is_serde(attrs[0]),
        attrs[0].meta matches Meta::List(toks) && toks@ == before + seq![Token::Ident(k), eq, Token::Literal(raw)] + after,
        k@ == "rename_all"@,
        punct_is(eq, '='),
        before.len() > 0 ==> punct_is(before.last(), ','),
        after.len() > 0 ==> punct_is(after[0], ','),
        lacks_ident(before, "rename_all"@),
        lacks_ident(after, "rename_all"@),
    ensures
        struct_rename_rule(attrs) == match string_literal_value(raw@) {
            Some(v) => rule_named(v),
            None => None,
        },
{
    law_rename_item_anywhere(before, after, "rename_all"@, k, eq, raw);
    assert(crate::serde_name::serde_value_from(attrs, 1, "rename_all"@) is None);
    match attrs[0].meta {
        Meta::List(toks) => {
            assert(last_ser_value(toks@, 0, "rename_all"@) == string_literal_value(raw@));
        },
        _ => {},
    }
}

} // verus!

verus! {

/// How each `rename_all` rule cases a field name, character by character:
/// `lowercase` and `snake_case` keep it; `UPPERCASE` and
/// `SCREAMING_SNAKE_CASE` put each ASCII letter in upper case; `kebab-case`
/// writes every `_` as `-`; `SCREAMING-KEBAB-CASE` does both. Each keeps
/// the name's length, and without a rule the name is kept.
pub proof fn law_rule_cases_each_character(f: Seq<char>)
    ensures
        apply_rule(None, f) == f,
        apply_rule(Some(RenameRule::LowerCase), f) == f,
        apply_rule(Some(RenameRule::SnakeCase), f) == f,
        apply_rule(Some(RenameRule::UpperCase), f).len() == f.len(),
        apply_rule(Some(RenameRule::ScreamingSnakeCase), f).len() == f.len(),
        apply_rule(Some(RenameRule::KebabCase), f).len() == f.len(),
        apply_rule(Some(RenameRule::ScreamingKebabCase), f).len() == f.len(),
        forall|k: int|
            0 <= k < f.len() ==> {
                let c = f[k];
                let up = if 'a' <= c && c <= 'z' {
                    ((c as u32) - 32) as char
                } else {
                    c
                };
                &&& #[trigger] apply_rule(Some(RenameRule::UpperCase), f)[k] == up
                &&& apply_rule(Some(RenameRule::ScreamingSnakeCase), f)[k] == up
                &&& apply_rule(Some(RenameRule::KebabCase), f)[k] == if c == '_' {
                    '-'
                } else {
                    c
                }
                &&& apply_rule(Some(RenameRule::ScreamingKebabCase), f)[k] == if c == '_' {
                    '-'
                } else {
                    up
                }
            },
{
}

proof fn lemma_pascal_join(a: Seq<char>, b: Seq<char>, cap: bool)
    ensures
        crate::serde_name::pascal(a + seq!['_'] + b, cap) == crate::serde_name::pascal(a, cap)
            + crate::serde_name::pascal(b, true),
    decreases a.len(),
{
    let s = a + seq!['_'] + b;
    if a.len() == 0 {
        assert(s[0] == '_');
        assert(s.drop_first() =~= b);
        assert(crate::serde_name::pascal(a, cap) =~= Seq::<char>::empty());
        assert(crate::serde_name::pascal(s, cap) =~= Seq::<char>::empty() + crate::serde_name::pascal(b, true));
    } else {
        assert(s[0] == a[0]);
        assert(s.drop_first() =~= a.drop_first() + seq!['_'] + b);
        lemma_pascal_join(a.drop_first(), b, true);
        lemma_pascal_join(a.drop_first(), b, false);
        if a[0] == '_' {
        } else {
            let x = if cap {
                crate::text::ascii_upper(a[0])
            } else {
                a[0]
            };
            assert(seq![x] + (crate::serde_name::pascal(a.drop_first(), false) + crate::serde_name::pascal(
                b,
                true,
            )) =~= (seq![x] + crate::serde_name::pascal(a.drop_first(), false))
                + crate::serde_name::pascal(b, true));
        }
    }
}

proof fn lemma_pascal_word(w: Seq<char>, cap: bool)
    requires
        forall|k: int| 0 <= k < w.len() ==> w[k] != '_',
    ensures
        crate::serde_name::pascal(w, false) == w,
        w.len() > 0 ==> crate::serde_name::pascal(w, true) == seq![crate::text::ascii_upper(w[0])]
            + w.drop_first(),
    decreases w.len(),
{
    if w.len() > 0 {
        lemma_pascal_word(w.drop_first(), false);
        assert(seq![w[0]] + w.drop_first() =~= w);
    }
}

/// `PascalCase` drops every `_` and capitalizes each word: a name without
/// `_` gets its first ASCII letter in upper case and keeps the rest, and
/// joining two names with `_` joins their `PascalCase` forms. `camelCase`
/// is `PascalCase` with the first character put back in ASCII lower case.
pub proof fn law_pascal_and_camel(a: Seq<char>, b: Seq<char>)
    ensures
        (forall|k: int| 0 <= k < a.len() ==> a[k] != '_') && a.len() > 0 ==> apply_rule(
            Some(RenameRule::PascalCase),
            a,
        ) == seq![
            if 'a' <= a[0] && a[0] <= 'z' {
                ((a[0] as u32) - 32) as char
            } else {
                a[0]
            },
        ] + a.drop_first(),
        apply_rule(Some(RenameRule::PascalCase), Seq::<char>::empty()) == Seq::<char>::empty(),
        apply_rule(Some(RenameRule::PascalCase), a + seq!['_'] + b) == apply_rule(
            Some(RenameRule::PascalCase),
            a,
        ) + apply_rule(Some(RenameRule::PascalCase), b),
        apply_rule(Some(RenameRule::CamelCase), a).len() == apply_rule(
            Some(RenameRule::PascalCase),
            a,
        ).len(),
        apply_rule(Some(RenameRule::CamelCase), a).len() > 0 ==> {
            let p = apply_rule(Some(RenameRule::PascalCase), a);
            &&& apply_rule(Some(RenameRule::CamelCase), a)[0] == if 'A' <= p[0] && p[0] <= 'Z' {
                ((p[0] as u32) + 32) as char
            } else {
                p[0]
            }
            &&& apply_rule(Some(RenameRule::CamelCase), a).drop_first() == p.drop_first()
        },
{
    lemma_pascal_join(a, b, true);
    if (forall|k: int| 0 <= k < a.len() ==> a[k] != '_') {
        lemma_pascal_word(a, true);
    }
    let p = crate::serde_name::pascal(a, true);
    if p.len() > 0 {
        assert((seq![crate::text::ascii_lower(p[0])] + p.drop_first()).drop_first() =~= p.drop_first());
    }
}

} // verus!

verus! {

/// Reading the `jsonapi` attributes of a field one more attribute at a
/// time: the flags of the longer list are those of the shorter one or those
/// the added attribute asks for, and its rename is the added attribute's
/// when that one has one, else the shorter list's; an attribute that cannot
/// be read makes the whole list fail, at its own index.
pub proof fn law_field_attrs_push(attrs: Seq<Attribute>, a: Attribute)
    ensures
        field_attrs(attrs) is Err ==> field_attrs(attrs.push(a)) == field_attrs(attrs),
        field_attrs(attrs) is Ok && field_attrs(seq![a]) is Err ==> field_attrs(attrs.push(a))
            == Err::<crate::attrs::FieldAttrsView, (usize, MetaError)>(
            (attrs.len() as usize, field_attrs(seq![a])->Err_0.1),
        ),
        field_attrs(seq![a]) is Err ==> field_attrs(seq![a])->Err_0.0 == 0,
        field_attrs(attrs) is Ok && field_attrs(seq![a]) is Ok ==> {
            let x = field_attrs(attrs)->Ok_0;
            let y = field_attrs(seq![a])->Ok_0;
            field_attrs(attrs.push(a)) == Ok::<crate::attrs::FieldAttrsView, (usize, MetaError)>(
                crate::attrs::FieldAttrsView {
                    skip: x.skip || y.skip,
                    rename: if y.rename is Some {
                        y.rename
                    } else {
                        x.rename
                    },
                    has_one: x.has_one || y.has_one,
                    has_many: x.has_many || y.has_many,
                },
            )
        },
{
    let n = attrs.len() as int;
    lemma_insert_prefix(attrs, n, a, n);
    assert(attrs.insert(n, a) =~= attrs.push(a));
    assert(attrs.push(a)[n] == a);
    assert(seq![a][0] == a);
    assert(field_attrs_upto(seq![a], 0) == Ok::<crate::attrs::FieldAttrsView, (usize, MetaError)>(
        crate::attrs::no_field_attrs(),
    ));
}

/// The struct's `rename_all` rule never changes the key of a field that has
/// a `serde(rename)`: that key is the rename. Without a rename, the key is
/// the field's name without its `r#`, cased by the rule.
pub proof fn law_rule_applies_to_unrenamed_fields(f: Field, r1: Option<RenameRule>, r2: Option<RenameRule>)
    ensures
        serde_rename(f.attrs@) matches Some(v) ==> serde_key(f, r1) == v && serde_key(f, r2) == v,
        serde_rename(f.attrs@) is None ==> serde_key(f, r1) == apply_rule(r1, serde_key(f, None)),
{
}

/// Leading `r#` markers are dropped from a name, and nothing else is: a
/// name that does not start with `r#` is kept as it is.
pub proof fn law_unraw(s: Seq<char>)
    ensures
        unraw(seq!['r', '#'] + s) == unraw(s),
        !(s.len() >= 2 && s[0] == 'r' && s[1] == '#') ==> unraw(s) == s,
{
    let t = seq!['r', '#'] + s;
    assert(t.skip(2) =~= s);
}

/// The struct's `rename_all` rule only touches a field's serde key: what
/// the derive reads a field as, and a field's JSON:API key, do not depend on
/// it.
pub proof fn law_rule_only_changes_serde_key(f: Field, r1: Option<RenameRule>, r2: Option<RenameRule>)
    ensures
        field_role(f, r1) is Ok <==> field_role(f, r2) is Ok,
        field_role(f, r1) is Err ==> field_role(f, r1) == field_role(f, r2),
        field_role(f, r1) matches Ok(x) && !(x is Attribute) ==> field_role(f, r1) == field_role(f, r2),
        field_role(f, r1) matches Ok(FieldRole::Attribute { jsonapi_key: k1, .. }) ==> field_role(f, r2) matches Ok(
            FieldRole::Attribute { jsonapi_key: k2, .. },
        ) && k1 == k2,
{
}

} // verus!

verus! {

proof fn lemma_serde_value_shift(pre: Seq<Attribute>, rest: Seq<Attribute>, m: int, key: Seq<char>)
    requires
        0 <= m,
    ensures
        serde_value_from(pre + rest, m + pre.len(), key) == serde_value_from(rest, m, key),
    decreases rest.len() - m,
{
    if m < rest.len() {
        assert((pre + rest)[m + pre.len()] == rest[m]);
        lemma_serde_value_shift(pre, rest, m + 1, key);
    }
}

proof fn lemma_serde_value_insert_before(attrs: Seq<Attribute>, p: int, a: Attribute, n: int, key: Seq<char>)
    requires
        0 <= n <= p <= attrs.len(),
        !is_serde(a),
    ensures
        serde_value_from(attrs.insert(p, a), n, key) == serde_value_from(attrs, n, key),
    decreases p - n,
{
    attrs.insert_ensures(p, a);
    if n == p {
        let pre = attrs.subrange(0, p).push(a);
        let rest = attrs.subrange(p, attrs.len() as int);
        assert(attrs.insert(p, a) =~= pre + rest);
        assert(attrs =~= attrs.subrange(0, p) + rest);
        lemma_serde_value_shift(pre, rest, 0, key);
        lemma_serde_value_shift(attrs.subrange(0, p), rest, 0, key);
        assert(attrs.insert(p, a)[p] == a);
    } else {
        assert(attrs.insert(p, a)[n] == attrs[n]);
        lemma_serde_value_insert_before(attrs, p, a, n + 1, key);
    }
}

/// Only `serde` attributes count, and the first of them that gives `key` a
/// value decides it: adding another kind of attribute anywhere changes
/// nothing, and a list that starts with an attribute giving a value has that
/// value whatever follows, while one that starts with an attribute giving
/// none has the value of the rest.
pub proof fn law_first_serde_attribute_decides(
    attrs: Seq<Attribute>,
    p: int,
    a: Attribute,
    rest: Seq<Attribute>,
    key: Seq<char>,
)
    requires
        0 <= p <= attrs.len(),
    ensures
        !is_serde(a) ==> serde_value(attrs.insert(p, a), key) == serde_value(attrs, key),
        serde_value(seq![a], key) is Some ==> serde_value(seq![a] + rest, key) == serde_value(seq![a], key),
        serde_value(seq![a], key) is None ==> serde_value(seq![a] + rest, key) == serde_value(rest, key),
{
    if !is_serde(a) {
        lemma_serde_value_insert_before(attrs, p, a, 0, key);
    }
    lemma_serde_value_shift(seq![a], rest, 0, key);
    assert((seq![a] + rest)[0] == a);
    assert(serde_value_from(seq![a], 1, key) is None);
}

} // verus!

verus! {

proof fn lemma_no_key_after_direct(toks: Seq<Token>, key: Seq<char>, from: int, i: int)
    requires
        0 <= from <= i,
        forall|j: int| from <= j < toks.len() ==> !(#[trigger] toks[j] matches Token::Ident(k) && k@ == key),
    ensures
        last_direct_value(toks, i, key) is None,
    decreases toks.len() - i,
{
    if i < toks.len() {
        lemma_seg_end(toks, i);
        let e = seg_end(toks, i);
        assert(!(toks[i] matches Token::Ident(k) && k@ == key));
        if i <= e < toks.len() {
            lemma_no_key_after_direct(toks, key, from, e + 1);
        }
    }
}

proof fn lemma_no_key_before_direct(toks: Seq<Token>, key: Seq<char>, p: int, i: int)
    requires
        0 <= i <= p < toks.len(),
        p > 0 ==> punct_is(toks[p - 1], ','),
        forall|j: int| 0 <= j < p ==> !(#[trigger] toks[j] matches Token::Ident(k) && k@ == key),
    ensures
        last_direct_value(toks, i, key) == last_direct_value(toks, p, key),
    decreases p - i,
{
    if i < p {
        lemma_seg_end_before_comma(toks, i, p - 1);
        lemma_seg_end(toks, i);
        let e = seg_end(toks, i);
        assert(!(toks[i] matches Token::Ident(k) && k@ == key));
        lemma_no_key_before_direct(toks, key, p, e + 1);
    }
}

proof fn lemma_direct_item_anywhere(
    before: Seq<Token>,
    after: Seq<Token>,
    key: Seq<char>,
    k: String,
    eq: Token,
    raw: String,
)
    requires
        k@ == key,
        punct_is(eq, '='),
        before.len() > 0 ==> punct_is(before.last(), ','),
        after.len() > 0 ==> punct_is(after[0], ','),
        lacks_ident(before, key),
        lacks_ident(after, key),
    ensures
        last_direct_value(before + seq![Token::Ident(k), eq, Token::Literal(raw)] + after, 0, key)
            == string_literal_value(raw@),
{
    let toks = before + seq![Token::Ident(k), eq, Token::Literal(raw)] + after;
    let p = before.len() as int;
    assert(toks[p] == Token::Ident(k));
    assert(toks[p + 1] == eq);
    assert(toks[p + 2] == Token::Literal(raw));
    assert(p > 0 ==> toks[p - 1] == before.last());
    assert forall|j: int| 0 <= j < p implies !(#[trigger] toks[j] matches Token::Ident(kk) && kk@ == key) by {
        assert(toks[j] == before[j]);
    }
    lemma_no_key_before_direct(toks, key, p, 0);
    assert forall|j: int| p + 3 <= j < toks.len() implies !(#[trigger] toks[j] matches Token::Ident(kk) && kk@
        == key) by {
        assert(toks[j] == after[j - p - 3]);
    }
    if after.len() > 0 {
        assert(toks[p + 3] == after[0]);
    }
    assert(seg_end(toks, p + 3) == p + 3);
    assert(seg_end(toks, p + 2) == p + 3);
    assert(seg_end(toks, p + 1) == p + 3);
    assert(seg_end(toks, p) == p + 3);
    lemma_no_key_after_direct(toks, key, p + 3, p + 4);
}

/// A `key(serialize = "..", ..)` item gives `key` its `serialize` value,
/// wherever the item stands in the argument list and wherever the
/// `serialize` item stands in its parentheses, as long as no other item
/// names `key` and no other item in the parentheses names `serialize`.
pub proof fn law_split_item_anywhere(
    before: Seq<Token>,
    after: Seq<Token>,
    key: Seq<char>,
    k: String,
    inner: Vec<Token>,
    inner_before: Seq<Token>,
    inner_after: Seq<Token>,
    ser: String,
    eq: Token,
    raw: String,
)
    requires
        k@ == key,
        ser@ == "serialize"@,
        punct_is(eq, '='),
        inner@ == inner_before + seq![Token::Ident(ser), eq, Token::Literal(raw)] + inner_after,
        before.len() > 0 ==> punct_is(before.last(), ','),
        after.len() > 0 ==> punct_is(after[0], ','),
        inner_before.len() > 0 ==> punct_is(inner_before.last(), ','),
        inner_after.len() > 0 ==> punct_is(inner_after[0], ','),
        lacks_ident(before, key),
        lacks_ident(after, key),
        lacks_ident(inner_before, "serialize"@),
        lacks_ident(inner_after, "serialize"@),
    ensures
        last_ser_value(before + seq![Token::Ident(k), Token::Group(Delimiter::Parenthesis, inner)] + after, 0, key)
            == string_literal_value(raw@),
{
    lemma_direct_item_anywhere(inner_before, inner_after, "serialize"@, ser, eq, raw);
    let toks = before + seq![Token::Ident(k), Token::Group(Delimiter::Parenthesis, inner)] + after;
    let p = before.len() as int;
    assert(toks[p] == Token::Ident(k));
    assert(toks[p + 1] == Token::Group(Delimiter::Parenthesis, inner));
    assert(p > 0 ==> toks[p - 1] == before.last());
    assert forall|j: int| 0 <= j < p implies !(#[trigger] toks[j] matches Token::Ident(kk) && kk@ == key) by {
        assert(toks[j] == before[j]);
    }
    lemma_no_key_before(toks, key, p, 0);
    assert forall|j: int| p + 2 <= j < toks.len() implies !(#[trigger] toks[j] matches Token::Ident(kk) && kk@
        == key) by {
        assert(toks[j] == after[j - p - 2]);
    }
    if after.len() > 0 {
        assert(toks[p + 2] == after[0]);
    }
    assert(seg_end(toks, p + 2) == p + 2);
    assert(seg_end(toks, p + 1) == p + 2);
    assert(seg_end(toks, p) == p + 2);
    lemma_no_key_after(toks, key, p + 2, p + 3);
}

} // verus!

verus! {

/// How the derive reads a field: the field named `id` is the id whatever
/// its attributes; any other field whose `jsonapi` attributes read without
/// error is skipped when they ask for `skip`, else a has-one relationship
/// when they ask for `has_one`, else a has-many relationship when they ask
/// for `has_many`, else an attribute under its `jsonapi(rename)` or, without
/// one, its own name; a field whose attributes cannot be read fails with
/// their error.
pub proof fn law_field_role_precedence(f: Field, rule: Option<RenameRule>)
    ensures
        f.name@ == "id"@ ==> field_role(f, rule) == Ok::<FieldRole, (usize, MetaError)>(FieldRole::Id),
        f.name@ != "id"@ && field_attrs(f.attrs@) is Err ==> field_role(f, rule)
            == Err::<FieldRole, (usize, MetaError)>(field_attrs(f.attrs@)->Err_0),
        f.name@ != "id"@ && field_attrs(f.attrs@) is Ok ==> {
            let x = field_attrs(f.attrs@)->Ok_0;
            let r = field_role(f, rule);
            &&& (r == Ok::<FieldRole, (usize, MetaError)>(FieldRole::Skipped) <==> x.skip)
            &&& (r == Ok::<FieldRole, (usize, MetaError)>(FieldRole::HasOne) <==> !x.skip && x.has_one)
            &&& (r == Ok::<FieldRole, (usize, MetaError)>(FieldRole::HasMany) <==> !x.skip && !x.has_one
                && x.has_many)
            &&& (is_attribute_role(r) <==> !x.skip && !x.has_one && !x.has_many)
            &&& (r matches Ok(FieldRole::Attribute { jsonapi_key, .. }) ==> jsonapi_key == match x.rename {
                Some(n) => n,
                None => f.name@,
            })
        },
{
}

} // verus!
