//! The expansion plan of `#[derive(JsonApiModel)]`.
//!
//! The derive reads the struct's resource type, then goes through the named
//! fields in declaration order. The field named `id` is the resource's id;
//! its attributes are not read. Any other field is, by its `jsonapi`
//! attributes, skipped (`skip`), a has-one relationship (`has_one`), a
//! has-many relationship (`has_many`), or else an attribute, in that order
//! of precedence. An attribute is looked up in the serialized value under
//! the key serde writes it under (see [`crate::serde_name`]) and emitted
//! under its JSON:API key (its `jsonapi(rename)`, else its name, whatever
//! serde calls it).
//! The first error met is the one reported.
use vstd::prelude::*;
use crate::attrs::{field_attrs, get_jsonapi_field_attrs, parse_struct_type, struct_type};
use crate::serde_name::{field_serde_key, get_rename_rule, serde_key, struct_rename_rule, RenameRule};
use crate::input::{Data, Field, Fields, ModelInput};
use crate::meta::MetaError;
use crate::text::is_word;

verus! {

/// Why the derive refuses an item.
#[derive(Debug, Clone, Copy, PartialEq, Eq, Structural)]
pub enum DeriveError {
    /// A `jsonapi` attribute of the struct (at this index) could not be read.
    StructAttribute { attr: usize, error: MetaError },
    /// A `jsonapi` attribute of a field could not be read.
    FieldAttribute { field: usize, attr: usize, error: MetaError },
    /// The item is a tuple or unit struct.
    NotNamedFields,
    /// The item is an enum or a union.
    NotStruct,
    /// The struct has no field named `id`.
    MissingId,
}

/// An attribute field of the plan.
pub struct AttributeFieldView {
    pub field_index: usize,
    pub field: Seq<char>,
    pub serde_key: Seq<char>,
    pub jsonapi_key: Seq<char>,
}

/// A field that becomes a JSON:API attribute.
#[derive(Debug, Clone)]
pub struct AttributeField {
    /// The field's position among the struct's fields.
    pub field_index: usize,
    /// The field's name.
    pub field: String,
    /// The key under which the serialized value holds the field.
    pub serde_key: String,
    /// The key under which the resource holds the attribute.
    pub jsonapi_key: String,
}

impl View for AttributeField {
    type V = AttributeFieldView;

    open spec fn view(&self) -> AttributeFieldView {
        AttributeFieldView {
            field_index: self.field_index,
            field: self.field@,
            serde_key: self.serde_key@,
            jsonapi_key: self.jsonapi_key@,
        }
    }
}

/// The expansion plan of a model.
pub struct PlanView {
    pub resource_type: Seq<char>,
    pub attributes: Seq<AttributeFieldView>,
    pub has_one: Seq<Seq<char>>,
    pub has_many: Seq<Seq<char>>,
}

/// The expansion plan of a model: what the derived `JsonApiModel` impl does.
#[derive(Debug, Clone)]
pub struct ModelPlan {
    /// What `jsonapi_type` returns.
    pub resource_type: String,
    /// The attribute fields, in declaration order.
    pub attributes: Vec<AttributeField>,
    /// The names of the has-one relationship fields, in declaration order.
    pub has_one: Vec<String>,
    /// The names of the has-many relationship fields, in declaration order.
    pub has_many: Vec<String>,
}

/// The views of a list of strings.
pub open spec fn strings_view(v: Seq<String>) -> Seq<Seq<char>> {
    v.map_values(|s: String| s@)
}

/// The views of a list of attribute fields.
pub open spec fn attribute_fields_view(v: Seq<AttributeField>) -> Seq<AttributeFieldView> {
    v.map_values(|a: AttributeField| a@)
}

impl View for ModelPlan {
    type V = PlanView;

    open spec fn view(&self) -> PlanView {
        PlanView {
            resource_type: self.resource_type@,
            attributes: attribute_fields_view(self.attributes@),
            has_one: strings_view(self.has_one@),
            has_many: strings_view(self.has_many@),
        }
    }
}

/// What a field is to the derive.
pub enum FieldRole {
    Id,
    Skipped,
    HasOne,
    HasMany,
    Attribute { serde_key: Seq<char>, jsonapi_key: Seq<char> },
}

/// What a field is to the derive, given the struct's `serde(rename_all)`
/// rule, or the index of the field attribute that could not be read and why.
pub open spec fn field_role(f: Field, rule: Option<RenameRule>) -> Result<FieldRole, (usize, MetaError)> {
    if f.name@ == "id"@ {
        Ok(FieldRole::Id)
    } else {
        match field_attrs(f.attrs@) {
            Err(e) => Err(e),
            Ok(a) => if a.skip {
                Ok(FieldRole::Skipped)
            } else if a.has_one {
                Ok(FieldRole::HasOne)
            } else if a.has_many {
                Ok(FieldRole::HasMany)
            } else {
                Ok(
                    FieldRole::Attribute {
                        serde_key: serde_key(f, rule),
                        jsonapi_key: match a.rename {
                            Some(r) => r,
                            None => f.name@,
                        },
                    },
                )
            },
        }
    }
}

/// What the derive has gathered from some fields.
pub struct PlanAcc {
    pub has_id: bool,
    pub attributes: Seq<AttributeFieldView>,
    pub has_one: Seq<Seq<char>>,
    pub has_many: Seq<Seq<char>>,
}

/// Nothing gathered yet.
pub open spec fn empty_acc() -> PlanAcc {
    PlanAcc { has_id: false, attributes: seq![], has_one: seq![], has_many: seq![] }
}

/// Adds the field at index `k`, with this name and role.
pub open spec fn add_field(acc: PlanAcc, k: usize, name: Seq<char>, role: FieldRole) -> PlanAcc {
    match role {
        FieldRole::Id => PlanAcc {
            has_id: true,
            attributes: acc.attributes,
            has_one: acc.has_one,
            has_many: acc.has_many,
        },
        FieldRole::Skipped => acc,
        FieldRole::HasOne => PlanAcc {
            has_id: acc.has_id,
            attributes: acc.attributes,
            has_one: acc.has_one.push(name),
            has_many: acc.has_many,
        },
        FieldRole::HasMany => PlanAcc {
            has_id: acc.has_id,
            attributes: acc.attributes,
            has_one: acc.has_one,
            has_many: acc.has_many.push(name),
        },
        FieldRole::Attribute { serde_key, jsonapi_key } => PlanAcc {
            has_id: acc.has_id,
            attributes: acc.attributes.push(
                AttributeFieldView { field_index: k, field: name, serde_key, jsonapi_key },
            ),
            has_one: acc.has_one,
            has_many: acc.has_many,
        },
    }
}

/// What the derive gathers from the first `n` fields, or the first error.
pub open spec fn fold_fields(fields: Seq<Field>, n: int, rule: Option<RenameRule>) -> Result<PlanAcc, DeriveError>
    decreases n,
{
    if n <= 0 {
        Ok(empty_acc())
    } else {
        match fold_fields(fields, n - 1, rule) {
            Err(e) => Err(e),
            Ok(acc) => match field_role(fields[n - 1], rule) {
                Err((a, e)) => Err(
                    DeriveError::FieldAttribute { field: (n - 1) as usize, attr: a, error: e },
                ),
                Ok(role) => Ok(add_field(acc, (n - 1) as usize, fields[n - 1].name@, role)),
            },
        }
    }
}

/// The plan of a model, or the error the derive reports for it.
pub open spec fn expected_plan(input: ModelInput) -> Result<PlanView, DeriveError> {
    match struct_type(input.attrs@, input.ident@) {
        Err(e) => Err(e),
        Ok(t) => match input.data {
            Data::Struct(Fields::Named(fields)) => match fold_fields(
                fields@,
                fields@.len() as int,
                struct_rename_rule(input.attrs@),
            ) {
                Err(e) => Err(e),
                Ok(acc) => if !acc.has_id {
                    Err(DeriveError::MissingId)
                } else {
                    Ok(
                        PlanView {
                            resource_type: t,
                            attributes: acc.attributes,
                            has_one: acc.has_one,
                            has_many: acc.has_many,
                        },
                    )
                },
            },
            Data::Struct(_) => Err(DeriveError::NotNamedFields),
            _ => Err(DeriveError::NotStruct),
        },
    }
}

/// Once gathering fails, the failure stands for any longer prefix.
pub proof fn lemma_fold_error_stays(fields: Seq<Field>, n: int, m: int, rule: Option<RenameRule>)
    requires
        0 <= n <= m,
        fold_fields(fields, n, rule) is Err,
    ensures
        fold_fields(fields, m, rule) == fold_fields(fields, n, rule),
    decreases m - n,
{
    if m > n {
        lemma_fold_error_stays(fields, n, m - 1, rule);
    }
}

/// Computes the plan of a model, or the error the derive reports for it.
pub fn impl_jsonapi_model(input: &ModelInput) -> (res: Result<ModelPlan, DeriveError>)
    ensures
        match res {
            Ok(p) => expected_plan(*input) == Ok::<PlanView, DeriveError>(p@),
            Err(e) => expected_plan(*input) == Err::<PlanView, DeriveError>(e),
        },
{
    let resource_type = match parse_struct_type(&input.attrs, &input.ident) {
        Ok(t) => t,
        Err(e) => {
            return Err(e);
        },
    };
    let fields = match &input.data {
        Data::Struct(Fields::Named(fields)) => fields,
        Data::Struct(_) => {
            return Err(DeriveError::NotNamedFields);
        },
        _ => {
            return Err(DeriveError::NotStruct);
        },
    };
    let rule = get_rename_rule(&input.attrs);
    let mut has_id = false;
    let mut attributes: Vec<AttributeField> = Vec::new();
    let mut has_one: Vec<String> = Vec::new();
    let mut has_many: Vec<String> = Vec::new();
    let mut n: usize = 0;
    proof {
        assert(attribute_fields_view(attributes@) =~= seq![]);
        assert(strings_view(has_one@) =~= seq![]);
        assert(strings_view(has_many@) =~= seq![]);
    }
    while n < fields.len()
        invariant
            n <= fields.len(),
            input.data == Data::Struct(Fields::Named(*fields)),
            struct_type(input.attrs@, input.ident@) == Ok::<Seq<char>, DeriveError>(resource_type@),
            rule == struct_rename_rule(input.attrs@),
            fold_fields(fields@, n as int, rule) == Ok::<PlanAcc, DeriveError>(
                PlanAcc {
                    has_id,
                    attributes: attribute_fields_view(attributes@),
                    has_one: strings_view(has_one@),
                    has_many: strings_view(has_many@),
                },
            ),
        decreases fields.len() - n,
    {
        let field = &fields[n];
        if is_word(&field.name, "id") {
            has_id = true;
        } else {
            let serde_name = field_serde_key(field, rule);
            let jattrs = match get_jsonapi_field_attrs(field) {
                Ok(a) => a,
                Err((a, e)) => {
                    proof {
                        lemma_fold_error_stays(fields@, n + 1, fields.len() as int, rule);
                    }
                    return Err(DeriveError::FieldAttribute { field: n, attr: a, error: e });
                },
            };
            if jattrs.skip {
            } else if jattrs.has_one {
                let ghost pre = has_one@;
                has_one.push(field.name.clone());
                assert(strings_view(has_one@) =~= strings_view(pre).push(field.name@));
            } else if jattrs.has_many {
                let ghost pre = has_many@;
                has_many.push(field.name.clone());
                assert(strings_view(has_many@) =~= strings_view(pre).push(field.name@));
            } else {
                let jsonapi_name = match jattrs.rename {
                    Some(r) => r,
                    None => field.name.clone(),
                };
                let ghost pre = attributes@;
                let entry = AttributeField {
                    field_index: n,
                    field: field.name.clone(),
                    serde_key: serde_name,
                    jsonapi_key: jsonapi_name,
                };
                attributes.push(entry);
                assert(attribute_fields_view(attributes@) =~= attribute_fields_view(pre).push(entry@));
            }
        }
        n = n + 1;
    }
    if !has_id {
        return Err(DeriveError::MissingId);
    }
    Ok(ModelPlan { resource_type, attributes, has_one, has_many })
}

/// The names of a plan's relationship fields, has-one first and then
/// has-many, each in declaration order; `None` when it has none.
pub open spec fn relationship_names(plan: PlanView) -> Option<Seq<Seq<char>>> {
    if plan.has_one.len() == 0 && plan.has_many.len() == 0 {
        None
    } else {
        Some(plan.has_one + plan.has_many)
    }
}

impl ModelPlan {
    /// The names of the relationship fields (has-one first, then has-many,
    /// each in declaration order), or `None` when there are none: what the
    /// derived `relationship_fields` returns.
    pub fn relationship_fields(&self) -> (res: Option<Vec<String>>)
        ensures
            match res {
                None => relationship_names(self@) is None,
                Some(v) => relationship_names(self@) == Some(strings_view(v@)),
            },
    {
        if self.has_one.len() == 0 && self.has_many.len() == 0 {
            return None;
        }
        let mut names: Vec<String> = Vec::new();
        let mut i: usize = 0;
        while i < self.has_one.len()
            invariant
                i <= self.has_one.len(),
                strings_view(names@) =~= strings_view(self.has_one@.subrange(0, i as int)),
            decreases self.has_one.len() - i,
        {
            let ghost pre = names@;
            names.push(self.has_one[i].clone());
            assert(strings_view(names@) =~= strings_view(pre).push(self.has_one@[i as int]@));
            assert(self.has_one@.subrange(0, i + 1) =~= self.has_one@.subrange(0, i as int).push(
                self.has_one@[i as int],
            ));
            i = i + 1;
        }
        assert(self.has_one@.subrange(0, self.has_one@.len() as int) =~= self.has_one@);
        let mut j: usize = 0;
        while j < self.has_many.len()
            invariant
                j <= self.has_many.len(),
                strings_view(names@) =~= strings_view(self.has_one@) + strings_view(
                    self.has_many@.subrange(0, j as int),
                ),
            decreases self.has_many.len() - j,
        {
            let ghost pre = names@;
            names.push(self.has_many[j].clone());
            assert(strings_view(names@) =~= strings_view(pre).push(self.has_many@[j as int]@));
            assert(self.has_many@.subrange(0, j + 1) =~= self.has_many@.subrange(0, j as int).push(
                self.has_many@[j as int],
            ));
            j = j + 1;
        }
        assert(self.has_many@.subrange(0, self.has_many@.len() as int) =~= self.has_many@);
        assert(strings_view(self.has_one@) + strings_view(self.has_many@) == self@.has_one + self@.has_many);
        Some(names)
    }
}

impl MetaError {
    /// The message the derive reports for this error.
    pub fn message(&self) -> (res: String)
        ensures
            res@ == meta_error_message(*self),
    {
        match self {
            MetaError::ExpectedArgumentsInParentheses => String::from_str(
                "expected attribute arguments in parentheses: #[jsonapi(...)]",
            ),
            MetaError::ExpectedParentheses => String::from_str("expected parentheses: #[jsonapi(...)]"),
            MetaError::ExpectedNestedAttribute => String::from_str("expected nested attribute"),
            MetaError::UnexpectedLiteral => String::from_str(
                "unexpected literal in nested attribute, expected ident",
            ),
            MetaError::UnexpectedToken => String::from_str(
                "unexpected token in nested attribute, expected ident",
            ),
            MetaError::ExpectedIdent => String::from_str("expected ident"),
            MetaError::ExpectedComma => String::from_str("expected `,`"),
            MetaError::ExpectedEq => String::from_str("expected `=`"),
            MetaError::ExpectedStringLiteral => String::from_str("expected string literal"),
            MetaError::UnknownFieldAttribute => String::from_str(
                "unknown jsonapi field attribute; expected skip, rename, has_one, or has_many",
            ),
        }
    }
}

/// The message reported for an attribute that could not be read.
pub open spec fn meta_error_message(e: MetaError) -> Seq<char> {
    match e {
        MetaError::ExpectedArgumentsInParentheses => "expected attribute arguments in parentheses: #[jsonapi(...)]"@,
        MetaError::ExpectedParentheses => "expected parentheses: #[jsonapi(...)]"@,
        MetaError::ExpectedNestedAttribute => "expected nested attribute"@,
        MetaError::UnexpectedLiteral => "unexpected literal in nested attribute, expected ident"@,
        MetaError::UnexpectedToken => "unexpected token in nested attribute, expected ident"@,
        MetaError::ExpectedIdent => "expected ident"@,
        MetaError::ExpectedComma => "expected `,`"@,
        MetaError::ExpectedEq => "expected `=`"@,
        MetaError::ExpectedStringLiteral => "expected string literal"@,
        MetaError::UnknownFieldAttribute => "unknown jsonapi field attribute; expected skip, rename, has_one, or has_many"@,
    }
}

/// The message reported for a refused item.
pub open spec fn derive_error_message(e: DeriveError) -> Seq<char> {
    match e {
        DeriveError::StructAttribute { error, .. } => meta_error_message(error),
        DeriveError::FieldAttribute { error, .. } => meta_error_message(error),
        DeriveError::NotNamedFields => "JsonApiModel only supports structs with named fields"@,
        DeriveError::NotStruct => "JsonApiModel can only be derived for structs"@,
        DeriveError::MissingId => "JsonApiModel requires an `id: String` field"@,
    }
}

impl DeriveError {
    /// The message the derive reports for this error.
    pub fn message(&self) -> (res: String)
        ensures
            res@ == derive_error_message(*self),
    {
        match self {
            DeriveError::StructAttribute { error, .. } => error.message(),
            DeriveError::FieldAttribute { error, .. } => error.message(),
            DeriveError::NotNamedFields => String::from_str(
                "JsonApiModel only supports structs with named fields",
            ),
            DeriveError::NotStruct => String::from_str("JsonApiModel can only be derived for structs"),
            DeriveError::MissingId => String::from_str("JsonApiModel requires an `id: String` field"),
        }
    }
}

} // verus!
