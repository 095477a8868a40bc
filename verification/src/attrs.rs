//! What the `jsonapi` and `serde` attributes ask for.
//!
//! - On the struct, `#[jsonapi(resource_type = "..")]` (or `type = ".."`)
//!   sets the resource type; without one it is the struct's name in lower
//!   case. The first `jsonapi` attribute that names a type wins; an error in
//!   a `jsonapi` attribute read before it is reported.
//! - On a field, the `jsonapi` attributes set the flags `skip`, `has_one`,
//!   `has_many` and the key `rename` (the last one written wins); any other
//!   key is an error.
//! - On a field, the first `serde` attribute with a `rename` gives the
//!   field's serde name, by its last `rename` (see
//!   [`crate::serde_name`], which also applies the struct's `rename_all`).
use vstd::prelude::*;
use crate::input::{Attribute, Field};
use crate::meta::{
    attr_items, has_key, items_have_key, last_item_value, last_value, parse_attr,
    Scope,
};
use crate::meta::MetaError;
use crate::model::DeriveError;
use crate::serde_name::{get_serde_value, serde_value};
use crate::text::{is_word, lowercase, opt_view, to_lowercase};

verus! {

/// Whether an attribute's path is `jsonapi`.
pub open spec fn is_jsonapi(a: Attribute) -> bool {
    a.path@ == "jsonapi"@
}

/// Whether an attribute's path is `serde`.
pub open spec fn is_serde(a: Attribute) -> bool {
    a.path@ == "serde"@
}

/// The resource type asked for by the struct attributes from index `n` on.
pub open spec fn struct_type_from(attrs: Seq<Attribute>, n: int, ident: Seq<char>) -> Result<
    Seq<char>,
    DeriveError,
>
    decreases attrs.len() - n,
{
    if n < 0 || n >= attrs.len() {
        Ok(lowercase(ident))
    } else if !is_jsonapi(attrs[n]) {
        struct_type_from(attrs, n + 1, ident)
    } else {
        let (items, err) = attr_items(Scope::Struct, attrs[n]);
        match err {
            Some(e) => Err(DeriveError::StructAttribute { attr: n as usize, error: e }),
            None => match last_value(items) {
                Some(t) => Ok(t),
                None => struct_type_from(attrs, n + 1, ident),
            },
        }
    }
}

/// The resource type of a struct with these attributes and this name.
pub open spec fn struct_type(attrs: Seq<Attribute>, ident: Seq<char>) -> Result<Seq<char>, DeriveError> {
    struct_type_from(attrs, 0, ident)
}

/// What the `jsonapi` attributes of a field ask for.
pub struct FieldAttrsView {
    pub skip: bool,
    pub rename: Option<Seq<char>>,
    pub has_one: bool,
    pub has_many: bool,
}

/// What the `jsonapi` attributes of a field ask for.
#[derive(Debug, Clone)]
pub struct JsonApiFieldAttrs {
    pub skip: bool,
    pub rename: Option<String>,
    pub has_one: bool,
    pub has_many: bool,
}

impl View for JsonApiFieldAttrs {
    type V = FieldAttrsView;

    open spec fn view(&self) -> FieldAttrsView {
        FieldAttrsView {
            skip: self.skip,
            rename: opt_view(self.rename),
            has_one: self.has_one,
            has_many: self.has_many,
        }
    }
}

/// No flag and no rename.
pub open spec fn no_field_attrs() -> FieldAttrsView {
    FieldAttrsView { skip: false, rename: None, has_one: false, has_many: false }
}

/// What the first `n` attributes of a field ask for, or the index of the
/// first attribute that could not be read and why.
pub open spec fn field_attrs_upto(attrs: Seq<Attribute>, n: int) -> Result<FieldAttrsView, (usize, MetaError)>
    decreases n,
{
    if n <= 0 {
        Ok(no_field_attrs())
    } else {
        match field_attrs_upto(attrs, n - 1) {
            Err(e) => Err(e),
            Ok(acc) => if !is_jsonapi(attrs[n - 1]) {
                Ok(acc)
            } else {
                let (items, err) = attr_items(Scope::Field, attrs[n - 1]);
                match err {
                    Some(e) => Err(((n - 1) as usize, e)),
                    None => Ok(
                        FieldAttrsView {
                            skip: acc.skip || has_key(items, "skip"),
                            rename: if last_value(items) is Some {
                                last_value(items)
                            } else {
                                acc.rename
                            },
                            has_one: acc.has_one || has_key(items, "has_one"),
                            has_many: acc.has_many || has_key(items, "has_many"),
                        },
                    ),
                }
            },
        }
    }
}

/// Once reading the attributes fails, the failure stands for any longer prefix.
pub proof fn lemma_field_attrs_error_stays(attrs: Seq<Attribute>, n: int, m: int)
    requires
        0 <= n <= m,
        field_attrs_upto(attrs, n) is Err,
    ensures
        field_attrs_upto(attrs, m) == field_attrs_upto(attrs, n),
    decreases m - n,
{
    if m > n {
        lemma_field_attrs_error_stays(attrs, n, m - 1);
    }
}

/// What the attributes of a field ask for.
pub open spec fn field_attrs(attrs: Seq<Attribute>) -> Result<FieldAttrsView, (usize, MetaError)> {
    field_attrs_upto(attrs, attrs.len() as int)
}

/// The serde name that a field's attributes give it: the serialization
/// name of the last `rename` in the first `serde` attribute that has one.
pub open spec fn serde_rename(attrs: Seq<Attribute>) -> Option<Seq<char>> {
    serde_value(attrs, "rename"@)
}

/// The resource type of a struct: the value of the first
/// `#[jsonapi(resource_type = "..")]` or `#[jsonapi(type = "..")]`, or else
/// the struct's name in lower case.
pub fn parse_struct_type(attrs: &Vec<Attribute>, ident: &String) -> (res: Result<String, DeriveError>)
    ensures
        match res {
            Ok(t) => struct_type(attrs@, ident@) == Ok::<Seq<char>, DeriveError>(t@),
            Err(e) => struct_type(attrs@, ident@) == Err::<Seq<char>, DeriveError>(e),
        },
{
    let mut n: usize = 0;
    while n < attrs.len()
        invariant
            n <= attrs.len(),
            struct_type_from(attrs@, 0, ident@) == struct_type_from(attrs@, n as int, ident@),
        decreases attrs.len() - n,
    {
        if is_word(&attrs[n].path, "jsonapi") {
            let (items, err) = parse_attr(Scope::Struct, &attrs[n]);
            if let Some(e) = err {
                return Err(DeriveError::StructAttribute { attr: n, error: e });
            }
            if let Some(t) = last_item_value(&items) {
                return Ok(t);
            }
        }
        n = n + 1;
    }
    Ok(to_lowercase(ident.as_str()))
}

/// What the `jsonapi` attributes of a field ask for, or the index of the
/// attribute that could not be read and why.
pub fn get_jsonapi_field_attrs(field: &Field) -> (res: Result<JsonApiFieldAttrs, (usize, MetaError)>)
    ensures
        match res {
            Ok(a) => field_attrs(field.attrs@) == Ok::<FieldAttrsView, (usize, MetaError)>(a@),
            Err(e) => field_attrs(field.attrs@) == Err::<FieldAttrsView, (usize, MetaError)>(e),
        },
{
    let attrs = &field.attrs;
    let mut result = JsonApiFieldAttrs { skip: false, rename: None, has_one: false, has_many: false };
    let mut n: usize = 0;
    while n < attrs.len()
        invariant
            n <= attrs.len(),
            attrs == &field.attrs,
            field_attrs_upto(attrs@, n as int) == Ok::<FieldAttrsView, (usize, MetaError)>(result@),
        decreases attrs.len() - n,
    {
        if is_word(&attrs[n].path, "jsonapi") {
            let (items, err) = parse_attr(Scope::Field, &attrs[n]);
            if let Some(e) = err {
                proof {
                    lemma_field_attrs_error_stays(attrs@, n + 1, attrs.len() as int);
                }
                return Err((n, e));
            }
            let skip = items_have_key(&items, "skip");
            let has_one = items_have_key(&items, "has_one");
            let has_many = items_have_key(&items, "has_many");
            let rename = last_item_value(&items);
            result.skip = result.skip || skip;
            result.has_one = result.has_one || has_one;
            result.has_many = result.has_many || has_many;
            if rename.is_some() {
                result.rename = rename;
            }
        }
        n = n + 1;
    }
    Ok(result)
}

/// The serde name of a field: the serialization name given by the last
/// `rename = ".."` or `rename(serialize = "..", ..)` item of the first
/// `serde` attribute that has one, read whatever other items it holds.
pub fn get_serde_rename(field: &Field) -> (res: Option<String>)
    ensures
        opt_view(res) == serde_rename(field.attrs@),
{
    get_serde_value(&field.attrs, "rename")
}

} // verus!
