//! JSON:API models for Rust structs.
//!
//! `#[derive(JsonApiModel)]` turns a struct into a JSON:API resource. This
//! crate holds the whole decision procedure behind that derive, verified:
//!
//! - [`input`]: the struct as the derive sees it (name, attributes, fields),
//!   written as plain values;
//! - [`meta`]: the nested-attribute grammar `#[jsonapi(key, key = "value", ..)]`;
//! - [`attrs`]: what the `jsonapi` and `serde` attributes of a struct and of
//!   its fields ask for;
//! - [`serde_name`]: the key serde writes a field under (its `rename`, or
//!   its name cased by the struct's `rename_all` rule);
//! - [`model`]: the expansion plan of a struct (resource type, attribute
//!   fields, relationship fields) or the error the derive reports;
//! - [`resource`]: the resource that a derived model builds from a value;
//! - [`laws`]: what holds of every plan and every resource;
//! - [`text`]: string helpers and the calls into `std` and `syn` on text.

pub mod attrs;
pub mod input;
pub mod laws;
pub mod meta;
pub mod model;
pub mod resource;
pub mod serde_name;
pub mod text;

pub use attrs::{get_jsonapi_field_attrs, get_serde_rename, parse_struct_type, JsonApiFieldAttrs};
pub use input::{Attribute, Data, Delimiter, Field, Fields, Meta, ModelInput, Token};
pub use meta::{MetaError, MetaItem, Scope};
pub use model::{impl_jsonapi_model, AttributeField, DeriveError, ModelPlan};
pub use resource::{AttributeEntry, Identifier, RelationshipData, RelationshipEntry, ResourceModel};
