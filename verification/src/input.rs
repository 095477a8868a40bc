//! The input of the derive: a struct as plain values.
//!
//! Attribute arguments are kept as the token list that stands between the
//! attribute's delimiters. A `None`-delimited group is transparent to the
//! attribute grammar and is therefore written out as its contents; any other
//! group is one token that holds its own token list.
use vstd::prelude::*;

verus! {

/// The delimiter of a bracketed token group.
#[derive(Debug, Clone, Copy, PartialEq, Eq, Structural)]
pub enum Delimiter {
    Parenthesis,
    Brace,
    Bracket,
}

/// One token of an attribute's arguments.
#[derive(Debug)]
pub enum Token {
    /// An identifier or keyword, as written (`skip`, `type`, `r#type`).
    Ident(String),
    /// A punctuation character, and whether it is joined to the next one
    /// (the first `:` of `::` is joined).
    Punct(char, bool),
    /// A literal, as written in the source (`"name"` with its quotes, `5u8`).
    Literal(String),
    /// A bracketed group and the tokens inside it.
    Group(Delimiter, Vec<Token>),
}

/// The form of an attribute after its path.
#[derive(Debug)]
pub enum Meta {
    /// `#[path]`
    Path,
    /// `#[path(tokens)]` (or with brackets or braces)
    List(Vec<Token>),
    /// `#[path = value]`
    NameValue,
}

/// An outer attribute such as `#[jsonapi(skip)]`.
#[derive(Debug)]
pub struct Attribute {
    /// The attribute's path as written, segments joined by `::`
    /// (`jsonapi`, `serde`, `::jsonapi`, `a::b`).
    pub path: String,
    pub meta: Meta,
}

/// A named field with its attributes.
#[derive(Debug)]
pub struct Field {
    pub name: String,
    pub attrs: Vec<Attribute>,
}

/// The fields of a struct.
#[derive(Debug)]
pub enum Fields {
    Named(Vec<Field>),
    Unnamed,
    Unit,
}

/// The kind of item the derive is applied to.
#[derive(Debug)]
pub enum Data {
    Struct(Fields),
    Enum,
    Union,
}

/// The item the derive is applied to.
#[derive(Debug)]
pub struct ModelInput {
    /// The item's name.
    pub ident: String,
    /// The item's outer attributes, in source order.
    pub attrs: Vec<Attribute>,
    pub data: Data,
}

} // verus!
