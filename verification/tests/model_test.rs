//! Errors, edge cases and the laws of the derive, on concrete values.
use jsonapi::meta::parse_items;
use jsonapi::serde_name::{apply_rename_rule, field_serde_key, get_rename_rule, RenameRule};
use jsonapi::text::{parse_string_literal, to_lowercase};
use jsonapi::{
    get_jsonapi_field_attrs, get_serde_rename, impl_jsonapi_model, parse_struct_type, Attribute,
    Data, Delimiter, DeriveError, Field, Fields, Meta, MetaError, ModelInput, ModelPlan, Scope,
    Token,
};

fn ident(s: &str) -> Token {
    Token::Ident(s.to_string())
}

fn punct(c: char) -> Token {
    Token::Punct(c, false)
}

fn colon2() -> Vec<Token> {
    vec![Token::Punct(':', true), Token::Punct(':', false)]
}

fn lit(s: &str) -> Token {
    Token::Literal(format!("{:?}", s))
}

fn group(tokens: Vec<Token>) -> Token {
    Token::Group(Delimiter::Parenthesis, tokens)
}

fn attr(path: &str, tokens: Vec<Token>) -> Attribute {
    Attribute { path: path.to_string(), meta: Meta::List(tokens) }
}

fn field(name: &str, attrs: Vec<Attribute>) -> Field {
    Field { name: name.to_string(), attrs }
}

fn model(name: &str, attrs: Vec<Attribute>, fields: Vec<Field>) -> ModelInput {
    ModelInput { ident: name.to_string(), attrs, data: Data::Struct(Fields::Named(fields)) }
}

fn with_field_attr(tokens: Vec<Token>) -> ModelInput {
    model("Thing", vec![], vec![field("id", vec![]), field("x", vec![attr("jsonapi", tokens)])])
}

fn field_error(tokens: Vec<Token>) -> MetaError {
    match impl_jsonapi_model(&with_field_attr(tokens)) {
        Err(DeriveError::FieldAttribute { field: 1, attr: 0, error }) => error,
        other => panic!("expected a field attribute error, got {:?}", other.err()),
    }
}

fn attribute_keys(plan: &ModelPlan) -> Vec<String> {
    plan.attributes.iter().map(|a| a.jsonapi_key.clone()).collect()
}

#[test]
fn lowercase_is_applied_to_the_struct_name() {
    assert_eq!(to_lowercase("BlogPost"), "blogpost");
    let p = impl_jsonapi_model(&model("BlogPost", vec![], vec![field("id", vec![])])).unwrap();
    assert_eq!(p.resource_type, "blogpost");
}

#[test]
fn string_literals_are_decoded() {
    assert_eq!(parse_string_literal("\"a\\\"b\\n\""), Some("a\"b\n".to_string()));
    assert_eq!(parse_string_literal("r#\"raw\"#"), Some("raw".to_string()));
    assert_eq!(parse_string_literal("5"), None);
    assert_eq!(parse_string_literal("b\"bytes\""), None);
    // an escaped rename reaches the plan decoded
    let input = with_field_attr(vec![ident("rename"), punct('='), Token::Literal("\"e\\u{41}\"".to_string())]);
    let p = impl_jsonapi_model(&input).unwrap();
    assert_eq!(attribute_keys(&p), vec!["eA"]);
}

#[test]
fn resource_type_key_is_accepted_too() {
    let attrs = vec![attr("jsonapi", vec![ident("resource_type"), punct('='), lit("articles")])];
    assert_eq!(parse_struct_type(&attrs, &"Article".to_string()).unwrap(), "articles");
}

#[test]
fn first_struct_type_wins_and_other_attributes_are_ignored() {
    let attrs = vec![
        attr("serde", vec![ident("rename"), punct('='), lit("x")]),
        attr("jsonapi", vec![ident("other")]),
        attr("jsonapi", vec![ident("type"), punct('='), lit("first")]),
        attr("jsonapi", vec![ident("type"), punct('='), lit("second")]),
    ];
    assert_eq!(parse_struct_type(&attrs, &"Thing".to_string()).unwrap(), "first");
}

#[test]
fn last_type_in_one_attribute_wins() {
    let attrs = vec![attr(
        "jsonapi",
        vec![ident("type"), punct('='), lit("a"), punct(','), ident("type"), punct('='), lit("b"), punct(',')],
    )];
    assert_eq!(parse_struct_type(&attrs, &"Thing".to_string()).unwrap(), "b");
}

#[test]
fn struct_attribute_errors_are_reported() {
    let input =
        model("Thing", vec![attr("jsonapi", vec![ident("resource_type")])], vec![field("id", vec![])]);
    assert_eq!(
        impl_jsonapi_model(&input).err(),
        Some(DeriveError::StructAttribute { attr: 0, error: MetaError::ExpectedEq })
    );
    // a bare `type` is an unknown struct key, ignored like any other
    let input = model("Thing", vec![attr("jsonapi", vec![ident("type")])], vec![field("id", vec![])]);
    assert_eq!(impl_jsonapi_model(&input).unwrap().resource_type, "thing");
    // an unknown key with a value is not understood
    let input = model(
        "Thing",
        vec![attr("jsonapi", vec![ident("kind"), punct('='), lit("x")])],
        vec![field("id", vec![])],
    );
    assert_eq!(
        impl_jsonapi_model(&input).err(),
        Some(DeriveError::StructAttribute { attr: 0, error: MetaError::ExpectedComma })
    );
}

#[test]
fn struct_attribute_errors_come_before_the_shape_check() {
    let input = ModelInput {
        ident: "Thing".to_string(),
        attrs: vec![Attribute { path: "jsonapi".to_string(), meta: Meta::Path }],
        data: Data::Enum,
    };
    assert_eq!(
        impl_jsonapi_model(&input).err(),
        Some(DeriveError::StructAttribute { attr: 0, error: MetaError::ExpectedArgumentsInParentheses })
    );
}

#[test]
fn only_structs_with_named_fields() {
    let tuple = ModelInput { ident: "T".to_string(), attrs: vec![], data: Data::Struct(Fields::Unnamed) };
    let unit = ModelInput { ident: "U".to_string(), attrs: vec![], data: Data::Struct(Fields::Unit) };
    let en = ModelInput { ident: "E".to_string(), attrs: vec![], data: Data::Enum };
    let un = ModelInput { ident: "N".to_string(), attrs: vec![], data: Data::Union };
    assert_eq!(impl_jsonapi_model(&tuple).err(), Some(DeriveError::NotNamedFields));
    assert_eq!(impl_jsonapi_model(&unit).err(), Some(DeriveError::NotNamedFields));
    assert_eq!(impl_jsonapi_model(&en).err(), Some(DeriveError::NotStruct));
    assert_eq!(impl_jsonapi_model(&un).err(), Some(DeriveError::NotStruct));
}

#[test]
fn id_is_required() {
    let input = model("Thing", vec![], vec![field("name", vec![])]);
    assert_eq!(impl_jsonapi_model(&input).err(), Some(DeriveError::MissingId));
    assert_eq!(
        DeriveError::MissingId.message(),
        "JsonApiModel requires an `id: String` field"
    );
}

#[test]
fn id_attributes_are_not_read() {
    let input = model(
        "Thing",
        vec![],
        vec![field("id", vec![attr("jsonapi", vec![ident("bogus")])]), field("name", vec![])],
    );
    let p = impl_jsonapi_model(&input).unwrap();
    assert_eq!(attribute_keys(&p), vec!["name"]);
}

#[test]
fn field_attribute_errors() {
    assert_eq!(field_error(vec![ident("flatten")]), MetaError::UnknownFieldAttribute);
    assert_eq!(field_error(vec![ident("rename")]), MetaError::ExpectedEq);
    assert_eq!(
        field_error(vec![ident("rename"), punct('='), Token::Literal("5".to_string())]),
        MetaError::ExpectedStringLiteral
    );
    assert_eq!(field_error(vec![ident("rename"), punct('=')]), MetaError::ExpectedStringLiteral);
    assert_eq!(field_error(vec![ident("skip"), punct('='), lit("x")]), MetaError::ExpectedComma);
    assert_eq!(field_error(colon2()), MetaError::ExpectedNestedAttribute);
    assert_eq!(field_error(vec![lit("skip")]), MetaError::UnexpectedLiteral);
    assert_eq!(
        field_error(vec![punct('-'), Token::Literal("1".to_string())]),
        MetaError::UnexpectedLiteral
    );
    assert_eq!(field_error(vec![punct('=')]), MetaError::UnexpectedToken);
    let mut a_colon2 = vec![ident("a")];
    a_colon2.extend(colon2());
    assert_eq!(field_error(a_colon2), MetaError::ExpectedIdent);
    // a path that is not a plain identifier is an unknown key
    let mut lead = colon2();
    lead.push(ident("skip"));
    assert_eq!(field_error(lead), MetaError::UnknownFieldAttribute);
    assert_eq!(field_error(vec![ident("skip"), ident("has_one")]), MetaError::ExpectedComma);
}

#[test]
fn field_attribute_forms() {
    let bare = model(
        "Thing",
        vec![],
        vec![field("id", vec![]), field("x", vec![Attribute { path: "jsonapi".to_string(), meta: Meta::Path }])],
    );
    let name_value = model(
        "Thing",
        vec![],
        vec![field("id", vec![]), field("x", vec![Attribute { path: "jsonapi".to_string(), meta: Meta::NameValue }])],
    );
    assert_eq!(
        impl_jsonapi_model(&bare).err(),
        Some(DeriveError::FieldAttribute { field: 1, attr: 0, error: MetaError::ExpectedArgumentsInParentheses })
    );
    assert_eq!(
        impl_jsonapi_model(&name_value).err(),
        Some(DeriveError::FieldAttribute { field: 1, attr: 0, error: MetaError::ExpectedParentheses })
    );
    assert_eq!(
        MetaError::ExpectedParentheses.message(),
        "expected parentheses: #[jsonapi(...)]"
    );
}

#[test]
fn empty_lists_and_trailing_commas_are_fine() {
    let p = impl_jsonapi_model(&with_field_attr(vec![])).unwrap();
    assert_eq!(attribute_keys(&p), vec!["x"]);
    let p = impl_jsonapi_model(&with_field_attr(vec![ident("skip"), punct(',')])).unwrap();
    assert!(p.attributes.is_empty());
}

#[test]
fn flags_combine_and_skip_wins() {
    let f = field(
        "x",
        vec![
            attr("jsonapi", vec![ident("has_many")]),
            attr("jsonapi", vec![ident("rename"), punct('='), lit("y"), punct(','), ident("skip")]),
            attr("jsonapi", vec![ident("has_one")]),
        ],
    );
    let a = get_jsonapi_field_attrs(&f).unwrap();
    assert!(a.skip && a.has_one && a.has_many);
    assert_eq!(a.rename, Some("y".to_string()));
    let p = impl_jsonapi_model(&model("Thing", vec![], vec![field("id", vec![]), f])).unwrap();
    assert!(p.attributes.is_empty() && p.has_one.is_empty() && p.has_many.is_empty());
    assert!(p.relationship_fields().is_none());
}

#[test]
fn has_one_wins_over_has_many() {
    let f = field("x", vec![attr("jsonapi", vec![ident("has_many"), punct(','), ident("has_one")])]);
    let p = impl_jsonapi_model(&model("Thing", vec![], vec![field("id", vec![]), f])).unwrap();
    assert_eq!(p.has_one, vec!["x"]);
    assert!(p.has_many.is_empty());
}

#[test]
fn later_jsonapi_rename_wins() {
    let f = field(
        "x",
        vec![
            attr("jsonapi", vec![ident("rename"), punct('='), lit("a")]),
            attr("jsonapi", vec![ident("skip"), punct(','), ident("rename"), punct('='), lit("b")]),
        ],
    );
    assert_eq!(get_jsonapi_field_attrs(&f).unwrap().rename, Some("b".to_string()));
}

#[test]
fn errors_in_later_field_attributes_are_reported_with_their_index() {
    let f = field("x", vec![attr("serde", vec![ident("x")]), attr("jsonapi", vec![ident("nope")])]);
    assert_eq!(get_jsonapi_field_attrs(&f).err(), Some((1, MetaError::UnknownFieldAttribute)));
}

#[test]
fn serde_rename_reads_every_item() {
    // the first serde attribute with a rename gives the serde name
    let f = field(
        "x",
        vec![
            attr("serde", vec![ident("default")]),
            attr("serde", vec![ident("rename"), punct('='), lit("a")]),
            attr("serde", vec![ident("rename"), punct('='), lit("b")]),
        ],
    );
    assert_eq!(get_serde_rename(&f), Some("a".to_string()));
    // keys with values before the rename are read past
    let f = field(
        "title",
        vec![attr(
            "serde",
            vec![ident("default"), punct('='), lit("default_title"), punct(','), ident("rename"), punct('='), lit("headline")],
        )],
    );
    assert_eq!(get_serde_rename(&f), Some("headline".to_string()));
    let f = field(
        "x",
        vec![attr("serde", vec![ident("with"), punct('='), lit("m"), punct(','), ident("rename"), punct('='), lit("a")])],
    );
    assert_eq!(get_serde_rename(&f), Some("a".to_string()));
    // the serialization name of a split rename
    let f = field(
        "x",
        vec![attr(
            "serde",
            vec![ident("rename"), group(vec![ident("serialize"), punct('='), lit("s"), punct(','), ident("deserialize"), punct('='), lit("d")])],
        )],
    );
    assert_eq!(get_serde_rename(&f), Some("s".to_string()));
    let f = field(
        "x",
        vec![attr("serde", vec![ident("rename"), group(vec![ident("deserialize"), punct('='), lit("d")])])],
    );
    assert_eq!(get_serde_rename(&f), None);
    // a rename keeps its value whatever follows the literal
    let f = field("x", vec![attr("serde", vec![ident("rename"), punct('='), lit("a"), ident("oops")])]);
    assert_eq!(get_serde_rename(&f), Some("a".to_string()));
    // within one attribute the last rename wins
    let f = field(
        "x",
        vec![attr("serde", vec![ident("rename"), punct('='), lit("a"), punct(','), ident("rename"), punct('='), lit("b")])],
    );
    assert_eq!(get_serde_rename(&f), Some("b".to_string()));
    // a rename whose value is not a string literal gives nothing
    let f = field("x", vec![attr("serde", vec![ident("rename"), punct('='), Token::Literal("5".to_string())])]);
    assert_eq!(get_serde_rename(&f), None);
    // no serde attribute, no serde name
    assert_eq!(get_serde_rename(&field("x", vec![attr("jsonapi", vec![ident("rename"), punct('='), lit("a")])])), None);
}

#[test]
fn serde_key_follows_the_struct_rename_rule() {
    let input = model(
        "Event",
        vec![
            attr("derive", vec![ident("Serialize")]),
            attr("serde", vec![ident("rename_all"), punct('='), lit("camelCase")]),
        ],
        vec![
            field("id", vec![]),
            field("started_at", vec![]),
            field("ended_at", vec![attr("serde", vec![ident("rename"), punct('='), lit("end")])]),
        ],
    );
    let p = impl_jsonapi_model(&input).unwrap();
    let serde_keys: Vec<String> = p.attributes.iter().map(|a| a.serde_key.clone()).collect();
    assert_eq!(serde_keys, vec!["startedAt", "end"]);
    assert_eq!(attribute_keys(&p), vec!["started_at", "ended_at"]);
    // with the keys serde writes, every attribute is found, under its raw name
    let keys: Vec<String> = ["id", "startedAt", "end"].iter().map(|s| s.to_string()).collect();
    let got: Vec<(String, usize)> =
        p.resource_attributes(&keys).iter().map(|e| (e.key.clone(), e.index)).collect();
    assert_eq!(got, vec![("started_at".to_string(), 1), ("ended_at".to_string(), 2)]);
}

#[test]
fn rename_rules_case_field_names() {
    let cases = [
        (RenameRule::LowerCase, "started_at"),
        (RenameRule::SnakeCase, "started_at"),
        (RenameRule::UpperCase, "STARTED_AT"),
        (RenameRule::ScreamingSnakeCase, "STARTED_AT"),
        (RenameRule::PascalCase, "StartedAt"),
        (RenameRule::CamelCase, "startedAt"),
        (RenameRule::KebabCase, "started-at"),
        (RenameRule::ScreamingKebabCase, "STARTED-AT"),
    ];
    for (rule, want) in cases {
        assert_eq!(apply_rename_rule(Some(rule), "started_at"), want);
    }
    assert_eq!(apply_rename_rule(None, "started_at"), "started_at");
    assert_eq!(apply_rename_rule(Some(RenameRule::CamelCase), "_a_b"), "aB");
    assert_eq!(apply_rename_rule(Some(RenameRule::PascalCase), ""), "");
}

#[test]
fn rename_all_is_read_from_struct_attributes() {
    let named = |v: &str| vec![attr("serde", vec![ident("rename_all"), punct('='), lit(v)])];
    assert_eq!(get_rename_rule(&named("SCREAMING-KEBAB-CASE")), Some(RenameRule::ScreamingKebabCase));
    assert_eq!(get_rename_rule(&named("PascalCase")), Some(RenameRule::PascalCase));
    assert_eq!(get_rename_rule(&named("Title Case")), None);
    let split = vec![attr(
        "serde",
        vec![
            ident("deny_unknown_fields"),
            punct(','),
            ident("rename_all"),
            group(vec![ident("serialize"), punct('='), lit("kebab-case")]),
        ],
    )];
    assert_eq!(get_rename_rule(&split), Some(RenameRule::KebabCase));
    assert_eq!(get_rename_rule(&vec![attr("jsonapi", vec![ident("type"), punct('='), lit("x")])]), None);
}

#[test]
fn raw_identifiers_are_serialized_without_prefix() {
    let f = field("r#type", vec![]);
    assert_eq!(field_serde_key(&f, None), "type");
    assert_eq!(field_serde_key(&f, Some(RenameRule::UpperCase)), "TYPE");
    // a field rename is used as written, whatever the rule
    let g = field("r#type", vec![attr("serde", vec![ident("rename"), punct('='), lit("kind")])]);
    assert_eq!(field_serde_key(&g, Some(RenameRule::UpperCase)), "kind");
}

#[test]
fn included_resources_come_has_one_first() {
    let input = model(
        "Post",
        vec![],
        vec![
            field("id", vec![]),
            field("tags", vec![attr("jsonapi", vec![ident("has_many")])]),
            field("author", vec![attr("jsonapi", vec![ident("has_one")])]),
        ],
    );
    let p = impl_jsonapi_model(&input).unwrap();
    assert_eq!(p.relationship_fields(), Some(vec!["author".to_string(), "tags".to_string()]));
    let included = p.build_included(
        vec![vec!["people/9"]],
        vec![vec![vec!["tags/1"], vec![], vec!["tags/2", "tags/3"]]],
    );
    assert_eq!(included, Some(vec!["people/9", "tags/1", "tags/2", "tags/3"]));
    let plain = impl_jsonapi_model(&model("Thing", vec![], vec![field("id", vec![])])).unwrap();
    assert_eq!(plain.build_included::<&str>(vec![], vec![]), None);
}

#[test]
fn items_are_read_until_the_first_error() {
    let toks = vec![ident("skip"), punct(','), ident("has_one"), punct('='), lit("x")];
    let (items, err) = parse_items(Scope::Field, &toks);
    assert_eq!(items.len(), 2);
    assert_eq!(items[0].key, Some("skip".to_string()));
    assert_eq!(err, Some(MetaError::ExpectedComma));
}

#[test]
fn plan_lists_attribute_fields_in_declaration_order() {
    let input = model(
        "Thing",
        vec![],
        vec![
            field("b", vec![]),
            field("id", vec![]),
            field("a", vec![attr("jsonapi", vec![ident("skip")])]),
            field("c", vec![attr("serde", vec![ident("rename"), punct('='), lit("C")])]),
            field("d", vec![attr("jsonapi", vec![ident("has_one")])]),
            field("e", vec![attr("jsonapi", vec![ident("rename"), punct('='), lit("E")])]),
        ],
    );
    let p = impl_jsonapi_model(&input).unwrap();
    let indices: Vec<usize> = p.attributes.iter().map(|a| a.field_index).collect();
    assert_eq!(indices, vec![0, 3, 5]);
    assert_eq!(attribute_keys(&p), vec!["b", "c", "E"]);
    let serde_keys: Vec<String> = p.attributes.iter().map(|a| a.serde_key.clone()).collect();
    assert_eq!(serde_keys, vec!["b", "C", "e"]);
    assert_eq!(p.relationship_fields(), Some(vec!["d".to_string()]));
}

#[test]
fn attributes_map_keeps_first_position_of_a_repeated_key() {
    let input = model(
        "Thing",
        vec![],
        vec![
            field("id", vec![]),
            field("a", vec![attr("jsonapi", vec![ident("rename"), punct('='), lit("k")])]),
            field("b", vec![]),
            field("c", vec![attr("jsonapi", vec![ident("rename"), punct('='), lit("k")])]),
        ],
    );
    let p = impl_jsonapi_model(&input).unwrap();
    let keys: Vec<String> = ["id", "a", "b", "c"].iter().map(|s| s.to_string()).collect();
    let entries = p.resource_attributes(&keys);
    let got: Vec<(String, usize)> = entries.iter().map(|e| (e.key.clone(), e.index)).collect();
    assert_eq!(got, vec![("k".to_string(), 3), ("b".to_string(), 2)]);
}

#[test]
fn missing_serialized_keys_are_left_out() {
    let input = model("Thing", vec![], vec![field("id", vec![]), field("a", vec![]), field("b", vec![])]);
    let p = impl_jsonapi_model(&input).unwrap();
    let keys: Vec<String> = ["id", "b"].iter().map(|s| s.to_string()).collect();
    let got: Vec<(String, usize)> =
        p.resource_attributes(&keys).iter().map(|e| (e.key.clone(), e.index)).collect();
    assert_eq!(got, vec![("b".to_string(), 1)]);
}

#[test]
fn no_relationship_fields_means_no_relationships() {
    let input = model("Thing", vec![], vec![field("id", vec![]), field("a", vec![])]);
    let p = impl_jsonapi_model(&input).unwrap();
    assert!(p.relationship_fields().is_none());
    let r = p.to_resource("7", &vec!["id".to_string(), "a".to_string()], &vec![], &vec![]);
    assert!(r.relationships.is_none());
    assert_eq!(r.resource_type, "thing");
}

#[test]
fn field_renamed_after_other_serde_keys_keeps_its_value() {
    let input = model(
        "Article",
        vec![],
        vec![
            field("id", vec![]),
            field(
                "title",
                vec![attr(
                    "serde",
                    vec![ident("default"), punct('='), lit("default_title"), punct(','), ident("rename"), punct('='), lit("headline")],
                )],
            ),
        ],
    );
    let p = impl_jsonapi_model(&input).unwrap();
    let keys: Vec<String> = ["id", "headline"].iter().map(|s| s.to_string()).collect();
    let got: Vec<(String, usize)> =
        p.resource_attributes(&keys).iter().map(|e| (e.key.clone(), e.index)).collect();
    assert_eq!(got, vec![("title".to_string(), 1)]);
}
