//! The derive's behaviour on the structs of its documentation and tests.
use jsonapi::{
    impl_jsonapi_model, Attribute, Data, Field, Fields, Identifier, Meta, ModelInput, ModelPlan,
    RelationshipData, ResourceModel, Token,
};

fn ident(s: &str) -> Token {
    Token::Ident(s.to_string())
}

fn eq() -> Token {
    Token::Punct('=', false)
}

fn lit(s: &str) -> Token {
    Token::Literal(format!("{:?}", s))
}

fn attr(path: &str, tokens: Vec<Token>) -> Attribute {
    Attribute { path: path.to_string(), meta: Meta::List(tokens) }
}

fn jsonapi_type(t: &str) -> Attribute {
    attr("jsonapi", vec![ident("type"), eq(), lit(t)])
}

fn jsonapi_flag(flag: &str) -> Attribute {
    attr("jsonapi", vec![ident(flag)])
}

fn jsonapi_rename(to: &str) -> Attribute {
    attr("jsonapi", vec![ident("rename"), eq(), lit(to)])
}

fn serde_rename(to: &str) -> Attribute {
    attr("serde", vec![ident("rename"), eq(), lit(to)])
}

fn field(name: &str, attrs: Vec<Attribute>) -> Field {
    Field { name: name.to_string(), attrs }
}

fn model(name: &str, attrs: Vec<Attribute>, fields: Vec<Field>) -> ModelInput {
    ModelInput { ident: name.to_string(), attrs, data: Data::Struct(Fields::Named(fields)) }
}

fn plan(input: &ModelInput) -> ModelPlan {
    impl_jsonapi_model(input).expect("the derive accepts the struct")
}

/// A serialized value: its keys and values, in serialization order.
struct Object(Vec<(&'static str, &'static str)>);

impl Object {
    fn keys(&self) -> Vec<String> {
        self.0.iter().map(|(k, _)| k.to_string()).collect()
    }
}

fn resource(plan: &ModelPlan, id: &str, object: &Object) -> ResourceModel {
    plan.to_resource(id, &object.keys(), &vec![], &vec![])
}

fn get_attribute<'a>(resource: &ResourceModel, object: &'a Object, key: &str) -> Option<&'a str> {
    resource.attributes.iter().find(|e| e.key == key).map(|e| object.0[e.index].1)
}

fn attribute_keys(resource: &ResourceModel) -> Vec<String> {
    resource.attributes.iter().map(|e| e.key.clone()).collect()
}

fn get_relationship<'r>(resource: &'r ResourceModel, name: &str) -> Option<&'r RelationshipData> {
    resource.relationships.as_ref()?.iter().find(|r| r.name == name).map(|r| &r.data)
}

// struct Article { id, title, body, views }
fn article() -> ModelInput {
    model(
        "Article",
        vec![],
        vec![field("id", vec![]), field("title", vec![]), field("body", vec![]), field("views", vec![])],
    )
}

// #[jsonapi(type = "blog-posts")] struct BlogPost { id, title }
fn blog_post() -> ModelInput {
    model("BlogPost", vec![jsonapi_type("blog-posts")], vec![field("id", vec![]), field("title", vec![])])
}

// #[jsonapi(type = "people")]
// struct Person { id, name, #[jsonapi(rename = "emailAddress")] email, #[jsonapi(skip)] password_hash }
fn person() -> ModelInput {
    model(
        "Person",
        vec![jsonapi_type("people")],
        vec![
            field("id", vec![]),
            field("name", vec![]),
            field("email", vec![jsonapi_rename("emailAddress")]),
            field("password_hash", vec![jsonapi_flag("skip")]),
        ],
    )
}

fn person_object() -> Object {
    Object(vec![
        ("id", "1"),
        ("name", "Alice"),
        ("email", "a@example.com"),
        ("password_hash", "secret"),
    ])
}

// #[jsonapi(type = "events")]
// struct Event { id, #[serde(rename = "eventName")] name, #[serde(rename = "startedAt")] started_at }
fn event() -> ModelInput {
    model(
        "Event",
        vec![jsonapi_type("events")],
        vec![
            field("id", vec![]),
            field("name", vec![serde_rename("eventName")]),
            field("started_at", vec![serde_rename("startedAt")]),
        ],
    )
}

// #[jsonapi(type = "products")]
// struct Product { id, #[serde(rename = "productName")] #[jsonapi(rename = "name")] title }
fn product() -> ModelInput {
    model(
        "Product",
        vec![jsonapi_type("products")],
        vec![
            field("id", vec![]),
            field("title", vec![serde_rename("productName"), jsonapi_rename("name")]),
        ],
    )
}

// struct Tag { id, label }
fn tag() -> ModelInput {
    model("Tag", vec![], vec![field("id", vec![]), field("label", vec![])])
}

// #[jsonapi(type = "authors")] struct Author { id, name }
fn author() -> ModelInput {
    model("Author", vec![jsonapi_type("authors")], vec![field("id", vec![]), field("name", vec![])])
}

// #[jsonapi(type = "posts")]
// struct Post { id, title, #[jsonapi(has_one)] author, #[jsonapi(has_many)] tags }
fn post() -> ModelInput {
    model(
        "Post",
        vec![jsonapi_type("posts")],
        vec![
            field("id", vec![]),
            field("title", vec![]),
            field("author", vec![jsonapi_flag("has_one")]),
            field("tags", vec![jsonapi_flag("has_many")]),
        ],
    )
}

fn identifier_of(model: &ModelInput, id: &str) -> Identifier {
    Identifier { resource_type: plan(model).resource_type, id: id.to_string() }
}

#[test]
fn derive_default_type_is_lowercase_struct_name() {
    assert_eq!(plan(&article()).resource_type, "article");
}

#[test]
fn derive_explicit_type_override() {
    assert_eq!(plan(&blog_post()).resource_type, "blog-posts");
}

#[test]
fn derive_jsonapi_id() {
    let object = Object(vec![("id", "42"), ("title", "t"), ("body", "b"), ("views", "0")]);
    let r = resource(&plan(&article()), "42", &object);
    assert_eq!(r.id, "42");
}

#[test]
fn derive_skip_excludes_field_from_attributes() {
    let object = person_object();
    let r = resource(&plan(&person()), "1", &object);
    assert!(
        get_attribute(&r, &object, "password_hash").is_none(),
        "skipped field must not appear in attributes"
    );
    assert!(
        get_attribute(&r, &object, "name").is_some(),
        "non-skipped field must appear in attributes"
    );
}

#[test]
fn derive_jsonapi_rename_changes_attribute_key() {
    let object = person_object();
    let r = resource(&plan(&person()), "1", &object);
    assert!(get_attribute(&r, &object, "emailAddress").is_some(), "#[jsonapi(rename)] key must appear");
    assert!(
        get_attribute(&r, &object, "email").is_none(),
        "original field name must not appear when renamed"
    );
    assert_eq!(get_attribute(&r, &object, "emailAddress").unwrap(), "a@example.com");
}

#[test]
fn derive_serde_rename_does_not_affect_jsonapi_key() {
    // serde serializes the fields under "eventName" and "startedAt"
    let object = Object(vec![("id", "1"), ("eventName", "RustConf"), ("startedAt", "2024-09-12")]);
    let r = resource(&plan(&event()), "1", &object);
    assert!(
        get_attribute(&r, &object, "name").is_some(),
        "raw field name must be used as jsonapi key even when serde has renamed it"
    );
    assert!(
        get_attribute(&r, &object, "eventName").is_none(),
        "serde rename must not bleed into jsonapi key"
    );
    assert!(
        get_attribute(&r, &object, "started_at").is_some(),
        "raw field name must be used as jsonapi key even when serde has renamed it"
    );
    assert!(
        get_attribute(&r, &object, "startedAt").is_none(),
        "serde rename must not bleed into jsonapi key"
    );
}

#[test]
fn derive_jsonapi_rename_beats_serde_rename() {
    let object = Object(vec![("id", "1"), ("productName", "Widget")]);
    let r = resource(&plan(&product()), "1", &object);
    assert!(
        get_attribute(&r, &object, "name").is_some(),
        "#[jsonapi(rename)] must take precedence over #[serde(rename)]"
    );
    assert!(get_attribute(&r, &object, "productName").is_none());
    assert!(get_attribute(&r, &object, "title").is_none());
}

#[test]
fn derive_attribute_order_matches_struct_declaration() {
    let object = Object(vec![("id", "1"), ("title", "Order Test"), ("body", "content"), ("views", "7")]);
    let r = resource(&plan(&article()), "1", &object);
    assert_eq!(
        attribute_keys(&r),
        vec!["title", "body", "views"],
        "attributes must appear in struct field declaration order"
    );
}

#[test]
fn indexmap_attribute_order_is_stable_across_serializations() {
    let object = Object(vec![("id", "1"), ("title", "Stability"), ("body", "body"), ("views", "3")]);
    let p = plan(&article());
    let first_keys = attribute_keys(&resource(&p, "1", &object));
    let second_keys = attribute_keys(&resource(&p, "1", &object));
    assert_eq!(first_keys, second_keys);
}

#[test]
fn derive_has_one_builds_relationship() {
    let object = Object(vec![("id", "1"), ("title", "Hello"), ("author", "{..}"), ("tags", "[]")]);
    let p = plan(&post());
    let r = p.to_resource("1", &object.keys(), &vec![identifier_of(&author(), "99")], &vec![vec![]]);

    // author must be a relationship, not an attribute
    assert!(get_attribute(&r, &object, "author").is_none());
    let rel = get_relationship(&r, "author").expect("author relationship must exist");
    match rel {
        RelationshipData::Single(id) => {
            assert_eq!(id.id, "99");
            assert_eq!(id.resource_type, "authors");
        },
        _ => panic!("expected a single relationship identifier"),
    }
}

#[test]
fn derive_has_many_builds_relationship() {
    let object = Object(vec![("id", "1"), ("title", "Hello"), ("author", "{..}"), ("tags", "[..]")]);
    let p = plan(&post());
    let tags = vec![identifier_of(&tag(), "10"), identifier_of(&tag(), "11")];
    let r = p.to_resource("1", &object.keys(), &vec![identifier_of(&author(), "1")], &vec![tags]);

    assert!(get_attribute(&r, &object, "tags").is_none());
    let rel = get_relationship(&r, "tags").expect("tags relationship must exist");
    match rel {
        RelationshipData::Multiple(ids) => {
            assert_eq!(ids.len(), 2);
            assert_eq!(ids[0].id, "10");
            assert_eq!(ids[1].id, "11");
        },
        _ => panic!("expected multiple relationship identifiers"),
    }
}

#[test]
fn derive_relationship_fields_returns_relationship_names() {
    let fields = plan(&post()).relationship_fields().expect("Post must have relationship fields");
    assert!(fields.contains(&"author".to_string()));
    assert!(fields.contains(&"tags".to_string()));
}
