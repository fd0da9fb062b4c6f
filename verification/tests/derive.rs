//! What a declaration with its attributes documents and enforces.

use std::marker::PhantomData;
use velo::derive::attr::{
    doc_comment, pascal_to_snake, serde_json_check, Attr, Lit, Meta, RenameRule,
};
use velo::derive::checks::{
    enum_validate, struct_validate, try_enum_validate, try_struct_validate, Given,
};
use velo::derive::decl::{Field, FieldDecl};
use velo::derive::input::{Body, Data, Derived, DeriveInput};
use velo::derive::route::{
    check_signature, expand, find_impl_trait, option_inner, route_ident, validate_path, Argument,
    GenericArg, HandlerFn, PathSegment, RouteInput, TypeExpr,
};
use velo::derive::schema::{struct_schema, struct_uses, Inner, Shape};
use velo::derive::variants::{enum_schema, VariantDecl};
use velo::error::FieldError;
use velo::extract::params::Path;
use velo::json::{Number, Value};
use velo::openapi::gen::{name_of, schema_for, Collected, JsonSchema, SchemaGenerator};
use velo::openapi::schema::Schema;
use velo::openapi::spec::Operation;
use velo::operation::OperationContext;
use velo::validate::ValidationErrors;

// ---------------------------------------------------------------------------
// reading JSON
// ---------------------------------------------------------------------------

/// A value as compact JSON text.
fn show(value: &Value) -> String {
    match value {
        Value::Null => "null".to_owned(),
        Value::Bool(b) => b.to_string(),
        Value::Number(n) => n.text.clone(),
        Value::String(s) => format!("{s:?}"),
        Value::Array(list) => {
            let parts: Vec<String> = list.iter().map(show).collect();
            format!("[{}]", parts.join(","))
        }
        Value::Object(members) => {
            let parts: Vec<String> = members
                .iter()
                .map(|(k, v)| format!("{k:?}:{}", show(v)))
                .collect();
            format!("{{{}}}", parts.join(","))
        }
        Value::Raw(text) => text.clone(),
    }
}

/// The value along a path of keys and positions, as text; empty where there is
/// none.
fn at(value: &Value, path: &str) -> String {
    let mut here = value;
    for step in path.split('/') {
        let next = match here {
            Value::Object(members) => members.iter().find(|(k, _)| k == step).map(|(_, v)| v),
            Value::Array(list) => step.parse::<usize>().ok().and_then(|i| list.get(i)),
            _ => None,
        };
        match next {
            Some(v) => here = v,
            None => return String::new(),
        }
    }
    show(here)
}

// ---------------------------------------------------------------------------
// writing declarations
// ---------------------------------------------------------------------------

fn doc(text: &str) -> Attr {
    Attr {
        path: "doc".to_owned(),
        text: Some(format!(" {text}")),
        metas: vec![],
    }
}

fn attr(path: &str, metas: Vec<Meta>) -> Attr {
    Attr {
        path: path.to_owned(),
        text: None,
        metas,
    }
}

fn word(path: &str) -> Meta {
    Meta {
        path: path.to_owned(),
        value: None,
        group: None,
    }
}

fn text(path: &str, value: &str) -> Meta {
    Meta {
        path: path.to_owned(),
        value: Some(Lit::Text(value.to_owned())),
        group: None,
    }
}

fn count(path: &str, value: u64) -> Meta {
    Meta {
        path: path.to_owned(),
        value: Some(Lit::Number {
            text: value.to_string(),
            count: value,
        }),
        group: None,
    }
}

fn group(path: &str, metas: Vec<Meta>) -> Meta {
    Meta {
        path: path.to_owned(),
        value: None,
        group: Some(metas),
    }
}

fn field(ident: &str, attrs: Vec<Attr>) -> FieldDecl {
    FieldDecl {
        ident: Some(ident.to_owned()),
        attrs,
    }
}

fn unnamed() -> FieldDecl {
    FieldDecl {
        ident: None,
        attrs: vec![],
    }
}

fn variant(ident: &str, attrs: Vec<Attr>, shape: Shape, fields: Vec<FieldDecl>) -> VariantDecl {
    VariantDecl {
        ident: ident.to_owned(),
        attrs,
        shape,
        fields,
    }
}

fn structure(ident: &str, attrs: Vec<Attr>, fields: Vec<FieldDecl>) -> DeriveInput {
    DeriveInput {
        ident: ident.to_owned(),
        attrs,
        data: Data::Struct {
            shape: Shape::Named,
            fields,
        },
    }
}

fn enumeration(ident: &str, attrs: Vec<Attr>, variants: Vec<VariantDecl>) -> DeriveInput {
    DeriveInput {
        ident: ident.to_owned(),
        attrs,
        data: Data::Enum { variants },
    }
}

fn derived(input: &DeriveInput) -> Derived {
    match velo::derive::input::derive(input) {
        Ok(d) => d,
        Err(e) => panic!("{}", e.message),
    }
}

fn message(input: &DeriveInput) -> String {
    match velo::derive::input::derive(input) {
        Ok(_) => panic!("expected an error"),
        Err(e) => e.message,
    }
}

/// How the schema of a field's type is reached.
type Sub = fn(&mut SchemaGenerator, bool) -> Inner;

fn sub<T: JsonSchema>(generator: &mut SchemaGenerator, inlined: bool) -> Inner {
    let schema = if inlined {
        generator.inline_for::<T>()
    } else {
        generator.subschema_for::<T>()
    };
    Inner {
        schema,
        optional: T::optional(),
    }
}

/// A type with a declaration.
trait Declared {
    fn input() -> DeriveInput;

    /// The types of its fields, one list for a struct or one for each variant.
    fn types() -> Vec<Vec<Sub>>;

    fn arguments() -> Vec<String> {
        vec![]
    }
}

/// A type whose schema comes from its declaration.
struct Of<T>(PhantomData<T>);

impl<T: Declared> JsonSchema for Of<T> {
    fn schema_name() -> Option<String> {
        let input = T::input();
        derived(&input)
            .container
            .component_name(&input.ident, &T::arguments())
    }

    fn json_schema(generator: &mut SchemaGenerator) -> Schema {
        let d = derived(&T::input());
        let types = T::types();
        match &d.body {
            Body::Struct {
                shape,
                declared,
                fields,
            } => {
                let inner = struct_uses(&d.container, *shape, *declared, fields)
                    .iter()
                    .map(|u| types[0][fields[u.index].index](generator, u.inlined))
                    .collect();
                struct_schema(&d.container, *shape, *declared, fields, inner)
            }
            Body::Enum { variants } => {
                let inner = variants
                    .iter()
                    .enumerate()
                    .map(|(i, v)| {
                        v.fields
                            .iter()
                            .map(|f| types[i][f.index](generator, f.flatten))
                            .collect()
                    })
                    .collect();
                enum_schema(&d.container, variants, inner)
            }
        }
    }

    fn optional() -> bool {
        false
    }

    fn only_adds(_: Collected) {}
}

fn schema<T: Declared>() -> Value {
    let (root, definitions) = schema_for::<Of<T>>();
    // Resolve the root `$ref` so tests read against the real object.
    let name = root
        .reference
        .as_ref()
        .and_then(|r| r.strip_prefix("#/components/schemas/"));
    match name.and_then(|n| definitions.get(n)) {
        Some(resolved) => resolved.to_json(),
        None => root.to_json(),
    }
}

fn definitions<T: Declared>() -> Vec<String> {
    let map = schema_for::<Of<T>>().1;
    (0..map.len()).map(|i| map.key_at(i).to_owned()).collect()
}

// ---------------------------------------------------------------------------
// structs
// ---------------------------------------------------------------------------

struct Person;

impl Declared for Person {
    fn input() -> DeriveInput {
        structure(
            "Person",
            vec![
                doc("A person."),
                doc(""),
                doc("The second paragraph becomes the description."),
                attr(
                    "serde",
                    vec![text("rename_all", "camelCase"), word("deny_unknown_fields")],
                ),
            ],
            vec![
                field("display_name", vec![doc("What to call them.")]),
                field("age", vec![doc("Absent when unknown.")]),
                field("nickname", vec![attr("serde", vec![word("default")])]),
                field(
                    "internal_notes",
                    vec![
                        attr("serde", vec![word("skip")]),
                        attr("allow", vec![word("dead_code")]),
                    ],
                ),
            ],
        )
    }

    fn types() -> Vec<Vec<Sub>> {
        vec![vec![
            sub::<String>,
            sub::<Option<u8>>,
            sub::<String>,
            sub::<String>,
        ]]
    }
}

#[test]
fn field_names_follow_the_serde_rename_rule() {
    let schema = schema::<Person>();
    assert_ne!(at(&schema, "properties/displayName"), "");
    assert_eq!(at(&schema, "properties/display_name"), "");
}

#[test]
fn skipped_fields_are_absent_from_the_schema() {
    let schema = schema::<Person>();
    assert_eq!(at(&schema, "properties/internalNotes"), "");
}

#[test]
fn options_are_nullable_and_not_required() {
    let schema = schema::<Person>();
    assert_eq!(
        at(&schema, "properties/age/type"),
        "[\"integer\",\"null\"]"
    );
    assert_eq!(at(&schema, "required"), "[\"displayName\"]");
}

#[test]
fn serde_default_makes_a_field_optional() {
    let required = at(&schema::<Person>(), "required");
    assert!(!required.contains("nickname"));
}

#[test]
fn doc_comments_become_descriptions() {
    let schema = schema::<Person>();
    assert_eq!(
        at(&schema, "properties/displayName/description"),
        "\"What to call them.\""
    );
    assert!(at(&schema, "description").contains("second paragraph"));
}

#[test]
fn deny_unknown_fields_reaches_the_schema() {
    assert_eq!(at(&schema::<Person>(), "additionalProperties"), "false");
}

// ---------------------------------------------------------------------------
// validation
// ---------------------------------------------------------------------------

struct Signup;

impl Declared for Signup {
    fn input() -> DeriveInput {
        structure(
            "Signup",
            vec![],
            vec![
                field(
                    "username",
                    vec![attr(
                        "validate",
                        vec![
                            count("min_length", 3),
                            count("max_length", 20),
                            text("pattern", "^[a-z0-9_]+$"),
                        ],
                    )],
                ),
                field("email", vec![attr("validate", vec![text("format", "email")])]),
                field(
                    "age",
                    vec![attr(
                        "validate",
                        vec![group("range", vec![count("min", 13), count("max", 130)])],
                    )],
                ),
                field(
                    "interests",
                    vec![attr(
                        "validate",
                        vec![count("min_items", 1), count("max_items", 3)],
                    )],
                ),
            ],
        )
    }

    fn types() -> Vec<Vec<Sub>> {
        vec![vec![
            sub::<String>,
            sub::<String>,
            sub::<Option<u8>>,
            sub::<Vec<String>>,
        ]]
    }
}

fn given() -> Given {
    Given {
        present: true,
        length: 0,
        unit: "characters".to_owned(),
        text: String::new(),
        above_minimum: true,
        below_maximum: true,
        above_exclusive_minimum: true,
        below_exclusive_maximum: true,
        is_multiple: true,
        is_address: false,
        nested: vec![],
        custom: vec![],
    }
}

fn given_text(value: &str) -> Given {
    Given {
        length: value.chars().count(),
        text: value.to_owned(),
        ..given()
    }
}

fn given_age(age: Option<u8>) -> Given {
    Given {
        present: age.is_some(),
        above_minimum: age.map_or(true, |n| f64::from(n) >= 13.0),
        below_maximum: age.map_or(true, |n| f64::from(n) <= 130.0),
        ..given()
    }
}

fn struct_fields<T: Declared>() -> Vec<Field> {
    match derived(&T::input()).body {
        Body::Struct { fields, .. } => fields,
        Body::Enum { .. } => panic!("expected a struct"),
    }
}

/// What a value of `Signup` breaks.
fn signup(
    username: &str,
    email: &str,
    age: Option<u8>,
    interests: &[&str],
) -> Result<(), ValidationErrors> {
    let items = Given {
        length: interests.len(),
        unit: "items".to_owned(),
        ..given()
    };
    struct_validate(
        &struct_fields::<Signup>(),
        &vec![
            given_text(username),
            given_text(email),
            given_age(age),
            items,
        ],
    )
}

fn errors_of(r: Result<(), ValidationErrors>) -> Vec<FieldError> {
    match r {
        Ok(()) => panic!("expected errors"),
        Err(e) => e.into_inner(),
    }
}

#[test]
fn validation_rules_become_schema_keywords() {
    let schema = schema::<Signup>();
    assert_eq!(at(&schema, "properties/username/minLength"), "3");
    assert_eq!(at(&schema, "properties/username/maxLength"), "20");
    assert_eq!(
        at(&schema, "properties/username/pattern"),
        "\"^[a-z0-9_]+$\""
    );
    assert_eq!(at(&schema, "properties/email/format"), "\"email\"");
    assert_eq!(
        at(&schema, "properties/age/minimum").parse::<f64>().unwrap(),
        13.0
    );
    assert_eq!(at(&schema, "properties/interests/minItems"), "1");
}

#[test]
fn a_valid_value_passes() {
    assert!(signup("ada", "ada@example.com", Some(36), &["maths"]).is_ok());
}

#[test]
fn every_broken_field_is_reported_at_once() {
    let errors = errors_of(signup("A", "nope", Some(3), &[]));
    let pointers: Vec<&str> = errors.iter().map(|e| e.pointer.as_str()).collect();

    // `username` breaks two rules, so it appears twice.
    assert!(pointers.contains(&"/username"));
    assert!(pointers.contains(&"/email"));
    assert!(pointers.contains(&"/age"));
    assert!(pointers.contains(&"/interests"));
    assert_eq!(pointers.iter().filter(|p| **p == "/username").count(), 2);
}

#[test]
fn a_pattern_is_enforced_at_runtime_not_just_documented() {
    let errors = errors_of(signup("Has Spaces", "a@b.co", None, &["x"]));
    assert!(errors
        .iter()
        .any(|e| e.code == "pattern" && e.pointer == "/username"));
}

#[test]
fn an_absent_option_skips_its_rules() {
    // `age = None` must not trip the `minimum` rule.
    assert!(signup("ada", "a@b.co", None, &["x"]).is_ok());
}

struct Address;

impl Declared for Address {
    fn input() -> DeriveInput {
        structure(
            "Address",
            vec![],
            vec![field(
                "street",
                vec![attr("validate", vec![word("non_blank")])],
            )],
        )
    }

    fn types() -> Vec<Vec<Sub>> {
        vec![vec![sub::<String>]]
    }
}

struct Order;

impl Declared for Order {
    fn input() -> DeriveInput {
        let nested = || vec![attr("validate", vec![word("nested")])];
        structure(
            "Order",
            vec![],
            vec![field("shipping", nested()), field("billing", nested())],
        )
    }

    fn types() -> Vec<Vec<Sub>> {
        vec![vec![sub::<Of<Address>>, sub::<Option<Of<Address>>>]]
    }
}

/// What an address with this street breaks.
fn given_address(street: Option<&str>) -> Given {
    match street {
        None => Given {
            present: false,
            ..given()
        },
        Some(street) => {
            let checked = struct_validate(&struct_fields::<Address>(), &vec![given_text(street)]);
            Given {
                nested: match checked {
                    Ok(()) => vec![],
                    Err(e) => e.into_inner(),
                },
                ..given()
            }
        }
    }
}

#[test]
fn nested_validation_reports_a_full_pointer() {
    let errors = errors_of(struct_validate(
        &struct_fields::<Order>(),
        &vec![given_address(Some("  ")), given_address(None)],
    ));
    assert_eq!(errors[0].pointer, "/shipping/street");
}

#[test]
fn nested_validation_reaches_into_an_option() {
    let errors = errors_of(struct_validate(
        &struct_fields::<Order>(),
        &vec![given_address(Some("Main St")), given_address(Some(""))],
    ));
    assert_eq!(errors[0].pointer, "/billing/street");
}

// ---------------------------------------------------------------------------
// references, generics, newtypes
// ---------------------------------------------------------------------------

struct Item;

impl Declared for Item {
    fn input() -> DeriveInput {
        structure("Item", vec![], vec![field("sku", vec![])])
    }

    fn types() -> Vec<Vec<Sub>> {
        vec![vec![sub::<String>]]
    }
}

struct Basket;

impl Declared for Basket {
    fn input() -> DeriveInput {
        structure(
            "Basket",
            vec![],
            vec![field("items", vec![]), field("featured", vec![])],
        )
    }

    fn types() -> Vec<Vec<Sub>> {
        vec![vec![sub::<Vec<Of<Item>>>, sub::<Of<Item>>]]
    }
}

#[test]
fn nested_types_are_referenced_not_duplicated() {
    let schema = schema::<Basket>();
    assert_eq!(
        at(&schema, "properties/featured/$ref"),
        "\"#/components/schemas/Item\""
    );
    assert_eq!(
        at(&schema, "properties/items/items/$ref"),
        "\"#/components/schemas/Item\""
    );
    let names = definitions::<Basket>();
    assert_eq!(names.iter().filter(|n| *n == "Item").count(), 1);
}

struct Page<T>(PhantomData<T>);

trait Named {
    fn full() -> &'static str;
}

impl Named for String {
    fn full() -> &'static str {
        "alloc::string::String"
    }
}

impl Named for Of<Item> {
    fn full() -> &'static str {
        "derive::Item"
    }
}

impl<T: JsonSchema + Named> Declared for Page<T> {
    fn input() -> DeriveInput {
        structure(
            "Page",
            vec![attr("allow", vec![word("dead_code")])],
            vec![field("items", vec![]), field("total", vec![])],
        )
    }

    fn types() -> Vec<Vec<Sub>> {
        vec![vec![sub::<Vec<T>>, sub::<usize>]]
    }

    fn arguments() -> Vec<String> {
        vec![name_of::<T>(T::full())]
    }
}

#[test]
fn generic_instantiations_get_distinct_component_names() {
    assert!(definitions::<Page<Of<Item>>>().contains(&"Page_Item".to_owned()));
    assert!(definitions::<Page<String>>().contains(&"Page_String".to_owned()));
}

struct UserId;

impl Declared for UserId {
    fn input() -> DeriveInput {
        DeriveInput {
            ident: "UserId".to_owned(),
            attrs: vec![],
            data: Data::Struct {
                shape: Shape::Unnamed,
                fields: vec![unnamed()],
            },
        }
    }

    fn types() -> Vec<Vec<Sub>> {
        vec![vec![sub::<u64>]]
    }
}

#[test]
fn a_newtype_documents_as_its_inner_type() {
    let schema = schema::<UserId>();
    assert_eq!(at(&schema, "type"), "\"integer\"");
    assert_eq!(at(&schema, "properties"), "");
}

struct Trace;

impl Declared for Trace {
    fn input() -> DeriveInput {
        structure("Meta", vec![], vec![field("trace_id", vec![])])
    }

    fn types() -> Vec<Vec<Sub>> {
        vec![vec![sub::<String>]]
    }
}

struct Envelope;

impl Declared for Envelope {
    fn input() -> DeriveInput {
        structure(
            "Envelope",
            vec![],
            vec![
                field("meta", vec![attr("serde", vec![word("flatten")])]),
                field("payload", vec![]),
            ],
        )
    }

    fn types() -> Vec<Vec<Sub>> {
        vec![vec![sub::<Of<Trace>>, sub::<String>]]
    }
}

#[test]
fn flattened_fields_merge_into_the_parent_object() {
    let schema = schema::<Envelope>();
    assert_ne!(at(&schema, "properties/trace_id"), "");
    assert_eq!(at(&schema, "properties/meta"), "");
    assert!(at(&schema, "required").contains("trace_id"));
}

struct Node;

impl Declared for Node {
    fn input() -> DeriveInput {
        structure(
            "Node",
            vec![],
            vec![field("value", vec![]), field("children", vec![])],
        )
    }

    fn types() -> Vec<Vec<Sub>> {
        vec![vec![sub::<u32>, sub::<Vec<Of<Node>>>]]
    }
}

#[test]
fn a_self_referential_type_does_not_recurse_forever() {
    let schema = schema::<Node>();
    assert_eq!(
        at(&schema, "properties/children/items/$ref"),
        "\"#/components/schemas/Node\""
    );
}

// ---------------------------------------------------------------------------
// enums
// ---------------------------------------------------------------------------

struct Status;

impl Declared for Status {
    fn input() -> DeriveInput {
        enumeration(
            "Status",
            vec![
                doc("How an order is progressing."),
                attr("serde", vec![text("rename_all", "SCREAMING_SNAKE_CASE")]),
            ],
            vec![
                variant(
                    "Pending",
                    vec![doc("Waiting to be picked.")],
                    Shape::Unit,
                    vec![],
                ),
                variant("Shipped", vec![], Shape::Unit, vec![]),
                variant(
                    "Cancelled",
                    vec![attr("serde", vec![text("rename", "CANCELLED_BY_USER")])],
                    Shape::Unit,
                    vec![],
                ),
            ],
        )
    }

    fn types() -> Vec<Vec<Sub>> {
        vec![vec![], vec![], vec![]]
    }
}

#[test]
fn a_unit_enum_is_a_string_with_a_closed_value_set() {
    let schema = schema::<Status>();
    assert_eq!(at(&schema, "type"), "\"string\"");
    assert_eq!(
        at(&schema, "enum"),
        "[\"PENDING\",\"SHIPPED\",\"CANCELLED_BY_USER\"]"
    );
}

#[test]
fn variant_doc_comments_survive_as_an_extension() {
    let schema = schema::<Status>();
    assert_eq!(
        at(&schema, "x-enum-descriptions/0"),
        "\"Waiting to be picked.\""
    );
}

struct Event;

impl Declared for Event {
    fn input() -> DeriveInput {
        enumeration(
            "Event",
            vec![attr(
                "serde",
                vec![text("tag", "kind"), text("rename_all", "snake_case")],
            )],
            vec![
                variant("Created", vec![], Shape::Named, vec![field("id", vec![])]),
                variant(
                    "Deleted",
                    vec![],
                    Shape::Named,
                    vec![field("id", vec![]), field("reason", vec![])],
                ),
            ],
        )
    }

    fn types() -> Vec<Vec<Sub>> {
        vec![vec![sub::<u64>], vec![sub::<u64>, sub::<String>]]
    }
}

#[test]
fn an_internally_tagged_enum_gets_a_discriminator() {
    let schema = schema::<Event>();
    assert_eq!(at(&schema, "discriminator/propertyName"), "\"kind\"");
    assert_ne!(at(&schema, "oneOf/1"), "");
    assert_eq!(at(&schema, "oneOf/2"), "");
    assert_eq!(
        at(&schema, "oneOf/0/allOf/0/properties/kind/const"),
        "\"created\""
    );
    assert_eq!(
        at(&schema, "oneOf/1/allOf/1/properties/reason/type"),
        "\"string\""
    );
}

struct Id;

impl Declared for Id {
    fn input() -> DeriveInput {
        enumeration(
            "Id",
            vec![attr("serde", vec![word("untagged")])],
            vec![
                variant("Number", vec![], Shape::Unnamed, vec![unnamed()]),
                variant("Text", vec![], Shape::Unnamed, vec![unnamed()]),
            ],
        )
    }

    fn types() -> Vec<Vec<Sub>> {
        vec![vec![sub::<u64>], vec![sub::<String>]]
    }
}

#[test]
fn an_untagged_enum_is_an_any_of() {
    let schema = schema::<Id>();
    assert_eq!(at(&schema, "anyOf/0/type"), "\"integer\"");
    assert_eq!(at(&schema, "anyOf/1/type"), "\"string\"");
    assert_eq!(at(&schema, "oneOf"), "");
}

/// A floating-point number.
struct Float;

impl JsonSchema for Float {
    fn schema_name() -> Option<String> {
        None
    }

    fn json_schema(_: &mut SchemaGenerator) -> Schema {
        Schema::typed("number", "double")
    }

    fn optional() -> bool {
        false
    }

    fn only_adds(_: Collected) {}
}

struct Drawn;

impl Declared for Drawn {
    fn input() -> DeriveInput {
        enumeration(
            "Shape",
            vec![],
            vec![
                variant("Circle", vec![], Shape::Unnamed, vec![unnamed()]),
                variant(
                    "Rect",
                    vec![],
                    Shape::Named,
                    vec![field("w", vec![]), field("h", vec![])],
                ),
            ],
        )
    }

    fn types() -> Vec<Vec<Sub>> {
        vec![vec![sub::<Float>], vec![sub::<Float>, sub::<Float>]]
    }
}

#[test]
fn an_externally_tagged_enum_wraps_each_payload_in_its_name() {
    let schema = schema::<Drawn>();
    assert_eq!(
        at(&schema, "oneOf/0/properties/Circle/type"),
        "\"number\""
    );
    assert_eq!(
        at(&schema, "oneOf/1/properties/Rect/properties/w/type"),
        "\"number\""
    );
}

// ---------------------------------------------------------------------------
// annotations
// ---------------------------------------------------------------------------

struct Profile;

impl Declared for Profile {
    fn input() -> DeriveInput {
        structure(
            "Profile",
            vec![attr(
                "schema",
                vec![
                    text("rename", "PublicProfile"),
                    text("title", "Public profile"),
                ],
            )],
            vec![
                field(
                    "id",
                    vec![attr("schema", vec![word("read_only"), count("example", 42)])],
                ),
                field("password", vec![attr("schema", vec![word("write_only")])]),
                field(
                    "username",
                    vec![attr(
                        "schema",
                        vec![
                            word("deprecated"),
                            text("description", "Use `handle` instead."),
                        ],
                    )],
                ),
            ],
        )
    }

    fn types() -> Vec<Vec<Sub>> {
        vec![vec![sub::<u64>, sub::<String>, sub::<String>]]
    }
}

#[test]
fn container_rename_changes_the_component_name() {
    assert!(definitions::<Profile>().contains(&"PublicProfile".to_owned()));
}

#[test]
fn field_annotations_reach_the_schema() {
    let schema = schema::<Profile>();
    assert_eq!(at(&schema, "title"), "\"Public profile\"");
    assert_eq!(at(&schema, "properties/id/readOnly"), "true");
    assert_eq!(at(&schema, "properties/id/examples/0"), "42");
    assert_eq!(at(&schema, "properties/password/writeOnly"), "true");
    assert_eq!(at(&schema, "properties/username/deprecated"), "true");
    assert_eq!(
        at(&schema, "properties/username/description"),
        "\"Use `handle` instead.\""
    );
}

struct Inlined;

impl Declared for Inlined {
    fn input() -> DeriveInput {
        structure(
            "Inlined",
            vec![attr("schema", vec![word("inline")])],
            vec![field("value", vec![])],
        )
    }

    fn types() -> Vec<Vec<Sub>> {
        vec![vec![sub::<u32>]]
    }
}

struct HasInlined;

impl Declared for HasInlined {
    fn input() -> DeriveInput {
        structure("HasInlined", vec![], vec![field("inner", vec![])])
    }

    fn types() -> Vec<Vec<Sub>> {
        vec![vec![sub::<Of<Inlined>>]]
    }
}

#[test]
fn an_inline_type_registers_no_component() {
    let names = definitions::<HasInlined>();
    assert!(!names.contains(&"Inlined".to_owned()));
    assert_eq!(
        at(&schema::<HasInlined>(), "properties/inner/type"),
        "\"object\""
    );
}

struct Annotated;

impl Declared for Annotated {
    fn input() -> DeriveInput {
        structure(
            "Annotated",
            vec![],
            vec![
                field(
                    "tag",
                    vec![
                        doc("The item this line refers to."),
                        attr("schema", vec![word("deprecated")]),
                    ],
                ),
                field("plain", vec![]),
            ],
        )
    }

    fn types() -> Vec<Vec<Sub>> {
        vec![vec![sub::<Of<Item>>, sub::<Of<Item>>]]
    }
}

#[test]
fn annotations_on_a_referenced_type_wrap_it_rather_than_being_dropped() {
    // A bare `$ref` cannot carry sibling keywords, so an annotated reference is
    // wrapped in `allOf` and the annotation goes on the wrapper.
    let schema = schema::<Annotated>();
    assert_eq!(
        at(&schema, "properties/tag/allOf/0/$ref"),
        "\"#/components/schemas/Item\""
    );
    assert_eq!(
        at(&schema, "properties/tag/description"),
        "\"The item this line refers to.\""
    );
    assert_eq!(at(&schema, "properties/tag/deprecated"), "true");

    // An unannotated reference stays a plain `$ref`, with no wrapper noise.
    assert_eq!(
        at(&schema, "properties/plain"),
        "{\"$ref\":\"#/components/schemas/Item\"}"
    );
}

#[test]
fn schemas_are_valid_json_schema_documents() {
    // What is emitted is JSON that reads back as the same document.
    let (_, definitions) = schema_for::<Of<Basket>>();
    for i in 0..definitions.len() {
        let json = show(&definitions.value_at(i).to_json());
        let parsed: serde_json::Value = serde_json::from_str(&json)
            .unwrap_or_else(|e| panic!("`{}`: {e}", definitions.key_at(i)));
        assert_eq!(parsed["type"], "object");
        assert_eq!(serde_json::from_str::<serde_json::Value>(&parsed.to_string()).unwrap(), parsed);
    }
}

// ---------------------------------------------------------------------------
// attributes on their own
// ---------------------------------------------------------------------------

#[test]
fn names_follow_each_rename_rule() {
    let cases = [
        ("lowercase", "myfield", "myvariant"),
        ("UPPERCASE", "MY_FIELD", "MYVARIANT"),
        ("PascalCase", "MyField", "MyVariant"),
        ("camelCase", "myField", "myVariant"),
        ("snake_case", "my_field", "my_variant"),
        ("SCREAMING_SNAKE_CASE", "MY_FIELD", "MY_VARIANT"),
        ("kebab-case", "my-field", "my-variant"),
        ("SCREAMING-KEBAB-CASE", "MY-FIELD", "MY-VARIANT"),
    ];
    for (rule, as_field, as_variant) in cases {
        let rule = match RenameRule::parse(rule) {
            Ok(rule) => rule,
            Err(e) => panic!("{}", e.message),
        };
        if as_field != "myfield" {
            assert_eq!(rule.apply_to_field("my_field"), as_field);
        }
        assert_eq!(rule.apply_to_variant("MyVariant"), as_variant);
    }
    assert!(RenameRule::parse("Title Case").is_err());
    assert_eq!(pascal_to_snake("HttpServer"), "http_server");
}

#[test]
fn the_first_line_of_a_comment_is_its_summary() {
    let docs = doc_comment(&vec![doc("One."), doc(""), doc("Two"), doc("lines.")]);
    assert_eq!(docs.summary.as_deref(), Some("One."));
    assert!(docs.description.unwrap().contains("Two"));
    assert!(doc_comment(&vec![]).summary.is_none());
}

#[test]
fn json_text_is_checked_for_balance() {
    assert!(serde_json_check("{\"a\": [1, 2]}").is_ok());
    assert!(serde_json_check("{\"a\": \"}\"}").is_ok());
    assert_eq!(serde_json_check("  ").err().as_deref(), Some("value is empty"));
    assert_eq!(serde_json_check("[}").err().as_deref(), Some("unbalanced `}`"));
    assert!(serde_json_check("\"open").is_err());
}

#[test]
fn what_is_not_understood_is_refused() {
    assert!(message(&structure(
        "T",
        vec![],
        vec![field("a", vec![attr("validate", vec![word("nonsense")])])],
    ))
    .contains("min_length"));
    assert_eq!(
        message(&DeriveInput {
            ident: "T".to_owned(),
            attrs: vec![],
            data: Data::Union,
        }),
        "`Schema` cannot be derived for unions; they have no JSON representation"
    );
    assert!(velo::derive::input::derive(&structure(
        "T",
        vec![attr("serde", vec![text("rename_all", "nope")])],
        vec![],
    ))
    .is_err());
}

#[test]
fn a_flag_takes_neither_a_value_nor_a_group() {
    let on_field = |path: &str, meta: Meta| {
        message(&structure("T", vec![], vec![field("a", vec![attr(path, vec![meta])])]))
    };
    let on_type =
        |path: &str, meta: Meta| message(&structure("T", vec![attr(path, vec![meta])], vec![]));
    for (path, key) in [
        ("validate", "non_blank"),
        ("validate", "nested"),
        ("serde", "skip"),
        ("serde", "skip_serializing"),
        ("serde", "skip_deserializing"),
        ("serde", "flatten"),
        ("schema", "read_only"),
        ("schema", "write_only"),
        ("schema", "deprecated"),
    ] {
        assert_eq!(on_field(path, text(key, "x")), "expected `,`", "{key}");
        assert_eq!(on_field(path, group(key, vec![])), "expected `,`", "{key}");
    }
    for (path, key) in [
        ("serde", "untagged"),
        ("serde", "transparent"),
        ("serde", "deny_unknown_fields"),
        ("schema", "inline"),
        ("schema", "deny_unknown_fields"),
    ] {
        assert_eq!(on_type(path, text(key, "x")), "expected `,`", "{key}");
        assert_eq!(on_type(path, group(key, vec![])), "expected `,`", "{key}");
    }
}

#[test]
fn a_custom_check_is_named_by_a_path() {
    let with = |path: &str| {
        structure(
            "T",
            vec![],
            vec![field("a", vec![attr("validate", vec![text("custom", path)])])],
        )
    };
    derived(&with("crate::checks::even"));
    assert!(!message(&with("not a path")).is_empty());
    assert!(!message(&with("")).is_empty());
}

#[test]
fn a_pattern_that_does_not_compile_checks_nothing() {
    let checked = field("x", vec![attr("validate", vec![text("pattern", "(")])]);
    let fields = match derived(&structure("T", vec![], vec![checked])).body {
        Body::Struct { fields, .. } => fields,
        Body::Enum { .. } => panic!("expected a struct"),
    };
    assert!(try_struct_validate(&fields, &vec![given_text("a")]).is_none());
    let absent = Given {
        present: false,
        ..given_text("a")
    };
    assert!(try_struct_validate(&fields, &vec![absent]).unwrap().is_ok());

    let input = enumeration(
        "E",
        vec![],
        vec![variant(
            "V",
            vec![],
            Shape::Named,
            vec![
                field("x", vec![attr("validate", vec![text("pattern", "^a+$")])]),
                field("y", vec![attr("validate", vec![text("pattern", "[")])]),
            ],
        )],
    );
    match derived(&input).body {
        Body::Enum { mut variants } => {
            let given = vec![given_text("b"), given_text("b")];
            assert!(try_enum_validate(&variants[0], &given).is_none());
            variants[0].fields.pop();
            let given = vec![given_text("b")];
            let errors = errors_of(try_enum_validate(&variants[0], &given).unwrap());
            assert_eq!(errors[0].message, "must match /^a+$/");
        }
        Body::Struct { .. } => panic!("expected an enum"),
    }
}

#[test]
fn the_fields_of_a_variant_are_checked() {
    let input = enumeration(
        "E",
        vec![],
        vec![variant(
            "V",
            vec![],
            Shape::Named,
            vec![field("x", vec![attr("validate", vec![word("non_blank")])])],
        )],
    );
    match derived(&input).body {
        Body::Enum { variants } => {
            assert!(enum_validate(&variants[0], &vec![given_text("ok")]).is_ok());
            let errors = errors_of(enum_validate(&variants[0], &vec![given_text(" ")]));
            assert_eq!(errors[0].code, "non_blank");
        }
        Body::Struct { .. } => panic!("expected an enum"),
    }
    assert_eq!(Number::from_u64(7).text, "7");
}

// ---------------------------------------------------------------------------
// routes
// ---------------------------------------------------------------------------

fn named_type(ident: &str, arguments: Option<Vec<GenericArg>>) -> TypeExpr {
    TypeExpr::Path {
        qualified: false,
        segments: vec![PathSegment {
            ident: ident.to_owned(),
            arguments,
        }],
    }
}

fn handler() -> HandlerFn {
    HandlerFn {
        ident: "get_user".to_owned(),
        attrs: vec![doc("Fetches a user.")],
        is_async: true,
        is_generic: false,
        arguments: vec![Argument::Typed(named_type("Path", None))],
        output: None,
    }
}

#[test]
fn a_handler_becomes_a_route() {
    let input = RouteInput {
        path: Some("/users/{id}".to_owned()),
        options: vec![],
    };
    let plan = match expand("GET", &input, &handler()) {
        Ok(plan) => plan,
        Err(e) => panic!("{}", e.message),
    };
    assert_eq!(plan.method, "GET");
    assert_eq!(plan.path, "/users/{id}");
    assert_eq!(plan.summary.as_deref(), Some("Fetches a user."));
    assert_eq!(plan.route_ident, route_ident("get_user"));
    assert_eq!(plan.bindings.len(), 1);
    let mut ctx = OperationContext {
        generator: SchemaGenerator::new(),
        operation: Operation::default(),
        path: plan.path.clone(),
        method: plan.method.clone(),
    };
    plan.document::<(Path<u32>, ()), String>(&mut ctx);
    assert_eq!(ctx.operation.summary.as_deref(), Some("Fetches a user."));
    assert_eq!(ctx.operation.parameters[0].name, "id");
    assert!(ctx.operation.responses.contains_key("200"));
}

#[test]
fn a_handler_that_cannot_be_a_route_is_refused() {
    assert!(check_signature(&handler()).is_ok());
    let sync = HandlerFn {
        is_async: false,
        ..handler()
    };
    assert!(check_signature(&sync).is_err());
    let generic = HandlerFn {
        is_generic: true,
        ..handler()
    };
    assert!(check_signature(&generic).is_err());
    let method = HandlerFn {
        arguments: vec![Argument::Receiver],
        ..handler()
    };
    let input = RouteInput {
        path: Some("/".to_owned()),
        options: vec![],
    };
    assert!(expand("GET", &input, &method).is_err());
    let opaque = HandlerFn {
        output: Some(TypeExpr::ImplTrait),
        ..handler()
    };
    assert!(check_signature(&opaque).is_err());
}

#[test]
fn templates_are_checked_before_they_are_mounted() {
    assert!(validate_path("/users/{id}/posts/{*rest}").is_ok());
    for bad in ["users", "/a/{", "/a/}", "/a/{}", "/a/{x}/{x}", "/a/{{x}}"] {
        assert!(validate_path(bad).is_err(), "should reject {bad}");
    }
}

#[test]
fn types_are_read_through_their_wrappers() {
    let option = named_type(
        "Option",
        Some(vec![GenericArg::Type(named_type("String", None))]),
    );
    assert!(option_inner(&option).is_some());
    assert!(option_inner(&named_type("Vec", None)).is_none());
    assert!(find_impl_trait(&TypeExpr::Reference(Box::new(
        TypeExpr::Tuple(vec![TypeExpr::Other, TypeExpr::ImplTrait])
    ))));
    assert!(!find_impl_trait(&option));
}

// ---------------------------------------------------------------------------
// tags, repeated attributes, and generic names
// ---------------------------------------------------------------------------

struct TaggedUnits;

impl Declared for TaggedUnits {
    fn input() -> DeriveInput {
        enumeration(
            "E",
            vec![attr("serde", vec![text("tag", "kind")])],
            vec![
                variant("A", vec![], Shape::Unit, vec![]),
                variant("B", vec![], Shape::Unit, vec![]),
            ],
        )
    }

    fn types() -> Vec<Vec<Sub>> {
        vec![vec![], vec![]]
    }
}

#[test]
fn a_tagged_enum_of_units_is_an_object() {
    let schema = schema::<TaggedUnits>();
    assert_eq!(at(&schema, "enum"), "");
    assert_eq!(at(&schema, "type"), "");
    assert_eq!(at(&schema, "oneOf/0/type"), "\"object\"");
    assert_eq!(at(&schema, "oneOf/0/required"), "[\"kind\"]");
    assert_eq!(at(&schema, "oneOf/0/properties/kind/const"), "\"A\"");
    assert_eq!(at(&schema, "oneOf/1/properties/kind/const"), "\"B\"");
    assert_eq!(at(&schema, "oneOf/2"), "");
    assert_eq!(at(&schema, "discriminator/propertyName"), "\"kind\"");
}

struct TwiceChecked;

impl Declared for TwiceChecked {
    fn input() -> DeriveInput {
        structure(
            "S",
            vec![],
            vec![field(
                "name",
                vec![
                    attr("validate", vec![count("min_length", 3)]),
                    attr("validate", vec![count("max_length", 5)]),
                ],
            )],
        )
    }

    fn types() -> Vec<Vec<Sub>> {
        vec![vec![sub::<String>]]
    }
}

#[test]
fn the_rules_of_several_attributes_add_up() {
    let schema = schema::<TwiceChecked>();
    assert_eq!(at(&schema, "properties/name/minLength"), "3");
    assert_eq!(at(&schema, "properties/name/maxLength"), "5");
    let fields = struct_fields::<TwiceChecked>();
    let errors = struct_validate(&fields, &vec![given_text("ab")]).err().unwrap();
    assert_eq!(errors.len(), 1);
    assert_eq!(errors.as_slice()[0].pointer, "/name");
    assert_eq!(errors.as_slice()[0].code, "min_length");
}

#[test]
fn instantiations_do_not_share_a_component_name() {
    let input = structure("Page", vec![], vec![field("items", vec![])]);
    let container = derived(&input).container;
    let name = |arguments: &[&str]| {
        let arguments: Vec<String> = arguments.iter().map(|a| (*a).to_owned()).collect();
        container.component_name("Page", &arguments).unwrap()
    };
    let texts = name_of::<Vec<String>>("alloc::vec::Vec<alloc::string::String>");
    let numbers = name_of::<Vec<u32>>("alloc::vec::Vec<u32>");
    assert_eq!(name(&[&texts]), "Page_Vec-of-String-end-");
    assert_eq!(name(&[&numbers]), "Page_Vec-of-u32-end-");
    assert_eq!(name(&["User"]), "Page_User");
    assert_eq!(name(&["Page_User"]), "Page_Page_User");
    assert_eq!(name(&["User", "Role"]), "Page_User_Role");
    assert_ne!(name(&["A_B", "C"]), name(&["A", "B_C"]));
    assert_eq!(name(&["A_B", "C"]), "Page_A-.B_C");
    assert_eq!(name(&["A.", "C"]), "Page_A.._C");
}

#[test]
fn rename_rules_on_ascii_names() {
    let field = |rule: RenameRule| rule.apply_to_field("display_name");
    assert_eq!(field(RenameRule::Camel), "displayName");
    assert_eq!(field(RenameRule::Pascal), "DisplayName");
    assert_eq!(field(RenameRule::Kebab), "display-name");
    assert_eq!(field(RenameRule::Kebab).replace('-', "_"), "display_name");
    assert_eq!(field(RenameRule::ScreamingKebab), "DISPLAY-NAME");
    for name in ["InProgress", "A", "ABTest2", "Http2"] {
        let snake = RenameRule::Snake.apply_to_variant(name);
        assert_eq!(RenameRule::Pascal.apply_to_field(&snake), name);
    }
}
