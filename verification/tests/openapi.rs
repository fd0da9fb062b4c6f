//! Schemas, the generator, and the document model.

use std::collections::HashSet;
use velo::json::{Number, Value};
use velo::openapi::foreign::{nonzero, Scalar};
use velo::openapi::gen::{schema_for, Collected, JsonSchema, SchemaGenerator};
use velo::openapi::ordered::OrderedMap;
use velo::openapi::schema::{AdditionalProperties, Discriminator, Schema, SchemaType};
use velo::openapi::spec::{
    ApiKeyLocation, Components, Info, MediaType, OAuthFlow, OAuthFlows, OpenApi, Operation,
    Parameter, ParameterIn, PathItem, Response, SecurityScheme, Server, Tag,
};
use velo::openapi::write::ToJson;

/// A value as compact JSON text.
fn show(value: &Value) -> String {
    match value {
        Value::Null => "null".to_owned(),
        Value::Bool(b) => b.to_string(),
        Value::Number(n) => n.text.clone(),
        Value::String(s) => format!("{s:?}"),
        Value::Array(list) => {
            let parts: Vec<String> = list.iter().map(show).collect();
            format!("[{}]", parts.join(","))
        }
        Value::Object(members) => {
            let parts: Vec<String> = members
                .iter()
                .map(|(k, v)| format!("{k:?}:{}", show(v)))
                .collect();
            format!("{{{}}}", parts.join(","))
        }
        Value::Raw(text) => text.clone(),
    }
}

fn member<'a>(value: &'a Value, key: &str) -> Option<&'a Value> {
    match value {
        Value::Object(members) => members.iter().find(|(k, _)| k == key).map(|(_, v)| v),
        _ => None,
    }
}

fn item(value: &Value, index: usize) -> &Value {
    match value {
        Value::Array(list) => &list[index],
        _ => panic!("not an array"),
    }
}

fn number(n: &Option<Number>) -> Option<f64> {
    n.as_ref().map(|n| n.text.parse::<f64>().unwrap())
}

struct Node;

impl JsonSchema for Node {
    fn schema_name() -> Option<String> {
        Some("Node".into())
    }

    fn json_schema(generator: &mut SchemaGenerator) -> Schema {
        let mut s = Schema::of_type("object");
        // Self-reference: must not blow the stack.
        s.properties
            .insert("next".into(), generator.subschema_for::<Node>());
        s
    }

    fn optional() -> bool {
        false
    }

    fn only_adds(_: Collected) {}
}

#[test]
fn recursive_types_terminate_and_register_once() {
    let (root, defs) = schema_for::<Node>();
    assert_eq!(root.reference.as_deref(), Some("#/components/schemas/Node"));
    assert_eq!(defs.len(), 1);
    assert_eq!(
        defs.get("Node")
            .unwrap()
            .properties
            .get("next")
            .unwrap()
            .reference
            .as_deref(),
        Some("#/components/schemas/Node")
    );
}

#[test]
fn option_is_nullable_and_not_required() {
    assert!(<Option<String> as JsonSchema>::optional());
    assert!(!<String as JsonSchema>::optional());
    let (s, _) = schema_for::<Option<String>>();
    let v = s.to_json();
    assert_eq!(show(member(&v, "type").unwrap()), "[\"string\",\"null\"]");
}

#[test]
fn u8_carries_its_real_bounds() {
    let (s, _) = schema_for::<u8>();
    assert_eq!(number(&s.minimum), Some(0.0));
    assert_eq!(number(&s.maximum), Some(255.0));
}

#[test]
fn sets_are_unique_arrays() {
    let (s, _) = schema_for::<HashSet<String>>();
    assert_eq!(s.unique_items, Some(true));
}

#[test]
fn fixed_arrays_pin_their_length() {
    let (s, _) = schema_for::<[u32; 3]>();
    assert_eq!((s.min_items, s.max_items), (Some(3), Some(3)));
}

#[test]
fn tuples_use_prefix_items() {
    let (s, _) = schema_for::<(String, u32)>();
    assert_eq!(s.prefix_items.len(), 2);
    assert_eq!(s.max_items, Some(2));
}

#[test]
fn empty_schema_serialises_to_empty_object() {
    assert_eq!(show(&Schema::any().to_json()), "{}");
}

#[test]
fn nullable_promotes_type_to_union() {
    let s = Schema::of_type("string").nullable();
    let v = s.to_json();
    assert_eq!(show(member(&v, "type").unwrap()), "[\"string\",\"null\"]");
}

#[test]
fn nullable_ref_becomes_any_of() {
    let s = Schema::reference("#/components/schemas/User").nullable();
    let v = s.to_json();
    assert!(member(&v, "type").is_none());
    let any_of = member(&v, "anyOf").unwrap();
    assert_eq!(
        show(member(item(any_of, 0), "$ref").unwrap()),
        "\"#/components/schemas/User\""
    );
    assert_eq!(show(member(item(any_of, 1), "type").unwrap()), "\"null\"");
}

#[test]
fn description_on_ref_is_preserved_via_all_of() {
    let s = Schema::reference("#/components/schemas/User").with_description("the owner");
    let v = s.to_json();
    assert_eq!(show(member(&v, "description").unwrap()), "\"the owner\"");
    assert_eq!(
        show(member(item(member(&v, "allOf").unwrap(), 0), "$ref").unwrap()),
        "\"#/components/schemas/User\""
    );
}

#[test]
fn extensions_are_flattened_and_prefixed() {
    let s = Schema::of_type("string").with_extension("internal", Value::Bool(true));
    let v = s.to_json();
    assert_eq!(show(member(&v, "x-internal").unwrap()), "true");
}

#[test]
fn minimal_document_omits_empty_sections() {
    let doc = OpenApi {
        info: Info {
            title: "Demo".into(),
            version: "1.0.0".into(),
            ..Default::default()
        },
        ..Default::default()
    };
    let v = doc.to_json();
    assert_eq!(show(member(&v, "openapi").unwrap()), "\"3.1.0\"");
    assert!(member(&v, "components").is_none());
    assert!(member(&v, "paths").is_none());
    assert_eq!(
        show(&v),
        "{\"openapi\":\"3.1.0\",\"info\":{\"title\":\"Demo\",\"version\":\"1.0.0\"}}"
    );
}

#[test]
fn path_parameters_are_required_by_construction() {
    let p = Parameter::new("id", ParameterIn::Path, Schema::of_type("string"));
    assert!(p.required);
    let q = Parameter::new("page", ParameterIn::Query, Schema::of_type("integer"));
    assert!(!q.required);
}

#[test]
fn security_scheme_tags_its_type() {
    let v = SecurityScheme::bearer_jwt().to_json();
    assert_eq!(show(member(&v, "type").unwrap()), "\"http\"");
    assert_eq!(show(member(&v, "scheme").unwrap()), "\"bearer\"");
    assert_eq!(show(member(&v, "bearerFormat").unwrap()), "\"JWT\"");
}

// ---------------------------------------------------------------------------

#[test]
fn an_ordered_map_keeps_the_first_position_of_a_key() {
    let mut m: OrderedMap<u32> = OrderedMap::new();
    assert!(m.is_empty());
    assert_eq!(m.insert("b".into(), 1), None);
    assert_eq!(m.insert("a".into(), 2), None);
    assert_eq!(m.insert("b".into(), 3), Some(1));
    assert_eq!(m.len(), 2);
    assert_eq!(m.key_at(0), "b");
    assert_eq!(*m.value_at(0), 3);
    assert_eq!(m.key_at(1), "a");
    assert_eq!(m.get("a"), Some(&2));
    assert_eq!(m.get("c"), None);
    assert_eq!(m.find("a"), Some(1));
}

#[test]
fn removing_from_an_ordered_map_moves_the_others_up() {
    let mut m: OrderedMap<u32> = OrderedMap::new();
    m.insert("x".into(), 1);
    m.insert("y".into(), 2);
    m.insert("z".into(), 3);
    assert_eq!(m.shift_remove("y"), Some(2));
    assert_eq!(m.shift_remove("y"), None);
    assert_eq!(m.key_at(1), "z");
    assert!(!m.contains_key("y"));
}

#[test]
fn null_is_added_to_a_type_once() {
    let once = SchemaType::Single("string".into()).or_null();
    let twice = once.copy().or_null();
    assert_eq!(show(&once.to_json()), show(&twice.to_json()));
    assert_eq!(
        show(&SchemaType::Single("null".into()).or_null().to_json()),
        "\"null\""
    );
}

#[test]
fn every_keyword_is_written_under_its_own_name() {
    let mut s = Schema::typed("integer", "int32");
    s.title = Some("Age".into());
    s.minimum = Some(Number::from_u64(13));
    s.exclusive_maximum = Some(Number::from_u64(150));
    s.multiple_of = Some(Number::from_u64(2));
    s.min_properties = Some(1);
    s.read_only = true;
    s.unique_items = Some(false);
    s.additional_properties = Some(AdditionalProperties::Bool(false));
    s.required = vec!["id".into()];
    s.enum_values = vec![Value::Null, Value::Raw("{\"a\":1}".into())];
    s.discriminator = Some(Discriminator {
        property_name: "kind".into(),
        mapping: OrderedMap::new(),
    });
    assert_eq!(
        show(&s.to_json()),
        "{\"type\":\"integer\",\"format\":\"int32\",\"title\":\"Age\",\"readOnly\":true,\
         \"required\":[\"id\"],\"additionalProperties\":false,\"minProperties\":1,\
         \"uniqueItems\":false,\"minimum\":13,\"exclusiveMaximum\":150,\"multipleOf\":2,\
         \"enum\":[null,{\"a\":1}],\"discriminator\":{\"propertyName\":\"kind\"}}"
    );
}

#[test]
fn nested_schemas_are_written_in_place() {
    let s = Schema::map_of(Schema::array(Schema::of_type("string")));
    assert_eq!(
        show(&s.to_json()),
        "{\"type\":\"object\",\"additionalProperties\":{\"type\":\"array\",\"items\":{\"type\":\"string\"}}}"
    );
    assert!(!s.is_pure_ref());
    assert!(Schema::reference("#/x").is_pure_ref());
}

#[test]
fn an_operation_is_written_with_what_is_known_of_it() {
    let mut operation = Operation::default();
    operation.operation_id = Some("get_users".into());
    operation
        .parameters
        .push(Parameter::new("id", ParameterIn::Path, Schema::of_type("string")));
    operation.responses.insert(
        "200".into(),
        Response::new("OK").with_json(Schema::reference("#/components/schemas/User")),
    );
    // An empty list of requirements opts out, so it is written.
    operation.security = Some(Vec::new());
    let mut item = PathItem::default();
    *item.slot("get").unwrap() = Some(operation);
    assert!(item.slot("BREW").is_none());
    assert_eq!(
        show(&item.to_json()),
        "{\"get\":{\"operationId\":\"get_users\",\"parameters\":[{\"name\":\"id\",\"in\":\"path\",\
         \"required\":true,\"schema\":{\"type\":\"string\"}}],\"responses\":{\"200\":{\
         \"description\":\"OK\",\"content\":{\"application/json\":{\"schema\":{\
         \"$ref\":\"#/components/schemas/User\"}}}}},\"security\":[]}}"
    );
}

#[test]
fn callbacks_are_written_as_maps_of_paths() {
    let mut operation = Operation::default();
    let mut item = PathItem::default();
    item.summary = Some("later".into());
    operation.callbacks = vec![("done".into(), vec![("{$url}".into(), item)])];
    assert_eq!(
        show(&operation.to_json()),
        "{\"callbacks\":{\"done\":{\"{$url}\":{\"summary\":\"later\"}}}}"
    );
}

#[test]
fn each_security_scheme_has_its_own_members() {
    assert_eq!(
        show(&SecurityScheme::api_key_header("x-key").to_json()),
        "{\"type\":\"apiKey\",\"name\":\"x-key\",\"in\":\"header\"}"
    );
    let cookie = SecurityScheme::ApiKey {
        name: "sid".into(),
        location: ApiKeyLocation::Cookie,
        description: Some("session".into()),
    };
    assert_eq!(
        show(&cookie.to_json()),
        "{\"type\":\"apiKey\",\"name\":\"sid\",\"in\":\"cookie\",\"description\":\"session\"}"
    );
    let mut flow = OAuthFlow::default();
    flow.token_url = Some("https://t".into());
    let mut flows = OAuthFlows::default();
    flows.client_credentials = Some(flow);
    let oauth = SecurityScheme::OAuth2 {
        flows: Box::new(flows),
        description: None,
    };
    assert_eq!(
        show(&oauth.to_json()),
        "{\"type\":\"oauth2\",\"flows\":{\"clientCredentials\":{\"tokenUrl\":\"https://t\",\"scopes\":{}}}}"
    );
    let open_id = SecurityScheme::OpenIdConnect {
        open_id_connect_url: "https://o".into(),
        description: None,
    };
    assert_eq!(
        show(&open_id.to_json()),
        "{\"type\":\"openIdConnect\",\"openIdConnectUrl\":\"https://o\"}"
    );
    assert_eq!(
        show(&SecurityScheme::MutualTls { description: None }.to_json()),
        "{\"type\":\"mutualTLS\"}"
    );
}

#[test]
fn a_document_lists_its_parts() {
    let mut doc = OpenApi::default();
    doc.info.title = "T".into();
    doc.info.version = "1".into();
    doc.servers.push(Server {
        url: "/api".into(),
        description: None,
        variables: OrderedMap::new(),
    });
    doc.tags.push(Tag {
        name: "users".into(),
        description: Some("People".into()),
        external_docs: None,
    });
    doc.components = Components::default();
    assert!(doc.components.is_empty());
    doc.components
        .security_schemes
        .insert("bearerAuth".into(), SecurityScheme::bearer_jwt());
    assert!(!doc.components.is_empty());
    doc.extensions.insert("x-a".into(), Value::Bool(true));
    assert_eq!(
        show(&doc.to_json()),
        "{\"openapi\":\"3.1.0\",\"info\":{\"title\":\"T\",\"version\":\"1\"},\
         \"servers\":[{\"url\":\"/api\"}],\"components\":{\"securitySchemes\":{\"bearerAuth\":{\
         \"type\":\"http\",\"scheme\":\"bearer\",\"bearerFormat\":\"JWT\"}}},\
         \"tags\":[{\"name\":\"users\",\"description\":\"People\"}],\"x-a\":true}"
    );
    let media = MediaType::new(Schema::any());
    assert_eq!(show(&media.to_json()), "{\"schema\":{}}");
}

#[test]
fn a_type_is_named_after_the_last_segment_of_its_path() {
    assert_eq!(velo::openapi::gen::identifier_of("a::b::Page"), "Page");
    assert_eq!(
        velo::openapi::gen::identifier_of("a::b::Page<c::User>"),
        "Page-of-User-end-"
    );
    assert_eq!(velo::openapi::gen::identifier_of("&str"), "-38-str");
    assert_eq!(velo::openapi::gen::identifier_of(""), "Anonymous");
    assert_eq!(velo::openapi::gen::name_of::<Node>("x::Other"), "Node");
    assert_eq!(velo::openapi::gen::name_of::<u8>("u8"), "u8");
}

#[test]
fn an_inlined_type_is_described_in_place() {
    let mut generator = SchemaGenerator::new();
    let inline = generator.inline_for::<Node>();
    assert_eq!(
        inline.properties.get("next").unwrap().reference.as_deref(),
        Some("#/components/schemas/Node")
    );
    let again = generator.subschema_for::<Node>();
    assert_eq!(again.reference.as_deref(), Some("#/components/schemas/Node"));
    generator.insert("Extra", Schema::any());
    assert_eq!(generator.definitions().len(), 2);
}

// ---------------------------------------------------------------------------
// types from elsewhere
// ---------------------------------------------------------------------------

fn written<T: JsonSchema + ?Sized>() -> String {
    let mut generator = SchemaGenerator::new();
    show(&T::json_schema(&mut generator).to_json())
}

#[test]
fn foreign_types_are_described_as_they_are_written() {
    assert_eq!(written::<std::path::PathBuf>(), r#"{"type":"string"}"#);
    let duration = written::<std::time::Duration>();
    assert!(duration.contains(r#""format":"double""#), "{duration}");
    assert!(duration.contains(r#""minimum":0"#), "{duration}");
    assert!(written::<uuid::Uuid>().contains(r#""format":"uuid""#));
    assert!(written::<chrono::NaiveDate>().contains(r#""format":"date""#));
    assert!(written::<chrono::NaiveTime>().contains(r#""format":"time""#));
    assert!(written::<chrono::NaiveDateTime>().contains(r#""format":"date-time""#));
}

#[test]
fn wrappers_are_described_as_what_they_hold() {
    assert_eq!(written::<std::cell::RefCell<u8>>(), written::<u8>());
    assert_eq!(written::<std::sync::Mutex<u8>>(), written::<u8>());
    assert_eq!(
        written::<std::borrow::Cow<'static, [u8]>>(),
        written::<[u8]>()
    );
    assert_eq!(written::<[u8]>(), written::<Vec<u8>>());
    let map = written::<indexmap::IndexMap<String, bool>>();
    assert!(map.contains(r#""type":"object""#), "{map}");
    assert!(
        map.contains(r#""additionalProperties":{"type":"boolean"}"#),
        "{map}"
    );
}

#[test]
fn scalars_carry_their_format() {
    for (scalar, kind, format) in [
        (Scalar::Float, "number", "float"),
        (Scalar::Double, "number", "double"),
        (Scalar::Ip, "string", "ip"),
        (Scalar::Ipv4, "string", "ipv4"),
        (Scalar::Ipv6, "string", "ipv6"),
        (Scalar::DateTime, "string", "date-time"),
    ] {
        assert_eq!(
            show(&scalar.schema().to_json()),
            format!("{{\"type\":\"{kind}\",\"format\":\"{format}\"}}")
        );
    }
}

#[test]
fn an_integer_without_zero_excludes_it() {
    let unsigned = nonzero(Schema::of_type("integer"), false);
    assert_eq!(
        show(&unsigned.to_json()),
        r#"{"type":"integer","minimum":1}"#
    );
    let signed = nonzero(Schema::of_type("integer"), true);
    assert_eq!(
        show(&signed.to_json()),
        r#"{"type":"integer","not":{"const":0}}"#
    );
}

#[test]
fn distinct_types_get_distinct_identifiers() {
    let of = velo::openapi::gen::identifier_of;
    let texts = of("alloc::vec::Vec<alloc::string::String>");
    let numbers = of("alloc::vec::Vec<u32>");
    assert_eq!(texts, "Vec-of-String-end-");
    assert_eq!(numbers, "Vec-of-u32-end-");
    assert_ne!(of("[u8; 3]"), of("u8"));
    assert_eq!(of("(u8,u8)"), "-40-u8-and-u8-41-");
}

#[test]
fn shared_text_is_described_as_text() {
    assert_eq!(written::<std::sync::Arc<str>>(), written::<str>());
    assert_eq!(written::<Box<str>>(), written::<String>());
    assert_eq!(written::<std::rc::Rc<[u8]>>(), written::<[u8]>());
}
