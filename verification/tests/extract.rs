//! Extractors: pairs, paths, queries, JSON bodies, cookies, credentials.

use std::sync::Arc;
use velo::error::ApiError;
use velo::extract::cookies::{Bearer, Cookies};
use velo::extract::de::{
    decode, parse_bool, parse_char, parse_integer, DeError, IntType, Pairs, PairsDeserializer,
    ValuesDeserializer,
};
use velo::extract::json::{
    check_json, is_json_media_type, to_json_pointer, Json, JsonCategory, JsonFailure, PathStep, Written,
};
use velo::extract::params::{form_pairs, form_text, path_pairs, query_pairs, Form, Path, Query};
use velo::extract::pieces::{
    optional, text_body, ConnectInfo, Depends, Extension, Resolved, State,
};
use velo::openapi::gen::{Collected, JsonSchema, SchemaGenerator};
use velo::openapi::schema::{Schema, SchemaType};
use velo::openapi::spec::{Operation, Parameter, ParameterIn};
use velo::operation::{OperationContext, OperationInput};
use velo::request::Request;
use velo::response::{IntoResponse, Response};
use velo::testing::{test_request, TestRequest};
use velo::validate::{Validate, ValidationErrors};

fn err<T>(r: Result<T, ApiError>) -> ApiError {
    match r {
        Ok(_) => panic!("expected an error"),
        Err(e) => e,
    }
}

fn ok<T>(r: Result<T, ApiError>) -> T {
    match r {
        Ok(value) => value,
        Err(e) => panic!("unexpected error: {}", e.summary()),
    }
}

fn built(request: TestRequest) -> Request {
    request.try_build().expect("a well-formed request")
}

// ---------------------------------------------------------------------------
// pairs
// ---------------------------------------------------------------------------

#[derive(Debug, PartialEq)]
struct Filters {
    q: String,
    tag: Vec<String>,
    page: Option<u32>,
    verbose: bool,
}

/// The values of a key.
fn values(pairs: &Pairs, key: &str) -> Option<ValuesDeserializer> {
    let at = pairs.keys().iter().position(|k| k == key)?;
    Some(ValuesDeserializer {
        values: pairs.values_at(at).clone(),
    })
}

fn unsigned(raw: &str) -> Result<u32, DeError> {
    parse_integer(raw, IntType::U32).map(|n| n as u32)
}

fn filters(pairs: &Pairs) -> Result<Filters, DeError> {
    let q = match values(pairs, "q") {
        Some(v) => v.first()?.to_owned(),
        None => return Err(DeError("missing field `q`".to_owned())),
    };
    let tag = values(pairs, "tag").map(|v| v.values).unwrap_or_default();
    let page = match values(pairs, "page") {
        Some(v) if !v.is_absent() => Some(unsigned(v.first()?)?),
        _ => None,
    };
    let verbose = match values(pairs, "verbose") {
        Some(v) => parse_bool(v.first()?)?,
        None => false,
    };
    Ok(Filters {
        q,
        tag,
        page,
        verbose,
    })
}

fn read(raw: &str) -> Filters {
    match filters(&Pairs::parse_urlencoded(raw)) {
        Ok(f) => f,
        Err(e) => panic!("{}", e.0),
    }
}

#[test]
fn repeated_keys_become_a_vec() {
    let filters = read("q=rust&tag=web&tag=async&page=3");
    assert_eq!(filters.q, "rust");
    assert_eq!(filters.tag, vec!["web", "async"]);
    assert_eq!(filters.page, Some(3));
}

#[test]
fn missing_optional_fields_are_none() {
    let filters = read("q=rust");
    assert_eq!(filters.page, None);
    assert!(filters.tag.is_empty());
}

#[test]
fn empty_value_reads_as_absent_for_options() {
    let filters = read("q=rust&page=");
    assert_eq!(filters.page, None);
}

#[test]
fn bare_key_enables_a_bool_flag() {
    let filters = read("q=rust&verbose");
    assert!(filters.verbose);
}

#[test]
fn bools_accept_the_usual_spellings() {
    for (input, expected) in [("on", true), ("1", true), ("no", false), ("false", false)] {
        let filters = read(&format!("q=x&verbose={input}"));
        assert_eq!(filters.verbose, expected, "for {input}");
    }
}

#[test]
fn percent_and_plus_encoding_are_decoded() {
    let pairs = Pairs::parse_urlencoded("q=hello+world&tag=a%2Fb");
    assert_eq!(pairs.get("q"), Some("hello world"));
    assert_eq!(pairs.get("tag"), Some("a/b"));
}

#[test]
fn bad_numbers_name_the_offending_value() {
    let err = match filters(&Pairs::parse_urlencoded("q=x&page=abc")) {
        Ok(_) => panic!("expected an error"),
        Err(e) => e,
    };
    assert!(err.0.contains("abc"), "unhelpful message: {}", err.0);
}

#[test]
fn a_lone_pair_deserialises_as_a_scalar() {
    let mut pairs = Pairs::new();
    pairs.push("id", "42");
    let scalar = PairsDeserializer::new(pairs);
    let value = match scalar.sole_value() {
        Ok(v) => v.to_owned(),
        Err(e) => panic!("{}", e.0),
    };
    assert_eq!(unsigned(&value).ok(), Some(42));
    assert_eq!(value, "42");
}

#[test]
fn ordered_pairs_deserialise_as_a_tuple() {
    let mut pairs = Pairs::new();
    pairs.push("org", "acme");
    pairs.push("id", "7");
    let values = PairsDeserializer::new(pairs).into_values();
    let (org, id) = (values[0].clone(), unsigned(&values[1]).ok());
    assert_eq!((org.as_str(), id), ("acme", Some(7)));
}

#[test]
fn unit_enums_round_trip() {
    #[derive(Debug, PartialEq)]
    enum Sort {
        Asc,
        Desc,
    }
    let pairs = Pairs::parse_urlencoded("sort=desc");
    let sort = match values(&pairs, "sort").unwrap().first() {
        Ok("asc") => Sort::Asc,
        Ok("desc") => Sort::Desc,
        _ => panic!("unknown variant"),
    };
    assert_eq!(sort, Sort::Desc);
}

#[test]
fn keys_are_grouped_in_the_order_they_came() {
    let pairs = Pairs::parse_urlencoded("b=1&a=2&b=3&&c");
    assert_eq!(pairs.keys(), vec!["b", "a", "c"]);
    assert_eq!(*pairs.values_at(0), vec!["1", "3"]);
    assert_eq!(*pairs.values_at(2), vec![""]);
    assert_eq!(pairs.len(), 3);
    assert!(Pairs::parse_urlencoded("").is_empty());
    let same = Pairs::from_pairs(&vec![
        ("b".to_owned(), "1".to_owned()),
        ("a".to_owned(), "2".to_owned()),
        ("b".to_owned(), "3".to_owned()),
        ("c".to_owned(), "".to_owned()),
    ]);
    assert_eq!(same.keys(), pairs.keys());
}

#[test]
fn integers_are_held_to_their_range() {
    assert_eq!(parse_integer("255", IntType::U8).ok(), Some(255));
    assert!(parse_integer("256", IntType::U8).is_err());
    assert_eq!(parse_integer("-128", IntType::I8).ok(), Some(-128));
    assert!(parse_integer("-129", IntType::I8).is_err());
    assert!(parse_integer("-1", IntType::U64).is_err());
    assert_eq!(parse_integer("+7", IntType::I32).ok(), Some(7));
    assert!(parse_integer("", IntType::I32).is_err());
    assert_eq!(
        parse_integer("18446744073709551615", IntType::U64).ok(),
        Some(18446744073709551615)
    );
    match parse_integer("x", IntType::I16) {
        Err(e) => assert_eq!(e.0, "`x` is not a valid i16"),
        Ok(_) => panic!("expected an error"),
    }
}

#[test]
fn characters_and_booleans_report_what_they_got() {
    assert_eq!(parse_char("\u{e9}").ok(), Some('\u{e9}'));
    assert!(parse_char("ab").is_err());
    assert!(parse_char("").is_err());
    assert_eq!(parse_bool("").ok(), Some(true));
    match parse_bool("maybe") {
        Err(e) => assert_eq!(e.0, "`maybe` is not a valid boolean"),
        Ok(_) => panic!("expected an error"),
    }
    assert_eq!(decode("a%20b+c"), "a b c");
}

// ---------------------------------------------------------------------------
// JSON bodies
// ---------------------------------------------------------------------------

#[derive(Debug, PartialEq)]
struct Item {
    name: String,
    price: u32,
}

impl Validate for Item {
    fn validate(&self) -> Result<(), ValidationErrors> {
        Ok(())
    }
}

struct Order {
    items: Vec<Item>,
}

impl Validate for Order {
    fn validate(&self) -> Result<(), ValidationErrors> {
        Ok(())
    }
}

fn failure(path: Vec<PathStep>, message: &str) -> JsonFailure {
    JsonFailure {
        path,
        category: JsonCategory::Data,
        message: message.to_owned(),
    }
}

fn parse_document(body: &[u8]) -> Result<serde_json::Value, JsonFailure> {
    serde_json::from_slice(body).map_err(|e| JsonFailure {
        path: Vec::new(),
        category: JsonCategory::Syntax,
        message: e.to_string(),
    })
}

fn item_from(value: &serde_json::Value, at: Vec<PathStep>) -> Result<Item, JsonFailure> {
    let mut to_price = at;
    to_price.push(PathStep::Key("price".to_owned()));
    let name = value["name"].as_str().map(str::to_owned);
    match (name, value["price"].as_u64()) {
        (Some(name), Some(price)) => Ok(Item {
            name,
            price: price as u32,
        }),
        _ => Err(failure(to_price, "invalid type")),
    }
}

fn json_item(request: TestRequest) -> Result<Json<Item>, ApiError> {
    let req = built(request);
    let parsed = parse_document(req.body()).and_then(|v| item_from(&v, Vec::new()));
    Json::from_request(&req, parsed)
}

#[test]
fn valid_json_deserialises() {
    let Json(item) = ok(json_item(
        test_request().json(br#"{"name":"widget","price":10}"#.to_vec()),
    ));
    assert_eq!(
        item,
        Item {
            name: "widget".into(),
            price: 10
        }
    );
}

#[test]
fn wrong_content_type_is_a_415() {
    let err = err(json_item(
        test_request()
            .header("content-type", "text/plain")
            .body(b"{}".to_vec()),
    ));
    assert_eq!(err.status(), 415);
}

#[test]
fn structured_json_suffixes_are_accepted() {
    assert!(json_item(
        test_request()
            .header("content-type", "application/vnd.api+json")
            .body(br#"{"name":"a","price":1}"#.to_vec()),
    )
    .is_ok());
}

#[test]
fn broken_syntax_is_a_400() {
    let err = err(json_item(test_request().json(b"{not json".to_vec())));
    assert_eq!(err.status(), 400);
    assert_eq!(err.title(), "Invalid JSON");
}

#[test]
fn a_wrong_type_is_a_422_pointing_at_the_field() {
    let err = err(json_item(
        test_request().json(br#"{"name":"widget","price":"free"}"#.to_vec()),
    ));
    assert_eq!(err.status(), 422);
    assert_eq!(err.field_errors()[0].pointer, "/price");
}

#[test]
fn nested_failures_get_a_full_pointer() {
    let req = built(test_request().json(
        br#"{"items":[{"name":"a","price":1},{"name":"b","price":"x"}]}"#.to_vec(),
    ));
    let parsed = parse_document(req.body()).and_then(|v| {
        let mut items = Vec::new();
        for (i, item) in v["items"].as_array().unwrap().iter().enumerate() {
            let at = vec![PathStep::Key("items".to_owned()), PathStep::Index(i)];
            items.push(item_from(item, at)?);
        }
        Ok(Order { items })
    });
    if let Ok(order) = &parsed {
        panic!("parsed {} items", order.items.len());
    }
    let err = err(Json::from_request(&req, parsed));
    assert_eq!(err.field_errors()[0].pointer, "/items/1/price");
}

#[test]
fn an_empty_body_says_so() {
    let err = err(json_item(test_request().json(Vec::new())));
    assert_eq!(err.status(), 400);
    assert!(err.detail().unwrap().contains("empty"));
}

#[test]
fn responses_are_application_json() {
    let bytes = br#"{"name":"widget","price":10}"#.to_vec();
    let mut response: Response<()> = Json(Written(Ok(bytes))).into_response();
    assert_eq!(
        response.headers.get("content-type").as_deref(),
        Some("application/json")
    );
    assert_eq!(
        response.body.take_chunk().unwrap(),
        br#"{"name":"widget","price":10}"#.to_vec()
    );
}

#[test]
fn a_value_that_cannot_be_written_is_a_500() {
    let response: Response<()> = Json(Written(Err("cycle".to_owned()))).into_response();
    assert_eq!(response.status, 500);
    assert_eq!(response.source.unwrap().0, "cycle");
}

#[test]
fn media_type_matching_covers_the_structured_suffix() {
    assert!(is_json_media_type("application/json"));
    assert!(is_json_media_type("APPLICATION/JSON"));
    assert!(is_json_media_type("application/merge-patch+json"));
    assert!(!is_json_media_type("application/jsonp"));
    assert!(!is_json_media_type("text/plain"));
}

#[test]
fn a_body_without_a_content_type_is_read_as_json() {
    let req = built(test_request().body(b"{}".to_vec()));
    assert!(check_json(&req).is_ok());
    assert_eq!(
        to_json_pointer(&vec![
            PathStep::Key("a/b".to_owned()),
            PathStep::Unnamed,
            PathStep::Index(3),
        ]),
        "/a~1b/3"
    );
}

#[test]
fn a_value_that_is_not_valid_is_refused_after_it_is_read() {
    struct Never;
    impl Validate for Never {
        fn validate(&self) -> Result<(), ValidationErrors> {
            let mut errors = ValidationErrors::new();
            errors.push("/x", "never", "no value is valid");
            Err(errors)
        }
    }
    let req = built(test_request().json(b"{}".to_vec()));
    let refused = err(Json::from_request(&req, Ok(Never)));
    assert_eq!(refused.status(), 422);
    assert_eq!(refused.field_errors()[0].code, "never");
    assert_eq!(err(Query::from_request(Ok(Never))).status(), 422);
}

// ---------------------------------------------------------------------------
// credentials, cookies, state
// ---------------------------------------------------------------------------

#[test]
fn bearer_rejects_the_wrong_scheme_with_a_challenge() {
    let req = built(test_request().header("authorization", "Basic abc"));
    let err = err(Bearer::from_request(&req));
    assert_eq!(err.status(), 401);
    assert!(err.headers().has("www-authenticate"));
}

#[test]
fn bearer_accepts_a_case_insensitive_scheme() {
    let req = built(test_request().header("authorization", "bearer tok123"));
    assert_eq!(ok(Bearer::from_request(&req)).0, "tok123");
}

#[test]
fn optional_extractors_swallow_rejections() {
    let req = built(test_request());
    let value = optional(Bearer::from_request(&req));
    assert!(value.is_none());
}

#[test]
fn cookies_are_split_trimmed_and_unquoted() {
    let cookies = Cookies::parse("a=1; b = \"two\" ; c=");
    assert_eq!(cookies.get("a"), Some("1"));
    assert_eq!(cookies.get("b"), Some("two"));
    assert_eq!(cookies.get("c"), Some(""));
    assert_eq!(cookies.get("missing"), None);
}

#[test]
fn cookies_come_from_the_header() {
    let req = built(test_request().header("cookie", "sid=7; theme=dark"));
    let cookies = Cookies::from_request(&req);
    assert_eq!(cookies.len(), 2);
    assert_eq!(cookies.iter()[1], ("theme".to_owned(), "dark".to_owned()));
    assert!(Cookies::from_request(&built(test_request())).is_empty());
}

#[test]
fn missing_state_is_a_500_that_names_the_type() {
    let err = err(State::<u8>::from_found(None, "app::Db", &vec![]));
    assert_eq!(err.status(), 500);
    let source = err.source().unwrap().to_owned();
    assert!(source.contains("Db"), "unhelpful: {source}");
}

#[test]
fn state_and_extensions_are_handed_over_as_found() {
    let found = Arc::new(5u8);
    let state = ok(State::from_found(Some(Arc::clone(&found)), "u8", &vec![]));
    assert!(Arc::ptr_eq(&state.0, &found));
    assert_eq!(ok(Extension::from_found(Some(9u8), "u8")).0, 9);
    let missing = err(Extension::<u8>::from_found(None, "app::Tenant"));
    assert_eq!(missing.status(), 500);
    assert!(missing.source().unwrap().contains("Tenant"));
}

#[test]
fn form_requires_the_right_content_type() {
    let req = built(
        test_request()
            .header("content-type", "application/json")
            .body(b"a=1".to_vec()),
    );
    let refused = err(form_pairs(&req));
    assert_eq!(refused.status(), 415);
    assert_eq!(err(Form::from_request(&req, Ok(String::new()))).status(), 415);
}

#[test]
fn forms_are_read_as_pairs() {
    let req = built(test_request().form(b"a=1&b=x+y".to_vec()));
    let pairs = ok(form_pairs(&req));
    assert_eq!(pairs.get("b"), Some("x y"));
    assert_eq!(ok(form_text(&req)), "a=1&b=x+y");
    let Form(value) = ok(Form::from_request(&req, Ok("v".to_owned())));
    assert_eq!(value, "v");
    let bad = built(test_request().form(vec![0xff]));
    assert_eq!(err(form_text(&bad)).status(), 400);
}

#[test]
fn text_bodies_must_be_utf8() {
    assert_eq!(
        ok(text_body(&built(test_request().body(b"hi".to_vec())))),
        "hi"
    );
    assert_eq!(
        err(text_body(&built(test_request().body(vec![0xc3])))).status(),
        400
    );
}

#[test]
fn a_peer_is_known_only_over_a_connection() {
    let mut req = built(test_request());
    assert!(ConnectInfo::from_request(&req).is_err());
    req.peer = Some("127.0.0.1:80".to_owned());
    assert_eq!(ok(ConnectInfo::from_request(&req)).0, "127.0.0.1:80");
}

// ---------------------------------------------------------------------------
// dependencies
// ---------------------------------------------------------------------------

const USER: u64 = 1;

#[test]
fn a_dependency_resolves_once_per_request() {
    let mut resolved: Resolved<u32> = Resolved::new();
    let mut runs = 0;
    for _ in 0..3 {
        if resolved.get(USER).is_none() {
            runs += 1;
            ok(resolved.settle(USER, Ok(runs)));
        }
    }
    assert_eq!(runs, 1);
    assert_eq!(resolved.get(USER), Some(&1));
}

#[test]
fn a_fresh_request_resolves_again() {
    let mut first: Resolved<u32> = Resolved::new();
    ok(first.settle(USER, Ok(1)));
    let second: Resolved<u32> = Resolved::new();
    assert!(second.get(USER).is_none());
}

#[test]
fn a_failing_dependency_propagates_its_own_status() {
    let mut resolved: Resolved<u32> = Resolved::new();
    let refused = err(resolved.settle(USER, Err(ApiError::unauthorized("no token"))));
    assert_eq!(refused.status(), 401);
    assert!(resolved.get(USER).is_none());
}

#[test]
fn a_dependency_contributes_its_security_requirement() {
    let operation = describe::<Depends<Bearer>>("/me");
    let security = operation.security.as_ref().unwrap();
    assert!(security[0].contains_key("bearerAuth"));
    assert!(operation.responses.contains_key("401"));
    assert_eq!(Depends(4u8).into_inner(), 4);
}

// ---------------------------------------------------------------------------
// paths and queries
// ---------------------------------------------------------------------------

fn describe<T: OperationInput>(path: &str) -> Operation {
    let mut ctx = OperationContext {
        generator: SchemaGenerator::new(),
        operation: Operation::default(),
        path: path.to_owned(),
        method: "GET".to_owned(),
    };
    T::describe(&mut ctx);
    ctx.operation
}

fn single(p: &Parameter) -> Option<&str> {
    match p.schema.as_ref().unwrap().schema_type.as_ref() {
        Some(SchemaType::Single(t)) => Some(t),
        _ => None,
    }
}

fn path_id(req: &Request) -> Result<Path<u32>, ApiError> {
    let scalar = PairsDeserializer::new(path_pairs(req));
    let decoded = scalar.sole_value().and_then(unsigned);
    Path::from_request(req, decoded)
}

#[test]
fn a_single_parameter_extracts_as_a_scalar() {
    let req = built(test_request().param("id", "42"));
    let Path(id) = ok(path_id(&req));
    assert_eq!(id, 42);
}

#[test]
fn several_parameters_extract_as_a_tuple_in_template_order() {
    let req = built(test_request().param("org", "acme").param("id", "7"));
    let values = PairsDeserializer::new(path_pairs(&req)).into_values();
    let decoded = unsigned(&values[1]).map(|id| (values[0].clone(), id));
    let Path((org, id)) = ok(Path::from_request(&req, decoded));
    assert_eq!((org.as_str(), id), ("acme", 7));
}

#[test]
fn a_struct_extracts_by_name() {
    #[derive(Debug, PartialEq)]
    struct Ids {
        org: String,
        id: u32,
    }
    let req = built(test_request().param("org", "acme").param("id", "7"));
    let pairs = path_pairs(&req);
    let decoded = unsigned(pairs.get("id").unwrap()).map(|id| Ids {
        org: pairs.get("org").unwrap().to_owned(),
        id,
    });
    let ids = ok(Path::from_request(&req, decoded)).into_inner();
    assert_eq!(
        ids,
        Ids {
            org: "acme".into(),
            id: 7
        }
    );
}

#[test]
fn an_unparseable_segment_is_a_422_not_a_500() {
    let req = built(test_request().param("id", "not-a-number"));
    let err = err(path_id(&req));
    assert_eq!(err.status(), 422);
    assert!(err.field_errors()[0].message.contains("not-a-number"));
}

#[test]
fn scalar_paths_take_their_name_from_the_template() {
    let operation = describe::<Path<u32>>("/users/{id}");
    assert_eq!(operation.parameters.len(), 1);
    assert_eq!(operation.parameters[0].name, "id");
    assert!(operation.parameters[0].required);
    assert_eq!(
        operation.parameters[0].schema.as_ref().unwrap().format,
        Some("int64".into())
    );
}

#[test]
fn tuple_paths_line_up_positionally() {
    let operation = describe::<Path<(String, u32)>>("/orgs/{org}/users/{id}");
    let names: Vec<_> = operation.parameters.iter().map(|p| &p.name).collect();
    assert_eq!(names, vec!["org", "id"]);
    assert_eq!(single(&operation.parameters[1]), Some("integer"));
}

#[derive(Debug)]
struct Search {
    q: String,
    tags: Vec<String>,
    limit: Option<u32>,
}

impl Validate for Search {
    fn validate(&self) -> Result<(), ValidationErrors> {
        Ok(())
    }
}

impl JsonSchema for Search {
    fn schema_name() -> Option<String> {
        Some("Search".into())
    }

    fn json_schema(generator: &mut SchemaGenerator) -> Schema {
        let mut schema = Schema::of_type("object");
        schema
            .properties
            .insert("q".into(), generator.subschema_for::<String>());
        schema
            .properties
            .insert("tags".into(), generator.subschema_for::<Vec<String>>());
        schema
            .properties
            .insert("limit".into(), generator.subschema_for::<Option<u32>>());
        schema.required = vec!["q".into()];
        schema
    }

    fn optional() -> bool {
        false
    }

    fn only_adds(_: Collected) {}
}

fn search(uri: &str) -> Result<Query<Search>, ApiError> {
    let req = built(test_request().uri(uri));
    let pairs = query_pairs(&req);
    let decoded = match pairs.get("q") {
        Some(q) => Ok(Search {
            q: q.to_owned(),
            tags: values(&pairs, "tags").map(|v| v.values).unwrap_or_default(),
            limit: None,
        }),
        None => Err(DeError("missing field `q`".to_owned())),
    };
    Query::from_request(decoded)
}

#[test]
fn repeated_keys_collect_into_a_vec() {
    let Query(search) = ok(search("/s?q=rust&tags=web&tags=async"));
    assert_eq!(search.q, "rust");
    assert_eq!(search.tags, vec!["web", "async"]);
    assert_eq!(search.limit, None);
}

#[test]
fn a_missing_required_key_is_a_422() {
    let err = err(search("/s?tags=web"));
    assert_eq!(err.status(), 422);
}

#[test]
fn every_field_becomes_a_documented_parameter() {
    let operation = describe::<Query<Search>>("/s");
    assert_eq!(operation.parameters.len(), 3);
    let q = &operation.parameters[0];
    assert_eq!(q.name, "q");
    assert_eq!(q.location, ParameterIn::Query);
    assert!(q.required, "`q` is in the schema's required list");
    assert!(!operation.parameters[2].required, "`limit` is optional");
}

#[test]
fn an_optional_body_is_documented_as_optional() {
    let body = describe::<Json<Search>>("/s").request_body.unwrap();
    assert!(body.required);
    assert!(body.content.contains_key("application/json"));
    let body = describe::<Option<Json<Search>>>("/s").request_body.unwrap();
    assert!(!body.required);
    let body = describe::<Form<Search>>("/s").request_body.unwrap();
    assert!(body
        .content
        .contains_key("application/x-www-form-urlencoded"));
}

#[test]
fn an_optional_extractor_leaves_the_body_of_another_required() {
    let mut ctx = OperationContext {
        generator: SchemaGenerator::new(),
        operation: Operation::default(),
        path: "/s".to_owned(),
        method: "POST".to_owned(),
    };
    Json::<String>::describe(&mut ctx);
    Option::<Bearer>::describe(&mut ctx);
    assert!(ctx.operation.request_body.as_ref().unwrap().required);
    assert_eq!(ctx.operation.security.as_ref().unwrap().len(), 1);
    // A body of its own is optional, in place of the one before.
    Option::<Json<String>>::describe(&mut ctx);
    assert!(!ctx.operation.request_body.as_ref().unwrap().required);
}

#[test]
fn an_optional_extractor_relaxes_a_parameter_it_replaces() {
    let mut ctx = OperationContext {
        generator: SchemaGenerator::new(),
        operation: Operation::default(),
        path: "/s".to_owned(),
        method: "GET".to_owned(),
    };
    Query::<Search>::describe(&mut ctx);
    let before = ctx.operation.parameters.len();
    let required = |ctx: &OperationContext| {
        let q = ctx.operation.parameters.iter().find(|p| p.name == "q");
        q.unwrap().required
    };
    assert!(required(&ctx));
    Option::<Query<Search>>::describe(&mut ctx);
    assert_eq!(ctx.operation.parameters.len(), before);
    assert!(!required(&ctx));
}

#[test]
fn a_truncated_body_is_a_400() {
    let req = built(test_request().json(br#"{"name":"wid"#.to_vec()));
    let parsed: Result<String, JsonFailure> = Err(JsonFailure {
        path: vec![],
        category: JsonCategory::Eof,
        message: "EOF while parsing a string at line 1 column 12".to_owned(),
    });
    let refused = err(Json::from_request(&req, parsed));
    assert_eq!(refused.status(), 400);
    assert_eq!(refused.title(), "Invalid JSON");
}

#[test]
fn joined_query_strings_spell_both() {
    let both = Pairs::parse_urlencoded("a=1&b=2&&a=3");
    assert_eq!(both.keys(), vec!["a".to_owned(), "b".to_owned()]);
    assert_eq!(both.values_at(0), &vec!["1".to_owned(), "3".to_owned()]);
    assert!((0..both.len()).all(|i| !both.values_at(i).is_empty()));
}
