//! Responses, errors, bodies, events, operations, and requests.

use velo::body::ResBody;
use velo::error::{ApiError, FieldError};
use velo::headers::{name_allowed, value_allowed, Headers};
use velo::json::Value;
use velo::openapi::gen::SchemaGenerator;
use velo::openapi::schema::{Schema, SchemaType};
use velo::openapi::spec::{Operation, Parameter, ParameterIn};
use velo::operation::{resolve_object, OperationContext, OperationOutput};
use velo::outputs::Documented;
use velo::request::Request;
use velo::response::{
    Accepted, Created, Html, IntoResponse, NoContent, Redirect, Response, StatusCode, WithHeaders,
    WithStatus,
};
use velo::span::Span;
use velo::sse::{idle_step, Event, IdleStep, Sse};
use velo::status::status_phrase;
use velo::testing::test_request;

/// A value as compact JSON text.
fn show(value: &Value) -> String {
    match value {
        Value::Null => "null".to_owned(),
        Value::Bool(b) => b.to_string(),
        Value::Number(n) => n.text.clone(),
        Value::String(s) => format!("{s:?}"),
        Value::Array(list) => {
            let parts: Vec<String> = list.iter().map(show).collect();
            format!("[{}]", parts.join(","))
        }
        Value::Object(members) => {
            let parts: Vec<String> = members
                .iter()
                .map(|(k, v)| format!("{k:?}:{}", show(v)))
                .collect();
            format!("{{{}}}", parts.join(","))
        }
        Value::Raw(text) => text.clone(),
    }
}

fn member<'a>(value: &'a Value, key: &str) -> &'a Value {
    match value {
        Value::Object(members) => members
            .iter()
            .find(|(k, _)| k == key)
            .map(|(_, v)| v)
            .unwrap_or(&Value::Null),
        _ => &Value::Null,
    }
}

fn item(value: &Value, index: usize) -> &Value {
    match value {
        Value::Array(list) => &list[index],
        _ => &Value::Null,
    }
}

fn shown(value: &Value, key: &str) -> String {
    show(member(value, key))
}

fn respond<T: IntoResponse<()>>(value: T) -> Response<()> {
    value.into_response()
}

// ---------------------------------------------------------------------------
// errors
// ---------------------------------------------------------------------------

#[test]
fn problem_document_follows_rfc_9457() {
    let err = ApiError::not_found("No user with id 7").with_type("https://example.com/no-user");
    let doc = err.to_problem_json();
    assert_eq!(shown(&doc, "type"), "\"https://example.com/no-user\"");
    assert_eq!(shown(&doc, "title"), "\"Not Found\"");
    assert_eq!(shown(&doc, "status"), "404");
    assert_eq!(shown(&doc, "detail"), "\"No user with id 7\"");
}

#[test]
fn type_defaults_to_about_blank() {
    assert_eq!(
        shown(&ApiError::bad_request("nope").to_problem_json(), "type"),
        "\"about:blank\""
    );
}

#[test]
fn validation_errors_are_listed_and_counted() {
    let err = ApiError::unprocessable(vec![
        FieldError::new("/name", "min_length", "too short"),
        FieldError::new("/age", "minimum", "must be at least 13"),
    ]);
    assert_eq!(err.status(), 422);
    let doc = err.to_problem_json();
    assert_eq!(shown(&doc, "detail"), "\"2 fields failed validation.\"");
    let errors = member(&doc, "errors");
    assert_eq!(shown(item(errors, 0), "pointer"), "\"/name\"");
    assert_eq!(shown(item(errors, 1), "code"), "\"minimum\"");
}

#[test]
fn changing_status_updates_a_default_title_but_not_a_custom_one() {
    let a = ApiError::new(200).with_status(404);
    assert_eq!(a.title(), "Not Found");
    let b = ApiError::new(200).with_title("Custom").with_status(404);
    assert_eq!(b.title(), "Custom");
}

#[test]
fn response_uses_the_problem_media_type() {
    let response = respond(ApiError::forbidden("nope"));
    assert_eq!(response.status, 403);
    assert_eq!(
        response.headers.get("content-type").as_deref(),
        Some("application/problem+json")
    );
    match &response.body {
        ResBody::Full(bytes) => {
            let doc: serde_json::Value = serde_json::from_slice(bytes).unwrap();
            assert_eq!(doc["status"], 403);
        }
        _ => panic!("expected a document"),
    }
}

#[test]
fn a_problem_is_a_body_of_known_length() {
    let mut response = respond(ApiError::not_found("no \"user\"\n7"));
    let expected: String = [
        r#"{"type":"about:blank","title":"Not Found","status":404,"#,
        r#""detail":"no \"user\"\n7"}"#,
    ]
    .concat();
    assert_eq!(response.body.len(), Some(expected.len()));
    assert_eq!(response.body.take_chunk().unwrap(), expected.into_bytes());
}

#[test]
fn a_value_is_written_as_compact_json() {
    let text = |t: &str| Value::String(t.to_owned());
    assert_eq!(Value::Null.write(), "null");
    assert_eq!(Value::Bool(false).write(), "false");
    assert_eq!(
        text("a\"b\\c\n\u{1}\u{1f}\u{7f}é/").write(),
        "\"a\\\"b\\\\c\\n\\u0001\\u001f\u{7f}é/\""
    );
    let list = Value::Array(vec![Value::Null, text("x")]);
    let both = Value::Object(vec![("a".to_owned(), list), ("b".to_owned(), text(""))]);
    assert_eq!(both.write(), "{\"a\":[null,\"x\"],\"b\":\"\"}");
    assert_eq!(Value::Array(vec![]).write(), "[]");
    assert_eq!(Value::Raw(" [ 1 , 2 ] ".to_owned()).write(), "[1,2]");
    assert_eq!(Value::Raw("not json".to_owned()).write(), "\"not json\"");
}

#[test]
fn a_span_keeps_its_nanoseconds() {
    let span = Span::new(1, 500_000_001);
    assert_eq!((span.as_secs(), span.subsec_nanos()), (1, 500_000_001));
    assert_eq!(span.as_millis(), 1500);
    assert_eq!(span.shown(), "1.500000001s");
    assert_eq!(Span::from_millis(10).shown(), "10ms");
    assert_eq!(Span::new(0, 250_000).shown(), "250µs");
    assert_eq!(Span::new(0, 250_000).as_millis(), 0);
    assert_eq!(Span::from_secs(u64::MAX).as_millis(), u64::MAX as u128 * 1000);
    let event = Event::data("x").retry(Span::from_secs(u64::MAX));
    assert_eq!(encoded(event), "retry:18446744073709551615000\ndata:x\n\n");
}

#[test]
fn internal_errors_keep_the_cause_out_of_the_body() {
    let err = ApiError::internal("database connection refused");
    let doc = err.to_problem_json();
    assert_eq!(
        shown(&doc, "detail"),
        "\"The server encountered an unexpected condition.\""
    );
    assert!(!show(&doc).contains("database"));
    assert!(err.source().is_some());
    let response = respond(err);
    assert_eq!(response.source.unwrap().0, "database connection refused");
}

#[test]
fn each_constructor_has_its_status() {
    assert_eq!(ApiError::bad_request("x").status(), 400);
    assert_eq!(ApiError::unauthorized("x").status(), 401);
    assert_eq!(ApiError::forbidden("x").status(), 403);
    assert_eq!(ApiError::conflict("x").status(), 409);
    assert_eq!(ApiError::payload_too_large("x").status(), 413);
    assert_eq!(ApiError::unsupported_media_type("x").status(), 415);
    assert_eq!(ApiError::too_many_requests("x").status(), 429);
    assert_eq!(ApiError::internal("x").status(), 500);
    let malformed = ApiError::invalid_json("eof");
    assert_eq!(malformed.status(), 400);
    assert_eq!(malformed.title(), "Invalid JSON");
    assert_eq!(malformed.detail(), Some("Malformed JSON: eof"));
    assert_eq!(malformed.source(), Some("eof"));
}

#[test]
fn a_problem_carries_what_was_added_to_it() {
    let err = ApiError::conflict("taken")
        .with_instance("/users/7")
        .with_extension("retry", Value::Bool(true))
        .with_header("retry-after", "5")
        .with_field_error(FieldError::new("/name", "taken", "in use"));
    let doc = err.to_problem_json();
    assert_eq!(shown(&doc, "instance"), "\"/users/7\"");
    assert_eq!(shown(&doc, "retry"), "true");
    assert_eq!(err.headers().get("Retry-After").as_deref(), Some("5"));
    assert_eq!(err.field_errors().len(), 1);
    let response = respond(err);
    assert_eq!(response.headers.get("retry-after").as_deref(), Some("5"));
}

#[test]
fn phrases_come_from_the_registry() {
    assert_eq!(status_phrase(404), "Not Found");
    assert_eq!(status_phrase(418), "I'm a teapot");
    assert_eq!(status_phrase(599), "Error");
}

// ---------------------------------------------------------------------------
// bodies
// ---------------------------------------------------------------------------

#[test]
fn full_body_yields_exactly_one_frame() {
    let mut body: ResBody<()> = ResBody::full(b"hello".to_vec());
    assert_eq!(body.len(), Some(5));
    assert_eq!(body.take_chunk(), Some(b"hello".to_vec()));
    assert_eq!(body.take_chunk(), None);
    assert!(body.is_end_stream());
}

#[test]
fn empty_payloads_collapse_to_empty_variant() {
    assert!(ResBody::<()>::full(Vec::new()).is_empty());
    assert_eq!(ResBody::<()>::full(Vec::new()).len(), Some(0));
}

#[test]
fn streaming_bodies_have_no_known_length() {
    let body = ResBody::stream(vec![b"a".to_vec(), b"b".to_vec()]);
    assert_eq!(body.len(), None);
    assert!(!body.is_end_stream());
    match body {
        ResBody::Stream(chunks) => assert_eq!(chunks.concat(), b"ab"),
        _ => panic!("expected a stream"),
    }
}

// ---------------------------------------------------------------------------
// responses
// ---------------------------------------------------------------------------

fn describe<T: OperationOutput>() -> Operation {
    let mut ctx = context("/x");
    T::describe(&mut ctx);
    ctx.operation
}

fn context(path: &str) -> OperationContext {
    OperationContext {
        generator: SchemaGenerator::new(),
        operation: Operation::default(),
        path: path.to_owned(),
        method: "GET".to_owned(),
    }
}

#[test]
fn unit_is_a_204() {
    let response = respond(());
    assert_eq!(response.status, 204);
    assert!(response.body.is_empty());
}

#[test]
fn strings_are_utf8_plain_text() {
    let mut response = respond("hi");
    assert_eq!(
        response.headers.get("content-type").as_deref(),
        Some("text/plain; charset=utf-8")
    );
    assert_eq!(response.body.take_chunk(), Some(b"hi".to_vec()));
}

#[test]
fn created_sets_status_and_location() {
    let response = respond(Created::at("/users/7", "body"));
    assert_eq!(response.status, 201);
    assert_eq!(response.headers.get("location").as_deref(), Some("/users/7"));
}

#[test]
fn tuple_status_overrides_the_inner_status() {
    let response = respond((StatusCode(418), "short and stout"));
    assert_eq!(response.status, 418);
}

#[test]
fn result_documents_both_arms() {
    let operation = describe::<Result<String, ApiError>>();
    assert!(operation.responses.contains_key("200"));
    assert!(operation.responses.contains_key("default"));
    assert!(operation
        .responses
        .get("default")
        .unwrap()
        .content
        .contains_key("application/problem+json"));
}

#[test]
fn created_moves_the_inner_response_to_201() {
    let operation = describe::<Created<String>>();
    assert!(!operation.responses.contains_key("200"));
    let created = operation.responses.get("201").unwrap();
    assert_eq!(created.description, "Created");
    assert!(created.headers.contains_key("Location"));
}

#[test]
fn redirect_documents_its_location_header() {
    let operation = describe::<Redirect>();
    assert!(
        operation
            .responses
            .get("303")
            .unwrap()
            .headers
            .get("Location")
            .unwrap()
            .required
    );
}

#[test]
fn invalid_redirect_target_fails_loudly() {
    let response = respond(Redirect::see_other("bad\nlocation"));
    assert_eq!(response.status, 500);
}

#[test]
fn wrappers_change_what_they_say_they_change() {
    assert_eq!(respond(WithStatus(StatusCode(202), "x")).status, 202);
    assert_eq!(respond(Accepted("x")).status, 202);
    assert_eq!(respond(NoContent).status, 204);
    assert_eq!(respond(StatusCode(403)).status, 403);
    assert_eq!(respond(Redirect::temporary("/a")).status, 307);
    assert_eq!(respond(Redirect::permanent("/a")).status, 308);
    assert_eq!(respond(Created::new("x")).headers.get("location"), None);
    let named = respond(WithHeaders::from_pairs(
        vec![("X-A".to_owned(), "1".to_owned())],
        "x",
    ));
    assert_eq!(named.headers.get("x-a").as_deref(), Some("1"));
    let page = respond(Html("<p>".to_owned()));
    assert_eq!(
        page.headers.get("content-type").as_deref(),
        Some("text/html; charset=utf-8")
    );
    let bytes = respond(vec![1u8, 2]);
    assert_eq!(
        bytes.headers.get("content-type").as_deref(),
        Some("application/octet-stream")
    );
    assert_eq!(respond(Err::<(), ApiError>(ApiError::conflict("x"))).status, 409);
    assert_eq!(respond(Ok::<String, ApiError>("x".to_owned())).status, 200);
}

#[test]
fn outputs_document_their_status() {
    assert_eq!(<() as OperationOutput>::status(), Some(204));
    assert!(describe::<()>().responses.contains_key("204"));
    assert_eq!(<Accepted<String> as OperationOutput>::status(), Some(202));
    let documented = describe::<Documented<Vec<String>>>();
    let media = documented
        .responses
        .get("200")
        .unwrap()
        .content
        .get("application/json")
        .unwrap();
    assert_eq!(
        show(&media.schema.as_ref().unwrap().to_json()),
        "{\"type\":\"array\",\"items\":{\"type\":\"string\"}}"
    );
}

// ---------------------------------------------------------------------------
// events
// ---------------------------------------------------------------------------

fn encoded(event: Event) -> String {
    String::from_utf8(event.encode()).unwrap()
}

#[test]
fn a_plain_event_is_one_data_line() {
    assert_eq!(encoded(Event::data("hello")), "data:hello\n\n");
}

#[test]
fn multi_line_payloads_become_repeated_data_lines() {
    assert_eq!(encoded(Event::data("one\ntwo")), "data:one\ndata:two\n\n");
}

#[test]
fn name_id_and_retry_precede_the_payload() {
    let event = Event::data("x").named("tick").id("7").retry(Span::from_millis(2000));
    assert_eq!(encoded(event), "id:7\nevent:tick\nretry:2000\ndata:x\n\n");
}

#[test]
fn newlines_in_metadata_cannot_forge_a_frame() {
    let wire = encoded(Event::data("x").named("a\nevent:injected"));
    // The payload stays inside the one `event:` line rather than starting a
    // second field, so a client sees a single oddly-named event.
    let field_lines = wire.lines().filter(|l| l.starts_with("event:")).count();
    assert_eq!(field_lines, 1);
    assert!(wire.starts_with("event:a event:injected\n"));

    // The same holds for ids, where a forged newline would let a client resume
    // from an attacker-chosen position.
    let wire = encoded(Event::data("x").id("1\ndata:forged"));
    assert_eq!(wire.lines().filter(|l| l.starts_with("data:")).count(), 1);
}

#[test]
fn comments_are_ignorable_frames() {
    assert_eq!(encoded(Event::comment("keep-alive")), ":keep-alive\n\n");
}

#[test]
fn json_events_carry_serialised_payloads() {
    let mut tick = serde_json::Map::new();
    tick.insert("n".to_owned(), serde_json::Value::from(3));
    let payload = serde_json::to_string(&tick).unwrap();
    assert_eq!(encoded(Event::data(&payload)), "data:{\"n\":3}\n\n");
}

#[test]
fn the_response_is_an_unbuffered_event_stream() {
    let events = vec![Event::data("a"), Event::data("b")];
    let response = Sse::new(events).without_keep_alive().into_response();

    assert_eq!(
        response.headers.get("content-type").as_deref(),
        Some("text/event-stream")
    );
    assert_eq!(
        response.headers.get("cache-control").as_deref(),
        Some("no-store")
    );
    match response.body {
        ResBody::Stream(sse) => {
            assert_eq!(sse.keep_alive, None);
            let bytes: Vec<u8> = sse.stream.iter().flat_map(|e| e.encode()).collect();
            assert_eq!(bytes, b"data:a\n\ndata:b\n\n");
        }
        _ => panic!("expected a stream"),
    }
}

#[test]
fn an_idle_stream_emits_keep_alive_comments() {
    // Only the keep-alive timer produces anything, which is exactly the case
    // proxies would otherwise kill.
    assert_eq!(Sse::new(()).keep_alive(Span::from_millis(1000)).keep_alive, Some(Span::from_secs(1)));
    assert!(matches!(idle_step(false, true), IdleStep::Comment));
    assert!(matches!(idle_step(true, true), IdleStep::Forward));
    assert!(matches!(idle_step(true, false), IdleStep::Forward));
    assert!(matches!(idle_step(false, false), IdleStep::Wait));
    assert_eq!(encoded(Event::comment("keep-alive")), ":keep-alive\n\n");
}

#[test]
fn a_payload_is_one_line_per_line() {
    assert_eq!(encoded(Event::data("")), "data:\n\n");
    assert_eq!(encoded(Event::data("a\r\nb")), "data:a\ndata:b\n\n");
}

// ---------------------------------------------------------------------------
// operations and requests
// ---------------------------------------------------------------------------

#[test]
fn path_params_are_read_from_the_template() {
    let ctx = context("/orgs/{org}/users/{id}");
    assert_eq!(ctx.path_param_names(), vec!["org", "id"]);
}

#[test]
fn catch_all_params_drop_the_star() {
    let ctx = context("/files/{*rest}");
    assert_eq!(ctx.path_param_names(), vec!["rest"]);
}

#[test]
fn adding_a_parameter_twice_refines_instead_of_duplicating() {
    let mut ctx = context("/x");
    ctx.add_parameter(Parameter::new(
        "page",
        ParameterIn::Query,
        Schema::of_type("string"),
    ));
    ctx.add_parameter(Parameter::new(
        "page",
        ParameterIn::Query,
        Schema::of_type("integer"),
    ));
    assert_eq!(ctx.operation.parameters.len(), 1);
    assert!(matches!(
        &ctx.operation.parameters[0].schema.as_ref().unwrap().schema_type,
        Some(SchemaType::Single(t)) if t == "integer"
    ));
}

#[test]
fn a_reference_resolves_to_its_definition() {
    let mut generator = SchemaGenerator::new();
    generator.insert("User", Schema::of_type("object"));
    let resolved = resolve_object(&generator, &Schema::reference("#/components/schemas/User"));
    assert_eq!(show(&resolved.to_json()), "{\"type\":\"object\"}");
    let missing = Schema::reference("#/components/schemas/Nope");
    assert!(resolve_object(&generator, &missing).is_pure_ref());
}

fn request(uri: &str) -> Request {
    test_request()
        .uri(uri)
        .header("content-type", "application/json; charset=utf-8")
        .try_build()
        .unwrap()
}

#[test]
fn query_is_empty_rather_than_absent() {
    assert_eq!(request("/x").query(), "");
    assert_eq!(request("/x?a=1").query(), "a=1");
}

#[test]
fn content_type_strips_parameters() {
    assert_eq!(
        request("/x").content_type().as_deref(),
        Some("application/json")
    );
}

#[test]
fn params_are_looked_up_by_name() {
    let mut req = request("/users/7");
    req.params.push(("id".to_owned(), "7".to_owned()));
    assert_eq!(req.param("id"), Some("7"));
    assert_eq!(req.param("missing"), None);
}

#[test]
fn content_types_are_compared_in_small_letters() {
    let req = test_request()
        .header("Content-Type", "TEXT/Plain; q=1")
        .try_build()
        .unwrap();
    assert_eq!(req.content_type().as_deref(), Some("text/plain"));
    assert_eq!(req.header("CONTENT-TYPE").as_deref(), Some("TEXT/Plain; q=1"));
}

#[test]
fn a_test_request_is_held_to_http_syntax() {
    let req = test_request()
        .method("post")
        .uri("https://h.example/p?q=1#f")
        .matched_path("/p")
        .try_build()
        .unwrap();
    assert_eq!(req.method(), "POST");
    assert_eq!(req.path(), "/p");
    assert_eq!(req.query(), "q=1");
    assert_eq!(req.matched_path(), Some("/p"));
    assert_eq!(test_request().build().path(), "/");
    assert!(test_request().uri("/a b").try_build().is_none());
    assert!(test_request().method("A B").try_build().is_none());
    assert!(test_request().header("x y", "1").try_build().is_none());
    assert!(test_request().header("x", "1\n").try_build().is_none());
}

#[test]
fn header_fields_are_found_whatever_the_case_of_the_name() {
    let mut fields = Headers::new();
    assert!(fields.insert("X-One", "1"));
    assert!(fields.append("x-one", "2"));
    assert_eq!(fields.get("x-ONE").as_deref(), Some("1"));
    assert!(fields.insert("x-one", "3"));
    assert_eq!(fields.get("x-one").as_deref(), Some("3"));
    assert!(!fields.insert("bad name", "1"));
    assert!(!fields.insert("x-two", "a\nb"));
    assert!(!fields.has("x-two"));
    assert!(fields.insert("x-accent", "caf\u{e9}"));
    assert_eq!(fields.get("x-accent"), None);
    assert!(name_allowed("x!") && !name_allowed("") && !name_allowed("a:b"));
    assert!(value_allowed("a\tb") && !value_allowed("a\u{7f}"));
}

#[test]
fn accepted_moves_the_inner_response_to_202() {
    let operation = describe::<Accepted<String>>();
    assert!(!operation.responses.contains_key("200"));
    let accepted = operation.responses.get("202").unwrap();
    assert_eq!(accepted.description, "Accepted");
    assert!(!accepted.content.is_empty());
}
