//! Layers: order, request ids, timeouts, panics, logs, and CORS.

use velo::body::ResBody;
use velo::middleware::common::{
    fresh_id, CatchPanic, Logger, Outcome, RequestId, RequestIdValue, Timeout,
};
use velo::middleware::cors::{Cors, Decision};
use velo::middleware::{compose, Chain, Inward, Next};
use velo::request::Request;
use velo::response::{IntoResponse, Response, StatusCode};
use velo::span::Span;
use velo::testing::{test_request, TestRequest};

fn built(request: TestRequest) -> Request {
    request.try_build().unwrap()
}

fn ok_response() -> Response<()> {
    Response::new(ResBody::full(b"ok".to_vec()))
}

// ---------------------------------------------------------------------------
// order
// ---------------------------------------------------------------------------

/// Runs a chain of recorders, each noting itself on the way in and out.
fn record(next: Next<'_, &'static str, &'static str>, log: &mut Vec<&'static str>) -> &'static str {
    match next.run() {
        Inward::Handler(marker) => marker,
        Inward::Layer(tag, rest) => {
            log.push(tag);
            let marker = record(rest, log);
            log.push(tag);
            marker
        }
    }
}

#[test]
fn layers_run_outermost_first_and_unwind_in_reverse() {
    let mut log = Vec::new();
    let composed = compose("core", vec!["outer", "inner"]);

    record(Next::new(&composed), &mut log);
    assert_eq!(log, vec!["outer", "inner", "inner", "outer"]);
}

#[test]
fn a_layer_can_short_circuit_without_calling_next() {
    // The inner handler sets this header; a short-circuit means it never runs,
    // so the header must be absent.
    let composed = compose("core", vec!["gate"]);
    let response: Response<()> = match Next::new(&composed).run() {
        Inward::Layer(_, _next) => StatusCode(403).into_response(),
        Inward::Handler(marker) => {
            let mut response = ok_response();
            response.set_header("x-handler", marker);
            response
        }
    };
    assert_eq!(response.status, 403);
    assert!(!response.headers.has("x-handler"));
}

#[test]
fn no_layers_means_the_handler_runs_untouched() {
    let composed: Chain<&'static str, &'static str> = compose("core", vec![]);
    let mut log = Vec::new();
    assert_eq!(record(Next::new(&composed), &mut log), "core");
    assert!(log.is_empty());
}

// ---------------------------------------------------------------------------
// request ids
// ---------------------------------------------------------------------------

fn echoed(layer: &RequestId, request: TestRequest) -> String {
    let req = built(request);
    let id = layer.choose_id(&req, fresh_id(7, 1));
    let response = layer.echo(ok_response(), &id);
    response.headers.get("x-request-id").unwrap()
}

#[test]
fn request_id_is_generated_and_echoed() {
    let id = echoed(&RequestId::new(), test_request());
    assert!(!id.is_empty());
}

#[test]
fn an_inbound_request_id_is_propagated() {
    let id = echoed(
        &RequestId::new(),
        test_request().header("x-request-id", "trace-abc-123"),
    );
    assert_eq!(id, "trace-abc-123");
}

#[test]
fn a_hostile_inbound_id_is_replaced_not_echoed() {
    let id = echoed(
        &RequestId::new(),
        test_request().header("x-request-id", &"x".repeat(500)),
    );
    assert_ne!(id.len(), 500);
}

#[test]
fn always_generate_ignores_the_client() {
    let id = echoed(
        &RequestId::new().always_generate(),
        test_request().header("x-request-id", "spoofed"),
    );
    assert_ne!(id, "spoofed");
}

#[test]
fn generated_ids_are_unique() {
    let a = fresh_id(42, 0);
    let b = fresh_id(42, 1);
    assert_ne!(a, b);
}

#[test]
fn the_header_of_a_request_id_can_be_chosen() {
    let layer = RequestId::default().header("x-trace");
    let req = built(test_request().header("x-trace", "t1"));
    let id = layer.choose_id(&req, "fresh".to_owned());
    assert_eq!(id.0, "t1");
    let response = layer.echo(ok_response(), &id);
    assert_eq!(response.headers.get("x-trace").as_deref(), Some("t1"));
}

// ---------------------------------------------------------------------------
// timeouts, panics, logs
// ---------------------------------------------------------------------------

#[test]
fn a_slow_handler_times_out_with_504() {
    let response: Response<()> = Timeout::new(Span::from_millis(10)).outcome(None);
    assert_eq!(response.status, 504);
}

#[test]
fn a_fast_handler_is_untouched_by_the_timeout() {
    let timeout = Timeout::seconds(30);
    assert_eq!(timeout.budget, Span::from_millis(30000));
    assert_eq!(timeout.outcome(Some(ok_response())).status, 200);
}

#[test]
fn a_timeout_names_its_budget_however_short() {
    let mut response: Response<()> = Timeout::new(Span::new(0, 1500)).outcome(None);
    let body = String::from_utf8(response.body.take_chunk().unwrap()).unwrap();
    assert!(body.contains("The request exceeded its 1.5µs budget."), "{body}");
}

#[test]
fn a_panicking_handler_becomes_a_500() {
    let response: Response<()> =
        CatchPanic.outcome(None, Outcome::Panicked(Some("kaboom".to_owned())));
    assert_eq!(response.status, 500);
    assert!(response.source.unwrap().0.contains("kaboom"));
    assert_eq!(CatchPanic.outcome(None, Outcome::Done(ok_response())).status, 200);
}

#[test]
fn the_logger_reports_method_path_and_status() {
    let req = built(test_request().uri("/things?x=1"));
    let log = Logger::with(&req, Some(&RequestIdValue("r1".to_owned())));
    let log = log.record(&ok_response(), Span::new(0, 5));
    assert_eq!(
        (log.method.as_str(), log.path.as_str(), log.status),
        ("GET", "/things", 200)
    );
    assert_eq!(log.elapsed, Span::new(0, 5));
    assert_eq!(log.request_id.as_deref(), Some("r1"));
    assert!(!log.is_failure());
}

// ---------------------------------------------------------------------------
// CORS
// ---------------------------------------------------------------------------

fn run(cors: Cors, request: TestRequest) -> Response<()> {
    let req = built(request);
    match cors.receive(&req) {
        Decision::Pass => ok_response(),
        Decision::Decorate(origin) => cors.decorate(ok_response(), &origin),
        Decision::Answer(response) => response,
    }
}

const ORIGIN: &str = "access-control-allow-origin";

#[test]
fn requests_without_an_origin_are_left_alone() {
    let response = run(Cors::permissive(), test_request());
    assert!(!response.headers.has(ORIGIN));
}

#[test]
fn a_permissive_layer_answers_with_a_wildcard() {
    let response = run(
        Cors::permissive(),
        test_request().header("origin", "https://app.example"),
    );
    assert_eq!(response.headers.get(ORIGIN).as_deref(), Some("*"));
}

#[test]
fn a_preflight_advertises_methods_and_headers() {
    let response = run(
        Cors::permissive(),
        test_request()
            .method("OPTIONS")
            .header("origin", "https://app.example")
            .header("access-control-request-method", "POST"),
    );

    assert_eq!(response.status, 204);
    let allow_methods = response.headers.get("access-control-allow-methods").unwrap();
    assert!(allow_methods.contains("POST"));
    assert_eq!(
        response.headers.get("access-control-max-age").as_deref(),
        Some("3600")
    );
}

#[test]
fn an_allow_list_reflects_only_listed_origins() {
    let cors = || Cors::permissive().allow_origins(vec!["https://app.example".to_owned()]);

    let allowed = run(cors(), test_request().header("origin", "https://app.example"));
    assert_eq!(
        allowed.headers.get(ORIGIN).as_deref(),
        Some("https://app.example")
    );
    assert_eq!(allowed.headers.get("vary").as_deref(), Some("Origin"));

    let denied = run(cors(), test_request().header("origin", "https://evil.example"));
    assert!(!denied.headers.has(ORIGIN));
    // The handler still ran: CORS is enforced by the browser, and a
    // non-browser client should not be blocked by an Origin header.
    assert_eq!(denied.status, 200);
}

#[test]
fn credentials_reflect_the_origin_rather_than_a_wildcard() {
    let cors = Cors::permissive()
        .allow_origins(vec!["https://app.example".to_owned()])
        .allow_credentials(true);
    let response = run(cors, test_request().header("origin", "https://app.example"));
    assert_eq!(
        response.headers.get(ORIGIN).as_deref(),
        Some("https://app.example")
    );
    assert_eq!(
        response
            .headers
            .get("access-control-allow-credentials")
            .as_deref(),
        Some("true")
    );
}

#[test]
fn a_wildcard_is_told_apart_from_a_list() {
    assert!(Cors::permissive().is_wildcard());
    let listed = Cors::default().allow_origins(vec!["https://a".to_owned()]);
    assert!(!listed.is_wildcard());
    assert_eq!(listed.allowed_origin("https://a").as_deref(), Some("https://a"));
    assert_eq!(listed.allowed_origin("https://b"), None);
    assert_eq!(Cors::permissive().allowed_origin("x").as_deref(), Some("*"));
}

#[test]
fn a_preflight_says_what_was_configured() {
    let cors = Cors::permissive()
        .allow_methods(vec!["GET".to_owned(), "PUT".to_owned()])
        .allow_headers(vec!["x-a".to_owned()])
        .expose_headers(vec!["x-b".to_owned()])
        .max_age(Span::new(60, 999_999_999));
    let response = run(
        cors,
        test_request()
            .method("OPTIONS")
            .header("origin", "https://app.example")
            .header("access-control-request-method", "PUT"),
    );
    let get = |name: &str| response.headers.get(name);
    assert_eq!(get("access-control-allow-methods").as_deref(), Some("GET, PUT"));
    assert_eq!(get("access-control-allow-headers").as_deref(), Some("x-a"));
    assert_eq!(get("access-control-expose-headers").as_deref(), Some("x-b"));
    assert_eq!(get("access-control-max-age").as_deref(), Some("60"));
}
