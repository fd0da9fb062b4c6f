//! The application, its document, and what becomes of a request.

use std::marker::PhantomData;
use velo::app::document::{App, Attributed, Describe, Plain, DEFAULT_BODY_LIMIT};
use velo::app::group::Router;
use velo::app::service::{
    method_not_allowed, refused_unread, settled, too_large, Dispatch, Handler, Layer, Served,
    Service,
};
use velo::body::ResBody;
use velo::derive::route::RoutePlan;
use velo::docs::Docs;
use velo::error::ApiError;
use velo::extract::cookies::Bearer;
use velo::extract::params::Path;
use velo::json::Value;
use velo::middleware::{Inward, Next};
use velo::openapi::spec::SecurityScheme;
use velo::openapi::write::ToJson;
use velo::operation::OperationContext;
use velo::response::{IntoResponse, Response};
use velo::router::RouteDef;
use velo::testing::{test_request, TestRequest};

/// A value as compact JSON text.
fn show(value: &Value) -> String {
    match value {
        Value::Null => "null".to_owned(),
        Value::Bool(b) => b.to_string(),
        Value::Number(n) => n.text.clone(),
        Value::String(s) => format!("{s:?}"),
        Value::Array(list) => {
            let parts: Vec<String> = list.iter().map(show).collect();
            format!("[{}]", parts.join(","))
        }
        Value::Object(members) => {
            let parts: Vec<String> = members
                .iter()
                .map(|(k, v)| format!("{k:?}:{}", show(v)))
                .collect();
            format!("{{{}}}", parts.join(","))
        }
        Value::Raw(text) => text.clone(),
    }
}

// ---------------------------------------------------------------------------
// a small service
// ---------------------------------------------------------------------------

type Wired = App<Plain<&'static str>, u8, u8>;

fn routes() -> Vec<RouteDef<Plain<&'static str>>> {
    vec![
        RouteDef::raw("GET", "/hello", Plain("hello")),
        RouteDef::raw("POST", "/echo", Plain("echo")),
        RouteDef::raw("GET", "/files/{*path}", Plain("files")),
    ]
}

fn app() -> Wired {
    App::new()
        .title("Wire tests")
        .version("0.1.0")
        .body_limit(1024)
        .mount(routes())
}

fn service(app: Wired) -> Service<Plain<&'static str>, u8, u8> {
    let written = app.openapi().to_json();
    match app.build(Ok(show(&written).into_bytes())) {
        Ok(service) => service,
        Err(e) => panic!("{}", e.message()),
    }
}

/// The handler at the centre of a chain.
fn centre<'a>(handler: &'a Handler<Plain<&'static str>, u8>) -> &'a Served<Plain<&'static str>> {
    let mut next = Next::new(handler);
    loop {
        match next.run() {
            Inward::Handler(h) => return h,
            Inward::Layer(_, rest) => next = rest,
        }
    }
}

/// What a request is answered with, where a handler answers with its name.
fn answer(
    service: &Service<Plain<&'static str>, u8, u8>,
    request: TestRequest,
) -> (Response<()>, Option<String>) {
    match service.dispatch(request.try_build().unwrap()) {
        Dispatch::Answer(response) => (response, None),
        Dispatch::Run {
            handler,
            request,
            drop_body,
        } => {
            let response = match centre(handler) {
                Served::User(Plain(name)) => (*name).into_response(),
                Served::Docs(page) => page.respond(),
            };
            let captured = request.params().first().map(|p| p.1.clone());
            (settled(response, drop_body), captured)
        }
    }
}

fn text(response: &mut Response<()>) -> String {
    String::from_utf8(response.body.take_chunk().unwrap_or_default()).unwrap()
}

fn problem(response: &Response<()>) -> String {
    match &response.body {
        ResBody::Full(bytes) => String::from_utf8(bytes.clone()).unwrap(),
        _ => panic!("expected a document"),
    }
}

#[test]
fn a_get_reaches_its_handler() {
    let service = service(app());
    let (mut response, _) = answer(&service, test_request().uri("/hello"));
    assert_eq!(response.status, 200);
    assert_eq!(text(&mut response), "hello");
}

#[test]
fn an_unknown_path_is_a_problem_json_404() {
    let service = service(app());
    let (response, _) = answer(&service, test_request().uri("/nope"));

    assert_eq!(response.status, 404);
    assert_eq!(
        response.headers.get("content-type").as_deref(),
        Some("application/problem+json")
    );
    let body = problem(&response);
    assert!(body.contains("\"status\":404"));
    assert!(body.contains("\"title\":\"Not Found\""));
    assert!(body.contains("No route for `GET /nope`."));
}

#[test]
fn a_wrong_method_is_a_405_with_an_allow_header() {
    let service = service(app());
    let (response, _) = answer(&service, test_request().method("DELETE").uri("/hello"));

    assert_eq!(response.status, 405);
    assert_eq!(response.headers.get("allow").as_deref(), Some("GET"));
    assert!(problem(&response).contains("`DELETE` is not supported here; try GET."));
}

#[test]
fn head_reuses_the_get_handler_and_drops_the_body() {
    let service = service(app());
    let (response, _) = answer(&service, test_request().method("HEAD").uri("/hello"));

    assert_eq!(response.status, 200);
    assert_eq!(
        response.headers.get("content-type").as_deref(),
        Some("text/plain; charset=utf-8")
    );
    assert!(response.body.is_empty(), "HEAD must not carry a body");
}

#[test]
fn options_on_a_known_path_reports_what_is_allowed() {
    let service = service(app());
    let (response, _) = answer(&service, test_request().method("OPTIONS").uri("/hello"));

    assert_eq!(response.status, 204);
    assert_eq!(response.headers.get("allow").as_deref(), Some("GET"));
    assert!(response.body.is_empty());
}

#[test]
fn an_oversized_body_is_refused_with_413() {
    let service = service(app());
    assert!(refused_unread(Some(4096), service.body_limit));
    assert!(!refused_unread(Some(1024), service.body_limit));
    assert!(!refused_unread(None, service.body_limit));
    let response: Response<()> = too_large(service.body_limit);
    assert_eq!(response.status, 413);
    assert!(problem(&response).contains("The request body exceeds the 1024-byte limit."));
}

#[test]
fn a_catch_all_captures_the_remaining_path() {
    let service = service(app());
    let (_, captured) = answer(&service, test_request().uri("/files/a/b/c.txt"));
    assert_eq!(captured.as_deref(), Some("a/b/c.txt"));
}

#[test]
fn the_openapi_document_is_served_and_is_valid_json() {
    let service = service(app());
    let (mut response, _) = answer(&service, test_request().uri("/openapi.json"));

    assert_eq!(response.status, 200);
    let doc: serde_json::Value = serde_json::from_str(&text(&mut response)).unwrap();
    assert_eq!(doc["openapi"], "3.1.0");
    assert_eq!(doc["info"]["title"], "Wire tests");
    assert!(doc["paths"]["/hello"]["get"].is_object());
    // Catch-alls have no OpenAPI syntax and are documented as parameters.
    assert!(doc["paths"]["/files/{path}"].is_object());
    // The documentation routes must not document themselves.
    assert!(doc["paths"]["/openapi.json"].is_null());
    assert_eq!(service.openapi().info.title, "Wire tests");
}

#[test]
fn a_refusal_lists_every_method() {
    let allowed = vec!["GET".to_owned(), "POST".to_owned()];
    let refused: Response<()> = method_not_allowed("PUT", &allowed);
    assert_eq!(refused.status, 405);
    assert_eq!(refused.headers.get("allow").as_deref(), Some("GET, POST"));
    let asked: Response<()> = method_not_allowed("OPTIONS", &allowed);
    assert_eq!(asked.status, 204);
    assert_eq!(asked.headers.get("allow").as_deref(), Some("GET, POST"));
}

#[test]
fn an_explicit_head_route_is_not_replaced_by_get() {
    let service = service(
        app().mount(vec![RouteDef::raw("HEAD", "/hello", Plain("head"))]),
    );
    let (mut response, _) = answer(&service, test_request().method("HEAD").uri("/hello"));
    assert_eq!(text(&mut response), "head");
}

// ---------------------------------------------------------------------------
// layers and groups
// ---------------------------------------------------------------------------

fn layers(service: &Service<Plain<&'static str>, u8, u8>, path: &str) -> Vec<Option<u8>> {
    let mut found = Vec::new();
    let request = test_request().uri(path).try_build().unwrap();
    let dispatched: Dispatch<'_, _, _, ()> = service.dispatch(request);
    if let Dispatch::Run { handler, .. } = dispatched {
        let mut next = Next::new(handler);
        loop {
            match next.run() {
                Inward::Handler(_) => return found,
                Inward::Layer(Layer::CatchPanic, rest) => {
                    found.push(None);
                    next = rest;
                }
                Inward::Layer(Layer::User(l), rest) => {
                    found.push(Some(*l));
                    next = rest;
                }
            }
        }
    }
    panic!("no handler at {path}")
}

#[test]
fn global_layers_wrap_those_of_a_group() {
    let group = Router::new()
        .mount(vec![RouteDef::raw("GET", "/x", Plain("x"))])
        .layer(3)
        .layer(4);
    let built = service(app().layer(1).nest("/g", group).layer(2));
    assert_eq!(
        layers(&built, "/g/x"),
        vec![None, Some(1), Some(2), Some(3), Some(4)]
    );
    assert_eq!(layers(&built, "/hello"), vec![None, Some(1), Some(2)]);
    // Documentation sits behind the global layers too.
    assert_eq!(layers(&built, "/docs"), vec![None, Some(1), Some(2)]);
    let unguarded = service(app().without_panic_guard());
    assert_eq!(layers(&unguarded, "/hello"), vec![]);
}

#[test]
fn a_conflict_is_found_when_the_application_is_built() {
    let twice = app().mount(routes());
    match twice.build(Ok(vec![])) {
        Ok(_) => panic!("expected a conflict"),
        Err(e) => assert_eq!(e.message(), "`GET /hello` is registered more than once"),
    }
    // A documentation endpoint may not take the place of a route.
    let taken = app().mount(vec![RouteDef::raw("GET", "/docs", Plain("mine"))]);
    assert!(taken.build(Ok(vec![])).is_err());
    let free = app()
        .mount(vec![RouteDef::raw("GET", "/docs", Plain("mine"))])
        .docs(Docs::json_only());
    assert!(free.build(Ok(vec![])).is_ok());
}

#[test]
fn groups_compose_prefixes_and_tags() {
    let users: Router<Plain<u8>, u8> = Router::new()
        .mount(vec![RouteDef::raw("GET", "/", Plain(0))])
        .mount_at("/{id}", vec![RouteDef::raw("GET", "posts", Plain(1))])
        .tag("users")
        .tag("users");
    assert_eq!(users.len(), 2);
    assert!(!users.is_empty());
    let app: App<Plain<u8>, u8, u8> = App::new().nest("/api/", users);
    let doc = app.openapi();
    assert_eq!(doc.paths.key_at(0), "/api/");
    assert_eq!(doc.paths.key_at(1), "/api/{id}/posts");
    let operation = doc.paths.value_at(1).get.as_ref().unwrap();
    assert_eq!(operation.tags, vec!["users"]);
    assert_eq!(operation.operation_id.as_deref(), Some("get_api_by_id_posts"));
    assert!(operation.responses.contains_key("200"));
}

// ---------------------------------------------------------------------------
// the document
// ---------------------------------------------------------------------------

/// The two handlers of a small API.
enum Api {
    Me(Attributed<(), (Bearer, ()), Result<String, ApiError>>),
    User(Attributed<(), (Path<u32>, ()), String>),
}

impl Describe for Api {
    fn describe(&self, ctx: &mut OperationContext) {
        match self {
            Api::Me(route) => route.describe(ctx),
            Api::User(route) => route.describe(ctx),
        }
    }
}

fn plan(method: &str, path: &str) -> RoutePlan {
    RoutePlan {
        method: method.to_owned(),
        path: path.to_owned(),
        route_ident: String::new(),
        note: String::new(),
        summary: Some("Reads.".to_owned()),
        description: None,
        operation_id: None,
        tags: vec!["api".to_owned()],
        deprecated: false,
        hidden: false,
        bindings: vec![],
    }
}

fn api() -> App<Api, u8, u8> {
    App::new().mount(vec![
        RouteDef::raw(
            "GET",
            "/me",
            Api::Me(Attributed {
                plan: plan("GET", "/me"),
                handler: (),
                types: PhantomData,
            }),
        ),
        RouteDef::raw(
            "GET",
            "/users/{id}",
            Api::User(Attributed {
                plan: plan("GET", "/users/{id}"),
                handler: (),
                types: PhantomData,
            }),
        ),
    ])
}

#[test]
fn handlers_describe_themselves() {
    let doc = api().openapi();
    let user = doc.paths.get("/users/{id}").unwrap().get.as_ref().unwrap();
    assert_eq!(user.summary.as_deref(), Some("Reads."));
    assert_eq!(user.tags, vec!["api"]);
    assert_eq!(user.parameters[0].name, "id");
    let me = doc.paths.get("/me").unwrap().get.as_ref().unwrap();
    assert!(me.security.as_ref().unwrap()[0].contains_key("bearerAuth"));
    assert!(me.responses.contains_key("401"));
}

#[test]
fn a_bearer_requirement_brings_its_scheme() {
    let doc = api().openapi();
    assert_eq!(
        show(&doc.components.security_schemes.get("bearerAuth").unwrap().to_json()),
        "{\"type\":\"http\",\"scheme\":\"bearer\",\"bearerFormat\":\"JWT\"}"
    );
    // One that was registered by hand is kept.
    let own = api()
        .security_scheme("bearerAuth", SecurityScheme::api_key_header("x-key"))
        .openapi();
    assert_eq!(
        show(&own.components.security_schemes.get("bearerAuth").unwrap().to_json()),
        "{\"type\":\"apiKey\",\"name\":\"x-key\",\"in\":\"header\"}"
    );
    // One that nothing asks for is not made up.
    assert!(app().openapi().components.security_schemes.is_empty());
}

#[test]
fn the_metadata_is_what_was_set() {
    let doc = app()
        .description("Tests")
        .server("/api", Some("here"))
        .tag("users", "People")
        .openapi();
    assert_eq!(doc.info.description.as_deref(), Some("Tests"));
    assert_eq!(doc.servers[0].url, "/api");
    assert_eq!(doc.tags[0].name, "users");
    let plain: Wired = App::default();
    assert_eq!(plain.info.title, "velo");
    assert_eq!(plain.info.version, "0.1.0");
    assert_eq!(plain.body_limit, DEFAULT_BODY_LIMIT);
    assert_eq!(DEFAULT_BODY_LIMIT, 2 * 1024 * 1024);
}

#[test]
fn a_method_without_a_place_leaves_its_path_empty() {
    let doc = app()
        .mount(vec![RouteDef::raw("BREW", "/pot", Plain("brew"))])
        .openapi();
    assert_eq!(show(&doc.paths.get("/pot").unwrap().to_json()), "{}");
}

#[test]
fn state_travels_with_the_service() {
    let service = service(app().with_state(1, "Db", 7).with_shared_state(
        2,
        "Cache",
        std::sync::Arc::new(8),
    ));
    assert_eq!(**service.state.get(1).unwrap(), 7);
    assert_eq!(**service.state.get(2).unwrap(), 8);
    assert!(service.state.get(3).is_none());
}
