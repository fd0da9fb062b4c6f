//! Documentation pages, state, and names made from templates.

use std::sync::Arc;
use velo::app::document::{App, Plain};
use velo::app::group::Router;
use velo::app::naming::{default_operation_id, document_path, join_path};
use velo::docs::{asset, escape, render, AssetBase, Docs, Page, Renderer};
use velo::response::Response;
use velo::router::RouteDef;
use velo::state::StateMap;

#[test]
fn operation_ids_are_derived_from_the_route() {
    assert_eq!(default_operation_id("GET", "/users"), "get_users");
    assert_eq!(
        default_operation_id("GET", "/users/{id}"),
        "get_users_by_id"
    );
    assert_eq!(
        default_operation_id("DELETE", "/orgs/{org}/api-keys/{id}"),
        "delete_orgs_by_org_api_keys_by_id"
    );
}

#[test]
fn catch_alls_are_documented_without_the_star() {
    assert_eq!(document_path("/files/{*path}"), "/files/{path}");
}

#[test]
fn prefixes_join_without_doubling_slashes() {
    assert_eq!(join_path("/api", "/users"), "/api/users");
    assert_eq!(join_path("/api/", "/users"), "/api/users");
    assert_eq!(join_path("", "/users"), "/users");
}

#[test]
fn nesting_composes_prefixes() {
    let inner: Router<Plain<u8>, u8> =
        Router::new().mount(vec![RouteDef::raw("GET", "/{id}", Plain(0))]);
    let outer = Router::new().nest("/users", inner);
    let app: App<Plain<u8>, u8, u8> = App::new().nest("/api/v1", outer);
    let service = match app.without_docs().build(Ok(Vec::new())) {
        Ok(service) => service,
        Err(e) => panic!("{}", e.message()),
    };
    assert_eq!(
        service.routes(),
        &[("GET".to_owned(), "/api/v1/users/{id}".to_owned())]
    );
}

#[test]
fn the_default_set_covers_json_and_two_uis() {
    let docs = Docs::default();
    assert_eq!(docs.paths(), vec!["/openapi.json", "/docs", "/redoc"]);
}

#[test]
fn a_single_renderer_can_be_placed_at_any_path() {
    // `/docs` is where people look whichever renderer is behind it, so
    // choosing a renderer must not force the URL to move.
    let docs = Docs::only_at("/docs", Renderer::Redoc);
    assert_eq!(docs.paths(), vec!["/openapi.json", "/docs"]);

    // The conventional placement still works.
    let docs = Docs::only(Renderer::Redoc);
    assert_eq!(docs.paths(), vec!["/openapi.json", "/redoc"]);
}

#[test]
fn json_only_serves_no_ui() {
    let docs = Docs::json_only();
    assert_eq!(docs.paths(), vec!["/openapi.json"]);
}

#[test]
fn a_hostile_title_cannot_break_out_of_the_page() {
    let html = render(
        Renderer::Redoc,
        "</title><script>alert(1)</script>",
        "/openapi.json",
        &AssetBase::Cdn,
    );
    assert!(!html.contains("<script>alert(1)</script>"));
    assert!(html.contains("&lt;script&gt;"));
}

#[test]
fn self_hosted_assets_replace_the_cdn() {
    let base = AssetBase::SelfHosted("/static/docs/".into());
    assert_eq!(asset(&base, Renderer::Scalar), "/static/docs/scalar.js");
    assert!(!render(Renderer::Scalar, "t", "/openapi.json", &base).contains("jsdelivr"));
}

// ---------------------------------------------------------------------------

#[derive(Debug, PartialEq)]
enum Held {
    Db(u32),
    Cache(&'static str),
}

const DB: u64 = 1;
const CACHE: u64 = 2;

#[test]
fn values_round_trip_by_type() {
    let mut map = StateMap::new();
    map.insert(DB, "Db", Held::Db(7));
    map.insert(CACHE, "Cache", Held::Cache("redis"));
    assert_eq!(**map.get(DB).unwrap(), Held::Db(7));
    assert_eq!(**map.get(CACHE).unwrap(), Held::Cache("redis"));
}

#[test]
fn missing_types_are_none_not_a_panic() {
    let map: StateMap<Held> = StateMap::new();
    assert!(map.get(DB).is_none());
}

#[test]
fn reinserting_the_same_type_replaces_and_reports_it() {
    let mut map = StateMap::new();
    assert!(!map.insert(DB, "Db", Held::Db(1)));
    assert!(map.insert(DB, "Db", Held::Db(2)));
    assert_eq!(**map.get(DB).unwrap(), Held::Db(2));
    assert_eq!(map.registered().len(), 1);
}

#[test]
fn a_shared_value_is_the_same_value() {
    let mut map = StateMap::new();
    assert!(map.is_empty());
    let shared = Arc::new(Held::Db(3));
    map.insert_arc(DB, "Db", Arc::clone(&shared));
    assert!(Arc::ptr_eq(map.get(DB).unwrap(), &shared));
    assert!(!map.is_empty());
}

#[test]
fn text_is_escaped_for_a_page() {
    assert_eq!(escape("a<b>&\"c\"'"), "a&lt;b&gt;&amp;&quot;c&quot;&#39;");
}

#[test]
fn pages_are_served_where_they_were_placed() {
    let docs = Docs::only(Renderer::SwaggerUi)
        .openapi_path("/spec.json")
        .page_title("Mine")
        .with("/again", Renderer::Scalar);
    let routes = docs.routes("Theirs", Ok(b"{}".to_vec()));
    assert_eq!(routes.len(), 3);
    assert_eq!(routes[0].path, "/spec.json");
    assert_eq!(routes[0].method, "GET");
    let served: Response<()> = routes[0].handler.respond();
    assert_eq!(served.status, 200);
    assert_eq!(
        served.headers.get("content-type").as_deref(),
        Some("application/json")
    );
    assert_eq!(served.headers.get("cache-control").as_deref(), Some("no-cache"));
    match &routes[2].handler {
        Page::Html(html) => {
            assert!(html.contains("<title>Mine</title>"));
            assert!(html.contains("data-url=\"/spec.json\""));
        }
        Page::Document(_) => panic!("expected a page"),
    }
}

#[test]
fn a_document_that_cannot_be_written_says_why() {
    let routes = Docs::json_only().routes("t", Err("boom".to_owned()));
    match &routes[0].handler {
        Page::Document(bytes) => assert_eq!(bytes, b"{\"error\":\"boom\"}"),
        Page::Html(_) => panic!("expected the document"),
    }
}

#[test]
fn the_last_registration_of_a_type_is_found() {
    let mut state: StateMap<u8> = StateMap::new();
    state.insert(1, "A", 10);
    state.insert(2, "B", 20);
    state.insert_arc(1, "A", Arc::new(11));
    assert_eq!(state.get(1).map(|v| **v), Some(11));
    assert_eq!(state.get(2).map(|v| **v), Some(20));
    assert!(state.get(3).is_none());
}
