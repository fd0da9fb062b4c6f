//! The routing table.

use velo::router::{
    build, parse_segment, path_segments, table_from, Match, PathParams, RouteConflict, RouteDef,
    RouteTable, Segment,
};

fn route(method: &str, path: &str) -> RouteDef<&'static str> {
    RouteDef::raw(method, path, "handler")
}

fn table(routes: Vec<RouteDef<&'static str>>) -> RouteTable<&'static str> {
    match build(routes) {
        Ok(table) => table,
        Err(e) => panic!("routes should not conflict: {}", e.message()),
    }
}

fn conflict(routes: Vec<RouteDef<&'static str>>) -> RouteConflict {
    match build(routes) {
        Ok(_) => panic!("routes should conflict"),
        Err(e) => e,
    }
}

fn found(table: &RouteTable<&'static str>, path: &str, method: &str) -> (String, PathParams) {
    match table.find(path, method) {
        Match::Found { endpoint, params } => (endpoint.matched_path.clone(), params),
        _ => panic!("expected a match for {method} {path}"),
    }
}

#[test]
fn static_routes_match_exactly() {
    let table = table(vec![route("GET", "/health")]);
    assert_eq!(found(&table, "/health", "GET").0, "/health");
    assert!(matches!(table.find("/healthz", "GET"), Match::NotFound));
}

#[test]
fn parameters_are_captured_by_name() {
    let table = table(vec![route("GET", "/users/{id}")]);
    let (_, params) = found(&table, "/users/42", "GET");
    assert_eq!(params, vec![("id".to_owned(), "42".to_owned())]);
}

#[test]
fn static_segments_win_over_parameters() {
    let table = table(vec![route("GET", "/users/{id}"), route("GET", "/users/me")]);
    assert_eq!(found(&table, "/users/me", "GET").0, "/users/me");
    assert_eq!(found(&table, "/users/7", "GET").0, "/users/{id}");
}

#[test]
fn matching_backtracks_out_of_a_dead_end() {
    // `/a/{x}/c` and `/a/b/d` diverge only at the third segment, so matching
    // `/a/b/c` must abandon the static `b` branch and retry the parameter
    // branch.
    let table = table(vec![route("GET", "/a/{x}/c"), route("GET", "/a/b/d")]);
    let (path, params) = found(&table, "/a/b/c", "GET");
    assert_eq!(path, "/a/{x}/c");
    assert_eq!(params[0].1, "b");
}

#[test]
fn catch_all_captures_the_remainder() {
    let table = table(vec![route("GET", "/files/{*path}")]);
    let (_, params) = found(&table, "/files/a/b/c.txt", "GET");
    assert_eq!(params[0].1, "a/b/c.txt");
}

#[test]
fn catch_all_yields_to_a_more_specific_route() {
    let table = table(vec![
        route("GET", "/files/{*path}"),
        route("GET", "/files/latest"),
    ]);
    assert_eq!(found(&table, "/files/latest", "GET").0, "/files/latest");
    assert_eq!(found(&table, "/files/x/y", "GET").0, "/files/{*path}");
}

#[test]
fn catch_all_matches_an_empty_tail() {
    let table = table(vec![route("GET", "/files/{*path}")]);
    let (_, params) = found(&table, "/files", "GET");
    assert_eq!(params[0].1, "");
}

#[test]
fn a_known_path_with_an_unknown_method_is_405_with_allow() {
    let table = table(vec![route("GET", "/users"), route("POST", "/users")]);
    match table.find("/users", "DELETE") {
        Match::MethodNotAllowed(allowed) => assert_eq!(allowed, vec!["GET", "POST"]),
        _ => panic!("expected 405"),
    }
}

#[test]
fn trailing_slashes_do_not_change_the_match() {
    let table = table(vec![route("GET", "/users")]);
    assert_eq!(found(&table, "/users/", "GET").0, "/users");
    assert_eq!(found(&table, "//users", "GET").0, "/users");
}

#[test]
fn encoded_separators_cannot_forge_an_extra_segment() {
    let table = table(vec![route("GET", "/files/{name}")]);
    // `%2F` decodes to `/`, but only after matching, so this stays one segment
    // rather than becoming `/files/a/b`.
    let (path, params) = found(&table, "/files/a%2Fb", "GET");
    assert_eq!(path, "/files/{name}");
    assert_eq!(params[0].1, "a/b");
}

#[test]
fn duplicate_registrations_are_rejected() {
    let err = conflict(vec![route("GET", "/users"), route("GET", "/users")]);
    assert!(matches!(err, RouteConflict::Duplicate { .. }));
}

#[test]
fn conflicting_parameter_names_are_rejected() {
    let err = conflict(vec![
        route("GET", "/users/{id}"),
        route("GET", "/users/{name}"),
    ]);
    assert!(matches!(err, RouteConflict::ParameterName { .. }));
    assert!(err.message().contains("pick one name"));
}

#[test]
fn a_catch_all_must_come_last() {
    let err = conflict(vec![route("GET", "/files/{*path}/meta")]);
    assert!(matches!(err, RouteConflict::TrailingWildcard { .. }));
}

#[test]
fn the_same_path_may_carry_several_methods() {
    let table = table(vec![
        route("GET", "/users/{id}"),
        route("PUT", "/users/{id}"),
        route("DELETE", "/users/{id}"),
    ]);
    assert_eq!(table.len(), 3);
    for method in ["GET", "PUT", "DELETE"] {
        assert_eq!(found(&table, "/users/9", method).0, "/users/{id}");
    }
}

#[test]
fn multi_segment_parameters_capture_in_order() {
    let table = table(vec![route("GET", "/orgs/{org}/repos/{repo}")]);
    let (_, params) = found(&table, "/orgs/acme/repos/velo", "GET");
    assert_eq!(params[0], ("org".to_owned(), "acme".to_owned()));
    assert_eq!(params[1], ("repo".to_owned(), "velo".to_owned()));
}

// ---------------------------------------------------------------------------

#[test]
fn the_order_of_registration_does_not_decide() {
    let routes = ["/a/{x}", "/a/b", "/{*rest}"];
    let forward = table(routes.iter().map(|p| route("GET", p)).collect());
    let backward = table(routes.iter().rev().map(|p| route("GET", p)).collect());
    for path in ["/a/b", "/a/c", "/z", "/a/b/c", "/"] {
        assert_eq!(
            found(&forward, path, "GET").0,
            found(&backward, path, "GET").0
        );
    }
    assert_eq!(found(&forward, "/a/b/c", "GET").0, "/{*rest}");
}

#[test]
fn a_refused_route_leaves_the_table_as_it_was() {
    let mut table = table(vec![route("GET", "/users/{id}")]);
    assert!(table.insert(route("POST", "/users/{name}/posts")).is_err());
    assert_eq!(table.len(), 1);
    assert!(matches!(
        table.find("/users/7/posts", "POST"),
        Match::NotFound
    ));
    assert!(table.insert(route("POST", "/users/{id}/posts")).is_ok());
    assert_eq!(
        table.registered().to_vec(),
        vec![
            ("GET".to_owned(), "/users/{id}".to_owned()),
            ("POST".to_owned(), "/users/{id}/posts".to_owned()),
        ]
    );
}

#[test]
fn each_conflict_has_its_own_message() {
    assert_eq!(
        conflict(vec![route("GET", "/u"), route("GET", "/u/")]).message(),
        "`GET /u/` is registered more than once"
    );
    assert_eq!(
        conflict(vec![route("GET", "/u/{id}"), route("GET", "/u/{name}")]).message(),
        "`/u/{name}` names a path parameter `name` where `id` is already used at that position; \
         pick one name"
    );
    assert_eq!(
        conflict(vec![route("GET", "/f/{*p}/m")]).message(),
        "`/f/{*p}/m` has a catch-all that is not the last segment"
    );
}

#[test]
fn an_empty_table_finds_nothing() {
    let table: RouteTable<u8> = RouteTable::new();
    assert!(table.is_empty());
    assert!(matches!(table.find("/", "GET"), Match::NotFound));
    assert!(table_from(Vec::<RouteDef<u8>>::new()).is_ok());
}

#[test]
fn templates_are_read_segment_by_segment() {
    assert_eq!(path_segments("//a//b/"), vec!["a", "b"]);
    assert!(matches!(parse_segment("{id}"), Segment::Param(n) if n == "id"));
    assert!(matches!(parse_segment("{*rest}"), Segment::Wildcard(n) if n == "rest"));
    assert!(matches!(parse_segment("me"), Segment::Static(n) if n == "me"));
}

#[test]
fn captures_are_decoded_and_bad_escapes_are_replaced() {
    let table = table(vec![route("GET", "/q/{x}")]);
    assert_eq!(found(&table, "/q/caf%C3%A9", "GET").1[0].1, "caf\u{e9}");
    assert_eq!(found(&table, "/q/a%FFb", "GET").1[0].1, "a\u{fffd}b");
    assert_eq!(found(&table, "/q/a+b%zz", "GET").1[0].1, "a+b%zz");
}
