//! The users service.

use velo::error::ApiError;
use velo::example::{
    authorise, countdown_step, delete_user, get_user, user_location, Admin, CreateUser, ListQuery,
    Role, Store,
};
use velo::openapi::gen::SchemaGenerator;
use velo::openapi::spec::Operation;
use velo::operation::{OperationContext, OperationInput};
use velo::request::Request;
use velo::testing::test_request;

fn create(name: &str, roles: Vec<Role>) -> CreateUser {
    CreateUser {
        display_name: name.to_owned(),
        email: format!("{}@example.com", name.to_lowercase()),
        age: None,
        roles,
    }
}

fn query() -> ListQuery {
    ListQuery {
        q: None,
        role: vec![],
        limit: None,
    }
}

fn err<T>(r: Result<T, ApiError>) -> ApiError {
    match r {
        Ok(_) => panic!("expected an error"),
        Err(e) => e,
    }
}

#[test]
fn a_created_user_can_be_read_back() {
    let mut store = Store::new();
    let created = store.insert(create("Ada", vec![]));
    assert_eq!(created.id, 1);
    assert_eq!(user_location(created.id), "/users/1");

    let fetched = match get_user(&store, 1) {
        Ok(user) => user,
        Err(e) => panic!("{}", e.summary()),
    };
    assert_eq!(fetched.display_name, "Ada");
    assert_eq!(fetched.email, "ada@example.com");
}

#[test]
fn repeated_query_parameters_filter_by_several_roles() {
    let mut store = Store::new();
    for (name, role) in [
        ("Ada", Role::Admin),
        ("Grace", Role::Member),
        ("Alan", Role::Guest),
    ] {
        store.insert(create(name, vec![role]));
    }

    let page = store.list(&ListQuery {
        role: vec![Role::Admin, Role::Guest],
        ..query()
    });
    assert_eq!(page.total, 2);
    assert_eq!(page.items[1].display_name, "Alan");
}

fn delete_request(authorization: Option<&str>) -> Request {
    let request = test_request().method("DELETE").uri("/api/v1/users/1");
    match authorization {
        Some(value) => request.header("authorization", value),
        None => request,
    }
    .try_build()
    .unwrap()
}

#[test]
fn deleting_requires_an_admin_token() {
    let tokens = vec!["admin-token".to_owned()];
    let mut store = Store::new();
    store.insert(create("Ada", vec![]));

    assert_eq!(err(authorise(&delete_request(None), &tokens)).status(), 401);
    let wrong = delete_request(Some("Bearer wrong"));
    assert_eq!(err(authorise(&wrong, &tokens)).status(), 403);
    let right = delete_request(Some("Bearer admin-token"));
    assert!(authorise(&right, &tokens).is_ok());
    assert!(delete_user(&mut store, 1).is_ok());
    let gone = err(delete_user(&mut store, 1));
    assert_eq!(gone.status(), 404);
    assert_eq!(gone.detail(), Some("No user with id 1."));
    assert!(store.get(1).is_none());
}

#[test]
fn ids_are_not_given_out_twice() {
    let mut store = Store::new();
    store.insert(create("A", vec![]));
    store.insert(create("B", vec![]));
    assert!(store.remove(2));
    assert_eq!(store.insert(create("C", vec![])).id, 3);
}

#[test]
fn a_page_is_cut_at_its_limit() {
    let mut store = Store::new();
    for i in 0..25 {
        store.insert(create(&format!("User{i}"), vec![]));
    }
    let page = store.list(&query());
    assert_eq!((page.items.len(), page.total), (20, 25));
    let page = store.list(&ListQuery {
        q: Some("uSER1".to_owned()),
        limit: Some(3),
        ..query()
    });
    assert_eq!((page.items.len(), page.total), (3, 11));
    let page = store.list(&ListQuery {
        q: Some("\u{c9}T\u{c9}".to_owned()),
        ..query()
    });
    assert_eq!(page.total, 0);
    store.insert(create("l'\u{e9}t\u{e9}", vec![]));
    let page = store.list(&ListQuery {
        q: Some("\u{c9}T\u{c9}".to_owned()),
        ..query()
    });
    assert_eq!(page.total, 1);
}

#[test]
fn a_countdown_ends_at_zero() {
    let mut remaining = 3;
    let mut sent = String::new();
    while let Some((event, rest)) = countdown_step(remaining) {
        sent.push_str(&String::from_utf8(event.encode()).unwrap());
        remaining = rest;
    }
    assert_eq!(
        sent,
        "event:tick\ndata:3\n\nevent:tick\ndata:2\n\nevent:tick\ndata:1\n\n"
    );
}

#[test]
fn an_administrator_is_documented() {
    let mut ctx = OperationContext {
        generator: SchemaGenerator::new(),
        operation: Operation::default(),
        path: "/users/{id}".to_owned(),
        method: "DELETE".to_owned(),
    };
    Admin::describe(&mut ctx);
    assert!(ctx.operation.security.as_ref().unwrap()[0].contains_key("bearerAuth"));
    assert!(ctx.operation.responses.contains_key("401"));
    assert!(ctx.operation.responses.contains_key("403"));
}
