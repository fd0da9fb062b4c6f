//! A server's life, and what its handlers make of a request.

use std::sync::Arc;
use velo::app::invocation::{next_step, HandlerStep, Invocation};
use velo::app::lifecycle::{Action, Event, Lifecycle, Phase};
use velo::derive::route::{expand, Argument, HandlerFn, RouteInput, TypeExpr};
use velo::error::ApiError;
use velo::extract::cookies::Bearer;
use velo::extract::json::{Json, JsonCategory, JsonFailure, PathStep};
use velo::extract::multipart::Multipart;
use velo::extract::pieces::{Resolved, State};
use velo::middleware::common::{CatchPanic, Outcome};
use velo::response::{IntoResponse, Response};
use velo::state::StateMap;
use velo::testing::test_request;

// ---------------------------------------------------------------------------
// the server's life
// ---------------------------------------------------------------------------

/// Performs a server's actions, answering each with what came of it.
fn live(mut server: Lifecycle, mut answer: impl FnMut(&Action) -> Event) -> (Phase, Vec<Action>) {
    let mut performed = Vec::new();
    let mut action = server.action();
    while !matches!(action, Action::Finish | Action::Fail(_)) {
        let event = answer(&action);
        performed.push(action);
        action = server.advance(event);
    }
    performed.push(action);
    (server.phase, performed)
}

#[test]
fn startup_and_shutdown_hooks_run_in_order() {
    let mut log = Vec::new();
    let (phase, performed) = live(Lifecycle::new(1, 1), |action| match action {
        Action::RunStartupHook(_) => {
            log.push("startup");
            Event::HookDone
        }
        Action::Bind => Event::Bound,
        Action::Accept => {
            assert_eq!(log, vec!["startup"]);
            Event::ShutdownRequested
        }
        Action::Drain => Event::Drained,
        _ => {
            log.push("shutdown");
            Event::HookDone
        }
    });
    assert_eq!(log, vec!["startup", "shutdown"]);
    assert_eq!(phase, Phase::Stopped);
    assert_eq!(
        performed,
        vec![
            Action::RunStartupHook(0),
            Action::Bind,
            Action::Accept,
            Action::Drain,
            Action::RunShutdownHook(0),
            Action::Finish,
        ]
    );
}

#[test]
fn a_failing_startup_hook_aborts_before_binding() {
    let (phase, performed) = live(Lifecycle::new(2, 1), |_| {
        Event::HookFailed("database is unreachable".to_owned())
    });
    assert_eq!(phase, Phase::Failed);
    assert_eq!(
        performed,
        vec![
            Action::RunStartupHook(0),
            Action::Fail("startup failed: database is unreachable".to_owned()),
        ]
    );
}

#[test]
fn several_hooks_run_in_registration_order() {
    let (_, performed) = live(Lifecycle::new(2, 2), |action| match action {
        Action::Bind => Event::Bound,
        Action::Accept => Event::ShutdownRequested,
        Action::Drain => Event::Drained,
        _ => Event::HookDone,
    });
    assert_eq!(
        performed,
        vec![
            Action::RunStartupHook(0),
            Action::RunStartupHook(1),
            Action::Bind,
            Action::Accept,
            Action::Drain,
            Action::RunShutdownHook(0),
            Action::RunShutdownHook(1),
            Action::Finish,
        ]
    );
}

#[test]
fn a_failed_accept_leaves_the_server_accepting() {
    let mut server = Lifecycle::new(0, 0);
    assert_eq!(server.action(), Action::Bind);
    assert_eq!(server.advance(Event::Bound), Action::Accept);
    assert_eq!(server.advance(Event::AcceptFailed), Action::Accept);
    assert_eq!(server.advance(Event::Accepted), Action::Accept);
    assert_eq!(server.advance(Event::ShutdownRequested), Action::Drain);
    assert_eq!(server.advance(Event::Drained), Action::Finish);
}

#[test]
fn a_listener_that_cannot_be_bound_ends_the_server() {
    let mut server = Lifecycle::new(0, 1);
    assert_eq!(
        server.advance(Event::BindFailed("address in use".to_owned())),
        Action::Fail("address in use".to_owned())
    );
    assert_eq!(
        server.advance(Event::Bound),
        Action::Fail("address in use".to_owned())
    );
}

// ---------------------------------------------------------------------------
// handlers
// ---------------------------------------------------------------------------

/// The first field error of a refusal, as pointer and code.
fn first_error(e: &ApiError) -> (String, String) {
    let first = &e.field_errors()[0];
    (first.pointer.clone(), first.code.clone())
}

#[test]
fn a_panicking_handler_returns_500_and_the_server_survives() {
    let failed: Response<u8> =
        CatchPanic.outcome(Some("/boom"), Outcome::Panicked(Some("kaboom".to_owned())));
    assert_eq!(failed.status, 500);

    // The important half: the next request still works.
    let hello: Response<u8> = "hi".into_response();
    let ok = CatchPanic.outcome(Some("/hello"), Outcome::Done(hello));
    assert_eq!(ok.status, 200);
}

#[test]
fn a_bad_body_is_a_422_naming_the_field() {
    let req = test_request()
        .method("POST")
        .uri("/echo")
        .json(br#"{"message":123}"#.to_vec())
        .build();
    let parsed: Result<String, JsonFailure> = Err(JsonFailure {
        path: vec![PathStep::Key("message".to_owned())],
        category: JsonCategory::Data,
        message: "invalid type: integer `123`, expected a string".to_owned(),
    });
    let refused = Json::from_request(&req, parsed).err().unwrap();
    assert_eq!(refused.status(), 422);
    assert_eq!(first_error(&refused).0, "/message");
}

/// Assembles a multipart body by hand, so the bytes are exactly what a browser
/// would send.
fn multipart_body(boundary: &str, caption: &str, file: Option<(&str, &[u8])>) -> Vec<u8> {
    let mut body = Vec::new();
    body.extend_from_slice(
        format!(
            "--{boundary}\r\nContent-Disposition: form-data; name=\"caption\"\r\n\r\n{caption}\r\n"
        )
        .as_bytes(),
    );
    if let Some((name, bytes)) = file {
        body.extend_from_slice(
            format!(
                "--{boundary}\r\nContent-Disposition: form-data; name=\"file\"; \
                 filename=\"{name}\"\r\nContent-Type: application/octet-stream\r\n\r\n"
            )
            .as_bytes(),
        );
        body.extend_from_slice(bytes);
        body.extend_from_slice(b"\r\n");
    }
    body.extend_from_slice(format!("--{boundary}--\r\n").as_bytes());
    body
}

fn received(content_type: &str, body: Vec<u8>) -> Result<Multipart, ApiError> {
    let req = test_request()
        .method("POST")
        .uri("/upload")
        .header("content-type", content_type)
        .body(body)
        .build();
    Multipart::from_request(&req)
}

#[test]
fn a_multipart_upload_arrives_intact_over_the_wire() {
    // Every byte value, so anything that mishandles CR, LF, or the `-` that
    // begins a boundary shows up as a checksum mismatch rather than passing.
    let payload: Vec<u8> = (0u8..=255).collect();
    let expected: u32 = payload.iter().map(|b| *b as u32).sum();

    let body = multipart_body("BOUNDARY", "hello", Some(("all-bytes.bin", &payload)));
    let form = received("multipart/form-data; boundary=BOUNDARY", body)
        .ok()
        .unwrap();
    let file = form.require_file("file").ok().unwrap();
    assert_eq!(form.require_text("caption").ok().unwrap(), "hello");
    assert_eq!(file.file_name().unwrap(), "all-bytes.bin");
    assert_eq!(file.len(), 256);
    let checksum: u32 = file.bytes().iter().map(|b| *b as u32).sum();
    assert_eq!(checksum, expected);
}

#[test]
fn a_multipart_body_missing_a_required_part_is_a_422() {
    let body = multipart_body("B", "only text", None);
    let form = received("multipart/form-data; boundary=B", body)
        .ok()
        .unwrap();
    let refused = form.require_file("file").err().unwrap();
    assert_eq!(refused.status(), 422);
    assert_eq!(
        first_error(&refused),
        ("/file".to_owned(), "missing".to_owned())
    );
}

#[test]
fn server_a_json_body_sent_to_a_multipart_handler_is_a_415() {
    let refused = received("application/json", b"{}".to_vec()).err().unwrap();
    assert_eq!(refused.status(), 415);
}

#[test]
fn dependencies_compose_over_extractors_and_state() {
    // Tokens and the users they stand for, registered under type number 7.
    let mut state: StateMap<Vec<(String, String)>> = StateMap::new();
    state.insert(7, "Tokens", vec![("good".to_owned(), "ada".to_owned())]);

    let req = test_request()
        .header("authorization", "Bearer good")
        .build();
    let Bearer(token) = Bearer::from_request(&req).ok().unwrap();
    let found = state.get(7).map(Arc::clone);
    let State(tokens) = State::from_found(found, "Tokens", state.registered())
        .ok()
        .unwrap();
    let outcome = match tokens.iter().find(|(t, _)| *t == token) {
        Some((_, user)) => Ok(user.clone()),
        None => Err(ApiError::unauthorized("Unknown token.")),
    };
    let mut resolved: Resolved<String> = Resolved::new();
    assert!(resolved.settle(9, outcome).is_ok());
    assert_eq!(resolved.get(9).unwrap(), "ada");
}

// ---------------------------------------------------------------------------
// from a request to a handler
// ---------------------------------------------------------------------------

/// The steps of a request, given which extractors accept it.
fn steps(accepts: &[bool]) -> Vec<HandlerStep> {
    let mut invocation = Invocation::new(accepts.len());
    let mut performed = vec![invocation.step()];
    while let Some(HandlerStep::Extract(i)) = performed.last().copied() {
        performed.push(invocation.advance(accepts[i]));
    }
    performed
}

#[test]
fn arguments_are_extracted_in_order_before_the_call() {
    assert_eq!(
        steps(&[true, true, true]),
        vec![
            HandlerStep::Extract(0),
            HandlerStep::Extract(1),
            HandlerStep::Extract(2),
            HandlerStep::Call,
        ]
    );
    assert_eq!(steps(&[]), vec![HandlerStep::Call]);
}

#[test]
fn the_first_rejection_ends_a_request() {
    assert_eq!(
        steps(&[true, false, true]),
        vec![
            HandlerStep::Extract(0),
            HandlerStep::Extract(1),
            HandlerStep::AnswerRejection,
        ]
    );
    assert_eq!(next_step(2, 1, true), HandlerStep::AnswerRejection);
    assert_eq!(next_step(2, 1, false), HandlerStep::Extract(1));
    assert_eq!(next_step(2, 2, false), HandlerStep::Call);
}

#[test]
fn a_route_extracts_as_many_arguments_as_its_handler_has() {
    let input = RouteInput {
        path: Some("/users/{id}".to_owned()),
        options: vec![],
    };
    let handler = HandlerFn {
        ident: "get_user".to_owned(),
        attrs: vec![],
        is_async: true,
        is_generic: false,
        arguments: vec![
            Argument::Typed(TypeExpr::Other),
            Argument::Typed(TypeExpr::Other),
        ],
        output: None,
    };
    let plan = expand("GET", &input, &handler).ok().unwrap();
    let mut invocation = Invocation::of(&plan);
    assert_eq!(invocation.step(), HandlerStep::Extract(0));
    assert_eq!(invocation.advance(true), HandlerStep::Extract(1));
    assert_eq!(invocation.advance(true), HandlerStep::Call);
    assert_eq!(invocation.advance(false), HandlerStep::Call);
}
