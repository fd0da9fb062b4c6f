//! Multipart bodies.

use velo::error::ApiError;
use velo::extract::de::DeError;
use velo::extract::multipart::{
    boundary_of, parse_part, split_parameters, unquote, Multipart, MultipartError, Part, MAX_PARTS,
};
use velo::openapi::gen::SchemaGenerator;
use velo::openapi::spec::Operation;
use velo::operation::{OperationContext, OperationInput};
use velo::testing::test_request;

/// Builds a body with CRLF line endings, which the format requires and which a
/// raw string literal in a test would not produce.
fn body(lines: &[&str]) -> Vec<u8> {
    lines.join("\r\n").into_bytes()
}

fn simple() -> Vec<u8> {
    body(&[
        "--X",
        "Content-Disposition: form-data; name=\"caption\"",
        "",
        "a photo",
        "--X",
        "Content-Disposition: form-data; name=\"image\"; filename=\"cat.png\"",
        "Content-Type: image/png",
        "",
        "\u{0}PNG-BYTES",
        "--X--",
        "",
    ])
}

fn parsed(raw: &Vec<u8>, boundary: &str) -> Multipart {
    match Multipart::parse(raw, boundary) {
        Ok(form) => form,
        Err(e) => panic!("{}", e.message()),
    }
}

fn refused(r: Result<Multipart, ApiError>) -> ApiError {
    match r {
        Ok(_) => panic!("expected an error"),
        Err(e) => e,
    }
}

#[test]
fn text_and_file_parts_are_both_read() {
    let form = parsed(&simple(), "X");
    assert_eq!(form.len(), 2);

    assert_eq!(form.text("caption"), Some("a photo"));
    assert!(!form.part("caption").unwrap().is_file());

    let image = form.file("image").unwrap();
    assert_eq!(image.file_name(), Some("cat.png"));
    assert_eq!(image.content_type(), Some("image/png"));
    assert_eq!(image.bytes(), "\u{0}PNG-BYTES".as_bytes());
}

#[test]
fn the_boundary_is_taken_from_the_content_type() {
    assert_eq!(
        boundary_of("multipart/form-data; boundary=abc123").ok().unwrap(),
        "abc123"
    );
    // Browsers quote it; some also vary the case and spacing.
    assert_eq!(
        boundary_of("MULTIPART/FORM-DATA;  BOUNDARY=\"a;b\"").ok().unwrap(),
        "a;b"
    );
}

#[test]
fn a_wrong_or_missing_content_type_is_reported_precisely() {
    assert!(matches!(
        boundary_of("application/json"),
        Err(MultipartError::NotMultipart(got)) if got == "application/json"
    ));
    assert!(matches!(
        boundary_of("multipart/form-data"),
        Err(MultipartError::MissingBoundary)
    ));
    // RFC 2046 caps a boundary at 70 characters.
    assert!(matches!(
        boundary_of(&format!("multipart/form-data; boundary={}", "x".repeat(71))),
        Err(MultipartError::InvalidBoundary(_))
    ));
}

#[test]
fn binary_content_survives_untouched() {
    // Every byte value, including CR, LF, and the `-` that starts a boundary,
    // must come back exactly as sent.
    let payload: Vec<u8> = (0u8..=255).collect();
    let mut raw = Vec::new();
    raw.extend_from_slice(
        b"--B\r\nContent-Disposition: form-data; name=\"f\"; filename=\"b.bin\"\r\n\r\n",
    );
    raw.extend_from_slice(&payload);
    raw.extend_from_slice(b"\r\n--B--\r\n");

    let form = parsed(&raw, "B");
    assert_eq!(*form.file("f").unwrap().bytes(), payload);
}

#[test]
fn a_part_containing_the_boundary_text_is_not_split_early() {
    // `--B` inside the data is only a delimiter when it follows a CRLF.
    let raw = body(&[
        "--B",
        "Content-Disposition: form-data; name=\"t\"",
        "",
        "prefix--B suffix",
        "--B--",
        "",
    ]);
    let form = parsed(&raw, "B");
    assert_eq!(form.len(), 1);
    assert_eq!(form.text("t"), Some("prefix--B suffix"));
}

#[test]
fn a_preamble_and_epilogue_are_ignored() {
    let raw = body(&[
        "This is a preamble that clients are allowed to send.",
        "--B",
        "Content-Disposition: form-data; name=\"t\"",
        "",
        "value",
        "--B--",
        "and an epilogue",
        "",
    ]);
    let form = parsed(&raw, "B");
    assert_eq!(form.len(), 1);
    assert_eq!(form.text("t"), Some("value"));
}

#[test]
fn a_filename_may_contain_quotes_and_semicolons() {
    let raw = body(&[
        "--B",
        r#"Content-Disposition: form-data; name="f"; filename="a;b \"quoted\".txt""#,
        "",
        "x",
        "--B--",
        "",
    ]);
    let form = parsed(&raw, "B");
    assert_eq!(
        form.file("f").unwrap().file_name(),
        Some(r#"a;b "quoted".txt"#)
    );
}

#[test]
fn repeated_names_are_all_kept() {
    let raw = body(&[
        "--B",
        "Content-Disposition: form-data; name=\"tag\"",
        "",
        "one",
        "--B",
        "Content-Disposition: form-data; name=\"tag\"",
        "",
        "two",
        "--B--",
        "",
    ]);
    let form = parsed(&raw, "B");
    let tags: Vec<&str> = form.all("tag").into_iter().filter_map(Part::text).collect();
    assert_eq!(tags, vec!["one", "two"]);
}

#[test]
fn an_empty_part_is_still_a_part() {
    let raw = body(&[
        "--B",
        "Content-Disposition: form-data; name=\"empty\"",
        "",
        "",
        "--B--",
        "",
    ]);
    let form = parsed(&raw, "B");
    assert_eq!(form.text("empty"), Some(""));
    assert!(form.part("empty").unwrap().is_empty());
}

#[test]
fn a_truncated_body_is_refused_rather_than_half_read() {
    // No closing boundary: the client died mid-upload.
    let raw = body(&[
        "--B",
        "Content-Disposition: form-data; name=\"t\"",
        "",
        "value",
        "",
    ]);
    assert!(matches!(
        Multipart::parse(&raw, "B"),
        Err(MultipartError::Truncated)
    ));
}

#[test]
fn a_body_with_the_wrong_boundary_is_refused() {
    assert!(matches!(
        Multipart::parse(&simple(), "OTHER"),
        Err(MultipartError::NoOpeningBoundary)
    ));
}

#[test]
fn a_part_without_a_name_is_refused() {
    let raw = body(&[
        "--B",
        "Content-Disposition: form-data",
        "",
        "value",
        "--B--",
        "",
    ]);
    assert!(matches!(
        Multipart::parse(&raw, "B"),
        Err(MultipartError::UnnamedPart)
    ));
}

#[test]
fn a_part_with_unterminated_headers_is_refused() {
    let raw = b"--B\r\nContent-Disposition: form-data; name=\"t\"\r\n--B--\r\n".to_vec();
    assert!(matches!(
        Multipart::parse(&raw, "B"),
        Err(MultipartError::MalformedPart)
    ));
}

#[test]
fn part_count_is_capped_independently_of_body_size() {
    let mut raw = String::new();
    for index in 0..MAX_PARTS + 5 {
        raw.push_str(&format!(
            "--B\r\nContent-Disposition: form-data; name=\"f{index}\"\r\n\r\nx\r\n"
        ));
    }
    raw.push_str("--B--\r\n");

    assert!(matches!(
        Multipart::parse(&raw.into_bytes(), "B"),
        Err(MultipartError::TooManyParts { max: MAX_PARTS })
    ));
}

#[test]
fn text_fields_deserialise_into_a_struct() {
    #[derive(Debug, PartialEq)]
    struct Caption {
        caption: String,
    }

    let form = parsed(&simple(), "X");
    // The file part is skipped; only text fields feed the struct.
    let pairs = form.pairs();
    assert_eq!(pairs.keys(), vec!["caption"]);
    assert_eq!(
        Caption {
            caption: pairs.get("caption").unwrap().to_owned()
        },
        Caption {
            caption: "a photo".into()
        }
    );
}

#[test]
fn requiring_a_missing_field_names_it() {
    let form = parsed(&simple(), "X");
    let error = match form.require_text("nope") {
        Ok(_) => panic!("expected an error"),
        Err(e) => e,
    };
    assert_eq!(error.status(), 422);
    assert_eq!(error.field_errors()[0].pointer, "/nope");
    assert_eq!(error.field_errors()[0].code, "missing");
    assert!(form.require_file("image").is_ok());
    assert!(form.require_file("caption").is_err());
}

#[test]
fn a_text_field_is_not_mistaken_for_a_file() {
    let form = parsed(&simple(), "X");
    assert!(form.file("caption").is_none());
    assert_eq!(form.files().len(), 1);
}

#[test]
fn extraction_reads_the_boundary_from_the_request() {
    let req = test_request()
        .method("POST")
        .header("content-type", "multipart/form-data; boundary=X")
        .body(simple())
        .try_build()
        .unwrap();

    let form = match Multipart::from_request(&req) {
        Ok(form) => form,
        Err(e) => panic!("{}", e.summary()),
    };
    assert_eq!(form.text("caption"), Some("a photo"));
}

#[test]
fn multipart_a_json_body_sent_to_a_multipart_handler_is_a_415() {
    let req = test_request()
        .method("POST")
        .header("content-type", "application/json")
        .body(b"{}".to_vec())
        .try_build()
        .unwrap();

    let error = refused(Multipart::from_request(&req));
    assert_eq!(error.status(), 415);
}

#[test]
fn a_malformed_body_is_a_400_not_a_500() {
    let req = test_request()
        .method("POST")
        .header("content-type", "multipart/form-data; boundary=X")
        .body(b"not multipart at all".to_vec())
        .try_build()
        .unwrap();

    let error = refused(Multipart::from_request(&req));
    assert_eq!(error.status(), 400);
}

#[test]
fn the_operation_documents_a_multipart_body() {
    let mut ctx = OperationContext {
        generator: SchemaGenerator::new(),
        operation: Operation::default(),
        path: "/upload".to_owned(),
        method: "POST".to_owned(),
    };
    Multipart::describe(&mut ctx);

    let body = ctx.operation.request_body.as_ref().unwrap();
    assert!(body.required);
    assert!(body.content.contains_key("multipart/form-data"));
    assert!(ctx.operation.responses.contains_key("400"));
}

// ---------------------------------------------------------------------------

#[test]
fn a_quoted_value_is_read_back_without_its_quotes() {
    assert_eq!(unquote("\"a\\\"b\""), "a\"b");
    assert_eq!(unquote("plain"), "plain");
    assert_eq!(
        split_parameters("form-data; name=\"a;b\"; x=1"),
        vec!["form-data", " name=\"a;b\"", " x=1"]
    );
}

#[test]
fn a_part_is_read_on_its_own() {
    let raw = b"Content-Disposition: form-data; name=\"n\"\r\n\r\nv\r\n\r\nw".to_vec();
    let part = match parse_part(&raw) {
        Ok(part) => part,
        Err(e) => panic!("{}", e.message()),
    };
    assert_eq!(part.name(), "n");
    assert_eq!(part.len(), 6);
    assert_eq!(part.text(), Some("v\r\n\r\nw"));
    assert_eq!(part.into_bytes(), b"v\r\n\r\nw".to_vec());
}

#[test]
fn a_delimiter_right_after_a_boundary_line_leaves_no_room_for_a_part() {
    let raw = b"--B\r\n--B--\r\n".to_vec();
    assert!(matches!(
        Multipart::parse(&raw, "B"),
        Err(MultipartError::MalformedPart)
    ));
}

#[test]
fn every_multipart_error_has_a_status_and_a_message() {
    let cases = vec![
        (MultipartError::NotMultipart("text/plain".into()), 415),
        (MultipartError::MissingBoundary, 400),
        (MultipartError::InvalidBoundary("".into()), 400),
        (MultipartError::NoOpeningBoundary, 400),
        (MultipartError::Truncated, 400),
        (MultipartError::MalformedPart, 400),
        (MultipartError::UnnamedPart, 400),
        (MultipartError::TooManyParts { max: 256 }, 413),
    ];
    for (error, status) in cases {
        let message = error.message();
        let api = error.into_api_error();
        assert_eq!(api.status(), status, "for {message}");
        assert_eq!(api.detail(), Some(message.as_str()));
        if status == 400 {
            assert_eq!(api.title(), "Malformed multipart body");
        }
    }
}

#[test]
fn a_form_that_does_not_fit_is_a_422() {
    let read: Result<u8, ApiError> = Multipart::deserialize(Ok(7));
    assert_eq!(read.ok(), Some(7));
    let refused: Result<u8, ApiError> =
        Multipart::deserialize(Err(DeError("missing field `caption`".to_owned())));
    let refused = refused.err().unwrap();
    assert_eq!(refused.status(), 422);
    assert_eq!(refused.title(), "Invalid form data");
    assert_eq!(refused.field_errors()[0].code, "invalid_form");
    assert_eq!(refused.field_errors()[0].message, "missing field `caption`");
}

#[test]
fn parameters_make_up_the_value() {
    let value = "form-data; name=\"a;b\"; filename=\"x\\\";y\"";
    let parameters = split_parameters(value);
    assert_eq!(parameters.len(), 3);
    assert_eq!(parameters.join(";"), value);
}
