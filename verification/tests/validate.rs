//! Validation rules.

use velo::error::ApiError;
use velo::openapi::ordered::OrderedMap;
use velo::validate::rules::{
    contains, exclusive_maximum, exclusive_minimum, is_email, is_hostname, is_rfc3339,
    is_uri, is_uuid, max_items, max_length, maximum, min_items, min_length, minimum, multiple_of,
    non_blank, one_of, pattern, pattern_compiled, pattern_verdict,
};
use velo::validate::{escape_pointer, Validate, ValidationErrors};

fn errors_of(r: Result<(), ValidationErrors>) -> ValidationErrors {
    match r {
        Ok(()) => panic!("expected errors"),
        Err(e) => e,
    }
}

#[test]
fn length_counts_characters_not_bytes() {
    let mut errors = ValidationErrors::new();
    // 3 characters, 9 bytes. A byte-based check would wrongly reject it.
    min_length("日本語", 3, "/name", &mut errors);
    assert!(errors.is_empty());
    max_length("日本語", 3, "/name", &mut errors);
    assert!(errors.is_empty());
}

#[test]
fn failures_carry_pointer_code_and_message() {
    let mut errors = ValidationErrors::new();
    min_length("ab", 5, "/name", &mut errors);
    let error = &errors.as_slice()[0];
    assert_eq!(error.pointer, "/name");
    assert_eq!(error.code, "min_length");
    assert!(error.message.contains("at least 5 characters"));
}

#[test]
fn nested_errors_are_prefixed() {
    let mut outer = ValidationErrors::new();
    let mut inner = ValidationErrors::new();
    inner.push("/street", "min_length", "too short");
    outer.merge_at("/address", inner);
    assert_eq!(outer.as_slice()[0].pointer, "/address/street");
}

#[test]
fn vec_validation_indexes_each_element() {
    struct Item(u32);
    impl Validate for Item {
        fn validate(&self) -> Result<(), ValidationErrors> {
            let mut errors = ValidationErrors::new();
            minimum(f64::from(self.0) >= 10.0, "10", "", &mut errors);
            errors.into_result()
        }
    }
    let errors = errors_of(vec![Item(50), Item(1)].validate());
    assert_eq!(errors.len(), 1);
    assert_eq!(errors.as_slice()[0].pointer, "/1");
}

#[test]
fn none_is_always_valid() {
    struct Never;
    impl Validate for Never {
        fn validate(&self) -> Result<(), ValidationErrors> {
            let mut errors = ValidationErrors::new();
            errors.push("", "always", "nope");
            errors.into_result()
        }
    }
    assert!(Option::<Never>::None.validate().is_ok());
    assert!(Some(Never).validate().is_err());
}

#[test]
fn map_keys_are_pointer_escaped() {
    struct Bad;
    impl Validate for Bad {
        fn validate(&self) -> Result<(), ValidationErrors> {
            let mut errors = ValidationErrors::new();
            errors.push("", "x", "y");
            errors.into_result()
        }
    }
    let mut map = std::collections::BTreeMap::new();
    map.insert("a/b".to_owned(), Bad);
    let errors = errors_of(map.validate());
    assert_eq!(errors.as_slice()[0].pointer, "/a~1b");
}

#[test]
fn non_blank_rejects_whitespace_that_min_length_accepts() {
    let mut errors = ValidationErrors::new();
    min_length("   ", 1, "/x", &mut errors);
    assert!(errors.is_empty());
    non_blank("   ", "/x", &mut errors);
    assert_eq!(errors.len(), 1);
}

#[test]
fn email_check_accepts_real_addresses_and_rejects_broken_ones() {
    for good in [
        "a@b.co",
        "first.last+tag@sub.example.com",
        "x_y@example-1.org",
    ] {
        assert!(is_email(good), "should accept {good}");
    }
    for bad in [
        "no-at-sign",
        "@example.com",
        "a@",
        "a@b",
        "a@@b.com",
        ".a@b.com",
        "a..b@c.com",
        "a@-b.com",
    ] {
        assert!(!is_email(bad), "should reject {bad}");
    }
}

#[test]
fn unknown_formats_are_annotations_not_failures() {
    let mut errors = ValidationErrors::new();
    velo::validate::rules::format("anything", "credit-card", false, "/x", &mut errors);
    assert!(errors.is_empty());
}

#[test]
fn validation_errors_become_a_422() {
    let mut errors = ValidationErrors::new();
    errors.push("/age", "minimum", "must be >= 13");
    let api_error: ApiError = errors.into_api_error();
    assert_eq!(api_error.status(), 422);
    assert_eq!(api_error.field_errors().len(), 1);
}

#[test]
fn multiple_of_accepts_exact_multiples_only() {
    let mut errors = ValidationErrors::new();
    multiple_of(f64::from(15u32) % 5.0 == 0.0, "5", "/x", &mut errors);
    assert!(errors.is_empty());
    multiple_of(f64::from(16u32) % 5.0 == 0.0, "5", "/x", &mut errors);
    assert_eq!(errors.len(), 1);
}

// ---------------------------------------------------------------------------

#[test]
fn each_rule_has_a_code_and_a_message() {
    let mut errors = ValidationErrors::new();
    max_length("abc", 2, "/a", &mut errors);
    min_items(&Vec::<u8>::new(), 1, "/b", &mut errors);
    max_items(&vec![1u8, 2], 1, "/c", &mut errors);
    minimum(false, "1", "/d", &mut errors);
    maximum(false, "2", "/e", &mut errors);
    exclusive_minimum(false, "3", "/f", &mut errors);
    exclusive_maximum(false, "4", "/g", &mut errors);
    multiple_of(false, "5", "/h", &mut errors);
    non_blank("", "/i", &mut errors);
    contains("abc", "z", "/j", &mut errors);
    one_of(&"c", &["a", "b"], "/k", &mut errors);
    pattern("x", "^[0-9]+$", "/l", &mut errors);
    velo::validate::rules::format("x", "email", false, "/m", &mut errors);
    let codes: Vec<&str> = errors.as_slice().iter().map(|e| e.code.as_str()).collect();
    assert_eq!(
        codes,
        vec![
            "max_length",
            "min_items",
            "max_items",
            "minimum",
            "maximum",
            "exclusive_minimum",
            "exclusive_maximum",
            "multiple_of",
            "non_blank",
            "contains",
            "one_of",
            "pattern",
            "format",
        ]
    );
    assert!(errors.message().starts_with("/a: "));
    assert_eq!(errors.message().matches("; ").count(), 12);
    assert_eq!(errors.into_inner().len(), 13);
}

#[test]
fn values_within_the_rules_are_left_alone() {
    let mut errors = ValidationErrors::default();
    max_length("ab", 2, "", &mut errors);
    min_items(&vec![1u8], 1, "", &mut errors);
    minimum(true, "1", "", &mut errors);
    contains("abc", "b", "", &mut errors);
    one_of(&"a".to_owned(), &["a".to_owned()], "", &mut errors);
    one_of(&3u8, &[1, 2, 3], "", &mut errors);
    pattern("42", "^[0-9]+$", "", &mut errors);
    velo::validate::rules::format("a@b.co", "email", false, "", &mut errors);
    velo::validate::rules::format("10.0.0.1", "ipv4", true, "", &mut errors);
    assert!(errors.is_empty());
    assert!(errors.into_result().is_ok());
}

#[test]
fn a_pattern_is_judged_by_its_verdict() {
    let mut errors = ValidationErrors::new();
    pattern_verdict(Some(true), "x", "/a", &mut errors);
    pattern_compiled(true, "x", "/a", &mut errors);
    assert!(errors.is_empty());
    pattern_verdict(Some(false), "x", "/a", &mut errors);
    pattern_compiled(false, "x", "/b", &mut errors);
    pattern_verdict(None, "(", "/c", &mut errors);
    assert_eq!(errors.len(), 3);
    pattern("anything", "(", "/d", &mut errors);
    assert_eq!(errors.len(), 4);
    assert_eq!(errors.as_slice()[2].code, errors.as_slice()[3].code);
}

#[test]
fn formats_are_checked_by_shape() {
    assert!(is_hostname("a-b.example"));
    assert!(!is_hostname("-a.example"));
    assert!(!is_hostname(""));
    assert!(is_uri("https://x"));
    assert!(!is_uri("no scheme"));
    assert!(!is_uri("1x:y"));
    assert!(is_uuid("123e4567-e89b-12d3-a456-426614174000"));
    assert!(!is_uuid("123e4567-e89b-12d3-a456-42661417400g"));
    assert!(is_rfc3339("2024-01-02T03:04:05Z"));
    assert!(!is_rfc3339("2024-01-02"));
}

#[test]
fn a_pointer_segment_is_escaped() {
    assert_eq!(escape_pointer("a/b~c"), "a~1b~0c");
}

/// Fails under the pointer it holds.
struct Broken(&'static str);

impl Validate for Broken {
    fn validate(&self) -> Result<(), ValidationErrors> {
        let mut errors = ValidationErrors::new();
        if !self.0.is_empty() {
            errors.push(self.0, "x", "y");
        }
        errors.into_result()
    }
}

fn pointers(r: Result<(), ValidationErrors>) -> Vec<String> {
    errors_of(r).into_inner().into_iter().map(|e| e.pointer).collect()
}

#[test]
fn lists_point_at_their_elements() {
    let list = [Broken("/a"), Broken(""), Broken("/b")];
    assert_eq!(pointers(list[..].validate()), ["/0/a", "/2/b"]);
    let boxed: Box<[Broken]> = Box::new([Broken(""), Broken("/c")]);
    assert_eq!(pointers(boxed.validate()), ["/1/c"]);
    let mut queue = std::collections::VecDeque::new();
    queue.push_back(Broken("/b"));
    queue.push_front(Broken("/a"));
    assert_eq!(pointers(queue.validate()), ["/0/a", "/1/b"]);
}

#[test]
fn maps_point_at_their_entries() {
    let mut texts = std::collections::BTreeMap::new();
    texts.insert("z".to_owned(), Broken("/a"));
    texts.insert("a/b~".to_owned(), Broken("/b"));
    texts.insert("ok".to_owned(), Broken(""));
    assert_eq!(pointers(texts.validate()), ["/a~1b~0/b", "/z/a"]);
    let mut numbers = std::collections::BTreeMap::new();
    numbers.insert(10i32, Broken("/a"));
    numbers.insert(-3i32, Broken("/b"));
    assert_eq!(pointers(numbers.validate()), ["/-3/b", "/10/a"]);
    let mut ordered = OrderedMap::new();
    ordered.insert("z".to_owned(), Broken("/a"));
    ordered.insert("a/b".to_owned(), Broken("/b"));
    assert_eq!(pointers(ordered.validate()), ["/z/a", "/a~1b/b"]);
    let mut table = std::collections::HashMap::new();
    table.insert(7u64, Broken("/a"));
    table.insert(8u64, Broken(""));
    assert_eq!(pointers(table.validate()), ["/7/a"]);
}

#[test]
fn values_without_rules_are_valid() {
    assert!("text".validate().is_ok());
    assert!(std::path::PathBuf::from("/x").validate().is_ok());
    assert!(std::time::Duration::from_secs(1).validate().is_ok());
    assert!(uuid::Uuid::nil().validate().is_ok());
    assert!(chrono::NaiveDate::MIN.validate().is_ok());
    assert!(std::sync::Arc::<str>::from("text").validate().is_ok());
}

#[test]
fn collections_have_lengths() {
    let set: std::collections::HashSet<u8> = [1, 2].into_iter().collect();
    let tree: std::collections::BTreeSet<u8> = [1, 2].into_iter().collect();
    let map: std::collections::BTreeMap<u8, u8> = [(1, 1), (2, 2)].into_iter().collect();
    let mut errors = ValidationErrors::new();
    max_length(&set, 1, "/a", &mut errors);
    max_length(&tree, 1, "/b", &mut errors);
    max_length(&map, 1, "/c", &mut errors);
    min_length(&map, 2, "/d", &mut errors);
    let messages: Vec<String> = errors.into_inner().into_iter().map(|e| e.message).collect();
    assert_eq!(messages.len(), 3);
    assert!(messages[0].contains("items"));
    assert!(messages[1].contains("items"));
    assert!(messages[2].contains("entries"));
}

#[test]
fn a_closed_set_can_hold_anything_that_compares() {
    let mut errors = ValidationErrors::new();
    one_of(&4i8, &[-1, 2], "/a", &mut errors);
    one_of(&"c".to_owned(), &["a".to_owned(), "\"".to_owned()], "/b", &mut errors);
    one_of(&'x', &['a', '\''], "/c", &mut errors);
    one_of(&false, &[true], "/d", &mut errors);
    one_of(&None, &[Some(1u128)], "/e", &mut errors);
    one_of(&i128::MAX, &[i128::MIN], "/f", &mut errors);
    one_of(&1u8, &[], "/g", &mut errors);
    one_of(&Some("a"), &[None, Some("a")], "/h", &mut errors);
    let messages: Vec<String> = errors.into_inner().into_iter().map(|e| e.message).collect();
    assert_eq!(
        messages,
        [
            "must be one of [-1, 2]",
            "must be one of [\"a\", \"\\\"\"]",
            "must be one of ['a', '\\'']",
            "must be one of [true]",
            "must be one of [Some(1)]",
            "must be one of [-170141183460469231731687303715884105728]",
            "must be one of []",
        ]
    );
}
