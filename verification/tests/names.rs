use sanitize::{sanitize_name, sanitize_snake_case_name, SanitizeError};

#[test]
fn sanitize_name_with_dot() {
    let id = sanitize_snake_case_name("foo.bar").unwrap();
    assert_eq!(id.as_str(), "foo_bar");
}

#[test]
fn sanitize_name_with_dot_and_underscore() {
    let id = sanitize_snake_case_name("foo.bar_baz").unwrap();
    assert_eq!(id.as_str(), "foo_bar_baz");
}

#[test]
fn sanitize_reserved_name() {
    let id = sanitize_snake_case_name("builder").unwrap();
    assert_eq!(id.as_str(), "_builder");
}

#[test]
fn empty_name_rejected() {
    assert!(matches!(
        sanitize_snake_case_name(""),
        Err(SanitizeError::EmptyName)
    ));
    assert!(matches!(sanitize_name(""), Err(SanitizeError::EmptyName)));
}

#[test]
fn every_reserved_name_guarded() {
    let name = sanitize_name("name").unwrap();
    assert_eq!(name.as_str(), "_name");
    let operation = sanitize_name("operation").unwrap();
    assert_eq!(operation.as_str(), "_operation");
    let builder = sanitize_name("builder").unwrap();
    assert_eq!(builder.as_str(), "_builder");
}

#[test]
fn leading_digit_guarded() {
    let id = sanitize_name("9foo").unwrap();
    assert_eq!(id.as_str(), "_9foo");
}

#[test]
fn leading_unicode_numeral_guarded() {
    let id = sanitize_name("٣foo").unwrap();
    assert_eq!(id.as_str(), "_٣foo");
}

#[test]
fn language_keyword_escaped() {
    let id = sanitize_name("type").unwrap();
    assert_eq!(id.as_str(), "r#type");
}

#[test]
fn every_dot_flattened() {
    let id = sanitize_name("a.b.c").unwrap();
    assert_eq!(id.as_str(), "a_b_c");
    assert!(!id.as_str().contains('.'));
}

#[test]
fn camel_case_converted() {
    let id = sanitize_snake_case_name("FooBar").unwrap();
    assert_eq!(id.as_str(), "foo_bar");
}

#[test]
fn sanitizing_twice_keeps_the_token() {
    let once = sanitize_snake_case_name("foo.bar").unwrap();
    let twice = sanitize_snake_case_name(once.as_str()).unwrap();
    assert_eq!(twice.as_str(), once.as_str());
}

#[test]
fn sanitizing_guarded_token_twice_keeps_it() {
    let once = sanitize_snake_case_name("builder").unwrap();
    let twice = sanitize_snake_case_name(once.as_str()).unwrap();
    assert_eq!(twice.as_str(), "_builder");
}

#[test]
fn raw_escape_in_input_is_kept() {
    let id = sanitize_name("r#name").unwrap();
    assert_eq!(id.as_str(), "r#name");
}
