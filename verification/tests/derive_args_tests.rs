use drydoc::derive_args::DrydocArgs;
use drydoc::errors::ArgsError;

#[test]
fn test_parse_args() {
    let input = r#""path/to/doc.rs", context: { number => 15 }"#;
    let args: DrydocArgs = DrydocArgs::parse(input).unwrap();

    assert_eq!(args.path, "path/to/doc.rs");
    assert_eq!(args.context, Some(r#"number => 15"#.to_string()));
}

#[test]
fn test_parse_args_no_context() {
    let input = r#""path/to/doc.rs""#;
    let args: DrydocArgs = DrydocArgs::parse(input).expect("Failed to parse Args");
    assert_eq!(args.path, "path/to/doc.rs");
    assert_eq!(args.context, None);
}

#[test]
fn lib_test_parse_bad_key_err() {
    let input = r#""path/to/doc.rs", yolo: {}""#;
    let result: Result<DrydocArgs, ArgsError> = DrydocArgs::parse(input);
    assert!(result.is_err(), "Not err {result:?}");
}

#[test]
fn test_context_with_nested_braces() {
    let args = DrydocArgs::parse(r#""a.rs", context: { a => { b => 1 } }"#).unwrap();
    assert_eq!(args.context, Some("a => { b => 1 }".to_string()));
}

#[test]
fn test_comma_is_optional() {
    let args = DrydocArgs::parse(r#""a.rs" context: { x => 1 }"#).unwrap();
    assert_eq!(args.context, Some("x => 1".to_string()));
}

#[test]
fn test_derive_error_variants() {
    assert_eq!(
        DrydocArgs::parse("context: {}").unwrap_err(),
        ArgsError::ExpectedString,
    );
    assert_eq!(
        DrydocArgs::parse(r#""a.rs", yolo: {}"#).unwrap_err(),
        ArgsError::ExpectedContext,
    );
    assert_eq!(
        DrydocArgs::parse(r#""a.rs", stray"#).unwrap_err(),
        ArgsError::TrailingInput,
    );
    assert_eq!(
        DrydocArgs::parse(r#""a.rs", context: {} extra"#).unwrap_err(),
        ArgsError::TrailingInput,
    );
    assert_eq!(
        DrydocArgs::parse(r#""a.rs", context: "#).unwrap_err(),
        ArgsError::ExpectedBrace,
    );
    assert_eq!(
        DrydocArgs::parse(r#""a.rs", context: { x"#).unwrap_err(),
        ArgsError::UnbalancedBraces,
    );
}

#[test]
fn test_error_messages() {
    assert_eq!(ArgsError::UnknownKey.message(), "unexpected identifier");
    assert_eq!(ArgsError::MissingPath.message(), "missing `path`");
    assert_eq!(ArgsError::ExpectedContext.message(), "expected `context`");
}
