use drydoc::args::{KeyValueArgs, KeyValueArgsBuilder};
use drydoc::errors::ArgsError;
use drydoc::toml_data::to_toml_table;

#[test]
fn test_parse_kwarg_style_args_toml_nested() {
    let input =
        r#"path = "path/to/doc.rs", toml = { number = 15 , person = { name = "richard" } }"#;
    let args: KeyValueArgs = KeyValueArgs::parse(input).unwrap();

    assert_eq!(args.path, "path/to/doc.rs");
    assert_eq!(
        to_toml_table(r#"number = 15 , person = { name = "richard" }"#).unwrap(),
        args.toml,
    );
}

#[test]
fn test_parse_kwarg_style_args() {
    let input = r#"path = "path/to/doc.rs", toml = { number = 15 }"#;
    let args: KeyValueArgs = KeyValueArgs::parse(input).unwrap();

    assert_eq!("path/to/doc.rs", args.path);
    assert_eq!(to_toml_table(r#"number = 15"#).unwrap(), args.toml);
}

#[test]
fn test_parse_bad_key_err() {
    let input = r#"path = "path/to/doc.rs", yolo: {}""#;
    let result: Result<KeyValueArgs, ArgsError> = KeyValueArgs::parse(input);
    assert!(result.is_err(), "Not err {result:?}");
}

#[test]
fn test_parse_hidden_flag() {
    let args = KeyValueArgs::parse(r#"path = "a.rs", hidden = true"#).unwrap();
    assert!(args.hidden);
    let args = KeyValueArgs::parse(r#"path = "a.rs", hidden = false"#).unwrap();
    assert!(!args.hidden);
}

#[test]
fn test_hidden_defaults_to_false() {
    let args = KeyValueArgs::parse(r#"path = "a.rs""#).unwrap();
    assert!(!args.hidden);
    assert_eq!(args.toml, toml::map::Map::new());
}

#[test]
fn test_trailing_comma_accepted() {
    let args = KeyValueArgs::parse(r#"path = "a.rs","#).unwrap();
    assert_eq!(args.path, "a.rs");
}

#[test]
fn test_last_path_wins() {
    let args = KeyValueArgs::parse(r#"path = "a.rs", path = "b.rs""#).unwrap();
    assert_eq!(args.path, "b.rs");
}

#[test]
fn test_missing_path_err() {
    assert_eq!(KeyValueArgs::parse("").unwrap_err(), ArgsError::MissingPath);
    assert_eq!(
        KeyValueArgs::parse("hidden = true").unwrap_err(),
        ArgsError::MissingPath,
    );
}

#[test]
fn test_error_variants() {
    assert_eq!(
        KeyValueArgs::parse(r#"path = 5"#).unwrap_err(),
        ArgsError::ExpectedString,
    );
    assert_eq!(
        KeyValueArgs::parse(r#"path "a""#).unwrap_err(),
        ArgsError::ExpectedEquals,
    );
    assert_eq!(
        KeyValueArgs::parse(r#"path = "a" hidden = true"#).unwrap_err(),
        ArgsError::ExpectedComma,
    );
    assert_eq!(
        KeyValueArgs::parse(r#"yolo = 3"#).unwrap_err(),
        ArgsError::UnknownKey,
    );
    assert_eq!(
        KeyValueArgs::parse(r#"5 = 3"#).unwrap_err(),
        ArgsError::ExpectedIdent,
    );
    assert_eq!(
        KeyValueArgs::parse(r#"hidden = maybe"#).unwrap_err(),
        ArgsError::ExpectedBool,
    );
    assert_eq!(
        KeyValueArgs::parse(r#"toml = [1]"#).unwrap_err(),
        ArgsError::ExpectedBrace,
    );
    assert_eq!(
        KeyValueArgs::parse(r#"toml = { a = 1"#).unwrap_err(),
        ArgsError::UnbalancedBraces,
    );
    assert_eq!(
        KeyValueArgs::parse(r#"path = "abc"#).unwrap_err(),
        ArgsError::UnterminatedString,
    );
    assert_eq!(
        KeyValueArgs::parse(r#"path = "a\qb""#).unwrap_err(),
        ArgsError::BadEscape,
    );
    assert_eq!(
        KeyValueArgs::parse(r#"path = "a.rs", toml = { === }"#).unwrap_err(),
        ArgsError::InvalidToml,
    );
}

#[test]
fn test_string_escapes() {
    let args = KeyValueArgs::parse(r#"path = "a\n\t\"b\\c""#).unwrap();
    assert_eq!(args.path, "a\n\t\"b\\c");
}

#[test]
fn test_brace_inside_toml_string() {
    let args = KeyValueArgs::parse(r#"path = "a.rs", toml = { s = "}" }"#).unwrap();
    assert_eq!(args.toml.get("s"), Some(&toml::Value::String("}".to_string())));
}

#[test]
fn test_multiline_toml_block() {
    let input = "path = \"a.rs\", toml = { a = 1,\n  b = 2 }";
    let args = KeyValueArgs::parse(input).unwrap();
    assert_eq!(args.toml.get("a"), Some(&toml::Value::Integer(1)));
    assert_eq!(args.toml.get("b"), Some(&toml::Value::Integer(2)));
}

#[test]
fn test_to_toml_table_values() {
    let t = to_toml_table("x = 1").unwrap();
    assert_eq!(t.get("x"), Some(&toml::Value::Integer(1)));
    assert!(to_toml_table("===").is_err());
}

#[test]
fn test_builder_direct() {
    let b = KeyValueArgsBuilder::new();
    assert_eq!(b.build().unwrap_err(), ArgsError::MissingPath);

    let mut b = KeyValueArgsBuilder::new();
    b.path("a.rs".to_string());
    b.toml("k = \"v\"".to_string());
    b.hidden = Some(true);
    let args = b.build().unwrap();
    assert_eq!(args.path, "a.rs");
    assert!(args.hidden);
    assert_eq!(args.toml.get("k"), Some(&toml::Value::String("v".to_string())));
}
