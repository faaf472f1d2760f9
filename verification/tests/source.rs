use clap_layers::position::position_of;
use clap_layers::source::from_env;

#[test]
fn position_maps_offsets_to_lines_and_columns() {
    let content = "a = 1\nbb = 2\n\nccc = 3\n";
    assert_eq!(position_of(content, 0), (1, 1));
    assert_eq!(position_of(content, 4), (1, 5));
    // First byte of line 2.
    assert_eq!(position_of(content, 6), (2, 1));
    // The blank line 3.
    assert_eq!(position_of(content, 13), (3, 1));
    assert_eq!(position_of(content, 14), (4, 1));
}

#[test]
fn position_handles_empty_content() {
    assert_eq!(position_of("", 0), (1, 1));
}

#[test]
fn position_counts_columns_in_characters_not_bytes() {
    // 'é' and 'ø' are two bytes each, so a byte column would drift.
    let content = "x = 1\n\"kéy_ø\" = 2\n";
    let offset = content.find("= 2").unwrap();
    let (line, column) = position_of(content, offset);
    assert_eq!(line, 2);
    // "kéy_ø" quoted is 7 characters, then a space: the `=` is character 9.
    assert_eq!(column, 9, "column must count characters, not bytes");
}

/// Pins the column convention to `toml`'s own, so a reported position can be
/// cross-checked against any other tool reading the same file.
#[test]
fn position_agrees_with_tomls_own_diagnostics() {
    let content = "x = 1\n\"kéy_ünïcödé_ø\" = = 2\n";
    let err = toml::from_str::<toml::Table>(content).unwrap_err();
    let (line, column) = position_of(content, err.span().unwrap().start);

    // toml renders "TOML parse error at line 2, column 19".
    let rendered = err.to_string();
    let first = rendered.lines().next().unwrap();
    assert!(
        first.contains(&format!("line {line}, column {column}")),
        "ours: line {line}, column {column}; toml: {first}"
    );
}

#[test]
fn position_does_not_panic_on_out_of_range_or_split_offsets() {
    let content = "a = \"é\"\n";

    // Past the end clamps to the end of input, which sits just after the
    // trailing newline: the first column of the (empty) next line.
    assert_eq!(position_of(content, 9_999), (2, 1));

    // An offset inside the two bytes of 'é' must clamp back to the
    // character boundary rather than panic on a bad slice.
    let inside = content.find('é').unwrap() + 1;
    assert!(!content.is_char_boundary(inside));
    assert_eq!(position_of(content, inside), (1, 6));
}

#[test]
fn env_decodes_toml_value_expressions() {
    assert_eq!(from_env::<u16>("V", "port", "8080").unwrap(), 8080);
    assert!(from_env::<bool>("V", "verbose", "true").unwrap());
    assert_eq!(
        from_env::<Vec<String>>("V", "tags", r#"["a", "b"]"#).unwrap(),
        vec!["a".to_string(), "b".to_string()]
    );
    assert_eq!(
        from_env::<Option<u16>>("V", "port", "8080").unwrap(),
        Some(8080)
    );
}

#[test]
fn env_falls_back_to_bare_strings() {
    // `hello` is not a valid TOML value expression, but is an obvious string.
    assert_eq!(from_env::<String>("V", "name", "hello").unwrap(), "hello");
    assert_eq!(
        from_env::<String>("V", "name", "hello world").unwrap(),
        "hello world"
    );
    // A bare `true` is a valid TOML bool, but the field wants a String, so
    // the fallback must still produce the literal text.
    assert_eq!(from_env::<String>("V", "name", "true").unwrap(), "true");
    assert_eq!(from_env::<String>("V", "name", "8080").unwrap(), "8080");
}

#[test]
fn env_reports_undecodable_values_against_the_variable() {
    let err = from_env::<u16>("MYAPP_PORT", "port", "banana").unwrap_err();
    let msg = err.to_string();
    assert!(msg.contains("invalid value 'banana' for 'port'"), "{msg}");
    assert!(msg.contains("environment variable MYAPP_PORT"), "{msg}");
}
