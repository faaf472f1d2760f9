use clap_layers::derive::syntax::expand_source;

/// Every error message from expanding `source`, which must fail.
fn error(source: &str) -> String {
    match expand_source(source) {
        Ok(_) => panic!("expected an error, but the derive succeeded"),
        Err(e) => e.join("\n---\n"),
    }
}

/// The generated code, for asserting on what was emitted.
fn generated(source: &str) -> String {
    match expand_source(source) {
        Ok(code) => code,
        Err(e) => panic!("expected the derive to succeed, got: {}", e.join("\n---\n")),
    }
}

#[test]
fn rejects_shapes_it_cannot_support() {
    assert!(error("enum E { A, B }").contains("does not support enums"));
    assert!(error("union U { a: u16 }").contains("does not support unions"));
    assert!(error("struct S(u16);").contains("does not support tuple structs"));
    assert!(error("struct S;").contains("does not support unit structs"));
}

#[test]
fn rejects_unknown_options_rather_than_ignoring_them() {
    // A silently ignored option is how `no_env` came to do nothing at all.
    let err = error(r#"#[layered(fil = "a.toml")] struct S { a: u16 }"#);
    assert!(err.contains("unknown `layered` option `fil`"), "{err}");
    assert!(
        err.contains("`file`"),
        "the help must list what is valid: {err}"
    );

    let err = error(r"struct S { #[layered(no_envv)] a: u16 }");
    assert!(err.contains("unknown `layered` option `no_envv`"), "{err}");
    assert!(err.contains("`no_env`"), "{err}");
}

#[test]
fn rejects_malformed_options() {
    assert!(error(r"#[layered(file)] struct S { a: u16 }").contains("`file` requires a value"));
    assert!(
        error(r"#[layered(file = 1)] struct S { a: u16 }")
            .contains("`file` must be a string literal")
    );
    assert!(
        error(r#"struct S { #[layered(no_env = "true")] a: u16 }"#)
            .contains("`no_env` does not take a value")
    );
    assert!(error(r"#[layered] struct S { a: u16 }").contains("`#[layered]` requires options"));
}

#[test]
fn rejects_duplicate_options() {
    assert!(
        error(r#"#[layered(file = "a.toml", file = "b.toml")] struct S { a: u16 }"#)
            .contains("`file` is specified more than once")
    );
    assert!(
        error(r"struct S { #[layered(no_env, no_env)] a: u16 }")
            .contains("`no_env` is specified more than once")
    );
}

#[test]
fn rejects_an_env_prefix_that_cannot_name_a_variable() {
    assert!(
        error(r#"#[layered(env_prefix = "")] struct S { a: u16 }"#)
            .contains("must not be empty")
    );
    assert!(
        error(r#"#[layered(env_prefix = "my-app")] struct S { a: u16 }"#)
            .contains("contains `-`")
    );
    assert!(
        error(r#"#[layered(env_prefix = "my app")] struct S { a: u16 }"#)
            .contains("not valid in an environment variable name")
    );
    assert!(
        error(r#"#[layered(env_prefix = "1app")] struct S { a: u16 }"#)
            .contains("must not start with a digit")
    );
}

#[test]
fn rejects_an_empty_file_path() {
    assert!(
        error(r#"#[layered(file = "")] struct S { a: u16 }"#)
            .contains("`file` must not be empty")
    );
}

#[test]
fn requires_arg_skip_alongside_no_cli() {
    let err = error(r"struct S { #[layered(no_cli)] a: u16 }");
    assert!(err.contains("requires `#[arg(skip)]`"), "{err}");

    // With `#[arg(skip)]` and a layer to read from, it is accepted.
    assert!(
        expand_source(r#"#[layered(env_prefix = "A")] struct S { #[layered(no_cli)] #[arg(skip)] a: u16 }"#)
            .is_ok()
    );
}

#[test]
fn rejects_a_field_no_layer_can_reach() {
    let err = error(r"struct S { #[layered(no_cli)] #[arg(skip)] a: u16 }");
    assert!(err.contains("no configuration source"), "{err}");
}

#[test]
fn reports_every_bad_field_in_one_pass() {
    // Stopping at the first error would make fixing a struct a slow loop.
    let err = error(
        r#"#[layered(env_prefix = "A")] struct S {
            #[layered(no_envv)] a: u16,
            #[layered(no_cli)] b: u16,
        }"#,
    );
    assert!(err.contains("no_envv"), "{err}");
    assert!(err.contains("requires `#[arg(skip)]`"), "{err}");
}

#[test]
fn environment_variable_names_are_prefixed_and_uppercased() {
    let code = generated(r#"#[layered(env_prefix = "myapp")] struct S { db_password: u16 }"#);
    assert!(code.contains("\"MYAPP_DB_PASSWORD\""), "{code}");
}

#[test]
fn the_environment_layer_is_off_without_a_prefix() {
    // Otherwise a field named `path` would read the ambient PATH.
    let code = generated(r"struct S { path: String }");
    assert!(!code.contains("\"PATH\""), "{code}");
}

#[test]
fn markers_drop_the_layer_they_name() {
    let with_env = generated(r#"#[layered(env_prefix = "A")] struct S { a: u16 }"#);
    assert!(with_env.contains("\"A_A\""));

    let no_env =
        generated(r#"#[layered(env_prefix = "A")] struct S { #[layered(no_env)] a: u16 }"#);
    assert!(
        !no_env.contains("\"A_A\""),
        "no_env must not emit a variable name"
    );
}

#[test]
fn raw_identifiers_are_unraw_for_clap_and_the_file_but_not_the_field() {
    let code = generated(r#"#[layered(env_prefix = "A")] struct S { r#type: u16 }"#);

    // The key, the id and the variable use the unraw name...
    assert!(code.contains(r#""type""#), "{code}");
    assert!(code.contains(r#""A_TYPE""#), "{code}");
    // ...while the field itself keeps its raw spelling.
    assert!(code.contains("r#type"), "{code}");
}

#[test]
fn a_skipped_field_never_queries_value_source() {
    // `ArgMatches::value_source` panics in debug builds for an unknown id.
    let skipped = generated(r#"#[layered(env_prefix = "A")] struct S { #[arg(skip)] a: u16 }"#);
    assert!(!skipped.contains("is_explicit"), "{skipped}");

    let normal = generated(r#"#[layered(env_prefix = "A")] struct S { a: u16 }"#);
    assert!(normal.contains("is_explicit"), "{normal}");
}

#[test]
fn flattened_and_subcommand_fields_are_passed_through() {
    for source in [
        r"struct S { #[command(flatten)] a: Nested }",
        r"struct S { #[command(subcommand)] a: Cmd }",
        r"struct S { #[clap(flatten)] a: Nested }",
    ] {
        let code = generated(source);
        assert!(
            !code.contains("is_explicit") && !code.contains("resolve"),
            "{source} should pass through untouched, got: {code}"
        );
    }
}

#[test]
fn a_custom_arg_id_is_used_for_value_source() {
    let code = generated(r#"struct S { #[arg(id = "renamed", long = "port")] port: u16 }"#);
    assert!(code.contains(r#""renamed""#), "{code}");
}

#[test]
fn the_file_is_loaded_once_rather_than_per_field() {
    let code = generated(r#"#[layered(file = "c.toml")] struct S { a: u16, b: u16, c: u16 }"#);
    assert_eq!(
        code.matches("load_file").count(),
        1,
        "the file must be read once per parse, not once per field: {code}"
    );
}

#[test]
fn generics_and_where_clauses_are_carried_onto_the_impl() {
    let code = generated(r"struct S<T: Clone> where T: Send { a: u16, b: T }");
    assert!(code.contains("impl < T : Clone >"), "{code}");
    assert!(code.contains("where T : Send"), "{code}");
}

#[test]
fn a_marker_drops_the_file_layer() {
    let code = generated(r#"#[layered(file = "c.toml")] struct S { #[layered(no_file)] a: u16, b: u16 }"#);
    assert!(
        code.contains(r#"a: ::clap_layers::__private::resolve("a", ::core::option::Option::None, env, ::core::option::Option::None, "#),
        "{code}"
    );
    assert!(
        code.contains(r#"b: ::clap_layers::__private::resolve("b", ::core::option::Option::None, env, __file, "#),
        "{code}"
    );
    assert!(code.contains(r#"load_file(::core::option::Option::Some("c.toml"))"#), "{code}");
}

#[test]
fn a_field_with_every_layer_reads_them_all() {
    let code = generated(r#"#[layered(file = "c.toml", env_prefix = "APP")] struct S { port: u16 }"#);
    assert!(
        code.contains(r#"port: ::clap_layers::__private::resolve("port", ::core::option::Option::Some("APP_PORT"), env, __file, ::clap_layers::__private::is_explicit(&__matches, "port"), __cli.port)?"#),
        "{code}"
    );
}

#[test]
fn struct_options_are_checked_before_the_shape() {
    let err = error(r#"#[layered(fil = "a.toml")] enum E { A }"#);
    assert!(err.contains("unknown `layered` option `fil`"), "{err}");
    assert!(!err.contains("does not support enums"), "{err}");
}

#[test]
fn a_layered_option_that_does_not_parse_is_reported() {
    let err = error(r#"#[layered = "x"] struct S { a: u16 }"#);
    assert!(!err.is_empty());
    let err = error(r#"struct S { #[layered(no_env] a: u16 }"#);
    assert!(!err.is_empty());
}

#[test]
fn an_env_prefix_given_twice_is_rejected() {
    assert!(
        error(r#"#[layered(env_prefix = "A", env_prefix = "B")] struct S { a: u16 }"#)
            .contains("`env_prefix` is specified more than once")
    );
    assert!(
        error(r#"#[layered(env_prefix)] struct S { a: u16 }"#)
            .contains("`env_prefix` requires a value")
    );
}

#[test]
fn derive_layered_hands_errors_to_the_compiler() {
    let code = clap_layers::derive::syntax::derive_layered(r"struct S(u16);");
    assert!(code.starts_with("::core::compile_error! { \"`Layered` does not support tuple structs"), "{code}");
    let code = clap_layers::derive::syntax::derive_layered(r"struct S { a: u16 }");
    assert!(code.starts_with("#[automatically_derived] impl"), "{code}");
    let code = clap_layers::derive::syntax::derive_layered(r"struct {");
    assert!(code.starts_with("::core::compile_error! {"), "{code}");
}

#[test]
fn string_literals_in_generated_code_are_escaped() {
    let code = generated(r#"struct S { #[arg(id = "a\"b\\c")] port: u16 }"#);
    assert!(code.contains(r#""a\"b\\c""#), "{code}");
}

#[test]
fn a_definition_that_does_not_parse_is_reported_with_syns_message_alone() {
    let source = "struct {";
    let message = match clap_layers::derive::syntax::parse_derive_model(source) {
        Ok(_) => panic!("expected a parse error"),
        Err(m) => m,
    };
    assert!(!message.is_empty());
    assert_ne!(message, source);
    assert_eq!(expand_source(source).err(), Some(vec![message.clone()]));
    let code = clap_layers::derive::syntax::derive_layered(source);
    assert!(code.starts_with("::core::compile_error! { \""), "{code}");
    assert!(code.ends_with(" }"), "{code}");
    assert_eq!(code.matches("compile_error!").count(), 1, "{code}");
}

#[test]
fn a_misspelled_marker_on_a_flattened_field_is_rejected() {
    let msg = error(r"struct S { #[command(flatten)] #[layered(no_envv)] a: Nested }");
    assert!(msg.contains("unknown `layered` option `no_envv`"), "{msg}");
    let msg = error(r"struct S { #[command(subcommand)] #[layered(no_cli = 1)] a: Cmd }");
    assert!(!msg.is_empty());
}

#[test]
fn control_characters_in_generated_literals_are_escaped() {
    let code = generated(r#"struct S { #[arg(id = "a\rb\tc\n\u{1}\u{7f}\0d")] port: u16 }"#);
    assert!(code.contains(r#""a\rb\tc\n\u{1}\u{7f}\0d""#), "{code}");
    assert!(!code.contains('\r'), "{code:?}");
}

#[test]
fn literals_are_escaped_as_rust_writes_string_tokens() {
    let code = generated("struct S { #[arg(id = \"a\\u{202e}b\\07'c\\0\")] port: u16 }");
    assert!(code.contains(r#""a\u{202e}b\x007'c\0""#), "{code}");
}

#[test]
fn an_ascii_prefix_and_field_name_are_uppercased_letter_by_letter() {
    let code = generated(r#"#[layered(env_prefix = "myapp")] struct S { db_password: String }"#);
    assert!(code.contains(r#""MYAPP_DB_PASSWORD""#), "{code}");
}
