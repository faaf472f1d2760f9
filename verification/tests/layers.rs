use clap_layers::env::Env;
use clap_layers::error::{LayeredError, SourceLayer};
use clap_layers::merge::{counts_as_explicit, resolve, select_layer, ArgSource, Layer};
use clap_layers::source::{ConfigFile, FileRead};

fn env_with_port(value: &str) -> Env {
    Env::from_iter([("MYAPP_PORT", value)])
}

fn file_with(content: &str) -> ConfigFile {
    ConfigFile::parse("myapp.toml".to_string(), content.to_string()).unwrap()
}

#[test]
fn an_explicit_flag_beats_every_layer_even_when_it_equals_the_default() {
    let env = env_with_port("8080");
    let file = file_with("port = 1234\n");
    let port: u16 = resolve("port", Some("MYAPP_PORT"), &env, Some(&file), true, 3000).unwrap();
    assert_eq!(port, 3000);
}

#[test]
fn the_environment_beats_the_file() {
    let env = env_with_port("8080");
    let file = file_with("port = 1234\n");
    let port: u16 = resolve("port", Some("MYAPP_PORT"), &env, Some(&file), false, 3000).unwrap();
    assert_eq!(port, 8080);
}

#[test]
fn the_file_beats_the_default() {
    let file = file_with("port = 1234\n");
    let port: u16 = resolve("port", Some("MYAPP_PORT"), &Env::empty(), Some(&file), false, 3000).unwrap();
    assert_eq!(port, 1234);
}

#[test]
fn the_default_stands_when_no_layer_has_a_value() {
    let file = file_with("other = 1\n");
    let port: u16 = resolve("port", Some("MYAPP_PORT"), &Env::empty(), Some(&file), false, 3000).unwrap();
    assert_eq!(port, 3000);
    let port: u16 = resolve("port", None, &Env::empty(), None, false, 3000).unwrap();
    assert_eq!(port, 3000);
}

#[test]
fn a_field_without_a_variable_ignores_the_environment() {
    let env = env_with_port("8080");
    let file = file_with("port = 1234\n");
    let port: u16 = resolve("port", None, &env, Some(&file), false, 3000).unwrap();
    assert_eq!(port, 1234);
}

#[test]
fn select_layer_takes_the_first_layer_with_a_value() {
    let env = env_with_port("8080");
    let file = file_with("port = 1234\n");
    let empty = Env::empty();
    assert_eq!(select_layer("port", Some("MYAPP_PORT"), &env, Some(&file), true), Layer::CommandLine);
    assert_eq!(select_layer("port", Some("MYAPP_PORT"), &env, Some(&file), false), Layer::Environment);
    assert_eq!(select_layer("port", Some("MYAPP_PORT"), &empty, Some(&file), false), Layer::File);
    assert_eq!(select_layer("port", Some("MYAPP_PORT"), &empty, None, false), Layer::Default);
    assert_eq!(select_layer("host", Some("MYAPP_HOST"), &env, Some(&file), false), Layer::Default);
}

#[test]
fn a_bad_environment_value_is_reported_against_the_variable() {
    let env = env_with_port("banana");
    let file = file_with("port = 1234\n");
    let err = resolve::<u16>("port", Some("MYAPP_PORT"), &env, Some(&file), false, 3000).unwrap_err();
    match &err {
        LayeredError::Invalid { field, value, layer, .. } => {
            assert_eq!(field, "port");
            assert_eq!(value, "banana");
            assert_eq!(layer, &SourceLayer::EnvVar("MYAPP_PORT".to_string()));
        }
        other => panic!("expected an invalid value, got {other:?}"),
    }
    assert!(err.to_string().starts_with("invalid value 'banana' for 'port' — from environment variable MYAPP_PORT ("));
}

#[test]
fn a_bad_file_value_is_reported_against_its_line() {
    let file = file_with("# settings\n\nport = \"not-a-number\"\n");
    let err = resolve::<u16>("port", None, &Env::empty(), Some(&file), false, 3000).unwrap_err();
    match &err {
        LayeredError::Invalid { field, value, layer, .. } => {
            assert_eq!(field, "port");
            assert_eq!(value, "not-a-number");
            assert_eq!(
                layer,
                &SourceLayer::ConfigFile { path: "myapp.toml".to_string(), line: 3 }
            );
        }
        other => panic!("expected an invalid value, got {other:?}"),
    }
    assert!(err
        .to_string()
        .starts_with("invalid value 'not-a-number' for 'port' — from myapp.toml, line 3 ("));
}

#[test]
fn command_line_and_clap_env_values_count_as_explicit() {
    assert!(counts_as_explicit(Some(ArgSource::CommandLine)));
    assert!(counts_as_explicit(Some(ArgSource::EnvVariable)));
    assert!(!counts_as_explicit(Some(ArgSource::DefaultValue)));
    assert!(!counts_as_explicit(None));
}

#[test]
fn a_missing_file_is_not_an_error() {
    let r = ConfigFile::from_read("myapp.toml".to_string(), FileRead::Missing).unwrap();
    assert!(r.is_none());
}

#[test]
fn an_unreadable_file_is_an_io_error_naming_the_path() {
    let read = FileRead::Failed(std::io::Error::new(std::io::ErrorKind::PermissionDenied, "denied"));
    let err = ConfigFile::from_read("myapp.toml".to_string(), read).unwrap_err();
    match &err {
        LayeredError::Io { path, .. } => assert_eq!(path, "myapp.toml"),
        other => panic!("expected an I/O error, got {other:?}"),
    }
    assert!(err.to_string().starts_with("could not read config file 'myapp.toml': "));
}

#[test]
fn a_file_that_is_not_toml_is_a_parse_error_with_its_position() {
    let err = ConfigFile::parse("myapp.toml".to_string(), "a = 1\nb = = 2\n".to_string())
        .err()
        .unwrap();
    let toml_err = toml::from_str::<toml::Table>("a = 1\nb = = 2\n").unwrap_err();
    match &err {
        LayeredError::Parse { path, line, column, message } => {
            assert_eq!(path, "myapp.toml");
            assert_eq!(*line, 2);
            assert_eq!(*column, 5);
            assert_eq!(message, toml_err.message());
        }
        other => panic!("expected a parse error, got {other:?}"),
    }
    assert!(err
        .to_string()
        .starts_with("could not parse config file 'myapp.toml' at line 2, column 5: "));
}

#[test]
fn a_readable_file_is_parsed() {
    let read = FileRead::Read("port = 8080\n".to_string());
    let file = ConfigFile::from_read("myapp.toml".to_string(), read).unwrap().unwrap();
    assert!(file.contains("port"));
    assert!(!file.contains("host"));
    assert_eq!(file.get::<u16>("port").unwrap().unwrap(), 8080);
    assert!(file.get::<u16>("host").is_none());
}

#[test]
fn file_values_decode_into_the_field_type() {
    let file = file_with("tags = [\"a\", \"b\"]\nverbose = true\nname = \"svc\"\n");
    assert_eq!(
        file.get::<Vec<String>>("tags").unwrap().unwrap(),
        vec!["a".to_string(), "b".to_string()]
    );
    assert!(file.get::<bool>("verbose").unwrap().unwrap());
    assert_eq!(file.get::<String>("name").unwrap().unwrap(), "svc");
}

#[test]
fn a_non_string_bad_file_value_is_shown_as_toml() {
    let file = file_with("port = [1, 2]\n");
    match file.get::<u16>("port").unwrap().unwrap_err() {
        LayeredError::Invalid { value, layer, .. } => {
            assert_eq!(value, "[1, 2]");
            assert_eq!(layer, SourceLayer::ConfigFile { path: "myapp.toml".to_string(), line: 1 });
        }
        other => panic!("expected an invalid value, got {other:?}"),
    }
}

#[test]
fn cli_errors_render_as_clap_wrote_them() {
    let err = LayeredError::Cli("error: unexpected argument '--bogus' found".to_string());
    assert_eq!(err.to_string(), "error: unexpected argument '--bogus' found");
}

#[test]
fn a_bad_string_file_value_is_shown_without_quotes_and_a_boolean_as_toml() {
    let file = file_with("name = \"svc\"\nport = true\n");
    match file.get::<u16>("name").unwrap().unwrap_err() {
        LayeredError::Invalid { value, .. } => assert_eq!(value, "svc"),
        other => panic!("expected an invalid value, got {other:?}"),
    }
    match file.get::<u16>("port").unwrap().unwrap_err() {
        LayeredError::Invalid { value, layer, .. } => {
            assert_eq!(value, "true");
            assert_eq!(layer, SourceLayer::ConfigFile { path: "myapp.toml".to_string(), line: 2 });
        }
        other => panic!("expected an invalid value, got {other:?}"),
    }
}
