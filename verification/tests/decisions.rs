use clap_layers::derive::syntax::{derive_parsed, expand_parsed};
use clap_layers::error::{LayeredError, SourceLayer};
use clap_layers::source::{settle_env, ConfigFile, FileRead};

#[test]
fn an_environment_value_takes_the_first_decoding_that_succeeds() {
    let r: Result<u16, LayeredError> = settle_env("V", "port", "8080", Some(8080), Err("unused".to_string()));
    assert_eq!(r.unwrap(), 8080);
    let r: Result<String, LayeredError> = settle_env("V", "name", "hello", None, Ok("hello".to_string()));
    assert_eq!(r.unwrap(), "hello");
    let r: Result<u16, LayeredError> = settle_env("MYAPP_PORT", "port", "banana", None, Err("invalid type".to_string()));
    match r.unwrap_err() {
        LayeredError::Invalid { field, value, layer, message } => {
            assert_eq!(field, "port");
            assert_eq!(value, "banana");
            assert_eq!(layer, SourceLayer::EnvVar("MYAPP_PORT".to_string()));
            assert_eq!(message, "invalid type");
        }
        other => panic!("expected an invalid value, got {other:?}"),
    }
}

#[test]
fn a_decoded_file_value_is_settled_against_its_line() {
    let file = ConfigFile::parse("myapp.toml".to_string(), "a = 1\nport = \"foo\"\n".to_string()).unwrap();
    let ok: Result<u16, LayeredError> = file.settle_decoded("port", Ok(7));
    assert_eq!(ok.unwrap(), 7);
    let bad: Result<u16, LayeredError> = file.settle_decoded("port", Err("expected u16".to_string()));
    match bad.unwrap_err() {
        LayeredError::Invalid { field, value, layer, message } => {
            assert_eq!(field, "port");
            assert_eq!(value, "foo");
            assert_eq!(layer, SourceLayer::ConfigFile { path: "myapp.toml".to_string(), line: 2 });
            assert_eq!(message, "expected u16");
        }
        other => panic!("expected an invalid value, got {other:?}"),
    }
}

#[test]
fn a_file_that_cannot_be_read_keeps_its_io_error() {
    let err = std::io::Error::new(std::io::ErrorKind::PermissionDenied, "denied");
    match ConfigFile::from_read("myapp.toml".to_string(), FileRead::Failed(err)) {
        Err(LayeredError::Io { path, source }) => {
            assert_eq!(path, "myapp.toml");
            assert_eq!(source.kind(), std::io::ErrorKind::PermissionDenied);
            assert_eq!(source.to_string(), "denied");
        }
        other => panic!("expected an io error, got {other:?}"),
    }
    assert!(matches!(ConfigFile::from_read("myapp.toml".to_string(), FileRead::Missing), Ok(None)));
}

#[test]
fn a_file_that_does_not_parse_reports_line_and_column() {
    match ConfigFile::from_read("myapp.toml".to_string(), FileRead::Read("a = 1\nb = \n".to_string())) {
        Err(LayeredError::Parse { path, line, column, message }) => {
            assert_eq!(path, "myapp.toml");
            assert_eq!(line, 2);
            assert!(column >= 1);
            assert!(!message.is_empty());
        }
        other => panic!("expected a parse error, got {other:?}"),
    }
}

#[test]
fn a_reading_error_is_the_derives_one_error() {
    assert_eq!(expand_parsed(Err("boom".to_string())), Err(vec!["boom".to_string()]));
    assert_eq!(derive_parsed(Err("boom".to_string())), "::core::compile_error! { \"boom\" }");
}
