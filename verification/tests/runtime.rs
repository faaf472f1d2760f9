use clap_layers::env::Env;
use clap_layers::error::{LayeredError, SourceLayer};

#[test]
fn source_layer_display() {
    assert_eq!(
        SourceLayer::EnvVar("MYAPP_PORT".to_string()).to_string(),
        "environment variable MYAPP_PORT"
    );
    assert_eq!(
        SourceLayer::ConfigFile {
            path: "config.toml".to_string(),
            line: 12,
        }
        .to_string(),
        "config.toml, line 12"
    );
}

/// The exact wording promised by the project's correctness bar.
#[test]
fn invalid_error_is_source_attributed() {
    let err = LayeredError::Invalid {
        field: "port".to_string(),
        value: "foo".to_string(),
        layer: SourceLayer::ConfigFile {
            path: "config.toml".to_string(),
            line: 12,
        },
        message: "invalid type: string, expected u16".to_string(),
    };
    assert!(
        err.to_string()
            .starts_with("invalid value 'foo' for 'port' — from config.toml, line 12"),
        "got: {}",
        err.to_string()
    );
}

#[test]
fn invalid_error_names_the_env_var() {
    let err = LayeredError::Invalid {
        field: "port".to_string(),
        value: "banana".to_string(),
        layer: SourceLayer::EnvVar("MYAPP_PORT".to_string()),
        message: "invalid digit".to_string(),
    };
    assert!(
        err.to_string()
            .contains("from environment variable MYAPP_PORT"),
        "got: {}",
        err.to_string()
    );
}

#[test]
fn io_error_names_the_path() {
    let err = LayeredError::Io {
        path: "config.toml".to_string(),
        source: std::io::Error::new(std::io::ErrorKind::PermissionDenied, "denied"),
    };
    assert!(err.to_string().contains("config.toml"), "got: {}", err.to_string());
}

#[test]
fn env_from_iter_and_get() {
    let env = Env::from_iter([("A".to_string(), "1".to_string())]);
    assert_eq!(env.get("A"), Some("1"));
    assert_eq!(env.get("B"), None);
    assert_eq!(Env::empty().get("A"), None);
}
