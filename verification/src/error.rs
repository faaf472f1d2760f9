//! Which layer supplied a value, and the errors that loading configuration reports.

use vstd::prelude::*;
use crate::text::{decimal, push_decimal};
use vstd::string::StringExecFns;

verus! {

#[verifier::external_type_specification]
#[verifier::external_body]
pub struct ExIoError(std::io::Error);

/// Which layer supplied a configuration value.
///
/// Only the layers whose values this library decodes appear here: a malformed
/// command-line argument is clap's to report, as [`LayeredError::Cli`].
#[derive(Debug, Clone, PartialEq, Eq, Hash)]
#[non_exhaustive]
pub enum SourceLayer {
    /// An environment variable, holding the variable's name.
    EnvVar(String),
    /// A configuration file, holding its path and the 1-based line number.
    ConfigFile {
        /// Path to the configuration file.
        path: String,
        /// 1-based line number the value appears on.
        line: usize,
    },
}

impl SourceLayer {
    /// How the layer is named in messages.
    pub open spec fn describe(&self) -> Seq<char> {
        match self {
            SourceLayer::EnvVar(var) => "environment variable "@ + var@,
            SourceLayer::ConfigFile { path, line } => path@ + ", line "@ + decimal(*line as nat),
        }
    }

    /// Renders the layer for a message, such as `environment variable MYAPP_PORT`
    /// or `config.toml, line 12`.
    pub fn to_string(&self) -> (r: String)
        ensures
            r@ == self.describe(),
    {
        match self {
            SourceLayer::EnvVar(var) => {
                let mut s = String::from_str("environment variable ");
                s.append(var.as_str());
                s
            },
            SourceLayer::ConfigFile { path, line } => {
                let mut s = path.clone();
                s.append(", line ");
                push_decimal(&mut s, *line);
                s
            },
        }
    }
}

} // verus!

verus! {

/// The text `std::io::Error` displays for `e`.
///
/// Wraps `<std::io::Error as Display>::fmt` through `to_string`; what the text
/// says depends on the operating system's error, so nothing is stated of it.
#[verifier::external_body]
fn io_error_text(e: &std::io::Error) -> String {
    e.to_string()
}

/// Errors produced while loading layered configuration.
///
/// Every variant names the layer it came from, so a bad value is never
/// reported as an anonymous failure after the merge.
#[derive(Debug)]
pub enum LayeredError {
    /// Command-line parsing failed, or clap was asked to display help or
    /// version; holds the message clap rendered.
    Cli(String),
    /// The configuration file exists but could not be read.
    ///
    /// A *missing* config file is not an error; the layer is simply skipped.
    Io {
        /// Path to the file that could not be read.
        path: String,
        /// The underlying I/O error.
        source: std::io::Error,
    },
    /// The configuration file is not valid TOML.
    Parse {
        /// Path to the offending file.
        path: String,
        /// 1-based line number of the syntax error.
        line: usize,
        /// 1-based column number of the syntax error.
        column: usize,
        /// Message from the TOML parser.
        message: String,
    },
    /// A layer supplied a value that could not be decoded into the field's type.
    Invalid {
        /// Name of the field that could not be populated.
        field: String,
        /// The offending value, as written in the source.
        value: String,
        /// The layer that supplied the value.
        layer: SourceLayer,
        /// Why decoding failed, e.g. `invalid type: string, expected u16`.
        message: String,
    },
}

/// The start of the message for an unreadable file.
pub open spec fn io_message_prefix(path: Seq<char>) -> Seq<char> {
    "could not read config file '"@ + path + "': "@
}

/// The message for a file that is not valid TOML.
pub open spec fn parse_message(path: Seq<char>, line: nat, column: nat, message: Seq<char>) -> Seq<char> {
    "could not parse config file '"@ + path + "' at line "@ + decimal(line) + ", column "@
        + decimal(column) + ": "@ + message
}

/// The message for a value that could not be decoded, naming the layer that supplied it.
pub open spec fn invalid_message(field: Seq<char>, value: Seq<char>, layer: SourceLayer, message: Seq<char>) -> Seq<char> {
    "invalid value '"@ + value + "' for '"@ + field + "' \u{2014} from "@ + layer.describe() + " ("@
        + message + ")"@
}

impl LayeredError {
    /// Renders the error as a message that names its source.
    pub fn to_string(&self) -> (r: String)
        ensures
            match self {
                LayeredError::Cli(m) => r@ == m@,
                LayeredError::Io { path, .. } => io_message_prefix(path@).is_prefix_of(r@),
                LayeredError::Parse { path, line, column, message } =>
                    r@ == parse_message(path@, *line as nat, *column as nat, message@),
                LayeredError::Invalid { field, value, layer, message } =>
                    r@ == invalid_message(field@, value@, *layer, message@),
            },
    {
        match self {
            LayeredError::Cli(m) => m.clone(),
            LayeredError::Io { path, source } => {
                let mut s = String::from_str("could not read config file '");
                s.append(path.as_str());
                s.append("': ");
                let ghost prefix = s@;
                let text = io_error_text(source);
                s.append(text.as_str());
                proof {
                    assert(prefix =~= io_message_prefix(path@));
                    assert(s@.subrange(0, prefix.len() as int) =~= prefix);
                }
                s
            },
            LayeredError::Parse { path, line, column, message } => {
                let mut s = String::from_str("could not parse config file '");
                s.append(path.as_str());
                s.append("' at line ");
                push_decimal(&mut s, *line);
                s.append(", column ");
                push_decimal(&mut s, *column);
                s.append(": ");
                s.append(message.as_str());
                proof {
                    assert(s@ =~= parse_message(path@, *line as nat, *column as nat, message@));
                }
                s
            },
            LayeredError::Invalid { field, value, layer, message } => {
                let mut s = String::from_str("invalid value '");
                s.append(value.as_str());
                s.append("' for '");
                s.append(field.as_str());
                s.append("' \u{2014} from ");
                let described = layer.to_string();
                s.append(described.as_str());
                s.append(" (");
                s.append(message.as_str());
                s.append(")");
                proof {
                    assert(s@ =~= invalid_message(field@, value@, *layer, message@));
                }
                s
            },
        }
    }
}

} // verus!
