//! Layered configuration for command-line programs: an explicit flag beats an
//! environment variable, which beats a config file, which beats a built-in default.

pub mod position;
pub mod text;
pub mod error;
pub mod env;
pub mod source;
pub mod merge;
pub mod derive;
