//! The merge engine: which layer supplies a field, and resolving the field from it.
//!
//! Precedence: an explicit command-line flag beats an environment variable,
//! which beats the config file, which beats the default.

use vstd::prelude::*;
use crate::env::Env;
use crate::error::{LayeredError, SourceLayer};
use crate::source::{env_outcome, expression_decodes, from_env, law_env_result_is_a_decoding_of_the_value, plain_decodes, ConfigFile};
use serde::de::DeserializeOwned;

verus! {

/// The layers a field's value can come from.
#[derive(Debug, Clone, Copy, PartialEq, Eq)]
pub enum Layer {
    /// A flag the user typed (or that clap read from its own `env` attribute).
    CommandLine,
    /// An environment variable.
    Environment,
    /// The config file.
    File,
    /// Whatever clap defaulted to.
    Default,
}

/// Where clap says an argument's value came from.
#[derive(Debug, Clone, Copy, PartialEq, Eq)]
pub enum ArgSource {
    /// clap filled in the argument's default.
    DefaultValue,
    /// clap read the value from the environment variable named by the
    /// argument's own `env` attribute.
    EnvVariable,
    /// The user typed the argument on the command line.
    CommandLine,
}

/// Whether the user actually supplied an argument, as opposed to clap filling
/// in its default: a value clap read through its own `env` attribute counts,
/// so that it keeps beating the config file.
pub open spec fn explicit_source(source: Option<ArgSource>) -> bool {
    match source {
        Some(ArgSource::CommandLine) | Some(ArgSource::EnvVariable) => true,
        _ => false,
    }
}

/// Did the user actually supply this argument, as opposed to clap filling in a
/// default? `source` is what clap reports for it, `None` when it has no value.
pub fn counts_as_explicit(source: Option<ArgSource>) -> (r: bool)
    ensures
        r == explicit_source(source),
{
    match source {
        Some(ArgSource::CommandLine) | Some(ArgSource::EnvVariable) => true,
        _ => false,
    }
}

/// Position in the precedence order: lower wins.
pub open spec fn rank(l: Layer) -> nat {
    match l {
        Layer::CommandLine => 0,
        Layer::Environment => 1,
        Layer::File => 2,
        Layer::Default => 3,
    }
}

/// Whether layer `l` has a value to offer for the field.
pub open spec fn supplies(l: Layer, cli_explicit: bool, env_value: Option<Seq<char>>, file_sets: bool) -> bool {
    match l {
        Layer::CommandLine => cli_explicit,
        Layer::Environment => env_value is Some,
        Layer::File => file_sets,
        Layer::Default => true,
    }
}

/// The layer that supplies the field.
pub open spec fn winning_layer(cli_explicit: bool, env_value: Option<Seq<char>>, file_sets: bool) -> Layer {
    if cli_explicit {
        Layer::CommandLine
    } else if env_value is Some {
        Layer::Environment
    } else if file_sets {
        Layer::File
    } else {
        Layer::Default
    }
}

/// The value of the field's environment variable, if it has one and it is set.
pub open spec fn env_value(env_var: Option<&str>, env: Map<Seq<char>, Seq<char>>) -> Option<Seq<char>> {
    match env_var {
        Some(var) => if env.contains_key(var@) { Some(env[var@]) } else { None },
        None => None,
    }
}

/// Whether the field's config file sets it.
pub open spec fn file_sets(file: Option<&ConfigFile>, field: Seq<char>) -> bool {
    match file {
        Some(f) => f.sets(field),
        None => false,
    }
}

/// The layer that the field's value comes from: the first of command line,
/// environment, config file and default that has one.
///
/// `env_var` is `None` when the field opts out of the environment layer (or no
/// prefix is configured); `file` is `None` when it opts out of the file layer
/// (or no file is configured or found).
pub fn select_layer(field: &str, env_var: Option<&str>, env: &Env, file: Option<&ConfigFile>, cli_explicit: bool) -> (r: Layer)
    ensures
        r == winning_layer(cli_explicit, env_value(env_var, env@), file_sets(file, field@)),
{
    if cli_explicit {
        return Layer::CommandLine;
    }
    if let Some(var) = env_var {
        if env.get(var).is_some() {
            return Layer::Environment;
        }
    }
    if let Some(f) = file {
        if f.contains(field) {
            return Layer::File;
        }
    }
    Layer::Default
}

/// The layer that wins is the highest-ranked one that has a value, and it always
/// has one: a flag the user typed beats the environment, the environment beats
/// the config file, and the config file beats the default.
pub proof fn law_highest_supplying_layer_wins(cli_explicit: bool, env_value: Option<Seq<char>>, file_sets: bool)
    ensures
        supplies(winning_layer(cli_explicit, env_value, file_sets), cli_explicit, env_value, file_sets),
        forall|l: Layer| rank(l) < rank(winning_layer(cli_explicit, env_value, file_sets))
            ==> !supplies(l, cli_explicit, env_value, file_sets),
{
}

/// What resolving a field gives: `cli_value` when the flag was typed or no
/// layer has a value, else the outcome of decoding the winning layer's value.
pub open spec fn resolve_outcome<T: DeserializeOwned>(
    field: Seq<char>,
    env_var: Option<&str>,
    env: Map<Seq<char>, Seq<char>>,
    file: Option<&ConfigFile>,
    cli_explicit: bool,
    cli_value: T,
    r: Result<T, LayeredError>,
) -> bool {
    match winning_layer(cli_explicit, env_value(env_var, env), file_sets(file, field)) {
        Layer::CommandLine | Layer::Default => r == Ok::<T, LayeredError>(cli_value),
        Layer::Environment => env_outcome(env_var->0@, field, env[env_var->0@], r),
        Layer::File => file->0.file_outcome(field, r),
    }
}

/// When no flag was typed and the field's environment variable is set, the
/// result is decoded from that variable's value, whether or not a config file
/// is present and whatever it sets: a success is an outcome of decoding the
/// value (as a TOML value expression, or else as a plain string), never the
/// command-line default, and a failure is reported against the variable.
pub proof fn law_environment_value_beats_file_and_default<T: DeserializeOwned>(
    field: Seq<char>,
    var: &str,
    env: Map<Seq<char>, Seq<char>>,
    file: Option<&ConfigFile>,
    cli_value: T,
    r: Result<T, LayeredError>,
)
    requires
        env.contains_key(var@),
        resolve_outcome(field, Some(var), env, file, false, cli_value, r),
    ensures
        r matches Ok(x) ==> expression_decodes(env[var@], Some(x))
            || (expression_decodes(env[var@], None::<T>) && plain_decodes(env[var@], Ok::<T, Seq<char>>(x))),
        r matches Err(e) ==> expression_decodes(env[var@], None::<T>) && match e {
            LayeredError::Invalid { value, layer: SourceLayer::EnvVar(v), .. } => v@ == var@ && value@ == env[var@],
            _ => false,
        },
{
    law_env_result_is_a_decoding_of_the_value(var@, field, env[var@], r);
}

/// Resolve one field across every layer.
///
/// `cli_value` is what clap produced for the field; it is returned when the
/// flag was typed explicitly (even when it equals the default) and when no
/// lower layer has a value.
///
/// # Errors
///
/// [`LayeredError::Invalid`] if the winning layer supplies a value that cannot
/// be decoded into `T`, attributed to that layer.
pub fn resolve<T: DeserializeOwned>(
    field: &str,
    env_var: Option<&str>,
    env: &Env,
    file: Option<&ConfigFile>,
    cli_explicit: bool,
    cli_value: T,
) -> (r: Result<T, LayeredError>)
    ensures
        resolve_outcome(field@, env_var, env@, file, cli_explicit, cli_value, r),
{
    match select_layer(field, env_var, env, file, cli_explicit) {
        Layer::CommandLine | Layer::Default => Ok(cli_value),
        Layer::Environment => {
            let var = env_var.unwrap();
            let raw = env.get(var).unwrap();
            from_env(var, field, raw)
        },
        Layer::File => {
            let f = file.unwrap();
            f.get(field).unwrap()
        },
    }
}

} // verus!
