# clap_layers

Layered configuration for clap programs, verified with Verus: an explicit
command-line flag beats an environment variable, which beats a config file,
which beats a built-in default — and a flag the user typed wins even when it
equals the default.

## Layout

- `src/merge.rs` — the merge engine: which layer supplies a field
  (`select_layer`), and resolving the field from it (`resolve`).
- `src/source.rs` — the config-file layer (`ConfigFile`, parsed with `toml`)
  and the environment layer (`from_env`).
- `src/env.rs` — `Env`, a snapshot of environment variables.
- `src/error.rs` — `SourceLayer` and `LayeredError`, whose messages name the
  layer a bad value came from.
- `src/position.rs` — byte offset to 1-based line and column (in characters).
- `src/derive/` — the logic of `#[derive(Layered)]`: the model of a struct
  definition read with `syn` (`syntax.rs`, `model.rs`), checking the
  `#[layered(...)]` options (`options.rs`), and writing the impl (`expand.rs`).
- `src/text.rs` — small string helpers.
- `app/` — what touches the process: reading the real environment and the
  config file from disk, clap's argument matches, and the `Layered` trait.
