//! Launch a command in an environment augmented with variables read from
//! TOML files: command-line scanning, scalar coercion, per-file loading and
//! last-write-wins merging.
pub mod args;
pub mod coerce;
pub mod document;
pub mod env_map;
pub mod merge;
pub mod nesting;
