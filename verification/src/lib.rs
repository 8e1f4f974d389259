//! Compile-time documentation inclusion helpers.
//!
//! The library holds the text transforms and argument grammars behind a
//! pair of documentation-inclusion macros: a hide transform that prefixes
//! each line of a snippet with the doctest hide marker `# `, a key-value
//! argument parser (`path = "..."`, `toml = { ... }`, `hidden = true`),
//! and a positional argument parser (`"path", context: { ... }`).

pub mod args;
pub mod derive_args;
pub mod dochide;
pub mod errors;
pub mod person;
pub mod text;
pub mod toml_data;
