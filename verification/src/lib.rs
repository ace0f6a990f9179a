//! Verified core of the `cargo fdep` subcommand: command-line flag scanning,
//! target classification and ordering, package selection, the analysis that
//! suggests better flags, and the plans for the `cargo check` and `rustc`
//! invocations that the driver runs.

pub mod error;
pub mod text;
pub mod target;
pub mod args;
pub mod metadata;
pub mod paths;
pub mod json;
pub mod analysis;
pub mod plan;
pub mod laws;
