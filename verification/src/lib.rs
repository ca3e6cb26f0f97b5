//! A verified core for a command-line front-end around a flake-based package
//! tool: target-reference parsing and canonicalization, project-root
//! discovery, typed output-stream collection, and interpretation of the
//! tool's structured `show` output.

pub mod cli;
pub mod derivation;
pub mod flake;
pub mod process;
pub mod show;
pub mod strutil;
