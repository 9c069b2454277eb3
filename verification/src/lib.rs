//! Verified core of the Arcella modular WebAssembly runtime.
//!
//! - [`arcella_types`]: shared data types (module identifiers, manifests,
//!   interface lists, configuration values, ALME protocol).
//! - [`arcella_core`]: engine feature profiles, configuration merging,
//!   file-name rules and runtime state.
//! - [`arcella_daemon`]: the daemon's log buffer and tracing settings.
//! - [`arcella_cli`]: the command-line client's request and output rules.

pub mod text;
pub mod assoc;
pub mod arcella_types;
pub mod arcella_core;
pub mod paths;
pub mod arcella_cli;
pub mod arcella_daemon;
