//! The Arcella runtime core: engine features, configuration, file-name rules
//! and runtime state.

pub mod error;
pub mod engine;
pub mod config;
pub mod subtree;
pub mod runtime;
pub mod fs;
pub mod layout;
pub mod component;
pub mod collect;
pub mod toml_doc;
pub mod toml_types;
