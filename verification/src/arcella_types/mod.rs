//! Data types shared by the Arcella daemon and its clients.

pub mod error;
pub mod module_id;
pub mod pattern;
pub mod config;
pub mod alme;
pub mod spec;
pub mod interface_list;
pub mod manifest;
