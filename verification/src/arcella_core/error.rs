//! Errors of the runtime core.
use vstd::prelude::*;

verus! {

/// Errors raised by the runtime core.
#[derive(Debug, Clone, PartialEq, Eq)]
pub enum ArcellaError {
    /// The configured memory limit is below the reasonable minimum (in pages).
    MemoryTooSmall(u32),
    /// The configured memory limit is above the reasonable maximum (in pages).
    MemoryTooLarge(u32),
    /// An internal consistency failure, with its message.
    Internal(String),
    /// A configuration error, with its message.
    Config(String),
    /// An I/O failure, with its message.
    Io(String),
    /// An I/O failure on a path: its message and the path.
    IoWithPath { source: String, path: String },
    /// A module of this identifier (`name@version`) is already installed.
    ModuleAlreadyInstalled(String),
}

/// Result type of the runtime core.
pub type ArcellaResult<T> = Result<T, ArcellaError>;

} // verus!
