//! Errors of the shared Arcella types.
use vstd::prelude::*;

verus! {

/// Errors raised while building or validating module identifiers and manifests.
#[derive(Debug, Clone, PartialEq, Eq)]
pub enum ArcellaError {
    /// Invalid or missing module manifest.
    Manifest(String),
    /// Invalid module ID format.
    InvalidModuleIdFormat(String),
    /// Invalid module ID name.
    InvalidModuleIdName(String),
    /// Invalid module ID version.
    InvalidModuleIdVersion(String),
}

impl ArcellaError {
    /// The human-readable message of this error.
    pub fn message(&self) -> (r: String)
        ensures
            r@ == self.spec_message(),
    {
        let (prefix, detail) = match self {
            ArcellaError::Manifest(s) => ("Manifest error: ", s),
            ArcellaError::InvalidModuleIdFormat(s) => ("Invalid module ID format: ", s),
            ArcellaError::InvalidModuleIdName(s) => ("Invalid module ID name: ", s),
            ArcellaError::InvalidModuleIdVersion(s) => ("Invalid module ID version: ", s),
        };
        let mut r = String::from_str(prefix);
        r.append(detail.as_str());
        r
    }

    /// What [`ArcellaError::message`] returns.
    pub open spec fn spec_message(&self) -> Seq<char> {
        match self {
            ArcellaError::Manifest(s) => "Manifest error: "@ + s@,
            ArcellaError::InvalidModuleIdFormat(s) => "Invalid module ID format: "@ + s@,
            ArcellaError::InvalidModuleIdName(s) => "Invalid module ID name: "@ + s@,
            ArcellaError::InvalidModuleIdVersion(s) => "Invalid module ID version: "@ + s@,
        }
    }
}

/// Result type of the shared Arcella types.
pub type ArcellaResult<T> = Result<T, ArcellaError>;

} // verus!
