//! Structured descriptions of the items a component imports or exports.
use vstd::prelude::*;

verus! {

/// What is known of one imported or exported interface item.
#[derive(Debug, Clone, PartialEq, Eq)]
pub enum ComponentItemSpec {
    /// An item known only by its name, with an optional note.
    Unknown { debug: Option<String> },
    /// A component function with named parameter types and result types.
    ComponentFunc { params: Vec<(String, String)>, results: Vec<String> },
}

impl ComponentItemSpec {
    /// The placeholder for an item declared by name alone (as in a TOML
    /// list of interface names): `Unknown` with no note.
    pub fn from_name(_name: &str) -> (r: Self)
        ensures
            r == (ComponentItemSpec::Unknown { debug: None }),
    {
        ComponentItemSpec::Unknown { debug: None }
    }
}

} // verus!
