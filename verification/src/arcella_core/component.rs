//! Component introspection: its errors and the manifest read from a
//! component binary.
use vstd::prelude::*;

use crate::arcella_types::error::ArcellaError as TypeError;
use crate::arcella_types::interface_list::InterfaceList;
use crate::arcella_types::manifest::{ComponentCapabilities, ComponentManifest};
use crate::arcella_core::fs::{
    base_name_strip_ext, no_file_name_message, spec_strip_ext, wrong_ext_message, ArcellaUtilsError,
};
use crate::arcella_types::module_id::{
    module_id_shape, spec_parses_as_module_id, split_at_first_at, ModuleId,
};
use crate::paths::spec_file_name;
use crate::text::all_ascii;

verus! {

/// Errors of component introspection.
#[derive(Debug, Clone, PartialEq, Eq)]
pub enum ArcellaWasmtimeError {
    /// The component could not be introspected, with the reason.
    Introspection(String),
    /// An I/O failure, with its message.
    Io(String),
    /// An I/O failure on a path: its message and the path.
    IoWithPath { source: String, path: String },
    /// An error of the shared types (identifiers, manifests).
    ArcellaTypeError(TypeError),
    /// An invalid or missing manifest, with the reason.
    Manifest(String),
    /// An error of the WebAssembly engine, with its message.
    Wasmtime(String),
}

impl From<String> for ArcellaWasmtimeError {
    fn from(s: String) -> (r: Self) {
        ArcellaWasmtimeError::Introspection(s)
    }
}

impl vstd::std_specs::convert::FromSpecImpl<String> for ArcellaWasmtimeError {
    open spec fn obeys_from_spec() -> bool {
        true
    }

    open spec fn from_spec(s: String) -> Self {
        ArcellaWasmtimeError::Introspection(s)
    }
}

impl From<TypeError> for ArcellaWasmtimeError {
    fn from(e: TypeError) -> (r: Self) {
        ArcellaWasmtimeError::ArcellaTypeError(e)
    }
}

impl vstd::std_specs::convert::FromSpecImpl<TypeError> for ArcellaWasmtimeError {
    open spec fn obeys_from_spec() -> bool {
        true
    }

    open spec fn from_spec(e: TypeError) -> Self {
        ArcellaWasmtimeError::ArcellaTypeError(e)
    }
}

/// The module identifier text of a component binary at `wasm_path`: its
/// file name without the `.wasm` extension, for example `http-logger@0.1.0`
/// for `/x/http-logger@0.1.0.wasm`.
pub open spec fn wasm_id_text(wasm_path: Seq<char>) -> Option<Seq<char>> {
    match spec_file_name(wasm_path) {
        Some(f) => spec_strip_ext(f, "wasm"@),
        None => None,
    }
}

/// The manifest of the component at `wasm_path`, read from the binary.
///
/// Name and version are not stored in a component binary: they are taken
/// from the file name, which must read `name@version.wasm` (the text is
/// parsed as by [`ModuleId::from_str`]). The binary carries no description,
/// interfaces or capabilities yet; a `component.toml` beside it supplies
/// them.
pub fn component_manifest_from_wasm(wasm_path: &str) -> (r: Result<
    ComponentManifest,
    ArcellaWasmtimeError,
>)
    ensures
        match spec_file_name(wasm_path@) {
            None => r matches Err(ArcellaWasmtimeError::Manifest(m)) && m@ == no_file_name_message(),
            Some(f) => match spec_strip_ext(f, "wasm"@) {
                None => r matches Err(ArcellaWasmtimeError::Manifest(m)) && m@ == wrong_ext_message(
                    f,
                    "wasm"@,
                ),
                Some(b) => {
                    &&& r is Ok <==> spec_parses_as_module_id(b)
                    &&& r matches Ok(m) ==> {
                        &&& split_at_first_at(b) == Some((m.id.name@, m.id.version@))
                        &&& m.description is None
                        &&& m.exports@.dom() == Set::<Seq<char>>::empty()
                        &&& m.imports@.dom() == Set::<Seq<char>>::empty()
                        &&& m.capabilities.is_empty_spec()
                    }
                    &&& r matches Err(e) ==> e is ArcellaTypeError
                    &&& all_ascii(b) && !module_id_shape(b) ==> (r matches Err(
                        ArcellaWasmtimeError::ArcellaTypeError(TypeError::InvalidModuleIdFormat(t)),
                    ) && t@ == b)
                },
            },
        },
{
    let base = match base_name_strip_ext(wasm_path, "wasm") {
        Ok(b) => b,
        Err(ArcellaUtilsError::InvalidArgument { message }) => {
            return Err(ArcellaWasmtimeError::Manifest(message));
        },
        Err(_) => {
            return Err(ArcellaWasmtimeError::Manifest(String::new()));
        },
    };
    let id = match ModuleId::from_str(base.as_str()) {
        Ok(id) => id,
        Err(e) => {
            return Err(ArcellaWasmtimeError::ArcellaTypeError(e));
        },
    };
    Ok(
        ComponentManifest {
            id,
            description: None,
            exports: InterfaceList::default(),
            imports: InterfaceList::default(),
            capabilities: ComponentCapabilities::default(),
        },
    )
}

} // verus!
