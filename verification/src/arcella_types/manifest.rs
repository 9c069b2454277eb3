//! The component manifest: what a component is (`name@version`), what it
//! provides and requires, and what it needs from its environment.
use vstd::prelude::*;

use crate::arcella_types::error::ArcellaError;
use crate::arcella_types::interface_list::InterfaceList;
use crate::arcella_types::module_id::{
    module_id_shape, spec_is_valid_name, spec_is_valid_simple_version, spec_parses_as_module_id,
    split_at_first_at, ModuleId,
};
use crate::arcella_types::pattern::{
    iface_plain, iface_versioned, regex_test, IFACE_PLAIN_PATTERN, IFACE_VERSIONED_PATTERN,
};
use crate::arcella_types::spec::ComponentItemSpec;
use crate::text::all_ascii;

verus! {

/// Resource limits of a component.
#[derive(Debug, Clone, PartialEq, Eq)]
pub struct ComponentResources {
    /// Maximum memory in bytes; `None` leaves the runtime's policy.
    pub memory_max: Option<u64>,
    /// Relative CPU weight.
    pub cpu_shares: Option<u32>,
}

/// Security and isolation requirements of a component.
#[derive(Debug, Clone, PartialEq, Eq)]
pub struct ComponentSecurity {
    /// Whether the component must run inside a trusted execution environment.
    pub requires_tee: bool,
    /// Allowed system calls (empty: no restriction).
    pub allowed_syscalls: Vec<String>,
}

/// Capabilities and environmental requirements of a component; all opt-in.
#[derive(Debug, Clone, PartialEq, Eq)]
pub struct ComponentCapabilities {
    /// Required WASI interfaces.
    pub wasi: Vec<String>,
    /// File-system paths the component accesses.
    pub filesystem: Vec<String>,
    /// Network access patterns.
    pub network: Vec<String>,
    /// Required environment variables.
    pub environment: Vec<String>,
    /// CPU and memory limits.
    pub resources: ComponentResources,
    /// Security requirements.
    pub security: ComponentSecurity,
}

impl Default for ComponentResources {
    fn default() -> (r: Self)
        ensures
            r.memory_max is None,
            r.cpu_shares is None,
    {
        ComponentResources { memory_max: None, cpu_shares: None }
    }
}

impl Default for ComponentSecurity {
    fn default() -> (r: Self)
        ensures
            !r.requires_tee,
            r.allowed_syscalls@.len() == 0,
    {
        ComponentSecurity { requires_tee: false, allowed_syscalls: Vec::new() }
    }
}

impl ComponentCapabilities {
    /// No special needs: every list empty, no limits, no security demand.
    pub open spec fn is_empty_spec(&self) -> bool {
        &&& self.wasi@.len() == 0
        &&& self.filesystem@.len() == 0
        &&& self.network@.len() == 0
        &&& self.environment@.len() == 0
        &&& self.resources.memory_max is None
        &&& self.resources.cpu_shares is None
        &&& !self.security.requires_tee
        &&& self.security.allowed_syscalls@.len() == 0
    }
}

impl Default for ComponentCapabilities {
    fn default() -> (r: Self)
        ensures
            r.is_empty_spec(),
    {
        ComponentCapabilities {
            wasi: Vec::new(),
            filesystem: Vec::new(),
            network: Vec::new(),
            environment: Vec::new(),
            resources: ComponentResources::default(),
            security: ComponentSecurity::default(),
        }
    }
}

/// A portable descriptor of a WebAssembly component: its identity, the
/// interfaces it exports and imports, and its capabilities.
#[derive(Debug, Clone, PartialEq, Eq)]
pub struct ComponentManifest {
    /// Canonical identifier `name@version`.
    pub id: ModuleId,
    /// Optional short description.
    pub description: Option<String>,
    /// Interfaces the component provides.
    pub exports: InterfaceList,
    /// Interfaces the component requires.
    pub imports: InterfaceList,
    /// Runtime capabilities and resource requirements.
    pub capabilities: ComponentCapabilities,
}

/// The three accepted shapes of a serialized manifest.
#[derive(Debug)]
pub enum ManifestInput {
    /// Only the identifier text `name@version`; everything else defaults.
    StringId(String),
    /// An object with an explicit `id`.
    Nested {
        id: ModuleId,
        description: Option<String>,
        exports: InterfaceList,
        imports: InterfaceList,
        capabilities: ComponentCapabilities,
    },
    /// A flat object with `name` and `version` (as in `component.toml`).
    Flat {
        name: String,
        version: String,
        description: Option<String>,
        exports: InterfaceList,
        imports: InterfaceList,
        capabilities: ComponentCapabilities,
    },
}

/// `s` is a well-formed interface reference: `namespace:interface@version`
/// or `namespace:interface`.
pub open spec fn interface_ok(s: Seq<char>) -> bool {
    iface_versioned(s) || iface_plain(s)
}

/// Every interface name of `m` is well formed.
pub open spec fn all_interfaces_ok(m: Map<Seq<char>, ComponentItemSpec>) -> bool {
    forall|k: Seq<char>| #[trigger] m.contains_key(k) ==> interface_ok(k)
}

/// `r` is the failure that reports the interface name `k` as malformed,
/// with the message prefix `what`.
pub open spec fn reports_interface(
    r: Result<(), ArcellaError>,
    what: Seq<char>,
    k: Seq<char>,
) -> bool {
    r matches Err(ArcellaError::Manifest(msg)) && msg@ == what + k
}

/// The message prefix for a malformed import.
pub open spec fn import_prefix() -> Seq<char> {
    "Invalid import interface format: "@
}

/// The message prefix for a malformed export.
pub open spec fn export_prefix() -> Seq<char> {
    "Invalid export interface format: "@
}

/// A string holding `prefix` followed by `rest`.
fn concat_text(prefix: &str, rest: &str) -> (r: String)
    ensures
        r@ == prefix@ + rest@,
{
    let mut r = String::from_str(prefix);
    r.append(rest);
    r
}

/// Checks the names of `list`; the first malformed one met is reported
/// with the message prefix `prefix`.
fn check_interfaces(list: &InterfaceList, prefix: &str) -> (r: Result<(), ArcellaError>)
    ensures
        r is Ok <==> all_interfaces_ok(list@),
        r is Err ==> exists|k: Seq<char>|
            #[trigger] list@.contains_key(k) && !interface_ok(k) && reports_interface(r, prefix@, k),
{
    let entries = list.iter();
    let mut i: usize = 0;
    while i < entries.len()
        invariant
            0 <= i <= entries.len(),
            forall|j: int| 0 <= j < i ==> interface_ok((#[trigger] entries@[j]).0@),
            forall|j: int| 0 <= j < entries@.len() ==> list@.contains_key(#[trigger] entries@[j].0@),
        decreases entries.len() - i,
    {
        if !ComponentManifest::validate_interface_format(entries[i].0.as_str()) {
            let r = Err(ArcellaError::Manifest(concat_text(prefix, entries[i].0.as_str())));
            assert(list@.contains_key(entries@[i as int].0@));
            return r;
        }
        i += 1;
    }
    assert forall|k: Seq<char>| #[trigger] list@.contains_key(k) implies interface_ok(k) by {
        let j = choose|j: int| 0 <= j < entries@.len() && (#[trigger] entries@[j]).0@ == k;
    }
    Ok(())
}

impl ComponentManifest {
    /// Checks that every import and export name is a well-formed interface
    /// reference. A malformed import is reported before any export.
    pub fn validate(&self) -> (r: Result<(), ArcellaError>)
        ensures
            r is Ok <==> all_interfaces_ok(self.imports@) && all_interfaces_ok(self.exports@),
            !all_interfaces_ok(self.imports@) ==> exists|k: Seq<char>|
                #[trigger] self.imports@.contains_key(k) && !interface_ok(k) && reports_interface(
                    r,
                    import_prefix(),
                    k,
                ),
            all_interfaces_ok(self.imports@) && !all_interfaces_ok(self.exports@) ==> exists|
                k: Seq<char>,
            |
                #[trigger] self.exports@.contains_key(k) && !interface_ok(k) && reports_interface(
                    r,
                    export_prefix(),
                    k,
                ),
    {
        let a = check_interfaces(&self.imports, "Invalid import interface format: ");
        if a.is_err() {
            return a;
        }
        check_interfaces(&self.exports, "Invalid export interface format: ")
    }

    /// Whether `s` is a WIT-style interface reference:
    /// `namespace:interface@version` (for example `wasi:http@0.2.0`) or
    /// `namespace:interface` (for example `my:custom`); the interface part
    /// may hold `/` (for example `wasi:cli/stdio`).
    pub fn validate_interface_format(s: &str) -> (r: bool)
        ensures
            r == interface_ok(s@),
    {
        regex_test(IFACE_VERSIONED_PATTERN, s) || regex_test(IFACE_PLAIN_PATTERN, s)
    }

    /// Builds a manifest from one of its three serialized shapes.
    ///
    /// - `StringId`: the identifier text is parsed as by
    ///   [`ModuleId::from_str`]; all else is empty.
    /// - `Nested`: the fields are taken as they are.
    /// - `Flat`: the identifier is built by [`ModuleId::new`] from `name` and
    ///   `version`.
    pub fn from_input(input: ManifestInput) -> (r: Result<ComponentManifest, ArcellaError>)
        ensures
            input matches ManifestInput::StringId(s) ==> {
                &&& r is Ok <==> spec_parses_as_module_id(s@)
                &&& r matches Ok(m) ==> {
                    &&& split_at_first_at(s@) == Some((m.id.name@, m.id.version@))
                    &&& m.description is None
                    &&& m.exports@.dom() == Set::<Seq<char>>::empty()
                    &&& m.imports@.dom() == Set::<Seq<char>>::empty()
                    &&& m.capabilities.is_empty_spec()
                }
                &&& all_ascii(s@) && !module_id_shape(s@) ==> (r matches Err(
                    ArcellaError::InvalidModuleIdFormat(t),
                ) && t@ == s@)
            },
            input matches ManifestInput::Nested { id, description, exports, imports, capabilities }
                ==> r == Ok::<_, ArcellaError>(
                ComponentManifest { id, description, exports, imports, capabilities },
            ),
            input matches ManifestInput::Flat {
                name,
                version,
                description,
                exports,
                imports,
                capabilities,
            } ==> {
                &&& !spec_is_valid_name(name@) ==> r == Err::<ComponentManifest, _>(
                    ArcellaError::InvalidModuleIdName(name),
                )
                &&& spec_is_valid_name(name@) && !spec_is_valid_simple_version(version@) ==> r
                    == Err::<ComponentManifest, _>(ArcellaError::InvalidModuleIdVersion(version))
                &&& spec_is_valid_name(name@) && spec_is_valid_simple_version(version@) ==> r
                    == Ok::<_, ArcellaError>(
                    ComponentManifest {
                        id: ModuleId { name, version },
                        description,
                        exports,
                        imports,
                        capabilities,
                    },
                )
            },
    {
        match input {
            ManifestInput::StringId(s) => {
                let id = match ModuleId::from_str(s.as_str()) {
                    Ok(id) => id,
                    Err(e) => {
                        return Err(e);
                    },
                };
                Ok(
                    ComponentManifest {
                        id,
                        description: None,
                        exports: InterfaceList::default(),
                        imports: InterfaceList::default(),
                        capabilities: ComponentCapabilities::default(),
                    },
                )
            },
            ManifestInput::Nested { id, description, exports, imports, capabilities } => Ok(
                ComponentManifest { id, description, exports, imports, capabilities },
            ),
            ManifestInput::Flat { name, version, description, exports, imports, capabilities } => {
                let id = match ModuleId::new(name, version) {
                    Ok(id) => id,
                    Err(e) => {
                        return Err(e);
                    },
                };
                Ok(ComponentManifest { id, description, exports, imports, capabilities })
            },
        }
    }
}

} // verus!
