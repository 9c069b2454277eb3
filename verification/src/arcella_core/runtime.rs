//! The runtime's persistent state and the mutations recorded in its
//! write-ahead log.
use vstd::prelude::*;

use crate::arcella_core::error::ArcellaError;
use crate::arcella_types::manifest::ComponentManifest;
use crate::arcella_types::module_id::{spec_module_id_text, ModuleId};
use crate::assoc::{
    distinct_keys, find_index, insert_entry, keyed, lemma_find_key, lemma_insert_distinct,
    lemma_insert_keys, lemma_insert_twice, lookup, seq_insert,
};

verus! {

/// What a deployment file asks for: which module, in which group.
#[derive(Debug, Clone, PartialEq, Eq)]
pub struct DeploymentSpec {
    /// The module to deploy.
    pub module_id: ModuleId,
    /// The deployment group.
    pub group: String,
}

/// The state of the runtime: installed modules (keyed by `name@version`),
/// deployments (keyed by deployment ID) and running instances.
#[derive(Debug, Clone)]
pub struct ArcellaState {
    pub installed_modules: Vec<(String, ComponentManifest)>,
    pub deployments: Vec<(String, DeploymentSpec)>,
    pub running_instances: Vec<String>,
}

/// The key under which a manifest is installed: its `name@version`.
pub open spec fn manifest_key(m: ComponentManifest) -> Seq<char> {
    spec_module_id_text(m.id.name@, m.id.version@)
}

/// The key under which a deployment is recorded: its module's `name@version`.
pub open spec fn deployment_key(d: DeploymentSpec) -> Seq<char> {
    spec_module_id_text(d.module_id.name@, d.module_id.version@)
}

/// The installed modules after installing `m`.
pub open spec fn installed_after(
    s: Seq<(Seq<char>, ComponentManifest)>,
    m: ComponentManifest,
) -> Seq<(Seq<char>, ComponentManifest)> {
    seq_insert(s, manifest_key(m), m)
}

impl Default for ArcellaState {
    fn default() -> (r: Self)
        ensures
            r.installed_modules@.len() == 0,
            r.deployments@.len() == 0,
            r.running_instances@.len() == 0,
    {
        ArcellaState {
            installed_modules: Vec::new(),
            deployments: Vec::new(),
            running_instances: Vec::new(),
        }
    }
}

impl ArcellaState {
    /// Each installed module and each deployment is recorded once.
    pub open spec fn wf(&self) -> bool {
        &&& distinct_keys(keyed(self.installed_modules@))
        &&& distinct_keys(keyed(self.deployments@))
    }

    /// The manifest installed under `key` (`name@version`), if any.
    pub fn installed(&self, key: &str) -> (r: Option<&ComponentManifest>)
        ensures
            match r {
                Some(m) => lookup(keyed(self.installed_modules@), key@) == Some(*m),
                None => lookup(keyed(self.installed_modules@), key@) is None,
            },
    {
        proof {
            lemma_find_key(keyed(self.installed_modules@), key@);
        }
        match find_index(&self.installed_modules, key) {
            Some(i) => Some(&self.installed_modules[i].1),
            None => None,
        }
    }

    /// Whether a module is installed under `key`.
    pub fn is_installed(&self, key: &str) -> (r: bool)
        ensures
            r == lookup(keyed(self.installed_modules@), key@) is Some,
    {
        self.installed(key).is_some()
    }

    /// The number of installed modules.
    pub fn installed_count(&self) -> (r: usize)
        ensures
            r == self.installed_modules@.len(),
    {
        self.installed_modules.len()
    }

    /// The deployment recorded under `key`, if any.
    pub fn deployment(&self, key: &str) -> (r: Option<&DeploymentSpec>)
        ensures
            match r {
                Some(d) => lookup(keyed(self.deployments@), key@) == Some(*d),
                None => lookup(keyed(self.deployments@), key@) is None,
            },
    {
        proof {
            lemma_find_key(keyed(self.deployments@), key@);
        }
        match find_index(&self.deployments, key) {
            Some(i) => Some(&self.deployments[i].1),
            None => None,
        }
    }
}

/// Records the installation of a module.
#[derive(Debug, Clone)]
pub struct InstallModule {
    pub manifest: ComponentManifest,
}

/// Records a deployment.
#[derive(Debug, Clone)]
pub struct DeployModule {
    pub spec: DeploymentSpec,
}

/// A change of the runtime state, as written to the log.
#[derive(Debug, Clone)]
pub enum ArcellaMutation {
    InstallModule(InstallModule),
    DeployModule(DeployModule),
}

impl InstallModule {
    /// Adds the manifest to the installed modules under its `name@version`,
    /// replacing an earlier entry of that key.
    pub fn apply(self, state: &mut ArcellaState)
        ensures
            keyed(final(state).installed_modules@) == installed_after(
                keyed(old(state).installed_modules@),
                self.manifest,
            ),
            final(state).deployments == old(state).deployments,
            final(state).running_instances == old(state).running_instances,
            old(state).wf() ==> final(state).wf(),
    {
        let key = self.manifest.id.to_string();
        proof {
            if state.wf() {
                lemma_insert_distinct(keyed(state.installed_modules@), key@, self.manifest);
            }
        }
        insert_entry(&mut state.installed_modules, key, self.manifest);
    }
}

impl DeployModule {
    /// Adds the deployment under its module's `name@version`, replacing an
    /// earlier entry of that key.
    pub fn apply(self, state: &mut ArcellaState)
        ensures
            keyed(final(state).deployments@) == seq_insert(
                keyed(old(state).deployments@),
                deployment_key(self.spec),
                self.spec,
            ),
            final(state).installed_modules == old(state).installed_modules,
            final(state).running_instances == old(state).running_instances,
            old(state).wf() ==> final(state).wf(),
    {
        let key = self.spec.module_id.to_string();
        proof {
            if state.wf() {
                lemma_insert_distinct(keyed(state.deployments@), key@, self.spec);
            }
        }
        insert_entry(&mut state.deployments, key, self.spec);
    }
}

impl ArcellaMutation {
    /// Applies the mutation it holds.
    pub fn apply(self, state: &mut ArcellaState)
        ensures
            self matches ArcellaMutation::InstallModule(m) ==> {
                &&& keyed(final(state).installed_modules@) == installed_after(
                    keyed(old(state).installed_modules@),
                    m.manifest,
                )
                &&& final(state).deployments == old(state).deployments
            },
            self matches ArcellaMutation::DeployModule(d) ==> {
                &&& keyed(final(state).deployments@) == seq_insert(
                    keyed(old(state).deployments@),
                    deployment_key(d.spec),
                    d.spec,
                )
                &&& final(state).installed_modules == old(state).installed_modules
            },
            final(state).running_instances == old(state).running_instances,
            old(state).wf() ==> final(state).wf(),
    {
        match self {
            ArcellaMutation::InstallModule(m) => m.apply(state),
            ArcellaMutation::DeployModule(d) => d.apply(state),
        }
    }
}

/// After installing `m`, the manifest is found under its `name@version`,
/// and every other key finds what it found before.
pub proof fn law_install_then_lookup(
    s: Seq<(Seq<char>, ComponentManifest)>,
    m: ComponentManifest,
    other: Seq<char>,
)
    ensures
        lookup(installed_after(s, m), manifest_key(m)) == Some(m),
        other != manifest_key(m) ==> lookup(installed_after(s, m), other) == lookup(s, other),
{
    lemma_insert_keys(s, manifest_key(m), m);
}

/// Installing the same manifest twice leaves the state of one installation.
pub proof fn law_install_idempotent(s: Seq<(Seq<char>, ComponentManifest)>, m: ComponentManifest)
    ensures
        installed_after(installed_after(s, m), m) == installed_after(s, m),
{
    lemma_insert_twice(s, manifest_key(m), m);
}

/// Whether a module of this identifier is already present: recorded in
/// the state, or found on disk (`on_disk`).
pub open spec fn already_installed(state: ArcellaState, id: ModuleId, on_disk: bool) -> bool {
    on_disk || lookup(keyed(state.installed_modules@), spec_module_id_text(id.name@, id.version@))
        is Some
}

/// Refuses a module that is already recorded in `state` or already present
/// on disk (`on_disk`).
pub fn check_module_not_installed(state: &ArcellaState, id: &ModuleId, on_disk: bool) -> (r: Result<
    (),
    ArcellaError,
>)
    ensures
        r is Ok <==> !already_installed(*state, *id, on_disk),
        r matches Err(e) ==> (e matches ArcellaError::ModuleAlreadyInstalled(t) && t@
            == spec_module_id_text(id.name@, id.version@)),
{
    let key = id.to_string();
    if on_disk || state.is_installed(key.as_str()) {
        return Err(ArcellaError::ModuleAlreadyInstalled(key));
    }
    Ok(())
}

/// The state step of an installation: a module already present is refused
/// and the state is left as it is; otherwise its manifest is recorded and
/// its identifier returned.
pub fn record_installation(state: &mut ArcellaState, manifest: ComponentManifest, on_disk: bool) -> (r:
    Result<ModuleId, ArcellaError>)
    ensures
        r is Ok <==> !already_installed(*old(state), manifest.id, on_disk),
        r is Err ==> *final(state) == *old(state),
        r matches Ok(id) ==> {
            &&& id == manifest.id
            &&& keyed(final(state).installed_modules@) == installed_after(
                keyed(old(state).installed_modules@),
                manifest,
            )
            &&& final(state).deployments == old(state).deployments
        },
        old(state).wf() ==> final(state).wf(),
{
    match check_module_not_installed(state, &manifest.id, on_disk) {
        Err(e) => Err(e),
        Ok(()) => {
            let id = manifest.id.clone();
            let m = InstallModule { manifest };
            m.apply(state);
            Ok(id)
        },
    }
}

} // verus!
