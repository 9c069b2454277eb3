//! Where the runtime keeps its files: the storage directories and the ALME
//! socket, resolved against the installation's base directory.
use vstd::prelude::*;

use crate::arcella_core::config::{path_value_error, ArcellaConfig, ARCELLA_PREFIX};
use crate::arcella_core::error::ArcellaError;
use crate::arcella_types::config::{config_entries, ConfigValue};
use crate::assoc::lookup;
use crate::paths::{path_join, spec_path_join};

verus! {

/// The string stored at `arcella.<suffix>`, if there is one.
pub open spec fn config_path(config: ArcellaConfig, suffix: Seq<char>) -> Option<Seq<char>> {
    match lookup(config_entries(config.config_values), ARCELLA_PREFIX@ + suffix) {
        Some((ConfigValue::String(s), _)) => Some(s@),
        _ => None,
    }
}

/// `r` reports that `arcella.<suffix>` is missing or not a string.
pub open spec fn reports_missing(r: ArcellaError, suffix: Seq<char>) -> bool {
    r matches ArcellaError::Internal(m) && m@ == path_value_error(ARCELLA_PREFIX@ + suffix)
}

/// The storage directories of the runtime.
#[derive(Debug, Clone, PartialEq, Eq)]
pub struct StorageDirs {
    pub cache_dir: String,
    pub metadata_dir: String,
    pub modules_dir: String,
}

/// `dir` resolved against the base directory of `config`.
pub open spec fn resolved(config: ArcellaConfig, dir: Seq<char>) -> Seq<char> {
    spec_path_join(config.base_dir@, dir)
}

/// The storage directories: `cache.dir`, `metadata.dir` and `modules.dir`
/// of the configuration, each under the base directory; the first missing
/// setting, in that order, is reported.
pub fn storage_dirs(config: &ArcellaConfig) -> (r: Result<StorageDirs, ArcellaError>)
    ensures
        config_path(*config, "cache.dir"@) is None ==> (r matches Err(e) && reports_missing(
            e,
            "cache.dir"@,
        )),
        config_path(*config, "cache.dir"@) is Some && config_path(*config, "metadata.dir"@) is None
            ==> (r matches Err(e) && reports_missing(e, "metadata.dir"@)),
        config_path(*config, "cache.dir"@) is Some && config_path(*config, "metadata.dir"@) is Some
            && config_path(*config, "modules.dir"@) is None ==> (r matches Err(e)
            && reports_missing(e, "modules.dir"@)),
        r matches Ok(d) ==> {
            &&& config_path(*config, "cache.dir"@) matches Some(c) && d.cache_dir@ == resolved(
                *config,
                c,
            )
            &&& config_path(*config, "metadata.dir"@) matches Some(m) && d.metadata_dir@
                == resolved(*config, m)
            &&& config_path(*config, "modules.dir"@) matches Some(m) && d.modules_dir@ == resolved(
                *config,
                m,
            )
        },
        (config_path(*config, "cache.dir"@) is Some && config_path(*config, "metadata.dir"@) is Some
            && config_path(*config, "modules.dir"@) is Some) ==> r is Ok,
{
    let cache = match config.extract_path_value("cache.dir") {
        Ok(p) => p,
        Err(e) => {
            return Err(e);
        },
    };
    let cache_dir = path_join(config.base_dir.as_str(), cache.as_str());
    let metadata = match config.extract_path_value("metadata.dir") {
        Ok(p) => p,
        Err(e) => {
            return Err(e);
        },
    };
    let metadata_dir = path_join(config.base_dir.as_str(), metadata.as_str());
    let modules = match config.extract_path_value("modules.dir") {
        Ok(p) => p,
        Err(e) => {
            return Err(e);
        },
    };
    let modules_dir = path_join(config.base_dir.as_str(), modules.as_str());
    Ok(StorageDirs { cache_dir, metadata_dir, modules_dir })
}

/// Where the ALME socket lives: `alme.socket_path` of the configuration,
/// under the base directory.
pub fn alme_socket_path(config: &ArcellaConfig) -> (r: Result<String, ArcellaError>)
    ensures
        match config_path(*config, "alme.socket_path"@) {
            Some(p) => r matches Ok(s) && s@ == resolved(*config, p),
            None => r matches Err(e) && reports_missing(e, "alme.socket_path"@),
        },
{
    let p = match config.extract_path_value("alme.socket_path") {
        Ok(p) => p,
        Err(e) => {
            return Err(e);
        },
    };
    Ok(path_join(config.base_dir.as_str(), p.as_str()))
}

/// The module cache (no state yet).
#[derive(Debug, Clone, Copy, PartialEq, Eq)]
pub struct ModuleCache {}

impl ModuleCache {
    /// A cache for the runtime configured by `config`.
    pub fn new(config: &ArcellaConfig) -> (r: Result<ModuleCache, ArcellaError>)
        ensures
            r is Ok,
    {
        Ok(ModuleCache {})
    }
}

} // verus!
