//! WebAssembly engine-agnostic feature model: features, profiles, engine
//! configuration and compatibility reports.
use vstd::prelude::*;

use crate::arcella_types::manifest::ComponentManifest;
use crate::arcella_core::error::ArcellaError;
use crate::text::same_text;

verus! {

// =============================================================================
// 1. Typed feature list
// =============================================================================

/// An enumeration of all WebAssembly features known to Arcella.
#[derive(Debug, Clone, Copy, PartialEq, Eq, Structural, Hash)]
pub enum WasmFeature {
    /// WebAssembly Component Model (WIT interfaces, strong typing).
    ComponentModel,
    /// Reference types (`externref`, `funcref`).
    ReferenceTypes,
    /// Bulk memory operations (`memory.copy`, `memory.fill`, `memory.init`).
    BulkMemory,
    /// 128-bit SIMD instructions.
    Simd,
    /// WebAssembly Garbage Collection (GC).
    Gc,
    /// Functions returning multiple values.
    MultiValue,
    /// Threading and shared memory support.
    Threads,
    /// Tail calls.
    TailCall,
    /// Typed function references.
    FunctionReferences,
}

/// The canonical Arcella name of each feature.
pub open spec fn spec_arcella_name(f: WasmFeature) -> Seq<char> {
    match f {
        WasmFeature::ComponentModel => "component_model"@,
        WasmFeature::ReferenceTypes => "reference_types"@,
        WasmFeature::BulkMemory => "bulk_memory"@,
        WasmFeature::Simd => "simd"@,
        WasmFeature::Gc => "gc"@,
        WasmFeature::MultiValue => "multi_value"@,
        WasmFeature::Threads => "threads"@,
        WasmFeature::TailCall => "tail_call"@,
        WasmFeature::FunctionReferences => "function_references"@,
    }
}

/// The human-readable description of each feature.
pub open spec fn spec_feature_description(f: WasmFeature) -> Seq<char> {
    match f {
        WasmFeature::ComponentModel => "WebAssembly Component Model"@,
        WasmFeature::ReferenceTypes => "Reference types (externref, funcref)"@,
        WasmFeature::BulkMemory => "Bulk memory operations (memory.copy, memory.fill)"@,
        WasmFeature::Simd => "128-bit SIMD instructions"@,
        WasmFeature::Gc => "WebAssembly Garbage Collection"@,
        WasmFeature::MultiValue => "Functions returning multiple values"@,
        WasmFeature::Threads => "Threading and shared memory"@,
        WasmFeature::TailCall => "Tail call optimization"@,
        WasmFeature::FunctionReferences => "Typed function references"@,
    }
}

/// The list of all features, in registry order.
pub open spec fn spec_all_features() -> Seq<WasmFeature> {
    seq![
        WasmFeature::ComponentModel,
        WasmFeature::ReferenceTypes,
        WasmFeature::BulkMemory,
        WasmFeature::Simd,
        WasmFeature::Gc,
        WasmFeature::MultiValue,
        WasmFeature::Threads,
        WasmFeature::TailCall,
        WasmFeature::FunctionReferences,
    ]
}

/// The configured value of feature `f`.
pub open spec fn spec_config_value(f: WasmFeature, c: WasmEngineConfig) -> Option<bool> {
    match f {
        WasmFeature::ComponentModel => c.enable_component_model,
        WasmFeature::ReferenceTypes => c.enable_reference_types,
        WasmFeature::BulkMemory => c.enable_bulk_memory,
        WasmFeature::Simd => c.enable_simd,
        WasmFeature::Gc => c.enable_gc,
        WasmFeature::MultiValue => c.enable_multi_value,
        WasmFeature::Threads => c.enable_threads,
        WasmFeature::TailCall => c.enable_tail_call,
        WasmFeature::FunctionReferences => c.enable_function_references,
    }
}

impl WasmFeature {
    /// Returns the canonical Arcella-specific name of the feature, as used in
    /// configuration, logs and diagnostics.
    pub fn arcella_name(&self) -> (r: &'static str)
        ensures
            r@ == spec_arcella_name(*self),
    {
        match self {
            WasmFeature::ComponentModel => "component_model",
            WasmFeature::ReferenceTypes => "reference_types",
            WasmFeature::BulkMemory => "bulk_memory",
            WasmFeature::Simd => "simd",
            WasmFeature::Gc => "gc",
            WasmFeature::MultiValue => "multi_value",
            WasmFeature::Threads => "threads",
            WasmFeature::TailCall => "tail_call",
            WasmFeature::FunctionReferences => "function_references",
        }
    }

    /// Returns a human-readable description of the feature.
    pub fn description(&self) -> (r: &'static str)
        ensures
            r@ == spec_feature_description(*self),
    {
        match self {
            WasmFeature::ComponentModel => "WebAssembly Component Model",
            WasmFeature::ReferenceTypes => "Reference types (externref, funcref)",
            WasmFeature::BulkMemory => "Bulk memory operations (memory.copy, memory.fill)",
            WasmFeature::Simd => "128-bit SIMD instructions",
            WasmFeature::Gc => "WebAssembly Garbage Collection",
            WasmFeature::MultiValue => "Functions returning multiple values",
            WasmFeature::Threads => "Threading and shared memory",
            WasmFeature::TailCall => "Tail call optimization",
            WasmFeature::FunctionReferences => "Typed function references",
        }
    }

    /// Extracts the feature's value from the given configuration; `None`
    /// means the engine decides.
    pub fn get_config_value(&self, config: &WasmEngineConfig) -> (r: Option<bool>)
        ensures
            r == spec_config_value(*self, *config),
    {
        match self {
            WasmFeature::ComponentModel => config.enable_component_model,
            WasmFeature::ReferenceTypes => config.enable_reference_types,
            WasmFeature::BulkMemory => config.enable_bulk_memory,
            WasmFeature::Simd => config.enable_simd,
            WasmFeature::Gc => config.enable_gc,
            WasmFeature::MultiValue => config.enable_multi_value,
            WasmFeature::Threads => config.enable_threads,
            WasmFeature::TailCall => config.enable_tail_call,
            WasmFeature::FunctionReferences => config.enable_function_references,
        }
    }

    /// Returns a complete list of all features.
    pub fn all() -> (r: &'static [WasmFeature])
        ensures
            r@ == spec_all_features(),
    {
        &[
            WasmFeature::ComponentModel,
            WasmFeature::ReferenceTypes,
            WasmFeature::BulkMemory,
            WasmFeature::Simd,
            WasmFeature::Gc,
            WasmFeature::MultiValue,
            WasmFeature::Threads,
            WasmFeature::TailCall,
            WasmFeature::FunctionReferences,
        ]
    }
}

// =============================================================================
// 2. Feature groups (profiles)
// =============================================================================

/// Predefined profiles (feature sets) for typical usage scenarios.
#[derive(Debug, Clone, Copy, PartialEq, Eq, Structural, Hash)]
pub enum WasmFeatureGroup {
    /// WASI only (core module without Component Model).
    WasiOnly,
    /// Standard Arcella profile: Component Model + basic features.
    ComponentModel,
    /// Full Wasm GC support (experimental).
    GcFull,
    /// Minimal feature set for resource-constrained environments.
    EmbeddedMinimal,
    /// High-performance profile: SIMD, threads, bulk memory.
    HighPerformance,
    /// Hardened security profile: no shared memory, threads, or JIT.
    Secure,
    /// An experimental feature set (empty by default).
    Experimental,
}

/// The features of each profile.
pub open spec fn spec_group_features(g: WasmFeatureGroup) -> Seq<WasmFeature> {
    match g {
        WasmFeatureGroup::WasiOnly => seq![
            WasmFeature::MultiValue,
            WasmFeature::BulkMemory,
            WasmFeature::ReferenceTypes,
        ],
        WasmFeatureGroup::ComponentModel => seq![
            WasmFeature::ComponentModel,
            WasmFeature::ReferenceTypes,
            WasmFeature::MultiValue,
            WasmFeature::BulkMemory,
        ],
        WasmFeatureGroup::GcFull => seq![
            WasmFeature::ComponentModel,
            WasmFeature::ReferenceTypes,
            WasmFeature::Gc,
            WasmFeature::FunctionReferences,
            WasmFeature::MultiValue,
        ],
        WasmFeatureGroup::EmbeddedMinimal => seq![WasmFeature::MultiValue],
        WasmFeatureGroup::HighPerformance => seq![
            WasmFeature::ComponentModel,
            WasmFeature::Simd,
            WasmFeature::MultiValue,
            WasmFeature::BulkMemory,
            WasmFeature::Threads,
        ],
        WasmFeatureGroup::Secure => seq![
            WasmFeature::ComponentModel,
            WasmFeature::ReferenceTypes,
            WasmFeature::MultiValue,
        ],
        WasmFeatureGroup::Experimental => seq![],
    }
}

/// The description of each profile.
pub open spec fn spec_group_description(g: WasmFeatureGroup) -> Seq<char> {
    match g {
        WasmFeatureGroup::WasiOnly => "WASI core modules only (no Component Model)"@,
        WasmFeatureGroup::ComponentModel => "Standard Component Model with WIT interfaces"@,
        WasmFeatureGroup::GcFull => "Full Wasm GC support (experimental)"@,
        WasmFeatureGroup::EmbeddedMinimal =>
            "Minimal feature set for resource-constrained environments"@,
        WasmFeatureGroup::HighPerformance =>
            "High-performance profile (SIMD, threads, bulk memory)"@,
        WasmFeatureGroup::Secure => "Security-hardened profile (no shared memory or JIT)"@,
        WasmFeatureGroup::Experimental => "Experimental feature set"@,
    }
}

impl WasmFeatureGroup {
    /// Returns the list of features included in the profile.
    pub fn features(&self) -> (r: &'static [WasmFeature])
        ensures
            r@ == spec_group_features(*self),
    {
        match self {
            WasmFeatureGroup::WasiOnly => &[
                WasmFeature::MultiValue,
                WasmFeature::BulkMemory,
                WasmFeature::ReferenceTypes,
            ],
            WasmFeatureGroup::ComponentModel => &[
                WasmFeature::ComponentModel,
                WasmFeature::ReferenceTypes,
                WasmFeature::MultiValue,
                WasmFeature::BulkMemory,
            ],
            WasmFeatureGroup::GcFull => &[
                WasmFeature::ComponentModel,
                WasmFeature::ReferenceTypes,
                WasmFeature::Gc,
                WasmFeature::FunctionReferences,
                WasmFeature::MultiValue,
            ],
            WasmFeatureGroup::EmbeddedMinimal => &[WasmFeature::MultiValue],
            WasmFeatureGroup::HighPerformance => &[
                WasmFeature::ComponentModel,
                WasmFeature::Simd,
                WasmFeature::MultiValue,
                WasmFeature::BulkMemory,
                WasmFeature::Threads,
            ],
            WasmFeatureGroup::Secure => &[
                WasmFeature::ComponentModel,
                WasmFeature::ReferenceTypes,
                WasmFeature::MultiValue,
            ],
            WasmFeatureGroup::Experimental => &[],
        }
    }

    /// Returns a description of the profile.
    pub fn description(&self) -> (r: &'static str)
        ensures
            r@ == spec_group_description(*self),
    {
        match self {
            WasmFeatureGroup::WasiOnly => "WASI core modules only (no Component Model)",
            WasmFeatureGroup::ComponentModel => "Standard Component Model with WIT interfaces",
            WasmFeatureGroup::GcFull => "Full Wasm GC support (experimental)",
            WasmFeatureGroup::EmbeddedMinimal =>
                "Minimal feature set for resource-constrained environments",
            WasmFeatureGroup::HighPerformance =>
                "High-performance profile (SIMD, threads, bulk memory)",
            WasmFeatureGroup::Secure => "Security-hardened profile (no shared memory or JIT)",
            WasmFeatureGroup::Experimental => "Experimental feature set",
        }
    }
}

// =============================================================================
// 3. Engine configuration
// =============================================================================

/// Universal configuration for a WebAssembly engine.
///
/// Feature fields are tri-state: `Some(true)` must be enabled, `Some(false)`
/// must be disabled, `None` lets the engine decide.
#[derive(Debug, Clone, Copy, PartialEq, Eq, Structural)]
pub struct WasmEngineConfig {
    /// Maximum number of 64 KiB memory pages.
    pub max_memory_pages: Option<u32>,
    /// Bulk memory operations.
    pub enable_bulk_memory: Option<bool>,
    /// Reference types.
    pub enable_reference_types: Option<bool>,
    /// SIMD.
    pub enable_simd: Option<bool>,
    /// Multi-value.
    pub enable_multi_value: Option<bool>,
    /// Component Model.
    pub enable_component_model: Option<bool>,
    /// Threading.
    pub enable_threads: Option<bool>,
    /// Tail call.
    pub enable_tail_call: Option<bool>,
    /// Function references.
    pub enable_function_references: Option<bool>,
    /// Garbage Collection.
    pub enable_gc: Option<bool>,
    /// The profile from which feature values were inherited.
    pub profile: Option<WasmFeatureGroup>,
}

/// The default configuration: 16 384 pages (1 GiB), every feature left to
/// the engine, no profile.
pub open spec fn spec_default_config() -> WasmEngineConfig {
    WasmEngineConfig {
        max_memory_pages: Some(16_384u32),
        enable_bulk_memory: None,
        enable_reference_types: None,
        enable_simd: None,
        enable_multi_value: None,
        enable_component_model: None,
        enable_threads: None,
        enable_tail_call: None,
        enable_function_references: None,
        enable_gc: None,
        profile: None,
    }
}

/// The value a profile gives one feature: `Some(true)` where the profile
/// lists the feature and the value was unset, the old value otherwise.
pub open spec fn spec_profiled_value(
    old_value: Option<bool>,
    f: WasmFeature,
    g: WasmFeatureGroup,
) -> Option<bool> {
    if old_value is None && spec_group_features(g).contains(f) {
        Some(true)
    } else {
        old_value
    }
}

/// The configuration `c` with profile `g` applied.
pub open spec fn spec_with_profile(c: WasmEngineConfig, g: WasmFeatureGroup) -> WasmEngineConfig {
    WasmEngineConfig {
        max_memory_pages: c.max_memory_pages,
        enable_bulk_memory: spec_profiled_value(c.enable_bulk_memory, WasmFeature::BulkMemory, g),
        enable_reference_types: spec_profiled_value(
            c.enable_reference_types,
            WasmFeature::ReferenceTypes,
            g,
        ),
        enable_simd: spec_profiled_value(c.enable_simd, WasmFeature::Simd, g),
        enable_multi_value: spec_profiled_value(c.enable_multi_value, WasmFeature::MultiValue, g),
        enable_component_model: spec_profiled_value(
            c.enable_component_model,
            WasmFeature::ComponentModel,
            g,
        ),
        enable_threads: spec_profiled_value(c.enable_threads, WasmFeature::Threads, g),
        enable_tail_call: spec_profiled_value(c.enable_tail_call, WasmFeature::TailCall, g),
        enable_function_references: spec_profiled_value(
            c.enable_function_references,
            WasmFeature::FunctionReferences,
            g,
        ),
        enable_gc: spec_profiled_value(c.enable_gc, WasmFeature::Gc, g),
        profile: Some(g),
    }
}

/// A reasonable maximum memory limit: 4 GiB.
pub const MAX_REASONABLE_PAGES: u32 = 65536;

/// A reasonable minimum memory limit: 64 KiB.
pub const MIN_REASONABLE_PAGES: u32 = 1;

impl Default for WasmEngineConfig {
    /// Returns the default configuration: 1 GiB of memory (16 384 pages),
    /// all features `None` (the engine decides).
    fn default() -> (r: Self)
        ensures
            r == spec_default_config(),
    {
        WasmEngineConfig {
            max_memory_pages: Some(16_384),
            enable_bulk_memory: None,
            enable_reference_types: None,
            enable_simd: None,
            enable_multi_value: None,
            enable_component_model: None,
            enable_threads: None,
            enable_tail_call: None,
            enable_function_references: None,
            enable_gc: None,
            profile: None,
        }
    }
}

impl WasmEngineConfig {
    /// A reasonable maximum memory limit: 4 GiB.
    pub const MAX_REASONABLE_PAGES: u32 = 65536;

    /// A reasonable minimum memory limit: 64 KiB.
    pub const MIN_REASONABLE_PAGES: u32 = 1;

    /// Explicitly enables or disables threading support.
    pub fn enable_threads(self, value: bool) -> (r: Self)
        ensures
            r == (WasmEngineConfig { enable_threads: Some(value), ..self }),
    {
        let mut c = self;
        c.enable_threads = Some(value);
        c
    }

    /// Applies a configuration profile, setting feature values only where
    /// they have not been explicitly set already.
    pub fn with_profile(self, profile: WasmFeatureGroup) -> (r: Self)
        ensures
            r == spec_with_profile(self, profile),
    {
        let mut c = self;
        c.profile = Some(profile);
        let features = profile.features();
        let mut i: usize = 0;
        while i < features.len()
            invariant
                i <= features@.len(),
                features@ == spec_group_features(profile),
                c.profile == Some(profile),
                c.max_memory_pages == self.max_memory_pages,
                forall|f: WasmFeature|
                    spec_config_value(f, c) == (if spec_config_value(f, self) is None
                        && features@.take(i as int).contains(f) {
                        Some(true)
                    } else {
                        spec_config_value(f, self)
                    }),
            decreases features@.len() - i,
        {
            let feature = features[i];
            let ghost old_c = c;
            match feature {
                WasmFeature::ComponentModel => {
                    if c.enable_component_model.is_none() {
                        c.enable_component_model = Some(true);
                    }
                },
                WasmFeature::ReferenceTypes => {
                    if c.enable_reference_types.is_none() {
                        c.enable_reference_types = Some(true);
                    }
                },
                WasmFeature::Simd => {
                    if c.enable_simd.is_none() {
                        c.enable_simd = Some(true);
                    }
                },
                WasmFeature::Gc => {
                    if c.enable_gc.is_none() {
                        c.enable_gc = Some(true);
                    }
                },
                WasmFeature::Threads => {
                    if c.enable_threads.is_none() {
                        c.enable_threads = Some(true);
                    }
                },
                WasmFeature::BulkMemory => {
                    if c.enable_bulk_memory.is_none() {
                        c.enable_bulk_memory = Some(true);
                    }
                },
                WasmFeature::MultiValue => {
                    if c.enable_multi_value.is_none() {
                        c.enable_multi_value = Some(true);
                    }
                },
                WasmFeature::TailCall => {
                    if c.enable_tail_call.is_none() {
                        c.enable_tail_call = Some(true);
                    }
                },
                WasmFeature::FunctionReferences => {
                    if c.enable_function_references.is_none() {
                        c.enable_function_references = Some(true);
                    }
                },
            }
            proof {
                assert forall|f: WasmFeature|
                    spec_config_value(f, c) == (if f == feature && spec_config_value(f, old_c) is None {
                        Some(true)
                    } else {
                        spec_config_value(f, old_c)
                    }) by {
                    match f {
                        WasmFeature::ComponentModel => {},
                        WasmFeature::ReferenceTypes => {},
                        WasmFeature::BulkMemory => {},
                        WasmFeature::Simd => {},
                        WasmFeature::Gc => {},
                        WasmFeature::MultiValue => {},
                        WasmFeature::Threads => {},
                        WasmFeature::TailCall => {},
                        WasmFeature::FunctionReferences => {},
                    }
                }
                assert(features@.take(i + 1) =~= features@.take(i as int).push(feature));
                assert forall|f: WasmFeature|
                    #![auto]
                    features@.take(i + 1).contains(f) <==> (features@.take(i as int).contains(f)
                        || f == feature) by {
                    if f == feature {
                        assert(features@.take(i + 1)[i as int] == f);
                    }
                    if features@.take(i as int).contains(f) {
                        let k = choose|k: int|
                            0 <= k < i && features@.take(i as int)[k] == f;
                        assert(features@.take(i + 1)[k] == f);
                    }
                }
            }
            i = i + 1;
        }
        proof {
            assert(features@.take(i as int) =~= features@);
            assert(spec_config_value(WasmFeature::ComponentModel, c) == spec_config_value(WasmFeature::ComponentModel, spec_with_profile(self, profile)));
            assert(spec_config_value(WasmFeature::ReferenceTypes, c) == spec_config_value(WasmFeature::ReferenceTypes, spec_with_profile(self, profile)));
            assert(spec_config_value(WasmFeature::BulkMemory, c) == spec_config_value(WasmFeature::BulkMemory, spec_with_profile(self, profile)));
            assert(spec_config_value(WasmFeature::Simd, c) == spec_config_value(WasmFeature::Simd, spec_with_profile(self, profile)));
            assert(spec_config_value(WasmFeature::Gc, c) == spec_config_value(WasmFeature::Gc, spec_with_profile(self, profile)));
            assert(spec_config_value(WasmFeature::MultiValue, c) == spec_config_value(WasmFeature::MultiValue, spec_with_profile(self, profile)));
            assert(spec_config_value(WasmFeature::Threads, c) == spec_config_value(WasmFeature::Threads, spec_with_profile(self, profile)));
            assert(spec_config_value(WasmFeature::TailCall, c) == spec_config_value(WasmFeature::TailCall, spec_with_profile(self, profile)));
            assert(spec_config_value(WasmFeature::FunctionReferences, c) == spec_config_value(WasmFeature::FunctionReferences, spec_with_profile(self, profile)));
        }
        c
    }

    /// Validates the memory limit: when set, it must lie within
    /// `MIN_REASONABLE_PAGES..=MAX_REASONABLE_PAGES`.
    pub fn validate(&self) -> (r: Result<(), ArcellaError>)
        ensures
            self.max_memory_pages is Some && self.max_memory_pages->0 < MIN_REASONABLE_PAGES ==> r
                == Err::<(), _>(ArcellaError::MemoryTooSmall(self.max_memory_pages->0)),
            self.max_memory_pages is Some && self.max_memory_pages->0 > MAX_REASONABLE_PAGES ==> r
                == Err::<(), _>(ArcellaError::MemoryTooLarge(self.max_memory_pages->0)),
            r is Ok <==> (self.max_memory_pages matches Some(p) ==> MIN_REASONABLE_PAGES <= p
                <= MAX_REASONABLE_PAGES),
    {
        if let Some(pages) = self.max_memory_pages {
            if pages < MIN_REASONABLE_PAGES {
                return Err(ArcellaError::MemoryTooSmall(pages));
            }
            if pages > MAX_REASONABLE_PAGES {
                return Err(ArcellaError::MemoryTooLarge(pages));
            }
        }
        Ok(())
    }
}

// =============================================================================
// 4. Compatibility report
// =============================================================================

/// Information about a specific feature's support by the engine.
#[derive(Debug)]
pub struct SupportedFeature {
    /// The feature's name in Arcella terms (e.g., `"component_model"`).
    pub arcella_name: &'static str,
    /// Whether the feature was requested in the configuration.
    pub requested: bool,
    /// Whether the feature is supported by the engine.
    pub supported: bool,
    /// The feature's name in the specific engine's terms.
    pub engine_specific_name: String,
    /// Additional information (e.g., "only on x86_64").
    pub notes: Option<String>,
}

/// A copy of an optional string.
pub fn clone_opt_string(s: &Option<String>) -> (r: Option<String>)
    ensures
        r == *s,
{
    match s {
        Some(t) => Some(t.clone()),
        None => None,
    }
}

impl Clone for SupportedFeature {
    fn clone(&self) -> (r: Self)
        ensures
            r == *self,
    {
        SupportedFeature {
            arcella_name: self.arcella_name,
            requested: self.requested,
            supported: self.supported,
            engine_specific_name: self.engine_specific_name.clone(),
            notes: clone_opt_string(&self.notes),
        }
    }
}

/// A compatibility report between the configuration and the engine's capabilities.
#[derive(Debug, Clone)]
pub struct WasmEngineCompatibilityReport {
    /// The profile used in the configuration (if set).
    pub profile: Option<WasmFeatureGroup>,
    /// All features with detailed support information.
    pub features: Vec<SupportedFeature>,
    /// Non-critical incompatibilities (warnings).
    pub warnings: Vec<String>,
}

impl Default for WasmEngineCompatibilityReport {
    fn default() -> (r: Self)
        ensures
            r.profile is None,
            r.features@.len() == 0,
            r.warnings@.len() == 0,
    {
        WasmEngineCompatibilityReport { profile: None, features: Vec::new(), warnings: Vec::new() }
    }
}

/// Whether some entry names the Component Model as requested but unsupported.
pub open spec fn spec_has_critical_gaps(features: Seq<SupportedFeature>) -> bool {
    exists|i: int|
        0 <= i < features.len() && (#[trigger] features[i]).arcella_name@ == "component_model"@
            && features[i].requested && !features[i].supported
}

/// A report has a critical gap exactly when the configuration turned the
/// Component Model on and the engine does not support it (it declares it
/// unsupported, or does not declare it); a configuration that leaves the
/// Component Model unset or off never has a critical gap.
pub proof fn law_critical_gap_iff_requested(
    r: WasmEngineCompatibilityReport,
    config: WasmEngineConfig,
    known: Seq<SupportedFeature>,
)
    requires
        is_report_for(r, config, known),
    ensures
        spec_has_critical_gaps(r.features@) <==> (config.enable_component_model == Some(true) && !(
        has_named(known, "component_model"@) && first_named(known, "component_model"@).supported)),
{
    reveal_strlit("component_model");
    reveal_strlit("reference_types");
    reveal_strlit("bulk_memory");
    reveal_strlit("simd");
    reveal_strlit("gc");
    reveal_strlit("multi_value");
    reveal_strlit("threads");
    reveal_strlit("tail_call");
    reveal_strlit("function_references");
    let fs = r.features@;
    let all = spec_all_features();
    assert(report_entry_ok(fs[0], config, known, all[0]));
    if spec_has_critical_gaps(fs) {
        let i = choose|i: int|
            0 <= i < fs.len() && (#[trigger] fs[i]).arcella_name@ == "component_model"@
                && fs[i].requested && !fs[i].supported;
        assert(report_entry_ok(fs[i], config, known, all[i]));
        if i != 0 {
            assert(spec_arcella_name(all[i]) != "component_model"@) by {
                assert(spec_arcella_name(all[i])[0] != 'c' || spec_arcella_name(all[i]).len()
                    != 15);
            }
        }
    }
}

impl WasmEngineCompatibilityReport {
    /// Checks for a critical incompatibility: the Component Model feature was
    /// requested, but the engine does not support it.
    pub fn has_critical_gaps(&self) -> (r: bool)
        ensures
            r == spec_has_critical_gaps(self.features@),
    {
        let mut i: usize = 0;
        while i < self.features.len()
            invariant
                i <= self.features@.len(),
                forall|j: int|
                    0 <= j < i ==> !((#[trigger] self.features@[j]).arcella_name@
                        == "component_model"@ && self.features@[j].requested
                        && !self.features@[j].supported),
            decreases self.features@.len() - i,
        {
            let f = &self.features[i];
            if same_text(f.arcella_name, "component_model") && f.requested && !f.supported {
                return true;
            }
            i = i + 1;
        }
        false
    }

    /// Whether the engine can be used even if not all features are
    /// available; Arcella always operates in the most capable mode possible.
    pub fn is_runnable(&self) -> (r: bool)
        ensures
            r,
    {
        true
    }
}

/// `k` is the first entry of `known` named `name`.
pub open spec fn is_first_named(known: Seq<SupportedFeature>, name: Seq<char>, k: int) -> bool {
    &&& 0 <= k < known.len()
    &&& known[k].arcella_name@ == name
    &&& forall|j: int| 0 <= j < k ==> (#[trigger] known[j]).arcella_name@ != name
}

/// Some entry of `known` is named `name`.
pub open spec fn has_named(known: Seq<SupportedFeature>, name: Seq<char>) -> bool {
    exists|k: int| is_first_named(known, name, k)
}

/// The first entry of `known` named `name` (meaningful when [`has_named`]).
pub open spec fn first_named(known: Seq<SupportedFeature>, name: Seq<char>) -> SupportedFeature {
    known[choose|k: int| is_first_named(known, name, k)]
}

/// Whether feature `f` counts as requested by `config`.
pub open spec fn spec_requested(config: WasmEngineConfig, f: WasmFeature) -> bool {
    match spec_config_value(f, config) {
        Some(b) => b,
        None => false,
    }
}

/// The report entry for feature `f`.
pub open spec fn report_entry_ok(
    e: SupportedFeature,
    config: WasmEngineConfig,
    known: Seq<SupportedFeature>,
    f: WasmFeature,
) -> bool {
    let name = spec_arcella_name(f);
    &&& e.arcella_name@ == name
    &&& e.requested == spec_requested(config, f)
    &&& if has_named(known, name) {
        let k = first_named(known, name);
        &&& e.supported == k.supported
        &&& e.engine_specific_name == k.engine_specific_name
        &&& e.notes == k.notes
    } else {
        &&& !e.supported
        &&& e.engine_specific_name@ == "unknown"@
        &&& e.notes matches Some(n) && n@ == "not implemented in this engine"@
    }
}

/// The warning that the report gives for feature `f`, if any.
pub open spec fn report_warning(
    config: WasmEngineConfig,
    known: Seq<SupportedFeature>,
    f: WasmFeature,
) -> Option<Seq<char>> {
    let name = spec_arcella_name(f);
    if has_named(known, name) {
        let k = first_named(known, name);
        if spec_requested(config, f) && !k.supported {
            Some(
                "requested feature '"@ + name + "' ("@ + k.engine_specific_name@
                    + ") is not supported"@ + match k.notes {
                    Some(n) => ": "@ + n@,
                    None => Seq::<char>::empty(),
                },
            )
        } else {
            None
        }
    } else {
        Some("requested feature '"@ + name + "' is not recognized by engine"@)
    }
}

/// The warnings of the report for the features `fs`, in order.
pub open spec fn report_warnings(
    config: WasmEngineConfig,
    known: Seq<SupportedFeature>,
    fs: Seq<WasmFeature>,
) -> Seq<Seq<char>>
    decreases fs.len(),
{
    if fs.len() == 0 {
        Seq::empty()
    } else {
        let w = report_warnings(config, known, fs.drop_last());
        match report_warning(config, known, fs.last()) {
            Some(m) => w.push(m),
            None => w,
        }
    }
}

/// The views of a vector of strings.
pub open spec fn string_views(v: Seq<String>) -> Seq<Seq<char>> {
    v.map_values(|s: String| s@)
}

/// Finds the first entry of `known` named `name`.
fn find_named(known: &Vec<SupportedFeature>, name: &str) -> (r: Option<usize>)
    ensures
        r matches Some(k) ==> is_first_named(known@, name@, k as int),
        r is None ==> !has_named(known@, name@),
{
    let mut k: usize = 0;
    while k < known.len()
        invariant
            k <= known@.len(),
            forall|j: int| 0 <= j < k ==> (#[trigger] known@[j]).arcella_name@ != name@,
        decreases known@.len() - k,
    {
        if same_text(known[k].arcella_name, name) {
            return Some(k);
        }
        k = k + 1;
    }
    proof {
        assert forall|k2: int| !is_first_named(known@, name@, k2) by {
            if 0 <= k2 < known@.len() {
                assert(known@[k2].arcella_name@ != name@);
            }
        }
    }
    None
}

/// `r` is the compatibility report of `config` against the features an
/// engine declares (`known`): the configuration's profile, one entry per
/// feature of [`WasmFeature::all`] in order, and the warnings in order.
pub open spec fn is_report_for(
    r: WasmEngineCompatibilityReport,
    config: WasmEngineConfig,
    known: Seq<SupportedFeature>,
) -> bool {
    &&& r.profile == config.profile
    &&& r.features@.len() == spec_all_features().len()
    &&& forall|i: int|
        0 <= i < r.features@.len() ==> report_entry_ok(
            #[trigger] r.features@[i],
            config,
            known,
            spec_all_features()[i],
        )
    &&& string_views(r.warnings@) == report_warnings(config, known, spec_all_features())
}

/// Builds the compatibility report of `config` against the features an
/// engine declares (`known`).
///
/// For every feature of [`WasmFeature::all`], in order: if the engine
/// declares it, the entry carries the engine's support status, name and
/// notes, and a warning is added when the feature is requested but
/// unsupported; otherwise the entry is marked unsupported (`"unknown"`,
/// `"not implemented in this engine"`) and a warning is always added.
pub fn compatibility_report_for(config: &WasmEngineConfig, known: &Vec<SupportedFeature>) -> (r:
    WasmEngineCompatibilityReport)
    ensures
        is_report_for(r, *config, known@),
{
    let mut report = WasmEngineCompatibilityReport::default();
    report.profile = config.profile;
    let all = WasmFeature::all();
    let mut i: usize = 0;
    while i < all.len()
        invariant
            i <= all@.len(),
            all@ == spec_all_features(),
            report.profile == config.profile,
            report.features@.len() == i,
            forall|j: int|
                0 <= j < i ==> report_entry_ok(
                    #[trigger] report.features@[j],
                    *config,
                    known@,
                    spec_all_features()[j],
                ),
            string_views(report.warnings@) == report_warnings(
                *config,
                known@,
                spec_all_features().take(i as int),
            ),
        decreases all@.len() - i,
    {
        let feature = all[i];
        let requested = match feature.get_config_value(config) {
            Some(b) => b,
            None => false,
        };
        let arcella_name = feature.arcella_name();
        let ghost old_warnings = report.warnings@;
        proof {
            assert(spec_all_features().take(i + 1).drop_last() =~= spec_all_features().take(
                i as int,
            ));
            assert(spec_all_features().take(i + 1).last() == feature);
        }
        match find_named(known, arcella_name) {
            Some(k) => {
                let feat = &known[k];
                proof {
                    let kk = choose|kk: int| is_first_named(known@, arcella_name@, kk);
                    assert(is_first_named(known@, arcella_name@, k as int));
                    if kk != k as int {
                        if kk < k as int {
                            assert(known@[kk].arcella_name@ != arcella_name@);
                        } else {
                            assert(known@[k as int].arcella_name@ != arcella_name@);
                        }
                    }
                    assert(first_named(known@, arcella_name@) == known@[k as int]);
                }
                if requested && !feat.supported {
                    let mut msg = String::from_str("requested feature '");
                    msg.append(arcella_name);
                    msg.append("' (");
                    msg.append(feat.engine_specific_name.as_str());
                    msg.append(") is not supported");
                    match &feat.notes {
                        Some(n) => {
                            msg.append(": ");
                            msg.append(n.as_str());
                        },
                        None => {},
                    }
                    assert(msg@ == report_warning(*config, known@, feature)->0);
                    report.warnings.push(msg);
                }
                report.features.push(
                    SupportedFeature {
                        arcella_name,
                        requested,
                        supported: feat.supported,
                        engine_specific_name: feat.engine_specific_name.clone(),
                        notes: clone_opt_string(&feat.notes),
                    },
                );
            },
            None => {
                let mut msg = String::from_str("requested feature '");
                msg.append(arcella_name);
                msg.append("' is not recognized by engine");
                assert(msg@ == report_warning(*config, known@, feature)->0);
                report.warnings.push(msg);
                report.features.push(
                    SupportedFeature {
                        arcella_name,
                        requested,
                        supported: false,
                        engine_specific_name: String::from_str("unknown"),
                        notes: Some(String::from_str("not implemented in this engine")),
                    },
                );
            },
        }
        proof {
            assert(report_warnings(*config, known@, spec_all_features().take(i + 1))
                == match report_warning(*config, known@, feature) {
                    Some(m) => report_warnings(*config, known@, spec_all_features().take(i as int)).push(m),
                    None => report_warnings(*config, known@, spec_all_features().take(i as int)),
                });
            assert(string_views(report.warnings@) =~= report_warnings(
                *config,
                known@,
                spec_all_features().take(i + 1),
            ));
        }
        i = i + 1;
    }
    proof {
        assert(spec_all_features().take(i as int) =~= spec_all_features());
    }
    report
}

/// Applying a profile never changes a feature that was set explicitly.
pub proof fn law_profile_keeps_explicit(c: WasmEngineConfig, g: WasmFeatureGroup, f: WasmFeature)
    requires
        spec_config_value(f, c) is Some,
    ensures
        spec_config_value(f, spec_with_profile(c, g)) == spec_config_value(f, c),
{
}

/// Applying a profile turns on each unset feature the profile lists, and
/// leaves unset each feature it does not list; the profile is recorded and
/// the memory limit kept.
pub proof fn law_profile_fills_unset(c: WasmEngineConfig, g: WasmFeatureGroup, f: WasmFeature)
    requires
        spec_config_value(f, c) is None,
    ensures
        spec_group_features(g).contains(f) ==> spec_config_value(f, spec_with_profile(c, g))
            == Some(true),
        !spec_group_features(g).contains(f) ==> spec_config_value(f, spec_with_profile(c, g))
            is None,
        spec_with_profile(c, g).profile == Some(g),
        spec_with_profile(c, g).max_memory_pages == c.max_memory_pages,
{
}

/// The profiles hold what their documentation promises: WASI-only has no
/// Component Model; the standard profile has it; full GC has GC; the
/// minimal profile is `multi_value` alone; the high-performance profile has
/// SIMD, threads and bulk memory; the hardened profile has no threads
/// (no shared memory); the experimental profile is empty.
pub proof fn law_profile_contents()
    ensures
        !spec_group_features(WasmFeatureGroup::WasiOnly).contains(WasmFeature::ComponentModel),
        spec_group_features(WasmFeatureGroup::ComponentModel).contains(WasmFeature::ComponentModel),
        spec_group_features(WasmFeatureGroup::GcFull).contains(WasmFeature::Gc),
        spec_group_features(WasmFeatureGroup::EmbeddedMinimal) == seq![WasmFeature::MultiValue],
        spec_group_features(WasmFeatureGroup::HighPerformance).contains(WasmFeature::Simd),
        spec_group_features(WasmFeatureGroup::HighPerformance).contains(WasmFeature::Threads),
        spec_group_features(WasmFeatureGroup::HighPerformance).contains(WasmFeature::BulkMemory),
        !spec_group_features(WasmFeatureGroup::Secure).contains(WasmFeature::Threads),
        spec_group_features(WasmFeatureGroup::Experimental).len() == 0,
{
    assert(spec_group_features(WasmFeatureGroup::ComponentModel)[0] == WasmFeature::ComponentModel);
    assert(spec_group_features(WasmFeatureGroup::GcFull)[2] == WasmFeature::Gc);
    assert(spec_group_features(WasmFeatureGroup::HighPerformance)[1] == WasmFeature::Simd);
    assert(spec_group_features(WasmFeatureGroup::HighPerformance)[4] == WasmFeature::Threads);
    assert(spec_group_features(WasmFeatureGroup::HighPerformance)[3] == WasmFeature::BulkMemory);
}

/// The hardened profile never turns threads on: applying it leaves the
/// threads setting as it was (an unset one stays unset).
pub proof fn law_secure_keeps_threads(c: WasmEngineConfig)
    ensures
        spec_with_profile(c, WasmFeatureGroup::Secure).enable_threads == c.enable_threads,
{
    law_profile_contents();
}

/// Applying the same profile twice is applying it once.
pub proof fn law_profile_idempotent(c: WasmEngineConfig, g: WasmFeatureGroup)
    ensures
        spec_with_profile(spec_with_profile(c, g), g) == spec_with_profile(c, g),
{
}

// =============================================================================
// 5. Engine capabilities
// =============================================================================

/// The capabilities of a specific WebAssembly engine; implemented by engine
/// adapters.
pub trait WasmEngineCapabilities {
    /// Returns all features the engine knows, with support information.
    fn supported_features(&self) -> Vec<SupportedFeature>;

    /// Generates a compatibility report between the given configuration and
    /// the engine's capabilities; never panics, reporting gaps as warnings.
    /// The report is the one of [`compatibility_report_for`] for the features
    /// that [`WasmEngineCapabilities::supported_features`] returned.
    fn compatibility_report(&self, config: &WasmEngineConfig) -> (r: WasmEngineCompatibilityReport)
        ensures
            exists|known: Vec<SupportedFeature>|
                call_ensures(Self::supported_features, (self,), known) && #[trigger] is_report_for(
                    r,
                    *config,
                    known@,
                ),
    {
        let known = self.supported_features();
        compatibility_report_for(config, &known)
    }
}

/// The interface an engine adapter implements to run components under
/// Arcella.
pub trait WasmEngine: WasmEngineCapabilities + Send + Sync {
    /// Introspects the WebAssembly file at `wasm_path` and returns its
    /// manifest.
    fn inspect_component(&self, wasm_path: &str) -> Result<ComponentManifest, ArcellaError>;

    /// A short engine name (for example `wasmtime`).
    fn name(&self) -> &'static str;

    /// The engine version.
    fn version(&self) -> &'static str;

    /// The version of the engine API the adapter implements.
    fn api_version(&self) -> u32;
}

} // verus!
