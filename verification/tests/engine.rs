use std::collections::HashMap;

use arcella::arcella_core::engine::{
    compatibility_report_for, SupportedFeature, WasmEngine, WasmEngineCapabilities,
    WasmEngineConfig, WasmFeature, WasmFeatureGroup,
};
use arcella::arcella_core::error::ArcellaError;
use arcella::arcella_types::manifest::ComponentManifest;

struct MockWasmEngine {
    supported_features_map: HashMap<&'static str, (bool, String, Option<String>)>,
}

impl MockWasmEngine {
    fn new() -> Self {
        let mut map = HashMap::new();
        map.insert(
            "component_model",
            (true, "wasm_component_model".to_string(), Some("Wasmtime >=12".to_string())),
        );
        map.insert("reference_types", (true, "wasm_reference_types".to_string(), None));
        map.insert("simd", (false, "wasm_simd".to_string(), Some("only on x86_64".to_string())));
        map.insert("gc", (false, "wasm_gc".to_string(), Some("not implemented".to_string())));
        map.insert("bulk_memory", (true, "wasm_bulk_memory".to_string(), None));
        map.insert("multi_value", (true, "wasm_multi_value".to_string(), None));
        map.insert(
            "threads",
            (false, "wasm_threads".to_string(), Some("disabled by default".to_string())),
        );
        map.insert("tail_call", (true, "wasm_tail_call".to_string(), None));
        map.insert("function_references", (false, "wasm_function_references".to_string(), None));
        Self { supported_features_map: map }
    }
}

impl WasmEngineCapabilities for MockWasmEngine {
    fn supported_features(&self) -> Vec<SupportedFeature> {
        WasmFeature::all()
            .iter()
            .map(|&feature| {
                let arcella_name = feature.arcella_name();
                if let Some((supported, engine_name, notes)) =
                    self.supported_features_map.get(arcella_name)
                {
                    SupportedFeature {
                        arcella_name,
                        requested: false,
                        supported: *supported,
                        engine_specific_name: engine_name.clone(),
                        notes: notes.clone(),
                    }
                } else {
                    SupportedFeature {
                        arcella_name,
                        requested: false,
                        supported: false,
                        engine_specific_name: "unknown".to_string(),
                        notes: Some("not configured in mock".to_string()),
                    }
                }
            })
            .collect()
    }
}

impl WasmEngine for MockWasmEngine {
    fn inspect_component(&self, _wasm_path: &str) -> Result<ComponentManifest, ArcellaError> {
        panic!("not used in these tests")
    }

    fn name(&self) -> &'static str {
        "mock_engine"
    }

    fn version(&self) -> &'static str {
        "0.1.0"
    }

    fn api_version(&self) -> u32 {
        1
    }
}

#[test]
fn test_default_config() {
    let config = WasmEngineConfig::default();
    assert_eq!(config.enable_component_model, None);
    assert_eq!(config.enable_simd, None);
    assert_eq!(config.profile, None);
    assert_eq!(config.max_memory_pages, Some(16_384));
}

#[test]
fn test_config_with_profile_wasi_only() {
    let config = WasmEngineConfig::default().with_profile(WasmFeatureGroup::WasiOnly);

    assert_eq!(config.enable_component_model, None);
    assert_eq!(config.enable_bulk_memory, Some(true));
    assert_eq!(config.enable_reference_types, Some(true));
    assert_eq!(config.enable_multi_value, Some(true));
    assert_eq!(config.profile, Some(WasmFeatureGroup::WasiOnly));
}

#[test]
fn test_config_with_profile_component_model() {
    let config = WasmEngineConfig::default().with_profile(WasmFeatureGroup::ComponentModel);

    assert_eq!(config.enable_component_model, Some(true));
    assert_eq!(config.enable_bulk_memory, Some(true));
    assert_eq!(config.enable_reference_types, Some(true));
    assert_eq!(config.enable_multi_value, Some(true));
    assert_eq!(config.profile, Some(WasmFeatureGroup::ComponentModel));
}

#[test]
fn test_config_profile_overrides_none_only() {
    let config = WasmEngineConfig {
        enable_simd: None,
        enable_multi_value: None,
        enable_gc: Some(false),
        ..Default::default()
    }
    .with_profile(WasmFeatureGroup::GcFull);

    assert_eq!(config.enable_simd, None);
    assert_eq!(config.enable_multi_value, Some(true));
    assert_eq!(config.enable_gc, Some(false));
}

#[test]
fn test_memory_validation() {
    let mut config = WasmEngineConfig::default();
    config.max_memory_pages = Some(0);
    assert!(config.validate().is_err());

    config.max_memory_pages = Some(WasmEngineConfig::MAX_REASONABLE_PAGES + 1);
    assert!(config.validate().is_err());

    config.max_memory_pages = Some(1024);
    assert!(config.validate().is_ok());
}

#[test]
fn test_compatibility_report_no_gaps() {
    let engine = MockWasmEngine::new();
    let config = WasmEngineConfig {
        enable_component_model: Some(true),
        enable_reference_types: Some(true),
        enable_bulk_memory: Some(true),
        enable_multi_value: Some(true),
        enable_simd: Some(false),
        enable_gc: Some(false),
        ..Default::default()
    };

    let report = engine.compatibility_report(&config);

    assert!(!report.has_critical_gaps());
    assert!(report.is_runnable());
    assert!(!report.warnings.iter().any(|w| w.contains("simd") || w.contains("gc")));
}

#[test]
fn test_compatibility_report_with_warnings() {
    let engine = MockWasmEngine::new();
    let config = WasmEngineConfig {
        enable_simd: Some(true),
        enable_gc: Some(true),
        enable_threads: Some(true),
        ..Default::default()
    };

    let report = engine.compatibility_report(&config);

    assert_eq!(report.warnings.len(), 3);
    assert!(report.warnings.iter().any(|w| w.contains("simd")));
    assert!(report.warnings.iter().any(|w| w.contains("gc")));
    assert!(report.warnings.iter().any(|w| w.contains("threads")));
}

#[test]
fn test_compatibility_report_critical_gap() {
    let engine = MockWasmEngine::new();
    let config = WasmEngineConfig { enable_component_model: Some(true), ..Default::default() };

    let report = engine.compatibility_report(&config);
    assert!(!report.has_critical_gaps());

    let mut broken_engine = MockWasmEngine::new();
    broken_engine.supported_features_map.insert(
        "component_model",
        (false, "wasm_component_model".to_string(), Some("disabled".to_string())),
    );

    let report2 = broken_engine.compatibility_report(&config);
    assert!(report2.has_critical_gaps());
}

#[test]
fn test_wasm_feature_accessors() {
    let config = WasmEngineConfig {
        enable_component_model: Some(true),
        enable_simd: None,
        enable_gc: Some(false),
        ..Default::default()
    };

    assert_eq!(WasmFeature::ComponentModel.get_config_value(&config), Some(true));
    assert_eq!(WasmFeature::Simd.get_config_value(&config), None);
    assert_eq!(WasmFeature::Gc.get_config_value(&config), Some(false));
}

#[test]
fn test_feature_and_group_descriptions() {
    assert_eq!(WasmFeature::ComponentModel.description(), "WebAssembly Component Model");
    assert_eq!(
        WasmFeatureGroup::ComponentModel.description(),
        "Standard Component Model with WIT interfaces"
    );
}

#[test]
fn profile_keeps_explicit_values_and_is_idempotent() {
    let base = WasmEngineConfig::default().enable_threads(false);
    let once = base.with_profile(WasmFeatureGroup::HighPerformance);
    assert_eq!(once.enable_threads, Some(false));
    assert_eq!(once.enable_simd, Some(true));
    let twice = once.with_profile(WasmFeatureGroup::HighPerformance);
    assert_eq!(once, twice);
    assert_eq!(once.max_memory_pages, Some(16_384));
}

#[test]
fn validate_reports_each_memory_error() {
    let mut config = WasmEngineConfig::default();
    config.max_memory_pages = Some(0);
    assert_eq!(config.validate(), Err(ArcellaError::MemoryTooSmall(0)));
    config.max_memory_pages = Some(70_000);
    assert_eq!(config.validate(), Err(ArcellaError::MemoryTooLarge(70_000)));
    config.max_memory_pages = None;
    assert_eq!(config.validate(), Ok(()));
    config.max_memory_pages = Some(65_536);
    assert_eq!(config.validate(), Ok(()));
}

#[test]
fn report_lists_every_feature_and_unknown_features_are_unsupported() {
    let config = WasmEngineConfig { enable_gc: Some(true), ..Default::default() };
    let report = compatibility_report_for(&config, &Vec::new());
    assert_eq!(report.features.len(), WasmFeature::all().len());
    let gc = report.features.iter().find(|f| f.arcella_name == "gc").unwrap();
    assert!(gc.requested);
    assert!(!gc.supported);
    assert_eq!(report.warnings.len(), WasmFeature::all().len());
    assert!(report.warnings.iter().any(|w| w.contains("gc")));
}

#[test]
fn engine_metadata_of_an_adapter() {
    let engine = MockWasmEngine::new();
    assert_eq!(engine.name(), "mock_engine");
    assert_eq!(engine.version(), "0.1.0");
    assert_eq!(engine.api_version(), 1);
}
