use std::path::Path;

use arcella::arcella_core::config::{
    check_mtimes_changed, extract_path_value, finalize_config, merge_config, ArcellaConfig,
    ConfigLoadState, ConfigLoadWarning, FileTime, IntegrityChecker, TomlFileData,
    DEFAULT_CONFIG_FILENAME, MAIN_CONFIG_FILENAME,
};
use arcella::arcella_core::error::ArcellaError;
use arcella::arcella_core::layout::{alme_socket_path, storage_dirs, ModuleCache};
use arcella::arcella_core::subtree::{extract_subtree, TomlNode};
use arcella::arcella_types::config::{ConfigValues, ConfigValue as TomlValue};
use indexmap::IndexMap;

fn make_toml_value(s: &str) -> TomlValue {
    TomlValue::String(s.to_string())
}

fn join(dir: &str, name: &str) -> String {
    Path::new(dir).join(name).to_string_lossy().into_owned()
}

#[test]
fn test_merge_config_example_from_docs() {
    let config_dir = "config";
    let mut state = ConfigLoadState::default();

    let (idx, _) = state.register_file(DEFAULT_CONFIG_FILENAME.to_string());
    let mut default_values: ConfigValues = IndexMap::new();
    default_values.insert("arcella.log.level".to_string(), (make_toml_value("info"), idx));
    default_values.insert("arcella.log.file".to_string(), (make_toml_value("arcella_default.log"), idx));
    default_values.insert("arcella.server.port".to_string(), (make_toml_value("8080"), idx));
    default_values.insert("arcella.server.host".to_string(), (make_toml_value("0.0.0.0"), idx));
    let default_config = TomlFileData { includes: vec![], values: default_values };

    let (idx, _) = state.register_file(join(config_dir, MAIN_CONFIG_FILENAME));
    let mut main_config_values: ConfigValues = IndexMap::new();
    main_config_values.insert("arcella.log.level#redef".to_string(), (make_toml_value("warn"), idx));
    main_config_values.insert("arcella.log.file".to_string(), (make_toml_value("arcella_main.log"), idx));
    main_config_values.insert("arcella.server.port".to_string(), (make_toml_value("9000"), idx));
    let main_config = TomlFileData { includes: vec![], values: main_config_values };

    let (idx, _) = state.register_file(join(config_dir, "level_1.toml"));
    let mut level_1_values: ConfigValues = IndexMap::new();
    level_1_values.insert("arcella.log.level".to_string(), (make_toml_value("debug"), idx));
    level_1_values.insert("arcella.server.host".to_string(), (make_toml_value("127.0.0.1"), idx));
    level_1_values.insert("arcella.server.name".to_string(), (make_toml_value("www.server.net"), idx));
    level_1_values.insert(
        "arcella.custom.message".to_string(),
        (make_toml_value("This is an additional parameter"), idx),
    );
    let level_1_config = TomlFileData { includes: vec![], values: level_1_values };

    let configs = vec![main_config, level_1_config];
    let mut warnings = vec![];

    let result = merge_config(&default_config, &configs, &state.config_files, config_dir, &mut warnings)
        .expect("merge_config should succeed");

    assert_eq!(result.get("arcella.log.level"), Some(&(make_toml_value("debug"), 2)));
    assert_eq!(result.get("arcella.log.file"), Some(&(make_toml_value("arcella_main.log"), 1)));
    assert_eq!(result.get("arcella.server.port"), Some(&(make_toml_value("9000"), 1)));
    assert_eq!(result.get("arcella.server.host"), Some(&(make_toml_value("0.0.0.0"), 0)));
    assert_eq!(
        result.get("arcella.custom.message"),
        Some(&(make_toml_value("This is an additional parameter"), 2))
    );

    assert_eq!(warnings.len(), 2);

    let warning1 = &warnings[0];
    match warning1 {
        ConfigLoadWarning::ValueError { key, error, .. } => {
            assert_eq!(key, "arcella.server.host");
            assert!(error.contains("ignored due to no #redef flag in layer "));
        },
        _ => panic!("Expected ValueError for arcella.server.host"),
    }

    let warning2 = &warnings[1];
    match warning2 {
        ConfigLoadWarning::ValueError { key, error, .. } => {
            assert_eq!(key, "arcella.server.name");
            assert!(error.contains("ignored due to missing in default config"));
        },
        _ => panic!("Expected ValueError for arcella.server.name"),
    }
}

#[test]
fn test_merge_config_no_redef_prevents_override() {
    let config_dir = "config";
    let mut state = ConfigLoadState::default();

    let (idx, _) = state.register_file(DEFAULT_CONFIG_FILENAME.to_string());
    let mut default_values: ConfigValues = IndexMap::new();
    default_values.insert("arcella.server.host".to_string(), (make_toml_value("0.0.0.0"), idx));
    default_values.insert("arcella.server.port".to_string(), (make_toml_value("8090"), idx));
    let default_config = TomlFileData { includes: vec![], values: default_values };

    let (idx, _) = state.register_file(join(config_dir, MAIN_CONFIG_FILENAME));
    let mut main_config_values: ConfigValues = IndexMap::new();
    main_config_values.insert("arcella.server.host".to_string(), (make_toml_value("192.168.1.1"), idx));
    let main_config = TomlFileData { includes: vec![], values: main_config_values };

    let (idx, _) = state.register_file(join(config_dir, "level_1.toml"));
    let mut level_1_values: ConfigValues = IndexMap::new();
    level_1_values.insert("arcella.server.port".to_string(), (make_toml_value("9000"), idx));
    let level_1_config = TomlFileData { includes: vec![], values: level_1_values };

    let (idx, _) = state.register_file(join(config_dir, "level_2.toml"));
    let mut level_2_values: ConfigValues = IndexMap::new();
    level_2_values.insert("arcella.server.host".to_string(), (make_toml_value("127.0.0.1"), idx));
    let level_2_config = TomlFileData { includes: vec![], values: level_2_values };

    let configs = vec![main_config, level_1_config, level_2_config];
    let mut warnings = vec![];

    let result = merge_config(&default_config, &configs, &state.config_files, config_dir, &mut warnings)
        .expect("merge_config should succeed");

    assert_eq!(result.get("arcella.server.host"), Some(&(make_toml_value("192.168.1.1"), 1)));

    assert_eq!(warnings.len(), 2);
    match &warnings[0] {
        ConfigLoadWarning::ValueError { key, error, .. } => {
            assert_eq!(key, "arcella.server.host");
            assert!(error.contains(
                "Value from file \"config/level_2.toml\" ignored due to no #redef flag in layer 0"
            ));
        },
        _ => panic!("Expected ValueError for arcella.server.host"),
    }
    match &warnings[1] {
        ConfigLoadWarning::ValueError { key, error, .. } => {
            assert_eq!(key, "arcella.server.port");
            assert!(error.contains(
                "Value from file \"config/level_1.toml\" ignored due to no #redef flag in layer 0"
            ));
        },
        _ => panic!("Expected ValueError for arcella.server.port"),
    }
}

#[test]
fn test_merge_config_redef_allows_override() {
    let config_dir = "config";
    let mut state = ConfigLoadState::default();

    let (idx, _) = state.register_file(DEFAULT_CONFIG_FILENAME.to_string());
    let mut default_values: ConfigValues = IndexMap::new();
    default_values.insert("arcella.log.level".to_string(), (make_toml_value("info"), idx));
    let default_config = TomlFileData { includes: vec![], values: default_values };

    let (idx, _) = state.register_file(join(config_dir, MAIN_CONFIG_FILENAME));
    let mut main_config_values: ConfigValues = IndexMap::new();
    main_config_values.insert("arcella.log.level#redef".to_string(), (make_toml_value("warn"), idx));
    let main_config = TomlFileData { includes: vec![], values: main_config_values };

    let (idx, _) = state.register_file(join(config_dir, "level_1.toml"));
    let mut level_1_values: ConfigValues = IndexMap::new();
    level_1_values.insert("arcella.log.level#redef".to_string(), (make_toml_value("debug"), idx));
    let level_1_config = TomlFileData { includes: vec![], values: level_1_values };

    let (idx, _) = state.register_file(join(config_dir, "level_2.toml"));
    let mut level_2_values: ConfigValues = IndexMap::new();
    level_2_values.insert("arcella.log.level".to_string(), (make_toml_value("trace"), idx));
    let level_2_config = TomlFileData { includes: vec![], values: level_2_values };

    let configs = vec![main_config, level_1_config, level_2_config];
    let mut warnings = vec![];

    let result = merge_config(&default_config, &configs, &state.config_files, config_dir, &mut warnings)
        .expect("merge_config should succeed");

    assert_eq!(result.get("arcella.log.level"), Some(&(make_toml_value("trace"), 3)));
    assert!(warnings.is_empty());
}

#[test]
fn test_merge_config_new_key_in_custom_allowed() {
    let config_dir = "config";
    let mut state = ConfigLoadState::default();

    let (idx, _) = state.register_file(DEFAULT_CONFIG_FILENAME.to_string());
    let mut default_values: ConfigValues = IndexMap::new();
    default_values.insert("arcella.log.level".to_string(), (make_toml_value("info"), idx));
    let default_config = TomlFileData { includes: vec![], values: default_values };

    let (_idx, _) = state.register_file(join(config_dir, MAIN_CONFIG_FILENAME));
    let main_config = TomlFileData { includes: vec![], values: IndexMap::new() };

    let (idx, _) = state.register_file(join(config_dir, "level_1.toml"));
    let mut level_1_values: ConfigValues = IndexMap::new();
    level_1_values.insert("arcella.custom.new_key".to_string(), (make_toml_value("new_value"), idx));
    let level_1_config = TomlFileData { includes: vec![], values: level_1_values };

    let configs = vec![main_config, level_1_config];
    let mut warnings = vec![];

    let result = merge_config(&default_config, &configs, &state.config_files, config_dir, &mut warnings)
        .expect("merge_config should succeed");

    assert_eq!(result.get("arcella.custom.new_key"), Some(&(make_toml_value("new_value"), 2)));
    assert!(warnings.is_empty());
}

#[test]
fn test_merge_config_new_key_in_server_ignored() {
    let mut default_values: ConfigValues = IndexMap::new();
    default_values.insert("arcella.log.level".to_string(), (make_toml_value("info"), 0));
    let default_config = TomlFileData { includes: vec![], values: default_values };

    let main_config = TomlFileData { includes: vec![], values: IndexMap::new() };

    let mut level_1_values: ConfigValues = IndexMap::new();
    level_1_values.insert("arcella.server.new_option".to_string(), (make_toml_value("some_value"), 2));
    let level_1_config = TomlFileData { includes: vec![], values: level_1_values };

    let configs = vec![main_config, level_1_config];
    let mut warnings = vec![];

    let config_dir = "config";
    let config_files = vec![
        DEFAULT_CONFIG_FILENAME.to_string(),
        join(config_dir, MAIN_CONFIG_FILENAME),
        join(config_dir, "level_1.toml"),
    ];

    let result = merge_config(&default_config, &configs, &config_files, config_dir, &mut warnings)
        .expect("merge_config should succeed");

    assert!(!result.contains_key("arcella.server.new_option"));
    assert_eq!(warnings.len(), 1);
    match &warnings[0] {
        ConfigLoadWarning::ValueError { key, error, .. } => {
            assert_eq!(key, "arcella.server.new_option");
            assert!(error.contains("ignored due to missing in default config"));
        },
        _ => panic!("Expected ValueError for new key in arcella.server"),
    }
}

fn leaf<'a>(node: Option<&'a TomlNode>) -> Option<&'a TomlValue> {
    match node {
        Some(TomlNode::Leaf(v)) => Some(v),
        _ => None,
    }
}

#[test]
fn test_extract_subtree() {
    let mut config: ConfigValues = IndexMap::new();
    config.insert("arcella.log.level".to_string(), (TomlValue::String("debug".into()), 0));
    config.insert("arcella.log.dir".to_string(), (TomlValue::String("/tmp".into()), 0));
    config.insert("arcella.server.port".to_string(), (TomlValue::Integer(8080), 0));

    let subtree = extract_subtree(&config, "arcella.log");
    assert_eq!(leaf(subtree.get("level")), Some(&TomlValue::String("debug".to_string())));
    assert_eq!(leaf(subtree.get("dir")), Some(&TomlValue::String("/tmp".to_string())));
    assert!(!subtree.contains_key("port"));
}

#[test]
fn test_extract_nested_subtree() {
    let mut config: ConfigValues = IndexMap::new();
    config.insert("arcella.cache.redis.host".to_string(), (TomlValue::String("localhost".into()), 0));
    config.insert("arcella.cache.redis.port".to_string(), (TomlValue::Integer(6379), 0));

    let subtree = extract_subtree(&config, "arcella.cache");
    let redis = match subtree.get("redis") {
        Some(TomlNode::Table(t)) => t,
        _ => panic!("expected a table under redis"),
    };
    assert_eq!(leaf(redis.get("host")), Some(&TomlValue::String("localhost".to_string())));
    assert_eq!(leaf(redis.get("port")), Some(&TomlValue::Integer(6379)));
}

#[test]
fn finalize_sorts_keys_and_needs_both_layers_registered() {
    let mut default_values: ConfigValues = IndexMap::new();
    default_values.insert("arcella.z".to_string(), (make_toml_value("1"), 0));
    default_values.insert("arcella.a".to_string(), (make_toml_value("2"), 0));
    let default_config = TomlFileData { includes: vec![], values: default_values };
    let configs = vec![TomlFileData { includes: vec![], values: IndexMap::new() }];
    let files = vec![DEFAULT_CONFIG_FILENAME.to_string(), join("config", MAIN_CONFIG_FILENAME)];
    let mut warnings = vec![];
    let values = finalize_config(&default_config, &configs, &files, "config", &mut warnings).unwrap();
    let keys: Vec<&String> = values.keys().collect();
    assert_eq!(keys, vec!["arcella.a", "arcella.z"]);

    let only_default = vec![DEFAULT_CONFIG_FILENAME.to_string()];
    assert!(finalize_config(&default_config, &configs, &only_default, "config", &mut warnings).is_none());
    assert!(warnings.is_empty());
}

#[test]
fn register_file_keeps_first_index() {
    let mut state = ConfigLoadState::default();
    assert_eq!(state.register_file("a".to_string()), (0, true));
    assert_eq!(state.register_file("b".to_string()), (1, true));
    assert_eq!(state.register_file("a".to_string()), (0, false));
    assert_eq!(state.config_files, vec!["a".to_string(), "b".to_string()]);
}

fn sample_config() -> ArcellaConfig {
    let mut values: ConfigValues = IndexMap::new();
    values.insert("arcella.cache.dir".to_string(), (make_toml_value("cache"), 0));
    values.insert("arcella.metadata.dir".to_string(), (make_toml_value("meta"), 0));
    values.insert("arcella.modules.dir".to_string(), (make_toml_value("/abs/modules"), 0));
    values.insert("arcella.alme.socket_path".to_string(), (make_toml_value("alme.sock"), 0));
    values.insert("arcella.log.level".to_string(), (TomlValue::Integer(3), 0));
    ArcellaConfig {
        config_values: values,
        base_dir: "/opt/arcella".to_string(),
        config_dir: "/opt/arcella/config".to_string(),
        integrity_checker: IntegrityChecker::new(vec![], vec![]),
    }
}

#[test]
fn path_values_and_layout() {
    let config = sample_config();
    assert_eq!(config.extract_path_value("cache.dir"), Ok("cache".to_string()));
    assert_eq!(
        extract_path_value(&config.config_values, "log.level"),
        Err(ArcellaError::Internal("arcella.log.level is not set or not a string".to_string()))
    );
    assert_eq!(
        config.extract_path_value("missing"),
        Err(ArcellaError::Internal("arcella.missing is not set or not a string".to_string()))
    );
    let dirs = storage_dirs(&config).unwrap();
    assert_eq!(dirs.cache_dir, "/opt/arcella/cache");
    assert_eq!(dirs.metadata_dir, "/opt/arcella/meta");
    assert_eq!(dirs.modules_dir, "/abs/modules");
    assert_eq!(alme_socket_path(&config), Ok("/opt/arcella/alme.sock".to_string()));
    assert!(ModuleCache::new(&config).is_ok());

    let mut partial = sample_config();
    partial.config_values.shift_remove("arcella.metadata.dir");
    assert_eq!(
        storage_dirs(&partial),
        Err(ArcellaError::Internal("arcella.metadata.dir is not set or not a string".to_string()))
    );
}

fn t(secs: u64) -> FileTime {
    FileTime { after_epoch: true, secs, nanos: 0 }
}

#[test]
fn integrity_checks() {
    let initial = vec![("config/arcella.toml".to_string(), t(10))];
    assert_eq!(check_mtimes_changed(&initial, &vec![("config/arcella.toml".to_string(), t(10))]), Ok(()));
    assert_eq!(
        check_mtimes_changed(&initial, &vec![("config/arcella.toml".to_string(), t(11))]),
        Err(ArcellaError::Internal(
            "Config integrity violation: file \"config/arcella.toml\" was modified after startup".to_string()
        ))
    );
    assert_eq!(
        check_mtimes_changed(&initial, &vec![("other.toml".to_string(), t(10))]),
        Err(ArcellaError::Internal(
            "Config integrity violation: file \"other.toml\" not found in initial list".to_string()
        ))
    );
    let checker = IntegrityChecker::new(vec!["config/arcella.toml".to_string()], initial);
    assert_eq!(checker.monitored_paths(), &vec!["config/arcella.toml".to_string()]);
    assert!(checker.check(&vec![("config/arcella.toml".to_string(), t(10))]).is_ok());
    assert!(checker.check(&vec![("config/arcella.toml".to_string(), t(12))]).is_err());
}

#[test]
fn storage_dirs_join_like_std_paths() {
    let mut config = sample_config();
    config.base_dir = "/opt/arcella/".to_string();
    let dirs = storage_dirs(&config).unwrap();
    let std_join = |d: &str| Path::new("/opt/arcella/").join(d).to_string_lossy().into_owned();
    assert_eq!(dirs.cache_dir, "/opt/arcella/cache");
    assert_eq!(dirs.cache_dir, std_join("cache"));
    assert_eq!(dirs.modules_dir, std_join("/abs/modules"));
    config.base_dir = String::new();
    let dirs = storage_dirs(&config).unwrap();
    assert_eq!(dirs.metadata_dir, "meta");
    assert_eq!(dirs.metadata_dir, Path::new("").join("meta").to_string_lossy().into_owned());
}

#[test]
fn integrity_compares_paths_by_component() {
    let initial = vec![("a/b".to_string(), t(5))];
    assert_eq!(check_mtimes_changed(&initial, &vec![("a//b".to_string(), t(5))]), Ok(()));
    assert_eq!(check_mtimes_changed(&initial, &vec![("a/./b/".to_string(), t(5))]), Ok(()));
    assert_eq!(
        check_mtimes_changed(&initial, &vec![("./a/b".to_string(), t(5))]),
        Err(ArcellaError::Internal("Config integrity violation: file \"./a/b\" not found in initial list".to_string()))
    );
    let recorded_twice = vec![("a/b".to_string(), t(5)), ("a//b".to_string(), t(6))];
    assert_eq!(check_mtimes_changed(&recorded_twice, &vec![("a/b".to_string(), t(6))]), Ok(()));
    assert!(check_mtimes_changed(&recorded_twice, &vec![("a/b".to_string(), t(5))]).is_err());
}
