use arcella::arcella_core::config::{ConfigLoadState, IncludeStep, MAX_CONFIG_DEPTH};
use arcella::arcella_core::error::ArcellaError;
use arcella::arcella_core::fs::TraversalResult;
use arcella::arcella_core::toml_doc::{layer_of_table, parse_layer};
use arcella::arcella_types::config::ConfigValue;

#[test]
fn parse_layer_flattens_values_under_arcella() {
    let text = "[log]\nlevel = \"debug\"\n\n[server]\nport = 9000\nsecure = true\n";
    let (data, traversal) = parse_layer(text, 3).unwrap();
    assert_eq!(traversal, TraversalResult::Full);
    assert!(data.includes.is_empty());
    let keys: Vec<&str> = data.values.keys().map(|k| k.as_str()).collect();
    assert_eq!(keys, vec!["arcella.log.level", "arcella.server.port", "arcella.server.secure"]);
    assert_eq!(data.values.get("arcella.log.level"), Some(&(ConfigValue::String("debug".to_string()), 3)));
    assert_eq!(data.values.get("arcella.server.port"), Some(&(ConfigValue::Integer(9000), 3)));
    assert_eq!(data.values.get("arcella.server.secure"), Some(&(ConfigValue::Boolean(true), 3)));
}

#[test]
fn parse_layer_reads_includes_and_leaves_arrays_out() {
    let text = "includes = [\"extra.toml\", 7, \"more.toml\"]\nname = \"x\"\nports = [1, 2]\nratio = 0.5\n";
    let (data, _) = parse_layer(text, 1).unwrap();
    assert_eq!(data.includes, vec!["extra.toml".to_string(), "more.toml".to_string()]);
    let keys: Vec<&str> = data.values.keys().map(|k| k.as_str()).collect();
    assert_eq!(keys, vec!["arcella.name", "arcella.ratio"]);
    assert_eq!(data.values.get("arcella.ratio"), Some(&(ConfigValue::Float(0.5f64.to_bits()), 1)));
}

#[test]
fn parse_layer_refuses_malformed_text() {
    match parse_layer("level = ", 0) {
        Err(ArcellaError::Config(msg)) => assert!(!msg.is_empty()),
        other => panic!("unexpected result {:?}", other),
    }
}

#[test]
fn parse_layer_prunes_deep_tables() {
    let text = "[a.b.c.d.e.f.g.h.i.j.k]\nx = 1\n[top]\ny = 2\n";
    let (data, traversal) = parse_layer(text, 0).unwrap();
    assert_eq!(traversal, TraversalResult::Pruned);
    let keys: Vec<&str> = data.values.keys().map(|k| k.as_str()).collect();
    assert_eq!(keys, vec!["arcella.top.y"]);
}

#[test]
fn include_planning() {
    let mut state = ConfigLoadState::default();
    state.visited_paths.push("config/arcella.toml".to_string());
    assert_eq!(state.plan_include("config/a.toml", 1), IncludeStep::Load);
    assert_eq!(state.plan_include("config/arcella.toml", 1), IncludeStep::SkipCycle);
    assert_eq!(state.plan_include("config/a.toml", MAX_CONFIG_DEPTH), IncludeStep::Load);
    assert_eq!(state.plan_include("config/a.toml", MAX_CONFIG_DEPTH + 1), IncludeStep::SkipTooDeep);
}

#[test]
fn paths_are_compared_by_component() {
    let mut state = ConfigLoadState::default();
    assert_eq!(state.register_file("config/a.toml".to_string()), (0, true));
    assert_eq!(state.register_file("config/./a.toml".to_string()), (0, false));
    assert_eq!(state.register_file("config//a.toml".to_string()), (0, false));
    assert_eq!(state.register_file("config/b.toml".to_string()), (1, true));
    assert_eq!(state.config_files.len(), 2);
    state.visited_paths.push("config/a.toml".to_string());
    assert_eq!(state.plan_include("config/./a.toml", 2), IncludeStep::SkipCycle);
}

#[test]
fn layer_of_a_parsed_table() {
    let table: toml::Table = "includes = [\"x.toml\"]\n[custom]\nk = \"v\"\n".parse().unwrap();
    let (data, traversal) = layer_of_table(&table, 4);
    assert_eq!(traversal, TraversalResult::Full);
    assert_eq!(data.includes, vec!["x.toml".to_string()]);
    assert_eq!(data.values.len(), 1);
    assert_eq!(data.values.get("arcella.custom.k"), Some(&(ConfigValue::String("v".to_string()), 4)));
}

#[test]
fn entering_and_leaving_files() {
    let mut state = ConfigLoadState::default();
    assert_eq!(state.enter_file("config/arcella.toml".to_string()), 0);
    assert_eq!(state.plan_include("config/./arcella.toml", 1), IncludeStep::SkipCycle);
    assert_eq!(state.enter_file("config/a.toml".to_string()), 1);
    state.leave_file();
    assert_eq!(state.visited_paths, vec!["config/arcella.toml".to_string()]);
    assert_eq!(state.plan_include("config/a.toml", 1), IncludeStep::Load);
    assert_eq!(state.enter_file("config/a.toml".to_string()), 1);
    state.leave_file();
    state.leave_file();
    state.leave_file();
    assert!(state.visited_paths.is_empty());
    assert_eq!(state.config_files.len(), 2);
}
