use std::collections::HashMap;

use arcella::arcella_types::interface_list::InterfaceList;
use arcella::arcella_types::manifest::{ComponentCapabilities, ComponentManifest, ManifestInput};
use arcella::arcella_types::module_id::ModuleId;
use arcella::arcella_types::spec::ComponentItemSpec;
use arcella::arcella_types::error::ArcellaError;

fn names(v: &toml::Value, key: &str) -> InterfaceList {
    let list: Vec<String> = v
        .get(key)
        .and_then(|x| x.as_array())
        .map(|a| a.iter().filter_map(|s| s.as_str().map(|s| s.to_string())).collect())
        .unwrap_or_default();
    InterfaceList::from_names(list)
}

fn flat_input(text: &str) -> ManifestInput {
    let v: toml::Value = toml::from_str(text).unwrap();
    ManifestInput::Flat {
        name: v.get("name").and_then(|x| x.as_str()).unwrap().to_string(),
        version: v.get("version").and_then(|x| x.as_str()).unwrap().to_string(),
        description: v.get("description").and_then(|x| x.as_str()).map(|s| s.to_string()),
        exports: names(&v, "exports"),
        imports: names(&v, "imports"),
        capabilities: ComponentCapabilities::default(),
    }
}

#[test]
fn test_component_manifest_from_toml_style() {
    let toml_input = r#"
        name = "http-logger"
        version = "0.1.0"
        description = "Logs HTTP requests"
        exports = ["logger:log@1.0"]
        imports = ["wasi:http/incoming-handler@0.2.0"]
    "#;

    let manifest = ComponentManifest::from_input(flat_input(toml_input)).unwrap();
    assert_eq!(manifest.id.name, "http-logger");
    assert_eq!(manifest.id.version, "0.1.0");
    assert_eq!(manifest.id.to_string(), "http-logger@0.1.0");
    assert!(manifest.validate().is_ok());
}

#[test]
fn test_invalid_name_rejected() {
    let toml_input = r#"
        name = "invalid name!"
        version = "1.0.0"
    "#;
    let err = ComponentManifest::from_input(flat_input(toml_input)).unwrap_err();
    assert!(err.message().contains("Invalid module ID name"));
}

#[test]
fn test_invalid_interface_rejected() {
    let mut manifest = ComponentManifest {
        id: ModuleId::new("test".into(), "1.0.0".into()).unwrap(),
        description: None,
        exports: InterfaceList::default(),
        imports: InterfaceList::default(),
        capabilities: ComponentCapabilities::default(),
    };
    manifest.imports.insert("bad::interface".into(), ComponentItemSpec::Unknown { debug: None });
    assert!(manifest.validate().is_err());
}

#[test]
fn test_interface_list_from_hashmap() {
    let mut map = HashMap::new();
    map.insert("test".to_string(), ComponentItemSpec::Unknown { debug: Some("direct".to_string()) });
    let list = InterfaceList::from_map(map);
    assert_eq!(list.as_inner().len(), 1);
    assert_eq!(
        list.as_inner()["test"],
        ComponentItemSpec::Unknown { debug: Some("direct".to_string()) }
    );
}

#[test]
fn test_as_inner_and_into_inner() {
    let mut list = InterfaceList::new();
    list.insert("x".to_string(), ComponentItemSpec::Unknown { debug: None });
    assert_eq!(list.as_inner().len(), 1);
    let map = list.into_inner();
    assert_eq!(map.len(), 1);
    assert!(map.contains_key("x"));
}

#[test]
fn interface_formats() {
    for ok in ["wasi:http@0.2.0", "my:custom", "wasi:cli/stdio", "a-b_c:x/y-z@1.0+build_1"] {
        assert!(ComponentManifest::validate_interface_format(ok), "{ok}");
    }
    for bad in ["bad::interface", "nocolon", ":x", "x:", "x:y@", "x:y@1@2", "x y:z", "x:y z"] {
        assert!(!ComponentManifest::validate_interface_format(bad), "{bad}");
    }
}

#[test]
fn validation_reports_imports_before_exports() {
    let mut manifest = ComponentManifest::from_input(ManifestInput::StringId("m@1.0.0".to_string())).unwrap();
    manifest.exports.insert("bad export".into(), ComponentItemSpec::Unknown { debug: None });
    assert_eq!(
        manifest.validate(),
        Err(ArcellaError::Manifest("Invalid export interface format: bad export".to_string()))
    );
    manifest.imports.insert("bad import".into(), ComponentItemSpec::Unknown { debug: None });
    assert_eq!(
        manifest.validate(),
        Err(ArcellaError::Manifest("Invalid import interface format: bad import".to_string()))
    );
}

#[test]
fn manifest_from_three_input_shapes() {
    let m1 = ComponentManifest::from_input(ManifestInput::StringId("http-logger@0.1.0".to_string())).unwrap();
    assert_eq!(m1.id.to_string(), "http-logger@0.1.0");
    assert!(m1.description.is_none());
    assert!(m1.imports.is_empty());
    assert_eq!(m1.capabilities, ComponentCapabilities::default());

    let m2 = ComponentManifest::from_input(ManifestInput::Nested {
        id: ModuleId::new("web-handler".to_string(), "2.0.0".to_string()).unwrap(),
        description: Some("Handles HTTP".to_string()),
        exports: InterfaceList::new(),
        imports: InterfaceList::from_names(vec!["wasi:http@0.2.0".to_string()]),
        capabilities: ComponentCapabilities::default(),
    })
    .unwrap();
    assert_eq!(m2.id.to_string(), "web-handler@2.0.0");
    assert_eq!(m2.description, Some("Handles HTTP".to_string()));
    assert!(m2.imports.as_inner().contains_key("wasi:http@0.2.0"));

    let m3 = ComponentManifest::from_input(ManifestInput::Flat {
        name: "auth-service".to_string(),
        version: "1.5.0".to_string(),
        description: None,
        exports: InterfaceList::from_names(vec!["auth:verify@1.0".to_string()]),
        imports: InterfaceList::new(),
        capabilities: ComponentCapabilities::default(),
    })
    .unwrap();
    assert_eq!(m3.id.to_string(), "auth-service@1.5.0");
    assert!(m3.exports.as_inner().contains_key("auth:verify@1.0"));

    assert!(ComponentManifest::from_input(ManifestInput::StringId("bad@@version".to_string()))
        .unwrap_err()
        .message()
        .contains("Invalid module ID format"));
}

#[test]
fn interface_list_from_names_overwrites_duplicates() {
    let list = InterfaceList::from_names(vec!["dup".to_string(), "dup".to_string(), "x".to_string()]);
    assert_eq!(list.as_inner().len(), 2);
    assert!(list.iter().iter().all(|(_, v)| *v == ComponentItemSpec::Unknown { debug: None }));
    assert_eq!(ComponentItemSpec::from_name("anything"), ComponentItemSpec::Unknown { debug: None });
    let copy = list.clone();
    assert_eq!(copy, list);
    assert!(InterfaceList::new().is_empty());
}
